use slack_tui::clock::Moment;
use slack_tui::components::{App, Key, KeyManager, Outcome};
use slack_tui::frame::{Cell, Frame, Rect};
use slack_tui::models::{
    AppState, Channel, ChannelID, Message, Mode, StandardMessage, StateError,
};
use slack_tui::style::{Color, Style};
use slack_tui::canvas::Canvas;
use slack_tui::widgets::ChatHistory;

fn message(id: &str, channel: &str, body: &str) -> Message {
    Message::Standard(StandardMessage {
        user_id: "U".into(),
        body: body.into(),
        message_id: id.into(),
        thread_id: id.into(),
        channel_id: channel.into(),
    })
}

/// A state whose history of the channel C1 has 3 rows for each of `count`
/// messages.
fn state_with(count: usize) -> AppState {
    let mut state = AppState::fixture();
    for i in 0..count {
        state.add_message(message(&format!("{:04}", i), "C1", &format!("m{}", i)));
    }
    state
}

#[test]
fn scrolling_up_stops_at_the_top() {
    let mut state = state_with(10);
    assert_eq!(state.max_history_scroll(), 0);
    state.scroll_up(5);
    assert_eq!(state.current_history_scroll(), 0);
    assert_eq!(state.history_scroll, 0);

    assert_eq!(state.rendered_chat_canvas(20, 12).height(), 30);
    assert_eq!(state.chat_height(), 12);
    assert_eq!(state.max_history_scroll(), 18);
    for _ in 0..100 {
        state.scroll_up(7);
        assert!(state.current_history_scroll() <= state.max_history_scroll());
    }
    assert_eq!(state.current_history_scroll(), 18);
    assert_eq!(state.history_scroll, 18);
    state.scroll_up(usize::MAX);
    assert_eq!(state.history_scroll, 18);
}

#[test]
fn scrolling_up_waits_for_the_history_to_be_rendered() {
    let mut state = state_with(10);
    state.rendered_chat_canvas(20, 12);
    state.scroll_up(7);
    assert_eq!(state.history_scroll, 7);

    // A new message forgets the rendered history; the offset asked for stays.
    state.add_message(message("9999", "C1", "new"));
    assert!(state.chat_canvas.is_none());
    assert_eq!(state.max_history_scroll(), 0);
    state.scroll_up(3);
    assert_eq!(state.history_scroll, 7);
    state.scroll_up(usize::MAX);
    assert_eq!(state.history_scroll, 7);
    state.scroll_up(0);
    assert_eq!(state.history_scroll, 7);
    state.scroll_to_top();
    assert_eq!(state.history_scroll, 7);
    assert!(state.chat_canvas.is_none());
    assert_eq!(state.current_history_scroll(), 0);

    // Rendered again, the offset shows and scrolling goes on from it.
    assert_eq!(state.rendered_chat_canvas(20, 12).height(), 33);
    assert_eq!(state.current_history_scroll(), 7);
    state.scroll_up(3);
    assert_eq!(state.history_scroll, 10);
    state.scroll_to_top();
    assert_eq!(state.history_scroll, 21);

    // Scrolling down counts from what is shown, which is the bottom while
    // nothing is rendered.
    state.clear_chat_canvas_cache();
    state.scroll_down(1);
    assert_eq!(state.history_scroll, 0);
}

#[test]
fn scrolling_down_stops_at_the_bottom() {
    let mut state = state_with(10);
    state.rendered_chat_canvas(20, 12);
    state.scroll_up(10);
    assert_eq!(state.current_history_scroll(), 10);
    state.scroll_down(3);
    assert_eq!(state.current_history_scroll(), 7);
    for _ in 0..100 {
        state.scroll_down(4);
    }
    assert_eq!(state.current_history_scroll(), 0);
    state.scroll_down(usize::MAX);
    assert_eq!(state.history_scroll, 0);
    state.scroll_to_top();
    assert_eq!(state.current_history_scroll(), 18);
    state.scroll_to_bottom();
    assert_eq!(state.current_history_scroll(), 0);
}

#[test]
fn stored_offset_is_clamped_when_read() {
    let mut state = state_with(10);
    state.rendered_chat_canvas(20, 12);
    state.scroll_up(18);
    assert_eq!(state.history_scroll, 18);
    // A higher view leaves less to scroll; the offset asked for stays.
    state.rendered_chat_canvas(20, 25);
    assert_eq!(state.max_history_scroll(), 5);
    assert_eq!(state.history_scroll, 18);
    assert_eq!(state.current_history_scroll(), 5);
    // Scrolling down counts from what is shown.
    state.scroll_down(1);
    assert_eq!(state.history_scroll, 4);
    // A view that holds everything locks to the bottom.
    state.rendered_chat_canvas(20, 30);
    assert_eq!(state.max_history_scroll(), 0);
    assert_eq!(state.current_history_scroll(), 0);
    state.rendered_chat_canvas(20, 40);
    assert_eq!(state.max_history_scroll(), 0);
}

#[test]
fn rendered_history_is_kept_until_something_changes() {
    let mut state = state_with(2);
    assert!(state.chat_canvas.is_none());
    assert_eq!(
        state.rendered_chat_canvas(4, 5).render_to_string(Some("|")),
        "U   |\nm0  |\n    |\nU   |\nm1  |\n    |"
    );
    // Kept as it is, even for another width.
    assert_eq!(state.rendered_chat_canvas(9, 5).width(), 4);

    state.add_message(message("9999", "C1", "new"));
    assert!(state.chat_canvas.is_none());
    assert_eq!(state.rendered_chat_canvas(9, 5).width(), 9);
    assert_eq!(state.rendered_chat_canvas(9, 5).height(), 9);

    state.set_loading_state(true);
    assert!(state.chat_canvas.is_none());
    assert_eq!(state.rendered_chat_canvas(9, 5).height(), 10);
    state.toggle_loading_state();
    assert!(!state.is_loading_more_messages);
    assert!(state.chat_canvas.is_none());
    state.rendered_chat_canvas(9, 5);
    state.clear_chat_canvas_cache();
    assert!(state.chat_canvas.is_none());
    assert_eq!(state.max_history_scroll(), 0);
}

#[test]
fn switching_channels_starts_at_the_bottom_of_the_new_channel() {
    let mut state = state_with(10);
    state.add_message(message("5000", "C2", "other"));
    state.rendered_chat_canvas(20, 12);
    state.scroll_up(10);
    assert_eq!(state.current_history_scroll(), 10);

    assert_eq!(state.select_channel(ChannelID::from("C2")), Ok(()));
    assert_eq!(state.selected_channel_id().as_str(), "C2");
    assert_eq!(state.history_scroll, 0);
    assert!(state.chat_canvas.is_none());
    assert_eq!(state.current_history_scroll(), 0);
    assert_eq!(
        state.rendered_chat_canvas(6, 12).render_to_string(Some("|")),
        "U     |\nother |\n      |"
    );
}

#[test]
fn made_up_messages_name_their_moment() {
    let mut state = AppState::fixture();
    let moment = Moment {
        seconds: 12,
        microseconds: 34,
        text: String::from("noon"),
    };
    state.add_fake_message_at(None, &moment);
    state.add_fake_message_at(
        Some("hello"),
        &Moment {
            seconds: 13,
            microseconds: 0,
            text: String::from("later"),
        },
    );
    assert_eq!(state.messages.len(), 2);
    assert_eq!(
        state.rendered_chat_canvas(45, 5).render_to_string(Some("|")),
        "Fake Message                                 |
This is a fake message generated at: noon    |
                                             |
Fake Message                                 |
hello                                        |
                                             |"
    );
    state.add_fake_message(Some("now"));
    assert_eq!(state.messages.len(), 3);
    assert!(state.chat_canvas.is_none());
}

#[test]
fn errors_are_shown_in_the_selected_channel() {
    let mut state = AppState::fixture();
    let moment = Moment {
        seconds: 1,
        microseconds: 2,
        text: String::new(),
    };
    state.add_error_message_at(&vec![String::from("a"), String::from("b")], &moment);
    assert_eq!(
        state.rendered_chat_canvas(20, 5).render_to_string(Some("|")),
        "Error               |
Error: a            |
    Caused by: b    |"
    );
    state.add_error_message(&vec![String::from("c")]);
    assert_eq!(state.messages.len(), 2);
}

#[test]
fn selected_channel_is_looked_up() {
    let mut state = AppState::fixture();
    assert!(state.selected_channel().is_none());
    state.channels.add_channel(Channel::fixture("C1", "general"));
    assert_eq!(state.selected_channel().unwrap().name(), "general");
    assert_eq!(*state.current_mode(), Mode::History);
    state.enter_mode(Mode::SelectChannel);
    assert_eq!(*state.current_mode(), Mode::SelectChannel);
    assert_eq!(Mode::default(), Mode::History);
    assert_eq!(
        StateError::NoChannels.message(),
        "Could not find any channels in the Team"
    );
    assert_eq!(
        StateError::NoTeamName.message(),
        "Slack did not provide a Team Name on login"
    );
}

fn text_of(frame: &Frame, y: u16, columns: u16) -> String {
    (0..columns).map(|x| frame.get(frame.area.x + x, y).symbol).collect()
}

#[test]
fn history_shows_the_rows_above_the_scroll_offset() {
    let mut canvas = Canvas::new(11);
    for i in 0..20 {
        canvas.add_string_wrapped(&format!("row {}\n", i), Style::default());
    }
    let area = Rect::new(2, 1, 12, 5);
    let mut frame = Frame::empty(Rect::new(0, 0, 16, 8));

    ChatHistory::with_canvas(&canvas).draw(&area, &mut frame);
    assert_eq!(text_of(&frame, 1, 13), "  row 15     ");
    assert_eq!(text_of(&frame, 5, 13), "  row 19     ");
    assert_eq!(text_of(&frame, 0, 13), "             ");
    assert_eq!(text_of(&frame, 6, 13), "             ");

    ChatHistory::with_canvas(&canvas).scroll(3).draw(&area, &mut frame);
    assert_eq!(text_of(&frame, 1, 13), "  row 12     ");
    assert_eq!(text_of(&frame, 5, 13), "  row 16     ");

    // The scrollbar: 20 rows, rows 12 to 17 shown, in a column of 5 rows.
    let black = Cell::new(' ', Style::default().bg(Color::Black));
    let white = Cell::new(' ', Style::default().bg(Color::White));
    let bar: Vec<Cell> = (1..6).map(|y| *frame.get(13, y)).collect();
    assert_eq!(bar, vec![black, black, black, white, white]);

    // Scrolled past the top, the view shows the first rows.
    ChatHistory::with_canvas(&canvas).scroll(100).draw(&area, &mut frame);
    assert_eq!(text_of(&frame, 1, 13), "  row 0      ");
    assert_eq!(text_of(&frame, 5, 13), "  row 4      ");
}

#[test]
fn history_of_a_short_canvas_is_padded_with_blanks() {
    let mut canvas = Canvas::new(3);
    canvas.add_string_wrapped("ab\n", Style::default().fg(Color::Red));
    let area = Rect::new(0, 0, 4, 3);
    let mut frame = Frame::filled(area, &Cell::new('#', Style::default()));
    ChatHistory::with_canvas(&canvas).draw(&area, &mut frame);
    assert_eq!(text_of(&frame, 0, 4), "ab #");
    assert_eq!(text_of(&frame, 1, 4), "   #");
    assert_eq!(text_of(&frame, 2, 4), "   #");
    assert_eq!(
        *frame.get(0, 0),
        Cell::new('a', Style::default().fg(Color::Red))
    );
    assert_eq!(*frame.get(0, 1), Cell::default());

    // One column is too narrow for anything.
    let mut narrow = Frame::filled(Rect::new(0, 0, 1, 2), &Cell::new('#', Style::default()));
    ChatHistory::with_canvas(&canvas).draw(&Rect::new(0, 0, 1, 2), &mut narrow);
    assert_eq!(text_of(&narrow, 0, 1), "#");
    // So it is wherever the area lies, and whatever the frame holds.
    let untouched = Frame::filled(Rect::new(0, 0, 1, 2), &Cell::new('#', Style::default()));
    ChatHistory::with_canvas(&canvas)
        .scroll(7)
        .draw(&Rect::new(u16::MAX, 40, 1, u16::MAX), &mut narrow);
    ChatHistory::with_canvas(&canvas).draw(&Rect::new(9, 9, 0, 3), &mut narrow);
    assert_eq!(narrow, untouched);
    let mut broken = Frame {
        area: Rect::new(0, 0, 4, 4),
        content: Vec::new(),
    };
    ChatHistory::with_canvas(&canvas).draw(&Rect::new(0, 0, 1, 4), &mut broken);
    assert!(broken.content.is_empty());
    let mut none = Frame::empty(Rect::new(0, 0, 0, 0));
    ChatHistory::with_canvas(&canvas).draw(&Rect::new(0, 0, 0, 0), &mut none);
    assert_eq!(none.content.len(), 0);
}

fn app_with_channels() -> App {
    let mut state = state_with(10);
    state.channels.add_channel(Channel::fixture("C1", "general"));
    state.channels.add_channel(Channel::fixture("C2", "random"));
    state.rendered_chat_canvas(20, 12);
    App::new(state, Rect::new(0, 0, 80, 24))
}

#[test]
fn keys_scroll_the_history() {
    let mut app = app_with_channels();
    let mut keys = KeyManager::new();
    assert_eq!(keys.handle_key(&mut app, Key::Char('k')), Outcome::Continue);
    assert_eq!(app.state().current_history_scroll(), 1);
    keys.handle_key(&mut app, Key::Ctrl('b'));
    assert_eq!(app.state().current_history_scroll(), 11);
    keys.handle_key(&mut app, Key::Ctrl('b'));
    assert_eq!(app.state().current_history_scroll(), 18);
    keys.handle_key(&mut app, Key::Char('j'));
    assert_eq!(app.state().current_history_scroll(), 17);
    keys.handle_key(&mut app, Key::Ctrl('f'));
    assert_eq!(app.state().current_history_scroll(), 7);
    keys.handle_key(&mut app, Key::Char('G'));
    assert_eq!(app.state().current_history_scroll(), 0);
    keys.handle_key(&mut app, Key::Char('x'));
    keys.handle_key(&mut app, Key::Left);
    assert_eq!(app.state().current_history_scroll(), 0);
    assert_eq!(app.state().messages.len(), 10);
    keys.handle_key(&mut app, Key::Char('b'));
    assert_eq!(app.state().messages.len(), 11);
    keys.handle_key(&mut app, Key::Char('B'));
    assert!(app.state().is_loading_more_messages);
    assert_eq!(keys.handle_key(&mut app, Key::Char('q')), Outcome::Quit);
}

#[test]
fn keys_select_a_channel() {
    let mut app = app_with_channels();
    let mut keys = KeyManager::new();
    keys.handle_key(&mut app, Key::Ctrl('k'));
    assert_eq!(*app.state().current_mode(), Mode::SelectChannel);
    assert_eq!(keys.handle_key(&mut app, Key::Char('q')), Outcome::Continue);
    for chr in "xrn yy".chars() {
        keys.handle_key(&mut app, Key::Char(chr));
    }
    assert_eq!(app.channel_selector.text(), "qxrn yy");
    keys.handle_key(&mut app, Key::Ctrl('w'));
    assert_eq!(app.channel_selector.text(), "qxrn");
    keys.handle_key(&mut app, Key::Ctrl('a'));
    keys.handle_key(&mut app, Key::Right);
    keys.handle_key(&mut app, Key::Right);
    keys.handle_key(&mut app, Key::Backspace);
    assert_eq!(app.channel_selector.text(), "qrn");
    keys.handle_key(&mut app, Key::Left);
    assert_eq!(app.channel_selector.cursor_pos(), 0);
    keys.handle_key(&mut app, Key::Backspace);
    assert_eq!(app.channel_selector.text(), "qrn");
    keys.handle_key(&mut app, Key::Right);
    keys.handle_key(&mut app, Key::Backspace);
    assert_eq!(app.channel_selector.text(), "rn");
    keys.handle_key(&mut app, Key::Ctrl('e'));
    assert_eq!(app.channel_selector.cursor_pos(), 2);
    keys.handle_key(&mut app, Key::Down);
    keys.handle_key(&mut app, Key::Down);
    assert_eq!(app.channel_selector.selected_index(5), 2);
    keys.handle_key(&mut app, Key::Up);
    assert_eq!(app.channel_selector.selected_index(5), 1);
    keys.handle_key(&mut app, Key::Up);
    keys.handle_key(&mut app, Key::F(1));
    assert_eq!(app.channel_selector.text(), "rn");

    keys.handle_key(&mut app, Key::Char('\n'));
    assert_eq!(*app.state().current_mode(), Mode::History);
    assert_eq!(app.channel_selector.text(), "");
    assert_eq!(app.state().selected_channel_id().as_str(), "C2");
    assert!(app.state().is_loading_more_messages);
    assert!(app.state().chat_canvas.is_none());
    let requests = app.take_requests();
    assert_eq!(requests, vec![ChannelID::from("C2")]);
    assert!(app.take_requests().is_empty());
}

#[test]
fn keys_leave_the_selector_without_a_channel() {
    let mut app = app_with_channels();
    let mut keys = KeyManager::new();
    keys.handle_key(&mut app, Key::Ctrl('k'));
    keys.handle_key(&mut app, Key::Char('g'));
    keys.handle_key(&mut app, Key::Ctrl('k'));
    assert_eq!(app.channel_selector.text(), "");
    keys.handle_key(&mut app, Key::Char('z'));
    keys.handle_key(&mut app, Key::Char('\n'));
    assert_eq!(*app.state().current_mode(), Mode::History);
    assert_eq!(app.state().selected_channel_id().as_str(), "C1");
    assert!(app.take_requests().is_empty());

    keys.handle_key(&mut app, Key::Ctrl('k'));
    keys.handle_key(&mut app, Key::Char('r'));
    keys.handle_key(&mut app, Key::Esc);
    assert_eq!(*app.state().current_mode(), Mode::History);
    assert_eq!(app.channel_selector.text(), "");
    assert_eq!(app.state().selected_channel_id().as_str(), "C1");
}

#[test]
fn resizing_forgets_the_rendered_history() {
    let mut app = app_with_channels();
    assert!(app.state().chat_canvas.is_some());
    app.resize(Rect::new(0, 0, 100, 30));
    assert_eq!(*app.size(), Rect::new(0, 0, 100, 30));
    assert!(app.state().chat_canvas.is_none());
}
