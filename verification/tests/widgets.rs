use slack_tui::components::layout::{
    breadcrumbs_text, input_text, match_lines, render_history, selector_layout, selector_rect,
    statusbar_text, SelectorLayout,
};
use slack_tui::components::App;
use slack_tui::frame::{Cell, Frame, Rect};
use slack_tui::models::{
    AppState, Channel, ChannelID, ChannelList, Message, Mode, StandardMessage,
};
use slack_tui::records::{ChannelRecord, TopicRecord};
use slack_tui::style::{Color, Modifier, Style};
use slack_tui::widgets;
use slack_tui::widgets::{LineEdit, Write};
use tui::buffer::Buffer;

fn row(frame: &Frame, y: u16) -> String {
    (0..frame.area.width)
        .map(|x| frame.get(frame.area.x + x, y).symbol)
        .collect()
}

#[test]
fn line_edit_shows_the_text_and_the_cursor() {
    let style = Style::default().bg(Color::Black).fg(Color::White);
    let cursor = Style::default().fg(Color::Black).bg(Color::White);
    let mut frame = Frame::empty(Rect::new(0, 0, 8, 2));
    let mut line = LineEdit::default();
    line.style(style).text("abc").cursor_pos(1);
    line.draw(&Rect::new(1, 1, 6, 1), &mut frame);
    assert_eq!(row(&frame, 1), " abc    ");
    assert_eq!(row(&frame, 0), "        ");
    assert_eq!(*frame.get(1, 1), Cell::new('a', style));
    assert_eq!(*frame.get(2, 1), Cell::new('b', cursor));
    assert_eq!(*frame.get(6, 1), Cell::new(' ', style));
    assert_eq!(*frame.get(0, 1), Cell::default());
    assert_eq!(*frame.get(7, 1), Cell::default());

    // The cursor behind the text.
    let mut frame = Frame::empty(Rect::new(0, 0, 6, 1));
    let mut line = LineEdit::default();
    line.style(style).text("abc").cursor_pos(3);
    line.draw(&Rect::new(0, 0, 6, 1), &mut frame);
    assert_eq!(*frame.get(3, 0), Cell::new(' ', cursor));
}

#[test]
fn line_edit_shows_the_end_of_a_long_text() {
    let mut frame = Frame::empty(Rect::new(0, 0, 4, 1));
    let mut line = LineEdit::default();
    line.text("abcdefghij").cursor_pos(10);
    line.draw(&Rect::new(0, 0, 4, 1), &mut frame);
    // Ten characters in four columns: five are left out.
    assert_eq!(row(&frame, 0), "fghi");

    // The cursor near the start keeps the start in view.
    let mut frame = Frame::empty(Rect::new(0, 0, 4, 1));
    let mut line = LineEdit::default();
    line.text("abcdefghij").cursor_pos(2);
    line.draw(&Rect::new(0, 0, 4, 1), &mut frame);
    assert_eq!(row(&frame, 0), "cdef");
    assert_eq!(
        *frame.get(0, 0),
        Cell::new('c', Style::default())
    );
}

fn channel(id: &str, name: &str, member: bool) -> Channel {
    Channel::from_slack(&ChannelRecord {
        id: Some(String::from(id)),
        name: Some(String::from(name)),
        topic: Some(TopicRecord {
            value: Some(String::from("Chat")),
        }),
        unread_count: None,
        is_member: Some(member),
    })
    .unwrap()
}

fn channels() -> ChannelList {
    let mut list = ChannelList::new();
    list.add_channel(channel("C1", "random", true));
    list.add_channel(channel("C2", "general", true));
    list.add_channel(channel("C3", "team-core", false));
    list.add_channel(channel("C4", "hidden", false));
    list.add_channel(channel("C5", "development", true));
    list.add_channel(channel("C6", "general", true));
    list
}

/// Writes the list into a buffer of the terminal library, as the screen
/// does.
fn drawn(list: &ChannelList, selected: Option<&ChannelID>, area: Rect, size: Rect) -> Buffer {
    let mut buffer = Buffer::empty(tui::layout::Rect::new(
        size.x,
        size.y,
        size.width,
        size.height,
    ));
    for write in widgets::ChannelList::new(list, selected).writes(&area) {
        let style = tui::style::Style::default()
            .fg(match write.style.fg {
                Color::Reset => tui::style::Color::Reset,
                Color::Black => tui::style::Color::Black,
                other => panic!("unexpected colour {:?}", other),
            })
            .bg(match write.style.bg {
                Color::Reset => tui::style::Color::Reset,
                Color::Gray => tui::style::Color::Gray,
                Color::White => tui::style::Color::White,
                other => panic!("unexpected colour {:?}", other),
            })
            .modifier(match write.style.modifier {
                Modifier::Reset => tui::style::Modifier::Reset,
                Modifier::Bold => tui::style::Modifier::Bold,
                other => panic!("unexpected attribute {:?}", other),
            });
        buffer.set_stringn(write.x, write.y, &write.text, write.limit, &style);
    }
    buffer
}

fn rows_of(buffer: &Buffer) -> Vec<String> {
    buffer
        .content
        .chunks(buffer.area.width as usize)
        .map(|cells| cells.iter().map(|cell| cell.symbol.as_str()).collect())
        .collect()
}

#[test]
fn channel_list_shows_starred_channels_first() {
    let list = channels();
    let selected = ChannelID::from("C2");
    let area = Rect::new(1, 1, 12, 8);
    let buffer = drawn(&list, Some(&selected), area, Rect::new(0, 0, 14, 10));
    assert_eq!(
        rows_of(&buffer),
        vec![
            "              ",
            " Starred      ",
            " #development ",
            " #team-core   ",
            " Channels     ",
            " #general     ",
            " #general     ",
            " #random      ",
            "              ",
            "              ",
        ]
    );
    let title = tui::style::Style::default()
        .modifier(tui::style::Modifier::Bold)
        .bg(tui::style::Color::Gray);
    let picked = tui::style::Style::default()
        .bg(tui::style::Color::White)
        .fg(tui::style::Color::Black);
    let plain = tui::style::Style::default();
    assert_eq!(buffer.get(1, 1).style, title);
    assert_eq!(buffer.get(12, 1).style, title);
    assert_eq!(buffer.get(13, 1).style, plain);
    assert_eq!(buffer.get(1, 2).style, plain);
    // Of two channels with one name the one that came first is shown first.
    assert_eq!(buffer.get(1, 5).style, picked);
    assert_eq!(buffer.get(12, 5).style, picked);
    assert_eq!(buffer.get(1, 6).style, plain);

    let writes = widgets::ChannelList::new(&list, Some(&selected)).writes(&area);
    assert_eq!(writes.len(), 12);
    assert_eq!(
        writes[0],
        Write {
            x: 1,
            y: 1,
            text: String::from("Starred     "),
            limit: usize::MAX,
            style: Style::default().modifier(Modifier::Bold).bg(Color::Gray),
        }
    );
    assert_eq!(
        writes[1],
        Write {
            x: 1,
            y: 2,
            text: String::from("#"),
            limit: 1,
            style: Style::default(),
        }
    );
    assert_eq!(
        writes[2],
        Write {
            x: 2,
            y: 2,
            text: String::from("development"),
            limit: 11,
            style: Style::default(),
        }
    );
}

#[test]
fn channel_list_stops_at_the_bottom_of_its_area() {
    let list = channels();
    let buffer = drawn(&list, None, Rect::new(0, 0, 5, 4), Rect::new(0, 0, 12, 6));
    assert_eq!(
        rows_of(&buffer),
        vec![
            // A title is longer than the list is wide, and is not cut off.
            "Starred     ",
            "#deve       ",
            "#team       ",
            "Channels    ",
            "            ",
            "            ",
        ]
    );

    // A selected channel is listed although the user is no member of it.
    let selected = ChannelID::from("C4");
    let buffer = drawn(&list, Some(&selected), Rect::new(0, 0, 9, 9), Rect::new(0, 0, 9, 9));
    assert_eq!(rows_of(&buffer)[6], "#hidden  ");

    // Less than three columns show nothing.
    assert!(widgets::ChannelList::new(&list, None)
        .writes(&Rect::new(0, 0, 2, 3))
        .is_empty());
    assert!(widgets::ChannelList::new(&list, None)
        .writes(&Rect::new(u16::MAX, u16::MAX, 2, 3))
        .is_empty());
    // A list without rows shows nothing either.
    assert!(widgets::ChannelList::new(&list, None)
        .writes(&Rect::new(0, 0, 9, 0))
        .is_empty());
}

#[test]
fn selector_sits_in_the_middle_of_the_screen() {
    assert_eq!(
        selector_rect(&Rect::new(0, 0, 100, 50)),
        Rect::new(25, 13, 50, 25)
    );
    // At least 40 columns and 20 rows,
    assert_eq!(
        selector_rect(&Rect::new(0, 0, 60, 30)),
        Rect::new(10, 5, 40, 20)
    );
    // but no more than the screen has.
    assert_eq!(
        selector_rect(&Rect::new(2, 3, 30, 10)),
        Rect::new(2, 3, 30, 10)
    );
    assert_eq!(
        selector_layout(&Rect::new(10, 5, 40, 20)),
        Some(SelectorLayout {
            input: Rect::new(11, 6, 38, 1),
            list: Rect::new(11, 8, 38, 16),
        })
    );
    assert_eq!(selector_layout(&Rect::new(10, 5, 5, 20)), None);
    assert_eq!(selector_layout(&Rect::new(u16::MAX, u16::MAX, 5, 5)), None);
    assert_eq!(selector_layout(&Rect::new(10, 5, 40, 5)), None);
    assert!(selector_layout(&Rect::new(10, 5, 6, 6)).is_some());
}

fn state() -> AppState {
    let mut state = AppState::fixture();
    state.channels = channels();
    state.selected_channel_id = ChannelID::from("C2");
    state.team_name = String::from("Bears");
    state
}

#[test]
fn lines_around_the_history_are_written_in_markup() {
    let mut state = state();
    assert_eq!(
        breadcrumbs_text(&state),
        "{mod=bold Bears} > {mod=bold #general} [{fg=white Chat}]"
    );
    state.channels.add_channel(Channel::fixture("C2", "general"));
    assert_eq!(
        breadcrumbs_text(&state),
        "{mod=bold Bears} > {mod=bold #general} [{fg=gray No channel topic}]"
    );
    state.selected_channel_id = ChannelID::from("C0");
    assert_eq!(breadcrumbs_text(&state), "Bears > (No channel selected)");

    assert_eq!(statusbar_text(&state), "{bg=cyan;fg=black HISTORY} - [0/0]");
    for i in 0..10 {
        state.add_message(Message::Standard(StandardMessage {
            user_id: "U".into(),
            body: "x".into(),
            message_id: format!("{}", i).as_str().into(),
            thread_id: "1".into(),
            channel_id: "C0".into(),
        }));
    }
    state.rendered_chat_canvas(10, 4);
    state.scroll_up(7);
    state.rendered_chat_canvas(10, 25);
    state.enter_mode(Mode::SelectChannel);
    assert_eq!(
        statusbar_text(&state),
        "{bg=black;fg=white CHANNELS} - [7/5]"
    );
    assert_eq!(input_text(), "{fg=dark_gray Enter a reply...}");
}

#[test]
fn matches_are_listed_with_padding() {
    let mut app = App::new(state(), Rect::new(0, 0, 80, 24));
    app.channel_selector.add_character('e');
    assert_eq!(
        match_lines(&app, &Rect::new(0, 0, 10, 3)),
        vec!["#general   ", "#team-core ", "#hidden    "]
    );
    assert_eq!(
        match_lines(&app, &Rect::new(0, 0, 3, 1)),
        vec!["#general"]
    );
    assert!(match_lines(&app, &Rect::new(0, 0, 3, 0)).is_empty());
    app.channel_selector.add_character('v');
    assert_eq!(
        match_lines(&app, &Rect::new(0, 0, 5, 9)),
        vec!["#development"]
    );
}

#[test]
fn history_is_rendered_to_fit_and_remembered() {
    let mut state = AppState::fixture();
    for i in 0..4 {
        state.add_message(Message::Standard(StandardMessage {
            user_id: "U".into(),
            body: format!("m{}", i),
            message_id: format!("{}", i).as_str().into(),
            thread_id: "1".into(),
            channel_id: "C1".into(),
        }));
    }
    let rect = Rect::new(1, 0, 12, 5);
    let mut frame = Frame::empty(Rect::new(0, 0, 14, 6));
    render_history(&mut state, &mut frame, &rect);
    assert_eq!(state.chat_height(), 5);
    assert_eq!(state.chat_canvas.as_ref().unwrap().width(), 11);
    assert_eq!(state.max_history_scroll(), 7);
    let rows: Vec<String> = (0..6).map(|y| row(&frame, y)).collect();
    assert_eq!(
        rows,
        vec![
            " m2           ",
            "              ",
            " U            ",
            " m3           ",
            "              ",
            "              ",
        ]
    );
    // 12 rows, the last 5 shown: 2 rows above the thumb, and 3 of thumb.
    let black = Cell::new(' ', Style::default().bg(Color::Black));
    let white = Cell::new(' ', Style::default().bg(Color::White));
    let bar: Vec<Cell> = (0..5).map(|y| *frame.get(12, y)).collect();
    assert_eq!(bar, vec![black, black, white, white, white]);

    state.scroll_up(100);
    render_history(&mut state, &mut frame, &rect);
    assert_eq!(row(&frame, 0), " U            ");
    assert_eq!(row(&frame, 1), " m0           ");

    // Too narrow for anything.
    let mut narrow = Frame::empty(Rect::new(0, 0, 1, 3));
    render_history(&mut state, &mut narrow, &Rect::new(0, 0, 1, 3));
    assert_eq!(narrow, Frame::empty(Rect::new(0, 0, 1, 3)));
    assert_eq!(state.chat_height(), 5);
    // So it is wherever the narrow rectangle lies.
    render_history(&mut state, &mut narrow, &Rect::new(u16::MAX, 7, 1, u16::MAX));
    render_history(&mut state, &mut narrow, &Rect::new(50, 50, 0, 0));
    assert_eq!(narrow, Frame::empty(Rect::new(0, 0, 1, 3)));
    assert_eq!(state.chat_height(), 5);
    assert_eq!(state.chat_canvas.as_ref().unwrap().width(), 11);
}
