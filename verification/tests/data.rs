use slack_tui::components::App;
use slack_tui::data::{build_app_state, channels_from, users_from, TaskResult};
use slack_tui::frame::Rect;
use slack_tui::models::{AppState, ChannelID, Message, MessageSideChannel, Mode, StateError};
use slack_tui::records::{
    ChannelRecord, DeletedRecord, MessageRecord, StandardRecord, UserRecord,
};

fn some(text: &str) -> Option<String> {
    Some(String::from(text))
}

fn channel(id: &str, name: &str, member: bool) -> ChannelRecord {
    ChannelRecord {
        id: some(id),
        name: some(name),
        topic: None,
        unread_count: None,
        is_member: Some(member),
    }
}

fn user(id: Option<&str>, name: &str) -> UserRecord {
    UserRecord {
        id: id.map(String::from),
        color: None,
        name: some(name),
    }
}

#[test]
fn first_state_selects_the_first_channel_of_the_user() {
    let users = vec![user(Some("U2"), "bob"), user(None, "ghost"), user(Some("U1"), "ann")];
    let channels = vec![
        channel("C3", "three", true),
        channel("C1", "one", false),
        ChannelRecord {
            id: some("C0"),
            name: None,
            topic: None,
            unread_count: None,
            is_member: Some(true),
        },
        channel("C2", "two", true),
    ];
    let state = build_app_state(&users, &channels, some("Bears")).unwrap();
    assert_eq!(state.selected_channel_id().as_str(), "C2");
    assert_eq!(state.team_name, "Bears");
    assert_eq!(*state.current_mode(), Mode::History);
    assert_eq!(state.history_scroll, 0);
    assert_eq!(state.chat_height(), 0);
    assert!(state.chat_canvas.is_none());
    assert!(!state.is_loading_more_messages);
    assert_eq!(state.messages.len(), 0);
    let names: Vec<&str> = state
        .users
        .iter()
        .iter()
        .map(|(_, user)| user.display_name())
        .collect();
    assert_eq!(names, vec!["ann", "bob"]);
    let names: Vec<&str> = state
        .channels
        .iter()
        .iter()
        .map(|(_, channel)| channel.name())
        .collect();
    assert_eq!(names, vec!["one", "two", "three"]);
    assert_eq!(users_from(&users).len(), 2);
    assert_eq!(channels_from(&channels).len(), 3);
}

#[test]
fn first_state_needs_a_channel_and_a_team() {
    let users = vec![user(Some("U1"), "ann")];
    let outsider = vec![channel("C1", "one", false)];
    assert_eq!(
        build_app_state(&users, &outsider, some("Bears")).err(),
        Some(StateError::NoChannels)
    );
    assert_eq!(
        build_app_state(&users, &vec![], None).err(),
        Some(StateError::NoChannels)
    );
    let member = vec![channel("C1", "one", true)];
    assert_eq!(
        build_app_state(&users, &member, None).err(),
        Some(StateError::NoTeamName)
    );
    assert!(build_app_state(&vec![], &member, some("")).is_ok());
}

fn standard(ts: &str, channel: Option<&str>, text: &str) -> MessageRecord {
    MessageRecord::Standard(StandardRecord {
        ts: some(ts),
        channel: channel.map(String::from),
        user: some("U1"),
        text: some(text),
    })
}

#[test]
fn histories_are_taken_in() {
    let mut state = AppState::fixture();
    state.set_loading_state(true);
    state.rendered_chat_canvas(30, 5);
    let mut app = App::new(state, Rect::new(0, 0, 80, 24));
    let messages = vec![
        standard("2", None, "second"),
        MessageRecord::ChannelJoin,
        standard("1", Some("C1"), "first"),
        MessageRecord::MessageDeleted(DeletedRecord {
            ts: None,
            channel: None,
            subtype: None,
        }),
        standard("3", Some("C7"), "elsewhere"),
    ];
    let done = app.accept_task_result(TaskResult::ChannelHistory(
        ChannelID::from("C1"),
        Ok(Some(messages)),
    ));
    assert_eq!(done, Ok(()));
    assert!(!app.state().is_loading_more_messages);
    assert!(app.state().chat_canvas.is_none());
    // Three messages, and an entry for the report without a time.
    assert_eq!(app.state().messages.len(), 4);
    let rendered = app
        .state_mut()
        .rendered_chat_canvas(70, 5)
        .render_to_string(None);
    let lines: Vec<&str> = rendered.lines().map(|line| line.trim_end()).collect();
    // The entry for the error is dated now, which sorts between the two.
    assert_eq!(
        lines,
        [
            "U1",
            "first",
            "",
            "Error",
            "Error: Could not convert Slack message to internal representation",
            "    Caused by: ID was blank",
            "U1",
            "second",
            "",
        ]
    );
}

#[test]
fn reports_without_a_sender_cannot_be_taken_in() {
    let anonymous = MessageRecord::Standard(StandardRecord {
        ts: some("1"),
        channel: None,
        user: None,
        text: None,
    });
    // Without a channel the report makes an error, not a message.
    assert!(Message::can_convert(&anonymous, None));
    let side = MessageSideChannel {
        channel_id: Some(ChannelID::from("C1")),
    };
    assert!(!Message::can_convert(&anonymous, Some(&side)));
    assert!(Message::can_convert(&standard("1", None, "x"), Some(&side)));
    assert!(Message::can_convert(&MessageRecord::MeMessage, None));
    let timeless = MessageRecord::Standard(StandardRecord {
        ts: None,
        channel: some("C1"),
        user: None,
        text: None,
    });
    assert!(Message::can_convert(&timeless, Some(&side)));

    let history = |messages: Vec<MessageRecord>| {
        TaskResult::ChannelHistory(ChannelID::from("C1"), Ok(Some(messages)))
    };
    assert!(App::can_accept(&history(vec![])));
    assert!(App::can_accept(&history(vec![standard("1", None, "x"), timeless])));
    assert!(!App::can_accept(&history(vec![
        standard("1", None, "x"),
        anonymous
    ])));
    assert!(App::can_accept(&TaskResult::ChannelHistory(
        ChannelID::from("C1"),
        Ok(None)
    )));
    assert!(App::can_accept(&TaskResult::ChannelHistory(
        ChannelID::from("C1"),
        Err(vec![String::from("no")])
    )));
}

#[test]
fn failed_histories_are_shown_as_errors() {
    let mut app = App::new(AppState::fixture(), Rect::new(0, 0, 80, 24));
    app.async_load_channel_history(&ChannelID::from("C1"));
    assert!(app.state().is_loading_more_messages);
    assert_eq!(app.take_requests(), vec![ChannelID::from("C1")]);
    let done = app.accept_task_result(TaskResult::ChannelHistory(
        ChannelID::from("C1"),
        Err(vec![String::from("channel_not_found"), String::from("really")]),
    ));
    assert_eq!(done, Ok(()));
    assert!(!app.state().is_loading_more_messages);
    assert_eq!(app.state().messages.len(), 1);
    let rendered = app
        .state_mut()
        .rendered_chat_canvas(40, 5)
        .render_to_string(Some("|"));
    assert_eq!(
        rendered,
        "Error                                   |
Error: Could not load channel history   |
    Caused by: channel_not_found        |
        Caused by: really               |"
    );

    let done = app.accept_task_result(TaskResult::ChannelHistory(ChannelID::from("C1"), Ok(None)));
    assert_eq!(done, Ok(()));
    assert_eq!(app.state().messages.len(), 1);
}
