use slack_tui::models::messages::MessageError;
use slack_tui::models::{
    AppState, ChannelID, ErrorMessage, HistoryEntry, LoadingMessage, Message, MessageBuffer,
    MessageID, MessageSideChannel, StandardMessage, UnsupportedMessage, User,
};
use chrono::TimeZone;
use slack_tui::clock::Moment;
use slack_tui::frame::Cell;
use slack_tui::records::{
    BroadcastRecord, DeletedRecord, InnerRecord, MessageRecord, NestedRecord, PinRecord,
    StandardRecord, UserRecord,
};
use slack_tui::style::{Color, Modifier, Style};
use slack_tui::util::format_error_with_causes;

#[test]
fn loading_it_renders_as_canvas() {
    let message = LoadingMessage::new();

    let big_canvas = message.render_as_canvas(50);
    assert_eq!(
        &big_canvas.render_to_string(Some("|")),
        "              Loading more messages               |"
    );

    let small_canvas = message.render_as_canvas(20);
    assert_eq!(
        &small_canvas.render_to_string(Some("|")),
        "Loading more message|",
    );
}

#[test]
fn mod_it_sorts_by_oldest_first() {
    let older = "1403051575.000407".into();
    let newer = "1403051575.000408".into();
    let newest = "1403051575.000409".into();

    let mut ids: Vec<&MessageID> = vec![&newest, &older, &newer];
    ids.sort();

    assert_eq!(&ids, &[&older, &newer, &newest]);
}

#[test]
fn mod_it_is_constructed_from_microsecond_timestamps() {
    let expected_id = "1403051575.000407";
    let time = chrono::Utc.timestamp_opt(1403051575, 407_000).unwrap();
    let id = MessageID::from_timestamp(time.timestamp(), time.timestamp_subsec_micros());

    assert_eq!(id.as_str(), expected_id);
}

#[test]
fn identifiers_are_written_in_decimal() {
    assert_eq!(MessageID::from_timestamp(0, 0).as_str(), "0.000000");
    assert_eq!(MessageID::from_timestamp(7, 999_999).as_str(), "7.999999");
    assert_eq!(MessageID::from_timestamp(10, 1_000_001).as_str(), "10.1000001");
    assert_eq!(MessageID::from_timestamp(-5, 12).as_str(), "-5.000012");
    assert_eq!(
        MessageID::from_timestamp(i64::MAX, u32::MAX).as_string(),
        "9223372036854775807.4294967295"
    );
    assert_eq!(
        MessageID::from_timestamp(i64::MIN, 1).as_string(),
        "-9223372036854775808.000001"
    );
}

fn fake_slack_message() -> StandardRecord {
    StandardRecord {
        channel: Some(String::from("C1")),
        text: None,
        ts: Some(String::from("1111")),
        user: Some(String::from("U1")),
    }
}

#[test]
fn it_uses_side_channel_to_fill_in_channel_when_missing() {
    let mut slack_message_with_channel = fake_slack_message();
    let mut slack_message_without_channel = fake_slack_message();

    slack_message_with_channel.channel = Some(String::from("C555"));
    slack_message_without_channel.channel = None;

    let side_channel = MessageSideChannel {
        channel_id: Some(ChannelID::from("C123")),
    };

    let message_not_using_side_channel =
        StandardMessage::from_slack(&slack_message_with_channel, &side_channel).unwrap();

    let message_using_side_channel =
        StandardMessage::from_slack(&slack_message_without_channel, &side_channel).unwrap();

    assert_eq!(
        message_not_using_side_channel.channel_id,
        ChannelID::from("C555")
    );
    assert_eq!(
        message_using_side_channel.channel_id,
        ChannelID::from("C123")
    );
}

#[test]
fn standard_it_renders_as_canvas() {
    let mut state = AppState::fixture();
    state.users.add_user(User::fixture("U42", "Bear Grylls"));

    let message = StandardMessage {
        user_id: "U42".into(),
        body: "I'm lost. I guess I have to drink my own urine. :)".into(),
        message_id: "1110000.0000".into(),
        thread_id: "1110000.0000".into(),
        channel_id: "C1".into(),
    };

    let big_canvas = message.render_as_canvas(&state, 50);
    assert_eq!(
        &big_canvas.render_to_string(Some("|")),
        "Bear Grylls                                       |
I'm lost. I guess I have to drink my own urine. :)|",
    );

    let small_canvas = message.render_as_canvas(&state, 20);
    assert_eq!(
        &small_canvas.render_to_string(Some("|")),
        "Bear Grylls         |
I'm lost. I guess I |
have to drink my own|
 urine. :)          |",
    );
}

#[test]
fn standard_it_renders_messages_with_many_characters() {
    let state = AppState::fixture();
    let message = StandardMessage {
        user_id: "Data Dump".into(),
        body: "Imagine that this is a lot of data:\nHello\nAgain".into(),
        message_id: "1110000.0000".into(),
        thread_id: "1110000.0000".into(),
        channel_id: "C1".into(),
    };

    let big_canvas = message.render_as_canvas(&state, 50);
    assert_eq!(
        &big_canvas.render_to_string(Some("|")),
        "Data Dump                                         |
Imagine that this is a lot of data:               |
Hello                                             |
Again                                             |",
    );
}

#[test]
fn unsupported_it_renders_as_canvas() {
    let state = AppState::fixture();
    let message = UnsupportedMessage {
        id: "1110000.000000".into(),
        channel_id: "C1".into(),
        from: "Mystery".into(),
        text: "Thing happened".into(),
        subtype: Some(String::from("mystery_event")),
    };

    let big_canvas = message.render_as_canvas(&state, 50);
    assert_eq!(
        &big_canvas.render_to_string(Some("|")),
        "Mystery                                           |
(Unsupported message mystery_event)               |
Thing happened                                    |"
    );

    let small_canvas = message.render_as_canvas(&state, 15);
    assert_eq!(
        &small_canvas.render_to_string(Some("|")),
        "Mystery        |
(Unsupported me|
ssage mystery_e|
vent)          |
Thing happened |"
    );
}

#[test]
fn error_it_renders_as_canvas() {
    let state = AppState::fixture();
    let message = ErrorMessage {
        id: "1110000.000000".into(),
        channel_id: "C1".into(),
        text: "Thing happened".into(),
    };

    let big_canvas = message.render_as_canvas(&state, 50);
    assert_eq!(
        &big_canvas.render_to_string(Some("|")),
        "Error                                             |
Thing happened                                    |"
    );
}

#[test]
fn message_buffer_it_renders_messages_as_canvas() {
    let mut state = AppState::fixture();
    state.selected_channel_id = ChannelID::from("C1");
    state.users.add_user(User::fixture("U55", "Example"));

    let mut message_buffer = MessageBuffer::new();
    message_buffer.add(StandardMessage {
        user_id: "U55".into(),
        body: "Hello...".into(),
        message_id: "1110000.0000".into(),
        thread_id: "1110000.0000".into(),
        channel_id: "C1".into(),
    });
    message_buffer.add(StandardMessage {
        user_id: "U55".into(),
        body: "...World!".into(),
        message_id: "1110001.0000".into(),
        thread_id: "1110001.0000".into(),
        channel_id: "C1".into(),
    });

    let canvas = message_buffer.render_as_canvas(&state, 10);
    assert_eq!(
        &canvas.render_to_string(Some("|")),
        "Example   |
Hello...  |
          |
Example   |
...World! |
          |"
    );
}

#[test]
fn message_buffer_it_adds_loading_message_when_loading() {
    let mut state = AppState::fixture();
    let mut message_buffer = MessageBuffer::new();
    message_buffer.add(StandardMessage {
        user_id: "U55".into(),
        body: "Hello World".into(),
        message_id: "1110000.0000".into(),
        thread_id: "1110000.0000".into(),
        channel_id: "C1".into(),
    });

    state.selected_channel_id = ChannelID::from("C1");
    state.is_loading_more_messages = true;
    let canvas = message_buffer.render_as_canvas(&state, 50);
    assert_eq!(
        &canvas.render_to_string(Some("|")),
        "              Loading more messages               |
U55                                               |
Hello World                                       |
                                                  |"
    );
}

#[test]
fn buffer_it_renders_messages_as_canvas() {
    let state = AppState::fixture();
    let mut message_buffer = MessageBuffer::new();
    message_buffer.add(StandardMessage {
        user_id: "Example".into(),
        body: "Hello...".into(),
        message_id: "1110000.0000".into(),
        thread_id: "1110000.0000".into(),
        channel_id: "C1".into(),
    });
    message_buffer.add(StandardMessage {
        user_id: "Example".into(),
        body: "...World!".into(),
        message_id: "1110001.0000".into(),
        thread_id: "1110001.0000".into(),
        channel_id: "C1".into(),
    });

    let canvas = message_buffer.render_as_canvas(&state, 10);
    assert_eq!(
        &canvas.render_to_string(Some("|")),
        "Example   |
Hello...  |
          |
Example   |
...World! |
          |"
    );
}

#[test]
fn buffer_it_adds_loading_message_when_loading() {
    let mut state = AppState::fixture();
    let mut message_buffer = MessageBuffer::new();
    message_buffer.add(StandardMessage {
        user_id: "Example".into(),
        body: "Hello World".into(),
        message_id: "1110000.0000".into(),
        thread_id: "1110000.0000".into(),
        channel_id: "C1".into(),
    });

    state.is_loading_more_messages = true;
    let canvas = message_buffer.render_as_canvas(&state, 50);
    assert_eq!(
        &canvas.render_to_string(Some("|")),
        "              Loading more messages               |
Example                                           |
Hello World                                       |
                                                  |"
    );
}

#[test]
fn it_skips_messages_in_other_channels() {
    let mut state = AppState::fixture();
    state.selected_channel_id = ChannelID::from("C2");

    let mut message_buffer = MessageBuffer::new();
    message_buffer.add(StandardMessage {
        user_id: "Example".into(),
        body: "First channel".into(),
        message_id: "1110000.0000".into(),
        thread_id: "1110000.0000".into(),
        channel_id: "C1".into(),
    });
    message_buffer.add(StandardMessage {
        user_id: "Example".into(),
        body: "Second channel".into(),
        message_id: "1110000.0000".into(),
        thread_id: "1110000.0000".into(),
        channel_id: "C2".into(),
    });

    let canvas = message_buffer.render_as_canvas(&state, 50);
    let rendered = canvas.render_to_string(Some("|"));

    assert!(rendered.contains("Second channel"));
    assert!(!rendered.contains("First channel"));
}

#[test]
fn messages_are_kept_in_the_order_of_their_identifiers() {
    let mut state = AppState::fixture();
    state.selected_channel_id = ChannelID::from("C1");
    let mut buffer = MessageBuffer::new();
    for (id, body) in [("3", "c"), ("1", "a"), ("2", "b"), ("1", "A")] {
        buffer.add(StandardMessage {
            user_id: "U".into(),
            body: body.into(),
            message_id: id.into(),
            thread_id: id.into(),
            channel_id: "C1".into(),
        });
    }
    assert_eq!(buffer.len(), 3);
    assert_eq!(
        buffer.render_as_canvas(&state, 2).render_to_string(Some("|")),
        "U |\nA |\n  |\nU |\nb |\n  |\nU |\nc |\n  |"
    );
}

#[test]
fn sender_is_shown_in_its_colour() {
    let mut state = AppState::fixture();
    state.users.add_user(
        User::from_slack(&UserRecord {
            id: Some("U1".into()),
            color: Some("ff8000".into()),
            name: Some("ann".into()),
        })
        .unwrap(),
    );
    let message = StandardMessage {
        user_id: "U1".into(),
        body: "x".into(),
        message_id: "1".into(),
        thread_id: "1".into(),
        channel_id: "C1".into(),
    };
    let canvas = message.render_as_canvas(&state, 4);
    let name_style = Style::default()
        .modifier(Modifier::Underline)
        .fg(Color::Rgb(255, 128, 0));
    assert_eq!(canvas.get_pos(0, 0), Some(&Cell::new('a', name_style)));
    assert_eq!(canvas.get_pos(3, 0), Some(&Cell::new(' ', Style::default())));
    assert_eq!(canvas.get_pos(0, 1), Some(&Cell::new('x', Style::default())));

    let stranger = StandardMessage {
        user_id: "U9".into(),
        body: "x".into(),
        message_id: "1".into(),
        thread_id: "1".into(),
        channel_id: "C1".into(),
    };
    let canvas = stranger.render_as_canvas(&state, 4);
    assert_eq!(
        canvas.get_pos(0, 0),
        Some(&Cell::new('U', Style::default().fg(Color::Red)))
    );
}

#[test]
fn entries_with_one_identifier_are_equal() {
    let entry = |id: &str, body: &str| StandardMessage {
        user_id: "U".into(),
        body: body.into(),
        message_id: id.into(),
        thread_id: "0".into(),
        channel_id: "C1".into(),
    };
    assert!(entry("1", "a") == entry("1", "b"));
    assert!(entry("1", "a") != entry("2", "a"));
    assert_eq!(
        Message::Standard(entry("1", "a")),
        Message::Standard(entry("1", "b"))
    );
    let error = |id: &str| ErrorMessage {
        id: id.into(),
        channel_id: "C1".into(),
        text: String::new(),
    };
    assert!(error("1") == error("1"));
    assert!(error("1") != error("2"));
    assert!(Message::Error(error("1")) != Message::Standard(entry("1", "a")));
    let notice = |id: &str| UnsupportedMessage {
        id: id.into(),
        channel_id: "C1".into(),
        from: String::new(),
        text: String::new(),
        subtype: None,
    };
    assert!(notice("1") == notice("1"));
    assert!(notice("1") != notice("2"));
    assert!(MessageID::from("1").is(&MessageID::from("1")));
}

#[test]
fn unsupported_without_subtype_shows_a_question_mark() {
    let state = AppState::fixture();
    let message = UnsupportedMessage {
        id: "1".into(),
        channel_id: "C1".into(),
        from: "Mystery".into(),
        text: "Thing".into(),
        subtype: None,
    };
    assert_eq!(
        message.render_as_canvas(&state, 30).render_to_string(Some("|")),
        "Mystery                       |
(Unsupported message ?)       |
Thing                         |"
    );
}

fn some(text: &str) -> Option<String> {
    Some(String::from(text))
}

#[test]
fn notices_report_the_first_missing_part() {
    let made = |id: Option<String>,
                channel: Option<String>,
                from: Option<String>,
                text: Option<String>| {
        UnsupportedMessage::from_slack_message(&id, &channel, &from, &text, &None).map(|_| ())
    };
    assert_eq!(made(None, None, None, None), Err(MessageError::BlankId));
    assert_eq!(
        made(some("1"), None, None, None),
        Err(MessageError::BlankChannelId)
    );
    assert_eq!(
        made(some("1"), some("C"), None, None),
        Err(MessageError::MissingFrom)
    );
    assert_eq!(
        made(some("1"), some("C"), some("U"), None),
        Err(MessageError::MissingText)
    );
    assert_eq!(made(some("1"), some("C"), some("U"), some("t")), Ok(()));
    assert_eq!(MessageError::BlankId.message(), "ID was blank");
    assert_eq!(MessageError::BlankChannelId.message(), "Channel ID was blank");
    assert_eq!(MessageError::MissingFrom.message(), "from is missing");
    assert_eq!(MessageError::MissingText.message(), "text is missing");
    assert_eq!(MessageError::NoTimestamp.message(), "Message had no ts");
    assert_eq!(MessageError::NoChannel.message(), "Message had no channel");
}

#[test]
fn standard_reports_need_a_time_and_a_channel() {
    let side = MessageSideChannel::default();
    let mut record = fake_slack_message();
    record.ts = None;
    assert_eq!(
        StandardMessage::from_slack(&record, &side).map(|_| ()),
        Err(MessageError::NoTimestamp)
    );
    let mut record = fake_slack_message();
    record.channel = None;
    assert_eq!(
        StandardMessage::from_slack(&record, &side).map(|_| ()),
        Err(MessageError::NoChannel)
    );
    let message = StandardMessage::from_slack(&fake_slack_message(), &side).unwrap();
    assert_eq!(message.message_id.as_str(), "1111");
    assert_eq!(message.thread_id.as_str(), "1111");
    assert_eq!(message.user_id.as_str(), "U1");
    assert_eq!(message.body, "");
    assert_eq!(message.id().as_str(), "1111");
    assert_eq!(HistoryEntry::channel_id(&message).as_str(), "C1");
}

#[test]
fn reports_become_messages_by_their_kind() {
    let side = MessageSideChannel {
        channel_id: Some(ChannelID::from("C9")),
    };
    let ignored = [
        MessageRecord::BotMessage,
        MessageRecord::ChannelArchive,
        MessageRecord::ChannelJoin,
        MessageRecord::ChannelLeave,
        MessageRecord::ChannelName,
        MessageRecord::ChannelPurpose,
        MessageRecord::ChannelTopic,
        MessageRecord::ChannelUnarchive,
        MessageRecord::FileComment,
        MessageRecord::FileMention,
        MessageRecord::FileShare,
        MessageRecord::GroupArchive,
        MessageRecord::GroupJoin,
        MessageRecord::GroupLeave,
        MessageRecord::GroupName,
        MessageRecord::GroupPurpose,
        MessageRecord::GroupTopic,
        MessageRecord::GroupUnarchive,
        MessageRecord::MeMessage,
    ];
    for record in ignored.iter() {
        assert!(Message::from_slack_message(record, Some(&side))
            .unwrap()
            .is_none());
    }

    let notice = |record: MessageRecord| -> UnsupportedMessage {
        match Message::from_slack_message(&record, Some(&side)).unwrap() {
            Some(Message::Unsupported(notice)) => notice,
            other => panic!("not a notice: {:?}", other),
        }
    };

    let deleted = notice(MessageRecord::MessageDeleted(DeletedRecord {
        ts: some("5"),
        channel: None,
        subtype: some("message_deleted"),
    }));
    assert_eq!(deleted.id.as_str(), "5");
    assert_eq!(deleted.channel_id.as_str(), "C9");
    assert_eq!(deleted.from, "Message deleted");
    assert_eq!(deleted.text, "Message was deleted");
    assert_eq!(deleted.subtype, some("message_deleted"));

    let changed = notice(MessageRecord::MessageChanged(NestedRecord {
        ts: some("6"),
        channel: some("C1"),
        message: Some(InnerRecord {
            user: some("U1"),
            text: some("new text"),
        }),
        subtype: None,
    }));
    assert_eq!(changed.channel_id.as_str(), "C1");
    assert_eq!(changed.from, "U1");
    assert_eq!(changed.text, "new text");

    let replied = notice(MessageRecord::MessageReplied(NestedRecord {
        ts: some("7"),
        channel: some("C1"),
        message: Some(InnerRecord {
            user: some("U2"),
            text: some("answer"),
        }),
        subtype: None,
    }));
    assert_eq!(replied.from, "U2");
    assert_eq!(replied.text, "answer");

    let pinned = notice(MessageRecord::PinnedItem(PinRecord {
        ts: some("8"),
        channel: some("C1"),
        user: some("U3"),
        text: some("pinned"),
        subtype: None,
    }));
    assert_eq!(pinned.text, "pinned");
    let unpinned = notice(MessageRecord::UnpinnedItem(PinRecord {
        ts: some("9"),
        channel: some("C1"),
        user: some("U3"),
        text: some("unpinned"),
        subtype: None,
    }));
    assert_eq!(unpinned.text, "unpinned");

    let broadcast = notice(MessageRecord::ReplyBroadcast(BroadcastRecord {
        ts: some("10"),
        channel: some("C1"),
        user: some("U4"),
        subtype: None,
    }));
    assert_eq!(broadcast.from, "U4");
    assert_eq!(broadcast.text, "Message got a broadcasted reply");

    let missing = MessageRecord::MessageChanged(NestedRecord {
        ts: some("6"),
        channel: some("C1"),
        message: None,
        subtype: None,
    });
    assert_eq!(
        Message::from_slack_message(&missing, None).map(|_| ()),
        Err(MessageError::MissingFrom)
    );
    let nowhere = MessageRecord::MessageDeleted(DeletedRecord {
        ts: some("5"),
        channel: None,
        subtype: None,
    });
    assert_eq!(
        Message::from_slack_message(&nowhere, None).map(|_| ()),
        Err(MessageError::BlankChannelId)
    );

    match Message::from_slack_message(&MessageRecord::Standard(fake_slack_message()), None) {
        Ok(Some(Message::Standard(message))) => assert_eq!(message.channel_id.as_str(), "C1"),
        other => panic!("not an ordinary message: {:?}", other),
    }
}

#[test]
fn errors_are_written_with_their_causes() {
    assert_eq!(format_error_with_causes(&vec![]), "");
    assert_eq!(
        format_error_with_causes(&vec![String::from("top")]),
        "Error: top"
    );
    assert_eq!(
        format_error_with_causes(&vec![
            String::from("top"),
            String::from("middle"),
            String::from("bottom"),
        ]),
        "Error: top\n    Caused by: middle\n        Caused by: bottom"
    );
    let causes = vec![String::from("a"), String::from("b")];
    let moment = Moment {
        seconds: 1,
        microseconds: 0,
        text: String::new(),
    };
    let entry = ErrorMessage::from_error_at(&ChannelID::from("C1"), &causes, &moment);
    assert_eq!(entry.text, "Error: a\n    Caused by: b");
    assert_eq!(entry.channel_id.as_str(), "C1");
    assert_eq!(entry.id.as_str(), "1.000000");
    let entry = ErrorMessage::from_error(&ChannelID::from("C2"), &causes);
    assert_eq!(entry.text, "Error: a\n    Caused by: b");
    assert_eq!(entry.channel_id.as_str(), "C2");
    // Dated by the clock: seconds, a point, and six digits or more.
    let (seconds, micros) = entry.id.as_str().split_once('.').unwrap();
    assert!(seconds.parse::<i64>().unwrap() > 1_500_000_000);
    assert!(micros.len() >= 6 && micros.parse::<u32>().is_ok());
}
