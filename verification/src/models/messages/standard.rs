//! Ordinary messages.

use vstd::prelude::*;
use vstd::std_specs::cmp::PartialEqSpecImpl;
use crate::canvas::{Canvas, CanvasView};
use crate::keyed::lookup;
use crate::models::app_state::AppState;
use crate::models::channel::ChannelID;
use crate::models::messages::{
    HistoryEntry, Message, MessageError, MessageID, MessageSideChannel, MessageView,
};
use crate::records::{text_of, StandardRecord};
use crate::models::user::{User, UserID};
use crate::style::{Color, Modifier, Style};

verus! {

/// What an ordinary message is, as mathematics.
pub struct StandardView {
    pub message_id: Seq<char>,
    pub thread_id: Seq<char>,
    pub channel_id: Seq<char>,
    pub user_id: Seq<char>,
    pub body: Seq<char>,
}

/// The line above a message, and its style: the name of the sender,
/// underlined in the sender's colour, or the sender's identifier in red
/// where the users do not include the sender.
pub open spec fn sender_line(users: Seq<User>, user_id: Seq<char>) -> (Seq<char>, Style) {
    match lookup(users, user_id) {
        Some(user) => (
            user@.display_name,
            Style { fg: user@.shown_color(), bg: Color::Reset, modifier: Modifier::Underline },
        ),
        None => (user_id, Style { fg: Color::Red, ..Style::plain() }),
    }
}

impl StandardView {
    /// The message as rows: the sender's line, cut off at the width, and
    /// below it the body, wrapped, with a line feed behind it.
    pub open spec fn rendered(self, users: Seq<User>, width: int) -> CanvasView {
        let sender = sender_line(users, self.user_id);
        CanvasView::empty(width).put_str(sender.0, sender.1, false).put_str(
            "\n"@,
            Style::plain(),
            false,
        ).put_str(self.body.push('\n'), Style::plain(), true)
    }
}

/// An ordinary message: what a user wrote in a channel.
#[derive(Debug)]
pub struct StandardMessage {
    pub message_id: MessageID,
    pub thread_id: MessageID,
    pub channel_id: ChannelID,
    pub user_id: UserID,
    pub body: String,
}

impl View for StandardMessage {
    type V = StandardView;

    open spec fn view(&self) -> StandardView {
        StandardView {
            message_id: self.message_id@,
            thread_id: self.thread_id@,
            channel_id: self.channel_id@,
            user_id: self.user_id@,
            body: self.body@,
        }
    }
}

impl Clone for StandardMessage {
    fn clone(&self) -> (message: StandardMessage)
        ensures
            message@ == self@,
    {
        StandardMessage {
            message_id: self.message_id.clone(),
            thread_id: self.thread_id.clone(),
            channel_id: self.channel_id.clone(),
            user_id: self.user_id.clone(),
            body: self.body.clone(),
        }
    }
}

/// The channel of a report: its own, or else the one known from the side.
pub open spec fn channel_of_report(channel: Option<Seq<char>>, side_channel: Option<Seq<char>>)
    -> Option<Seq<char>> {
    if channel is Some {
        channel
    } else {
        side_channel
    }
}

/// What a report of an ordinary message makes: an error where it has no
/// time, or no channel although none is known from the side either; else
/// the message, with the time as its identifier and as its thread, and an
/// empty body where the report has no text.
pub open spec fn standard_of(record: StandardRecord, side_channel: Option<Seq<char>>) -> Result<
    StandardView,
    MessageError,
> {
    let channel = channel_of_report(text_of(record.channel), side_channel);
    if record.ts is None {
        Err(MessageError::NoTimestamp)
    } else if channel is None {
        Err(MessageError::NoChannel)
    } else {
        Ok(
            StandardView {
                message_id: record.ts->0@,
                thread_id: record.ts->0@,
                channel_id: channel->0,
                user_id: match record.user {
                    Some(user) => user@,
                    None => Seq::empty(),
                },
                body: match record.text {
                    Some(text) => text@,
                    None => Seq::empty(),
                },
            },
        )
    }
}

/// Whether a report of an ordinary message names its sender wherever it
/// makes a message.
pub open spec fn names_sender(record: StandardRecord, side_channel: Option<Seq<char>>) -> bool {
    standard_of(record, side_channel) is Ok ==> record.user is Some
}

impl StandardMessage {
    /// The message that the report `msg` makes. A report that makes a
    /// message must name its sender.
    pub fn from_slack(msg: &StandardRecord, side_channel: &MessageSideChannel) -> (made: Result<
        StandardMessage,
        MessageError,
    >)
        requires
            names_sender(*msg, side_channel.spec_channel()),
        ensures
            match made {
                Ok(message) => standard_of(*msg, side_channel.spec_channel()) == Ok::<
                    StandardView,
                    MessageError,
                >(message@),
                Err(error) => standard_of(*msg, side_channel.spec_channel()) == Err::<
                    StandardView,
                    MessageError,
                >(error),
            },
    {
        let ts = match &msg.ts {
            Some(val) => val.clone(),
            None => return Err(MessageError::NoTimestamp),
        };
        let channel_id = match &msg.channel {
            Some(channel) => ChannelID::from(channel),
            None => match &side_channel.channel_id {
                Some(val) => val.clone(),
                None => return Err(MessageError::NoChannel),
            },
        };
        let message_id = MessageID::from(ts);
        let thread_id = message_id.clone();
        let body = match &msg.text {
            Some(text) => text.clone(),
            None => String::new(),
        };
        let user_id = match &msg.user {
            Some(user) => UserID::from(user),
            None => vstd::pervasive::unreached(),
        };
        Ok(StandardMessage { message_id, thread_id, channel_id, body, user_id })
    }
}

/// Two entries with one identifier are the same entry.
impl PartialEq for StandardMessage {
    fn eq(&self, rhs: &StandardMessage) -> (same: bool) {
        self.message_id.is(&rhs.message_id)
    }
}

impl PartialEqSpecImpl for StandardMessage {
    open spec fn obeys_eq_spec() -> bool {
        true
    }

    open spec fn eq_spec(&self, rhs: &StandardMessage) -> bool {
        self.message_id@ == rhs.message_id@
    }
}

impl Eq for StandardMessage {

}

impl HistoryEntry for StandardMessage {
    open spec fn entry(&self) -> MessageView {
        MessageView::Standard(self@)
    }

    fn id(&self) -> (id: &MessageID) {
        &self.message_id
    }

    fn channel_id(&self) -> (id: &ChannelID) {
        &self.channel_id
    }

    fn render_as_canvas(&self, state: &AppState, width: u16) -> (canvas: Canvas) {
        let user = state.users.get(&self.user_id);
        let underlined = Style::default().modifier(Modifier::Underline);
        let mut canvas = Canvas::new(width);
        match user {
            Some(user) => {
                let color_style = underlined.fg(user.color());
                canvas.add_string_truncated(user.display_name(), color_style)
            },
            None => {
                canvas.add_string_truncated(self.user_id.as_str(), Style::default().fg(Color::Red))
            },
        }
        canvas.add_string_truncated("\n", Style::default());
        let mut body = self.body.clone();
        body.push('\n');
        canvas.add_string_wrapped(body.as_str(), Style::default());
        canvas
    }

    fn into_message(self) -> (message: Message) {
        Message::Standard(self)
    }
}

} // verus!
