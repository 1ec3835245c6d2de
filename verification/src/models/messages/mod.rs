//! The entries of the chat history: messages of several kinds, their
//! identifiers, and how each is shown.

pub mod error;
pub mod loading;
pub mod standard;
pub mod unsupported;

use vstd::prelude::*;
use vstd::std_specs::convert::FromSpecImpl;
use vstd::string::StringExecFns;
use crate::canvas::{Canvas, CanvasView};
use crate::keyed::Keyed;
use crate::models::app_state::AppState;
use crate::models::channel::ChannelID;
use crate::models::user::User;
use crate::records::{text_of, InnerRecord, MessageRecord};
use self::standard::{channel_of_report, names_sender, standard_of};
use self::unsupported::unsupported_of;
use crate::text::{decimal_padded, decimal_signed, push_decimal, push_decimal_signed};

pub use self::error::{ErrorMessage, ErrorView};
pub use self::loading::LoadingMessage;
pub use self::standard::{StandardMessage, StandardView};
pub use self::unsupported::{MessageError, UnsupportedMessage, UnsupportedView};

verus! {

/// The identifier of a message: the time at which it was sent, in seconds
/// and microseconds. Messages are shown in the order of their identifiers.
#[derive(Debug, PartialEq, Eq, Ord, PartialOrd, Hash)]
pub struct MessageID(String);

impl View for MessageID {
    type V = Seq<char>;

    closed spec fn view(&self) -> Seq<char> {
        self.0@
    }
}

impl Clone for MessageID {
    fn clone(&self) -> (id: MessageID)
        ensures
            id@ == self@,
    {
        MessageID(self.0.clone())
    }
}

/// The identifier of a moment: its seconds, a point, and its microseconds
/// in at least six digits.
pub open spec fn timestamp_text(seconds: int, microseconds: nat) -> Seq<char> {
    decimal_signed(seconds) + seq!['.'] + decimal_padded(microseconds, 6)
}

impl MessageID {
    pub fn as_str(&self) -> (text: &str)
        ensures
            text@ == self@,
    {
        self.0.as_str()
    }

    /// Whether this is the identifier `other`.
    pub fn is(&self, other: &MessageID) -> (same: bool)
        ensures
            same == (self@ == other@),
    {
        self.0 == other.0
    }

    pub fn as_string(&self) -> (text: String)
        ensures
            text@ == self@,
    {
        self.0.clone()
    }

    /// The identifier of the moment that lies `seconds` seconds and
    /// `microseconds` microseconds behind the start of 1970.
    pub fn from_timestamp(seconds: i64, microseconds: u32) -> (id: MessageID)
        ensures
            id@ == timestamp_text(seconds as int, microseconds as nat),
    {
        let mut text = String::new();
        push_decimal_signed(&mut text, seconds);
        text.push('.');
        push_decimal(&mut text, microseconds as u64, 6);
        assert(text@ =~= timestamp_text(seconds as int, microseconds as nat));
        MessageID(text)
    }
}

impl From<String> for MessageID {
    fn from(s: String) -> (id: MessageID)
        ensures
            id@ == s@,
    {
        MessageID(s)
    }
}

impl FromSpecImpl<String> for MessageID {
    open spec fn obeys_from_spec() -> bool {
        false
    }

    open spec fn from_spec(s: String) -> MessageID {
        choose|id: MessageID| id@ == s@
    }
}

impl<'a> From<&'a str> for MessageID {
    fn from(s: &'a str) -> (id: MessageID)
        ensures
            id@ == s@,
    {
        MessageID(String::from_str(s))
    }
}

/// What `from` makes is told by its text alone: which of the values with
/// that text it is, is left open.
impl<'a> FromSpecImpl<&'a str> for MessageID {
    open spec fn obeys_from_spec() -> bool {
        false
    }

    open spec fn from_spec(s: &'a str) -> MessageID {
        choose|id: MessageID| id@ == s@
    }
}

/// What a message is, as mathematics.
pub enum MessageView {
    Standard(StandardView),
    Unsupported(UnsupportedView),
    Error(ErrorView),
}

impl MessageView {
    /// The identifier of the message.
    pub open spec fn id(self) -> Seq<char> {
        match self {
            MessageView::Standard(msg) => msg.message_id,
            MessageView::Unsupported(msg) => msg.id,
            MessageView::Error(msg) => msg.id,
        }
    }

    /// The channel that the message belongs to.
    pub open spec fn channel_id(self) -> Seq<char> {
        match self {
            MessageView::Standard(msg) => msg.channel_id,
            MessageView::Unsupported(msg) => msg.channel_id,
            MessageView::Error(msg) => msg.channel_id,
        }
    }

    /// The message as rows of `width` columns, for a reader who knows the
    /// users `users`.
    pub open spec fn rendered(self, users: Seq<User>, width: int) -> CanvasView {
        match self {
            MessageView::Standard(msg) => msg.rendered(users, width),
            MessageView::Unsupported(msg) => msg.rendered(width),
            MessageView::Error(msg) => msg.rendered(width),
        }
    }
}

/// A message of the chat history.
#[derive(Debug, Clone, PartialEq, Eq)]
pub enum Message {
    Standard(StandardMessage),
    Unsupported(UnsupportedMessage),
    Error(ErrorMessage),
}

impl View for Message {
    type V = MessageView;

    open spec fn view(&self) -> MessageView {
        match self {
            Message::Standard(msg) => MessageView::Standard(msg@),
            Message::Unsupported(msg) => MessageView::Unsupported(msg@),
            Message::Error(msg) => MessageView::Error(msg@),
        }
    }
}

/// What every entry of the history can do.
pub trait HistoryEntry: Sized {
    /// The entry as a message.
    spec fn entry(&self) -> MessageView;

    fn id(&self) -> (id: &MessageID)
        ensures
            id@ == self.entry().id(),
    ;

    fn channel_id(&self) -> (id: &ChannelID)
        ensures
            id@ == self.entry().channel_id(),
    ;

    /// The entry as rows of `width` columns.
    fn render_as_canvas(&self, state: &AppState, width: u16) -> (canvas: Canvas)
        requires
            width > 0,
            state.users.wf(),
        ensures
            canvas.wf(),
            canvas@.width == width,
            canvas@ == self.entry().rendered(state.users@, width as int),
    ;

    fn into_message(self) -> (message: Message)
        ensures
            message@ == self.entry(),
    ;
}

/// What is known of a message from where it was found, for the case that
/// the message itself does not say it.
#[derive(Debug)]
pub struct MessageSideChannel {
    pub channel_id: Option<ChannelID>,
}

impl Default for MessageSideChannel {
    fn default() -> (side: MessageSideChannel)
        ensures
            side.channel_id is None,
    {
        MessageSideChannel { channel_id: None }
    }
}

impl Clone for MessageSideChannel {
    fn clone(&self) -> (side: MessageSideChannel)
        ensures
            side.spec_channel() == self.spec_channel(),
    {
        MessageSideChannel {
            channel_id: match &self.channel_id {
                Some(id) => Some(id.clone()),
                None => None,
            },
        }
    }
}

impl MessageSideChannel {
    /// The channel known from the side, if there is one.
    pub open spec fn spec_channel(&self) -> Option<Seq<char>> {
        match self.channel_id {
            Some(id) => Some(id@),
            None => None,
        }
    }
}

/// The sender named by the message inside a report, if there is one.
pub open spec fn inner_user(message: Option<InnerRecord>) -> Option<Seq<char>> {
    match message {
        Some(inner) => text_of(inner.user),
        None => None,
    }
}

/// The text of the message inside a report, if there is one.
pub open spec fn inner_text(message: Option<InnerRecord>) -> Option<Seq<char>> {
    match message {
        Some(inner) => text_of(inner.text),
        None => None,
    }
}

/// The notice for a report, as a message: with the channel of the report
/// or, where it names none, the one known from the side.
pub open spec fn notice_of(
    id: Option<Seq<char>>,
    channel: Option<Seq<char>>,
    from: Option<Seq<char>>,
    text: Option<Seq<char>>,
    subtype: Option<Seq<char>>,
    side_channel: Option<Seq<char>>,
) -> Result<Option<MessageView>, MessageError> {
    match unsupported_of(id, channel_of_report(channel, side_channel), from, text, subtype) {
        Ok(notice) => Ok(Some(MessageView::Unsupported(notice))),
        Err(error) => Err(error),
    }
}

/// What a report of the service makes: an ordinary message, a notice, or
/// nothing for the kinds that are not shown; or an error where the report
/// lacks what the message needs.
pub open spec fn message_of(record: MessageRecord, side_channel: Option<Seq<char>>) -> Result<
    Option<MessageView>,
    MessageError,
> {
    match record {
        MessageRecord::Standard(msg) => match standard_of(msg, side_channel) {
            Ok(message) => Ok(Some(MessageView::Standard(message))),
            Err(error) => Err(error),
        },
        MessageRecord::MessageChanged(msg) => notice_of(
            text_of(msg.ts),
            text_of(msg.channel),
            inner_user(msg.message),
            inner_text(msg.message),
            text_of(msg.subtype),
            side_channel,
        ),
        MessageRecord::MessageDeleted(msg) => notice_of(
            text_of(msg.ts),
            text_of(msg.channel),
            Some("Message deleted"@),
            Some("Message was deleted"@),
            text_of(msg.subtype),
            side_channel,
        ),
        MessageRecord::MessageReplied(msg) => notice_of(
            text_of(msg.ts),
            text_of(msg.channel),
            inner_user(msg.message),
            inner_text(msg.message),
            text_of(msg.subtype),
            side_channel,
        ),
        MessageRecord::PinnedItem(msg) => notice_of(
            text_of(msg.ts),
            text_of(msg.channel),
            text_of(msg.user),
            text_of(msg.text),
            text_of(msg.subtype),
            side_channel,
        ),
        MessageRecord::ReplyBroadcast(msg) => notice_of(
            text_of(msg.ts),
            text_of(msg.channel),
            text_of(msg.user),
            Some("Message got a broadcasted reply"@),
            text_of(msg.subtype),
            side_channel,
        ),
        MessageRecord::UnpinnedItem(msg) => notice_of(
            text_of(msg.ts),
            text_of(msg.channel),
            text_of(msg.user),
            text_of(msg.text),
            text_of(msg.subtype),
            side_channel,
        ),
        _ => Ok(None),
    }
}

/// Whether `made` is what `wanted` asks for: the same error, nothing, or a
/// message with the same parts.
pub open spec fn is_made(
    made: Result<Option<Message>, MessageError>,
    wanted: Result<Option<MessageView>, MessageError>,
) -> bool {
    match made {
        Ok(Some(message)) => wanted == Ok::<Option<MessageView>, MessageError>(Some(message@)),
        Ok(None) => wanted == Ok::<Option<MessageView>, MessageError>(None),
        Err(error) => wanted == Err::<Option<MessageView>, MessageError>(error),
    }
}

/// Whether a report can be made a message: an ordinary message names its
/// sender wherever it has a time and a channel.
pub open spec fn convertible(record: MessageRecord, side_channel: Option<Seq<char>>) -> bool {
    match record {
        MessageRecord::Standard(msg) => names_sender(msg, side_channel),
        _ => true,
    }
}

/// The user named by the message inside a report, if there is one.
fn user_inside(message: &Option<InnerRecord>) -> (user: Option<String>)
    ensures
        text_of(user) == inner_user(*message),
{
    match message {
        Some(inner) => match &inner.user {
            Some(user) => Some(user.clone()),
            None => None,
        },
        None => None,
    }
}

/// The text of the message inside a report, if there is one.
fn text_inside(message: &Option<InnerRecord>) -> (text: Option<String>)
    ensures
        text_of(text) == inner_text(*message),
{
    match message {
        Some(inner) => match &inner.text {
            Some(text) => Some(text.clone()),
            None => None,
        },
        None => None,
    }
}

fn unsupported(
    id: &Option<String>,
    channel: &Option<String>,
    from: &Option<String>,
    text: &Option<String>,
    subtype: &Option<String>,
    side_channel: &MessageSideChannel,
) -> (made: Result<Option<Message>, MessageError>)
    ensures
        is_made(
            made,
            notice_of(
                text_of(*id),
                text_of(*channel),
                text_of(*from),
                text_of(*text),
                text_of(*subtype),
                side_channel.spec_channel(),
            ),
        ),
{
    let channel: Option<String> = match channel {
        Some(own) => Some(own.clone()),
        None => match &side_channel.channel_id {
            Some(known) => Some(String::from_str(known.as_str())),
            None => None,
        },
    };
    match UnsupportedMessage::from_slack_message(id, &channel, from, text, subtype) {
        Ok(message) => Ok(Some(message.into_message())),
        Err(error) => Err(error),
    }
}

impl Message {
    /// Whether the report `msg` can be made a message: an ordinary message
    /// that has a time and a channel names its sender.
    pub fn can_convert(msg: &MessageRecord, side_channel: Option<&MessageSideChannel>) -> (can: bool)
        ensures
            can == convertible(
                *msg,
                match side_channel {
                    Some(side) => side.spec_channel(),
                    None => None,
                },
            ),
    {
        match msg {
            MessageRecord::Standard(msg) => {
                let channel_known = msg.channel.is_some() || match side_channel {
                    Some(side) => side.channel_id.is_some(),
                    None => false,
                };
                msg.ts.is_none() || !channel_known || msg.user.is_some()
            },
            _ => true,
        }
    }

    /// The message that the report `msg` makes, if it makes one. What the
    /// report does not say of its channel is taken from `side_channel`.
    pub fn from_slack_message(msg: &MessageRecord, side_channel: Option<&MessageSideChannel>) -> (made:
        Result<Option<Message>, MessageError>)
        requires
            convertible(
                *msg,
                match side_channel {
                    Some(side) => side.spec_channel(),
                    None => None,
                },
            ),
        ensures
            is_made(
                made,
                message_of(
                    *msg,
                    match side_channel {
                        Some(side) => side.spec_channel(),
                        None => None,
                    },
                ),
            ),
    {
        let side_channel: MessageSideChannel = match side_channel {
            Some(side) => side.clone(),
            None => MessageSideChannel::default(),
        };
        match msg {
            MessageRecord::Standard(msg) => match StandardMessage::from_slack(msg, &side_channel) {
                Ok(message) => Ok(Some(message.into_message())),
                Err(error) => Err(error),
            },
            MessageRecord::BotMessage => Ok(None),
            MessageRecord::ChannelArchive => Ok(None),
            MessageRecord::ChannelJoin => Ok(None),
            MessageRecord::ChannelLeave => Ok(None),
            MessageRecord::ChannelName => Ok(None),
            MessageRecord::ChannelPurpose => Ok(None),
            MessageRecord::ChannelTopic => Ok(None),
            MessageRecord::ChannelUnarchive => Ok(None),
            MessageRecord::FileComment => Ok(None),
            MessageRecord::FileMention => Ok(None),
            MessageRecord::FileShare => Ok(None),
            MessageRecord::GroupArchive => Ok(None),
            MessageRecord::GroupJoin => Ok(None),
            MessageRecord::GroupLeave => Ok(None),
            MessageRecord::GroupName => Ok(None),
            MessageRecord::GroupPurpose => Ok(None),
            MessageRecord::GroupTopic => Ok(None),
            MessageRecord::GroupUnarchive => Ok(None),
            MessageRecord::MeMessage => Ok(None),
            MessageRecord::MessageChanged(msg) => unsupported(
                &msg.ts,
                &msg.channel,
                &user_inside(&msg.message),
                &text_inside(&msg.message),
                &msg.subtype,
                &side_channel,
            ),
            MessageRecord::MessageDeleted(msg) => unsupported(
                &msg.ts,
                &msg.channel,
                &Some(String::from_str("Message deleted")),
                &Some(String::from_str("Message was deleted")),
                &msg.subtype,
                &side_channel,
            ),
            MessageRecord::MessageReplied(msg) => unsupported(
                &msg.ts,
                &msg.channel,
                &user_inside(&msg.message),
                &text_inside(&msg.message),
                &msg.subtype,
                &side_channel,
            ),
            MessageRecord::PinnedItem(msg) => unsupported(
                &msg.ts,
                &msg.channel,
                &msg.user,
                &msg.text,
                &msg.subtype,
                &side_channel,
            ),
            MessageRecord::ReplyBroadcast(msg) => unsupported(
                &msg.ts,
                &msg.channel,
                &msg.user,
                &Some(String::from_str("Message got a broadcasted reply")),
                &msg.subtype,
                &side_channel,
            ),
            MessageRecord::UnpinnedItem(msg) => unsupported(
                &msg.ts,
                &msg.channel,
                &msg.user,
                &msg.text,
                &msg.subtype,
                &side_channel,
            ),
        }
    }
}

impl HistoryEntry for Message {
    open spec fn entry(&self) -> MessageView {
        self@
    }

    fn id(&self) -> (id: &MessageID) {
        assert(self.entry() == self@);
        match self {
            Message::Standard(msg) => msg.id(),
            Message::Unsupported(msg) => msg.id(),
            Message::Error(msg) => msg.id(),
        }
    }

    fn channel_id(&self) -> (id: &ChannelID) {
        match self {
            Message::Standard(msg) => msg.channel_id(),
            Message::Unsupported(msg) => msg.channel_id(),
            Message::Error(msg) => msg.channel_id(),
        }
    }

    fn render_as_canvas(&self, state: &AppState, width: u16) -> (canvas: Canvas) {
        match self {
            Message::Standard(msg) => msg.render_as_canvas(state, width),
            Message::Unsupported(msg) => msg.render_as_canvas(state, width),
            Message::Error(msg) => msg.render_as_canvas(state, width),
        }
    }

    fn into_message(self) -> (message: Message) {
        self
    }
}

impl Keyed for Message {
    open spec fn key(&self) -> Seq<char> {
        self@.id()
    }

    fn key_text(&self) -> (text: &str) {
        self.id().as_str()
    }
}

} // verus!
