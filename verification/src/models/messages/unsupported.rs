//! Messages of a kind that is shown only as a notice.

use vstd::prelude::*;
use vstd::std_specs::cmp::PartialEqSpecImpl;
use vstd::string::StringExecFns;
use crate::canvas::{Canvas, CanvasView};
use crate::models::app_state::AppState;
use crate::models::channel::ChannelID;
use crate::models::messages::{HistoryEntry, Message, MessageID, MessageView};
use crate::records::text_of;
use crate::style::{Modifier, Style};

verus! {

/// What such a message is, as mathematics.
pub struct UnsupportedView {
    pub id: Seq<char>,
    pub channel_id: Seq<char>,
    pub from: Seq<char>,
    pub text: Seq<char>,
    pub subtype: Option<Seq<char>>,
}

impl UnsupportedView {
    /// The notice below the sender's line: the kind of the message, or a
    /// question mark for an unknown kind, and below it the text.
    pub open spec fn notice(self) -> Seq<char> {
        "(Unsupported message "@ + (match self.subtype {
            Some(subtype) => subtype,
            None => "?"@,
        }) + ")\n"@ + self.text + seq!['\n']
    }

    /// The message as rows, all of them faint: the sender's line, cut off
    /// at the width, and below it the notice, wrapped.
    pub open spec fn rendered(self, width: int) -> CanvasView {
        let faint = Style { modifier: Modifier::Faint, ..Style::plain() };
        CanvasView::empty(width).put_str(self.from, faint, false).put_str(
            "\n"@,
            faint,
            false,
        ).put_str(self.notice(), faint, true)
    }
}

/// Why a report of the service could not be made a message.
#[derive(Debug, Clone, Copy, PartialEq, Eq, Structural)]
pub enum MessageError {
    /// An ordinary message without a time.
    NoTimestamp,
    /// An ordinary message without a channel, where none is known from the
    /// side either.
    NoChannel,
    /// A notice without a time.
    BlankId,
    /// A notice without a channel.
    BlankChannelId,
    /// A notice without a sender.
    MissingFrom,
    /// A notice without a text.
    MissingText,
}

impl MessageError {
    /// The error in words.
    pub open spec fn spec_message(self) -> Seq<char> {
        match self {
            MessageError::NoTimestamp => "Message had no ts"@,
            MessageError::NoChannel => "Message had no channel"@,
            MessageError::BlankId => "ID was blank"@,
            MessageError::BlankChannelId => "Channel ID was blank"@,
            MessageError::MissingFrom => "from is missing"@,
            MessageError::MissingText => "text is missing"@,
        }
    }

    /// The error in words.
    pub fn message(&self) -> (text: String)
        ensures
            text@ == self.spec_message(),
    {
        String::from_str(
            match self {
                MessageError::NoTimestamp => "Message had no ts",
                MessageError::NoChannel => "Message had no channel",
                MessageError::BlankId => "ID was blank",
                MessageError::BlankChannelId => "Channel ID was blank",
                MessageError::MissingFrom => "from is missing",
                MessageError::MissingText => "text is missing",
            },
        )
    }
}

/// A message that is shown only as a notice of its kind.
#[derive(Debug)]
pub struct UnsupportedMessage {
    pub id: MessageID,
    pub channel_id: ChannelID,
    pub from: String,
    pub text: String,
    pub subtype: Option<String>,
}

impl View for UnsupportedMessage {
    type V = UnsupportedView;

    open spec fn view(&self) -> UnsupportedView {
        UnsupportedView {
            id: self.id@,
            channel_id: self.channel_id@,
            from: self.from@,
            text: self.text@,
            subtype: text_of(self.subtype),
        }
    }
}

impl Clone for UnsupportedMessage {
    fn clone(&self) -> (message: UnsupportedMessage)
        ensures
            message@ == self@,
    {
        UnsupportedMessage {
            id: self.id.clone(),
            channel_id: self.channel_id.clone(),
            from: self.from.clone(),
            text: self.text.clone(),
            subtype: match &self.subtype {
                Some(subtype) => Some(subtype.clone()),
                None => None,
            },
        }
    }
}

/// What the parts of a report make: the notice with these parts, or the
/// error for the first part that is missing, in the order identifier,
/// channel, sender, text.
pub open spec fn unsupported_of(
    id: Option<Seq<char>>,
    channel_id: Option<Seq<char>>,
    from: Option<Seq<char>>,
    text: Option<Seq<char>>,
    subtype: Option<Seq<char>>,
) -> Result<UnsupportedView, MessageError> {
    if id is None {
        Err(MessageError::BlankId)
    } else if channel_id is None {
        Err(MessageError::BlankChannelId)
    } else if from is None {
        Err(MessageError::MissingFrom)
    } else if text is None {
        Err(MessageError::MissingText)
    } else {
        Ok(
            UnsupportedView {
                id: id->0,
                channel_id: channel_id->0,
                from: from->0,
                text: text->0,
                subtype,
            },
        )
    }
}

/// Whether `made` is what `wanted` asks for: the same error, or a notice
/// with the same parts.
pub open spec fn is_unsupported(
    made: Result<UnsupportedMessage, MessageError>,
    wanted: Result<UnsupportedView, MessageError>,
) -> bool {
    match made {
        Ok(message) => wanted == Ok::<UnsupportedView, MessageError>(message@),
        Err(error) => wanted == Err::<UnsupportedView, MessageError>(error),
    }
}

impl UnsupportedMessage {
    /// The notice made of the parts of a report.
    pub fn from_slack_message(
        id: &Option<String>,
        channel_id: &Option<String>,
        from: &Option<String>,
        text: &Option<String>,
        subtype: &Option<String>,
    ) -> (made: Result<UnsupportedMessage, MessageError>)
        ensures
            is_unsupported(
                made,
                unsupported_of(
                    text_of(*id),
                    text_of(*channel_id),
                    text_of(*from),
                    text_of(*text),
                    text_of(*subtype),
                ),
            ),
    {
        let id = match id {
            Some(id) => MessageID::from(id.clone()),
            None => return Err(MessageError::BlankId),
        };
        let channel_id = match channel_id {
            Some(channel) => ChannelID::from(channel),
            None => return Err(MessageError::BlankChannelId),
        };
        let from = match from {
            Some(from) => from.clone(),
            None => return Err(MessageError::MissingFrom),
        };
        let text = match text {
            Some(text) => text.clone(),
            None => return Err(MessageError::MissingText),
        };
        let subtype = match subtype {
            Some(subtype) => Some(subtype.clone()),
            None => None,
        };
        Ok(UnsupportedMessage { id, channel_id, from, text, subtype })
    }
}

/// Two entries with one identifier are the same entry.
impl PartialEq for UnsupportedMessage {
    fn eq(&self, rhs: &UnsupportedMessage) -> (same: bool) {
        self.id.is(&rhs.id)
    }
}

impl PartialEqSpecImpl for UnsupportedMessage {
    open spec fn obeys_eq_spec() -> bool {
        true
    }

    open spec fn eq_spec(&self, rhs: &UnsupportedMessage) -> bool {
        self.id@ == rhs.id@
    }
}

impl Eq for UnsupportedMessage {

}

impl HistoryEntry for UnsupportedMessage {
    open spec fn entry(&self) -> MessageView {
        MessageView::Unsupported(self@)
    }

    fn id(&self) -> (id: &MessageID) {
        &self.id
    }

    fn channel_id(&self) -> (id: &ChannelID) {
        &self.channel_id
    }

    fn render_as_canvas(&self, state: &AppState, width: u16) -> (canvas: Canvas) {
        let faint = Style::default().modifier(Modifier::Faint);
        let mut canvas = Canvas::new(width);
        canvas.add_string_truncated(self.from.as_str(), faint);
        canvas.add_string_truncated("\n", faint);
        let mut notice = String::from_str("(Unsupported message ");
        match &self.subtype {
            Some(subtype) => notice.append(subtype.as_str()),
            None => notice.append("?"),
        }
        notice.append(")\n");
        notice.append(self.text.as_str());
        notice.push('\n');
        assert(notice@ =~= self@.notice());
        canvas.add_string_wrapped(notice.as_str(), faint);
        canvas
    }

    fn into_message(self) -> (message: Message) {
        Message::Unsupported(self)
    }
}

} // verus!
