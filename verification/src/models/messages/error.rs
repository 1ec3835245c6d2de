//! Errors, shown in the history like messages.

use vstd::prelude::*;
use vstd::std_specs::cmp::PartialEqSpecImpl;
use crate::canvas::{Canvas, CanvasView};
use crate::models::app_state::AppState;
use crate::models::channel::ChannelID;
use crate::clock::{now, Moment};
use crate::models::messages::{timestamp_text, HistoryEntry, Message, MessageID, MessageView};
use crate::style::{Color, Style};
use crate::util::{error_text, format_error_with_causes, texts};

verus! {

/// What such an entry is, as mathematics.
pub struct ErrorView {
    pub id: Seq<char>,
    pub channel_id: Seq<char>,
    pub text: Seq<char>,
}

impl ErrorView {
    /// The entry as rows, all in red: a line "Error", and below it the
    /// text, wrapped.
    pub open spec fn rendered(self, width: int) -> CanvasView {
        let red = Style { fg: Color::Red, ..Style::plain() };
        CanvasView::empty(width).put_str("Error\n"@, red, false).put_str(self.text, red, true)
    }
}

/// An error that is shown in the history of a channel.
#[derive(Debug)]
pub struct ErrorMessage {
    pub id: MessageID,
    pub channel_id: ChannelID,
    pub text: String,
}

impl View for ErrorMessage {
    type V = ErrorView;

    open spec fn view(&self) -> ErrorView {
        ErrorView { id: self.id@, channel_id: self.channel_id@, text: self.text@ }
    }
}

impl Clone for ErrorMessage {
    fn clone(&self) -> (message: ErrorMessage)
        ensures
            message@ == self@,
    {
        ErrorMessage {
            id: self.id.clone(),
            channel_id: self.channel_id.clone(),
            text: self.text.clone(),
        }
    }
}

/// The entry for an error that came up at `moment` in the channel
/// `channel`: its identifier is the moment, and its text the error and its
/// causes in words.
pub open spec fn error_view(channel: Seq<char>, causes: Seq<Seq<char>>, moment: Moment)
    -> ErrorView {
    ErrorView {
        id: timestamp_text(moment.seconds as int, moment.microseconds as nat),
        channel_id: channel,
        text: error_text(causes),
    }
}

impl ErrorMessage {
    /// The entry for an error in the channel `channel_id`, as if it came up
    /// at `moment`. The error is given by its causes in words, the error
    /// itself first.
    pub fn from_error_at(channel_id: &ChannelID, causes: &Vec<String>, moment: &Moment) -> (message:
        ErrorMessage)
        requires
            4 * causes.len() <= usize::MAX,
        ensures
            message@ == error_view(channel_id@, texts(causes@), *moment),
    {
        ErrorMessage {
            id: MessageID::from_timestamp(moment.seconds, moment.microseconds),
            channel_id: channel_id.clone(),
            text: format_error_with_causes(causes),
        }
    }

    /// The entry for an error in the channel `channel_id`, come up now.
    pub fn from_error(channel_id: &ChannelID, causes: &Vec<String>) -> (message: ErrorMessage)
        requires
            4 * causes.len() <= usize::MAX,
        ensures
            exists|moment: Moment|
                message@ == #[trigger] error_view(channel_id@, texts(causes@), moment),
    {
        let time = now();
        ErrorMessage::from_error_at(channel_id, causes, &time)
    }
}

/// Two entries with one identifier are the same entry.
impl PartialEq for ErrorMessage {
    fn eq(&self, rhs: &ErrorMessage) -> (same: bool) {
        self.id.is(&rhs.id)
    }
}

impl PartialEqSpecImpl for ErrorMessage {
    open spec fn obeys_eq_spec() -> bool {
        true
    }

    open spec fn eq_spec(&self, rhs: &ErrorMessage) -> bool {
        self.id@ == rhs.id@
    }
}

impl Eq for ErrorMessage {

}

impl HistoryEntry for ErrorMessage {
    open spec fn entry(&self) -> MessageView {
        MessageView::Error(self@)
    }

    fn id(&self) -> (id: &MessageID) {
        &self.id
    }

    fn channel_id(&self) -> (id: &ChannelID) {
        &self.channel_id
    }

    fn render_as_canvas(&self, state: &AppState, width: u16) -> (canvas: Canvas) {
        let red = Style::default().fg(Color::Red);
        let mut canvas = Canvas::new(width);
        canvas.add_string_truncated("Error\n", red);
        canvas.add_string_wrapped(self.text.as_str(), red);
        canvas
    }

    fn into_message(self) -> (message: Message) {
        Message::Error(self)
    }
}

} // verus!
