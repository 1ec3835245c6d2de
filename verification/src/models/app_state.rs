//! The state of the screen: the selected channel, the messages, and how far
//! the history is scrolled.

use vstd::prelude::*;
use vstd::string::StringExecFns;
use crate::canvas::{Canvas, CanvasView};
use crate::clock::{now, Moment};
use crate::keyed::{inserted, lookup};
use crate::models::channel::{Channel, ChannelID, ChannelList};
use crate::models::message_buffer::{
    entries_of, history, lemma_history_of_selected_only, MessageBuffer,
};
use crate::models::messages::error::error_view;
use crate::models::messages::{
    timestamp_text, ErrorMessage, Message, MessageID, MessageView, StandardMessage, StandardView,
};
use crate::models::user::{UserID, UserList};
use crate::util::texts;

verus! {

/// What the keys do.
#[derive(Debug, PartialEq, Eq, Clone, Copy, Structural)]
pub enum Mode {
    /// The keys scroll the history.
    History,
    /// The keys edit the name of the channel to go to.
    SelectChannel,
}

impl Default for Mode {
    fn default() -> (mode: Mode)
        ensures
            mode == Mode::History,
    {
        Mode::History
    }
}

/// How far the history is scrolled, as mathematics.
pub struct ScrollView {
    /// Rows between the bottom of the history and the lower edge of the
    /// view, as asked for. It may be more than there are rows.
    pub offset: int,
    /// Number of rows of the rendered history, if it is rendered.
    pub canvas_height: Option<int>,
    /// Number of rows of the view when it was last drawn.
    pub viewport_height: int,
}

impl ScrollView {
    /// Offsets and heights are not negative.
    pub open spec fn wf(self) -> bool {
        &&& self.offset >= 0
        &&& self.viewport_height >= 0
        &&& self.canvas_height is Some ==> self.canvas_height->0 >= 0
    }

    /// The largest offset that shows anything new: the rows of the history
    /// that do not fit into the view; 0 where the history is not rendered.
    pub open spec fn max_scroll(self) -> int {
        match self.canvas_height {
            Some(height) => if height <= self.viewport_height {
                0
            } else {
                height - self.viewport_height
            },
            None => 0,
        }
    }

    /// The offset that is shown: the one asked for, but no more than the
    /// largest.
    pub open spec fn current(self) -> int {
        if self.offset <= self.max_scroll() {
            self.offset
        } else {
            self.max_scroll()
        }
    }

    /// The state after scrolling `amount` rows towards the bottom: counted
    /// from the offset that is shown, and not below 0.
    pub open spec fn scroll_down(self, amount: int) -> ScrollView {
        ScrollView {
            offset: if self.current() >= amount {
                self.current() - amount
            } else {
                0
            },
            ..self
        }
    }

    /// The state after scrolling `amount` rows towards the top: counted
    /// from the offset asked for, and not above the largest. While the
    /// history is not rendered nothing is known of its height, and the
    /// state stays as it is.
    pub open spec fn scroll_up(self, amount: int) -> ScrollView {
        if self.canvas_height is None {
            self
        } else {
            ScrollView {
                offset: if self.offset + amount <= self.max_scroll() {
                    self.offset + amount
                } else {
                    self.max_scroll()
                },
                ..self
            }
        }
    }

    /// The state after scrolling to the first row: as far up as scrolling
    /// up goes.
    pub open spec fn scroll_to_top(self) -> ScrollView {
        if self.canvas_height is None {
            self
        } else {
            ScrollView { offset: self.max_scroll(), ..self }
        }
    }

    /// The state after the scrolls `steps`, in order: a positive step goes
    /// up by that many rows, a negative one down.
    pub open spec fn scrolled(self, steps: Seq<int>) -> ScrollView
        decreases steps.len(),
    {
        if steps.len() == 0 {
            self
        } else {
            let before = self.scrolled(steps.drop_last());
            if steps.last() >= 0 {
                before.scroll_up(steps.last())
            } else {
                before.scroll_down(-steps.last())
            }
        }
    }
}

/// The offset that is shown lies between 0 and the largest offset, however
/// the state was reached.
pub proof fn lemma_current_in_range(scroll: ScrollView)
    requires
        scroll.wf(),
    ensures
        0 <= scroll.current() <= scroll.max_scroll(),
{
}

/// Scrolling up stops at the largest offset and scrolling down stops at 0,
/// however often either is done: after any scrolls the offset shown is
/// between 0 and the largest offset. So is the offset asked for itself,
/// where the history is rendered or the last scroll went down. The heights
/// stay as they were.
pub proof fn lemma_scroll_saturates(scroll: ScrollView, steps: Seq<int>)
    requires
        scroll.wf(),
    ensures
        scroll.scrolled(steps).wf(),
        scroll.scrolled(steps).canvas_height == scroll.canvas_height,
        scroll.scrolled(steps).viewport_height == scroll.viewport_height,
        scroll.scrolled(steps).max_scroll() == scroll.max_scroll(),
        0 <= scroll.scrolled(steps).current() <= scroll.max_scroll(),
        steps.len() > 0 && (scroll.canvas_height is Some || steps.last() < 0) ==> 0
            <= scroll.scrolled(steps).offset <= scroll.max_scroll(),
        scroll.canvas_height is None && (forall|i: int| 0 <= i < steps.len() ==> steps[i] >= 0)
            ==> scroll.scrolled(steps) == scroll,
    decreases steps.len(),
{
    if steps.len() > 0 {
        lemma_scroll_saturates(scroll, steps.drop_last());
    }
}

/// Scrolling up from the top changes nothing that is shown, and neither
/// does scrolling down from the bottom.
pub proof fn lemma_scroll_at_the_ends(scroll: ScrollView, amount: int)
    requires
        scroll.wf(),
        amount >= 0,
    ensures
        scroll.current() == scroll.max_scroll() ==> scroll.scroll_up(amount).current()
            == scroll.max_scroll(),
        scroll.current() == 0 ==> scroll.scroll_down(amount).current() == 0,
{
}

/// Going to another channel shows that channel from its bottom, and its
/// history is rendered anew, from the messages of that channel alone.
pub proof fn lemma_channel_switch(state: AppState, id: ChannelID, width: int)
    ensures
        ({
            let next = AppState {
                selected_channel_id: id,
                history_scroll: 0,
                chat_canvas: None,
                ..state
            };
            &&& next.scroll_view().offset == 0
            &&& next.scroll_view().current() == 0
            &&& next.chat_canvas is None
            &&& next.history(width) == history(
                entries_of(state.messages@, id@),
                state.users@,
                id@,
                state.is_loading_more_messages,
                width,
            )
        }),
{
    lemma_history_of_selected_only(
        state.messages@,
        state.users@,
        id@,
        state.is_loading_more_messages,
        width,
    );
}

/// Where a message of the history stands in for something else, who is
/// named as its sender.
pub open spec fn fake_sender() -> Seq<char> {
    "Fake Message"@
}

/// The body of a message that was made up at `moment` without a text.
pub open spec fn fake_body(moment: Moment) -> Seq<char> {
    "This is a fake message generated at: "@ + moment.text@
}

/// The text that is given, if one is.
pub open spec fn body_of(msg: Option<&str>) -> Option<Seq<char>> {
    match msg {
        Some(text) => Some(text@),
        None => None,
    }
}

/// The message that is made up at `moment` in the channel `channel`, with
/// the body `body` where one is given.
pub open spec fn fake_message(channel: Seq<char>, body: Option<Seq<char>>, moment: Moment)
    -> MessageView {
    MessageView::Standard(
        StandardView {
            message_id: timestamp_text(moment.seconds as int, moment.microseconds as nat),
            thread_id: timestamp_text(moment.seconds as int, moment.microseconds as nat),
            channel_id: channel,
            user_id: fake_sender(),
            body: match body {
                Some(text) => text,
                None => fake_body(moment),
            },
        },
    )
}

/// The entry for an error that came up at `moment` in the channel
/// `channel`, as a message.
pub open spec fn error_entry(channel: Seq<char>, causes: Seq<Seq<char>>, moment: Moment)
    -> MessageView {
    MessageView::Error(error_view(channel, causes, moment))
}

/// The state of the screen.
#[derive(Debug)]
pub struct AppState {
    pub current_mode: Mode,
    /// The rendered history, kept until something that it shows changes.
    pub chat_canvas: Option<Canvas>,
    /// Rows between the bottom of the history and the lower edge of the
    /// view, as asked for.
    pub history_scroll: usize,
    /// Number of rows of the history's view when it was last drawn.
    pub last_chat_height: u16,
    pub selected_channel_id: ChannelID,
    pub channels: ChannelList,
    pub is_loading_more_messages: bool,
    pub messages: MessageBuffer,
    pub team_name: String,
    pub users: UserList,
}

impl AppState {
    /// The lists are in order, and a rendered history has a width.
    pub open spec fn wf(&self) -> bool {
        &&& self.channels.wf()
        &&& self.users.wf()
        &&& self.messages.wf()
        &&& self.chat_canvas is Some ==> self.chat_canvas->0.wf()
    }

    /// How far the history is scrolled.
    pub open spec fn scroll_view(&self) -> ScrollView {
        ScrollView {
            offset: self.history_scroll as int,
            canvas_height: match self.chat_canvas {
                Some(canvas) => Some(canvas@.height()),
                None => None,
            },
            viewport_height: self.last_chat_height as int,
        }
    }

    /// The history of the selected channel as rows of `width` columns.
    pub open spec fn history(&self, width: int) -> CanvasView {
        history(
            self.messages@,
            self.users@,
            self.selected_channel_id@,
            self.is_loading_more_messages,
            width,
        )
    }

    /// Whether only the scroll offset differs from `other`.
    pub open spec fn same_but_scroll(&self, other: AppState) -> bool {
        *self == (AppState { history_scroll: self.history_scroll, ..other })
    }

    /// Whether `after` is this state with a message that is `entry` put
    /// among the messages, and the rendered history forgotten.
    pub open spec fn with_entry(&self, after: AppState, entry: MessageView) -> bool {
        &&& after == (AppState { messages: after.messages, chat_canvas: None, ..*self })
        &&& after.messages.wf()
        &&& exists|message: Message|
            message@ == entry && after.messages@ == #[trigger] inserted(self.messages@, message)
    }

    /// A state without channels, users or messages, for trying things out.
    pub fn fixture() -> (state: AppState)
        ensures
            state.wf(),
            state.current_mode == Mode::History,
            state.chat_canvas is None,
            state.history_scroll == 0,
            state.last_chat_height == 0,
            state.selected_channel_id@ == "C1"@,
            state.channels@.len() == 0,
            !state.is_loading_more_messages,
            state.messages@.len() == 0,
            state.team_name@ == "Team"@,
            state.users@.len() == 0,
    {
        AppState {
            current_mode: Mode::History,
            chat_canvas: None,
            history_scroll: 0,
            last_chat_height: 0,
            selected_channel_id: ChannelID::from("C1"),
            channels: ChannelList::new(),
            is_loading_more_messages: false,
            messages: MessageBuffer::new(),
            team_name: String::from_str("Team"),
            users: UserList::new(),
        }
    }

    /// The rendered history for a view of `height` rows. It is rendered
    /// `width` columns wide where none is kept, and kept from then on; a
    /// history that is kept is handed out as it is. The height of the view
    /// is remembered.
    pub fn rendered_chat_canvas(&mut self, width: u16, height: u16) -> (canvas: &Canvas)
        requires
            old(self).wf(),
            width > 0,
        ensures
            final(self).wf(),
            *final(self) == (AppState {
                chat_canvas: Some(*canvas),
                last_chat_height: height,
                ..*old(self)
            }),
            match old(self).chat_canvas {
                Some(kept) => *canvas == kept,
                None => canvas@ == old(self).history(width as int) && canvas@.width == width,
            },
            canvas.wf(),
    {
        if self.chat_canvas.is_none() {
            let canvas = self.messages.render_as_canvas(&*self, width);
            self.chat_canvas = Some(canvas);
        }
        self.last_chat_height = height;
        self.chat_canvas.as_ref().unwrap()
    }

    /// The selected channel, if the channels include it.
    pub fn selected_channel(&self) -> (channel: Option<&Channel>)
        requires
            self.channels.wf(),
        ensures
            match channel {
                Some(found) => lookup(self.channels@, self.selected_channel_id@) == Some(*found),
                None => lookup(self.channels@, self.selected_channel_id@) is None,
            },
    {
        self.channels.get(&self.selected_channel_id)
    }

    pub fn selected_channel_id(&self) -> (id: &ChannelID)
        ensures
            *id == self.selected_channel_id,
    {
        &self.selected_channel_id
    }

    /// The largest offset that shows anything new.
    pub fn max_history_scroll(&self) -> (max: usize)
        requires
            self.chat_canvas is Some ==> self.chat_canvas->0.wf(),
        ensures
            max == self.scroll_view().max_scroll(),
    {
        // NOTE: Scroll value is distance from bottom
        let chat_canvas_height: usize = match &self.chat_canvas {
            Some(canvas) => canvas.height(),
            None => return 0,
        };
        let chat_viewport_height: usize = self.chat_height() as usize;

        // If the canvas is smaller than the viewport, lock to bottom.
        if chat_canvas_height <= chat_viewport_height {
            0
        } else {
            chat_canvas_height - chat_viewport_height
        }
    }

    /// The offset that is shown.
    pub fn current_history_scroll(&self) -> (offset: usize)
        requires
            self.chat_canvas is Some ==> self.chat_canvas->0.wf(),
        ensures
            offset == self.scroll_view().current(),
            offset <= self.scroll_view().max_scroll(),
    {
        let max = self.max_history_scroll();
        if self.history_scroll <= max {
            self.history_scroll
        } else {
            max
        }
    }

    /// Number of rows of the history's view when it was last drawn.
    pub fn chat_height(&self) -> (height: u16)
        ensures
            height == self.last_chat_height,
    {
        self.last_chat_height
    }

    /// Forgets the rendered history, so that it is rendered anew when it is
    /// next drawn.
    pub fn clear_chat_canvas_cache(&mut self)
        ensures
            *final(self) == (AppState { chat_canvas: None, ..*old(self) }),
    {
        self.chat_canvas = None;
    }

    pub fn current_mode(&self) -> (mode: &Mode)
        ensures
            *mode == self.current_mode,
    {
        &self.current_mode
    }

    pub fn enter_mode(&mut self, new_mode: Mode)
        ensures
            *final(self) == (AppState { current_mode: new_mode, ..*old(self) }),
    {
        self.current_mode = new_mode;
    }

    /// Scrolls `amount` rows towards the bottom.
    pub fn scroll_down(&mut self, amount: usize)
        requires
            old(self).chat_canvas is Some ==> old(self).chat_canvas->0.wf(),
        ensures
            final(self).scroll_view() == old(self).scroll_view().scroll_down(amount as int),
            *final(self) == (AppState {
                history_scroll: final(self).history_scroll,
                ..*old(self)
            }),
    {
        // NOTE: Scroll value is distance from bottom
        self.history_scroll = self.current_history_scroll().saturating_sub(amount);
    }

    /// Scrolls `amount` rows towards the top. Nothing happens while the
    /// history is not rendered.
    pub fn scroll_up(&mut self, amount: usize)
        requires
            old(self).chat_canvas is Some ==> old(self).chat_canvas->0.wf(),
        ensures
            final(self).scroll_view() == old(self).scroll_view().scroll_up(amount as int),
            *final(self) == (AppState {
                history_scroll: final(self).history_scroll,
                ..*old(self)
            }),
    {
        if self.chat_canvas.is_none() {
            return ;
        }
        let max = self.max_history_scroll();
        let wanted = self.history_scroll.saturating_add(amount);
        self.history_scroll = if wanted <= max {
            wanted
        } else {
            max
        };
    }

    /// Scrolls to the first row of the history. Nothing happens while the
    /// history is not rendered.
    pub fn scroll_to_top(&mut self)
        requires
            old(self).chat_canvas is Some ==> old(self).chat_canvas->0.wf(),
        ensures
            final(self).scroll_view() == old(self).scroll_view().scroll_to_top(),
            *final(self) == (AppState {
                history_scroll: final(self).history_scroll,
                ..*old(self)
            }),
    {
        if self.chat_canvas.is_none() {
            return ;
        }
        self.history_scroll = self.max_history_scroll();
    }

    /// Scrolls to the last row of the history.
    pub fn scroll_to_bottom(&mut self)
        ensures
            *final(self) == (AppState { history_scroll: 0, ..*old(self) }),
    {
        self.history_scroll = 0;
    }

    /// Goes to the channel `id`: from its bottom, and with its history not
    /// yet rendered.
    pub fn select_channel(&mut self, id: ChannelID) -> (done: Result<(), StateError>)
        ensures
            done is Ok,
            *final(self) == (AppState {
                selected_channel_id: id,
                history_scroll: 0,
                chat_canvas: None,
                ..*old(self)
            }),
    {
        self.selected_channel_id = id;
        self.history_scroll = 0;
        self.clear_chat_canvas_cache();
        Ok(())
    }

    pub fn toggle_loading_state(&mut self)
        ensures
            *final(self) == (AppState {
                is_loading_more_messages: !old(self).is_loading_more_messages,
                chat_canvas: None,
                ..*old(self)
            }),
    {
        let new_state = !self.is_loading_more_messages;
        self.set_loading_state(new_state);
    }

    /// Says whether more messages are loading; the banner comes or goes
    /// when the history is next drawn.
    pub fn set_loading_state(&mut self, state: bool)
        ensures
            *final(self) == (AppState {
                is_loading_more_messages: state,
                chat_canvas: None,
                ..*old(self)
            }),
    {
        self.is_loading_more_messages = state;
        self.clear_chat_canvas_cache();
    }

    /// Puts `message` among the messages.
    pub fn add_message(&mut self, message: Message)
        requires
            old(self).messages.wf(),
        ensures
            final(self).messages@ == inserted(old(self).messages@, message),
            old(self).with_entry(*final(self), message@),
    {
        self.messages.add_message(message);
        self.clear_chat_canvas_cache();
    }

    /// Puts a made-up message into the selected channel, as if it were sent
    /// at `moment`: with the body `msg`, or one that names the moment.
    pub fn add_fake_message_at(&mut self, msg: Option<&str>, moment: &Moment)
        requires
            old(self).messages.wf(),
        ensures
            old(self).with_entry(
                *final(self),
                fake_message(
                    old(self).selected_channel_id@,
                    body_of(msg),
                    *moment,
                ),
            ),
    {
        let message = match msg {
            Some(msg) => String::from_str(msg),
            None => {
                let mut text = String::from_str("This is a fake message generated at: ");
                text.append(moment.text.as_str());
                text
            },
        };
        self.add_message(
            Message::Standard(
                StandardMessage {
                    user_id: UserID::from("Fake Message"),
                    body: message,
                    message_id: MessageID::from_timestamp(moment.seconds, moment.microseconds),
                    thread_id: MessageID::from_timestamp(moment.seconds, moment.microseconds),
                    channel_id: self.selected_channel_id.clone(),
                },
            ),
        );
    }

    /// Puts a made-up message into the selected channel, sent now.
    pub fn add_fake_message(&mut self, msg: Option<&str>)
        requires
            old(self).messages.wf(),
        ensures
            exists|moment: Moment| #[trigger]
                old(self).with_entry(
                    *final(self),
                    fake_message(
                        old(self).selected_channel_id@,
                        body_of(msg),
                        moment,
                    ),
                ),
    {
        let time = now();
        self.add_fake_message_at(msg, &time);
    }

    /// Puts an error into the history of the selected channel, as if it
    /// came up at `moment`. The error is given by its causes in words, the
    /// error itself first.
    pub fn add_error_message_at(&mut self, causes: &Vec<String>, moment: &Moment)
        requires
            old(self).messages.wf(),
            4 * causes.len() <= usize::MAX,
        ensures
            old(self).with_entry(
                *final(self),
                error_entry(old(self).selected_channel_id@, texts(causes@), *moment),
            ),
    {
        let entry = ErrorMessage::from_error_at(&self.selected_channel_id, causes, moment);
        self.add_message(Message::Error(entry));
    }

    /// Puts an error into the history of the selected channel, come up now.
    pub fn add_error_message(&mut self, causes: &Vec<String>)
        requires
            old(self).messages.wf(),
            4 * causes.len() <= usize::MAX,
        ensures
            exists|moment: Moment| #[trigger]
                old(self).with_entry(
                    *final(self),
                    error_entry(old(self).selected_channel_id@, texts(causes@), moment),
                ),
    {
        let time = now();
        self.add_error_message_at(causes, &time);
    }
}

/// Why the state of the screen could not be made.
#[derive(Debug, Clone, Copy, PartialEq, Eq, Structural)]
pub enum StateError {
    /// The team has no channel that the user is a member of.
    NoChannels,
    /// The team has no name.
    NoTeamName,
}

impl StateError {
    /// The error in words.
    pub open spec fn spec_message(self) -> Seq<char> {
        match self {
            StateError::NoChannels => "Could not find any channels in the Team"@,
            StateError::NoTeamName => "Slack did not provide a Team Name on login"@,
        }
    }

    /// The error in words.
    pub fn message(&self) -> (text: String)
        ensures
            text@ == self.spec_message(),
    {
        String::from_str(
            match self {
                StateError::NoChannels => "Could not find any channels in the Team",
                StateError::NoTeamName => "Slack did not provide a Team Name on login",
            },
        )
    }
}

} // verus!
