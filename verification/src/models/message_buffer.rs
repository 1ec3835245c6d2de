//! The messages that the client holds, in the order of their identifiers.

use vstd::prelude::*;
use crate::canvas::{Canvas, CanvasView};
use crate::keyed::{inserted, KeyedList};
use crate::models::app_state::AppState;
use crate::models::messages::loading::loading_banner;
use crate::models::messages::{HistoryEntry, LoadingMessage, Message, MessageView};
use crate::models::user::User;
use crate::style::Style;

verus! {

/// The history with one more message looked at: where the message belongs
/// to the channel `selected`, its rows come behind the others, and a line
/// feed behind them; a message of another channel changes nothing.
pub open spec fn shown_entry(
    canvas: CanvasView,
    message: MessageView,
    users: Seq<User>,
    selected: Seq<char>,
    width: int,
) -> CanvasView {
    if message.channel_id() == selected {
        canvas.append(message.rendered(users, width)).put_str("\n"@, Style::plain(), false)
    } else {
        canvas
    }
}

/// The history after the messages `entries` were looked at in order.
pub open spec fn shown_entries(
    canvas: CanvasView,
    entries: Seq<Message>,
    users: Seq<User>,
    selected: Seq<char>,
    width: int,
) -> CanvasView
    decreases entries.len(),
{
    if entries.len() == 0 {
        canvas
    } else {
        shown_entry(
            shown_entries(canvas, entries.drop_last(), users, selected, width),
            entries.last()@,
            users,
            selected,
            width,
        )
    }
}

/// The history of the channel `selected` as rows of `width` columns: the
/// banner first while more messages are loading, then the messages of the
/// channel in their order.
pub open spec fn history(
    entries: Seq<Message>,
    users: Seq<User>,
    selected: Seq<char>,
    loading: bool,
    width: int,
) -> CanvasView {
    let start = if loading {
        CanvasView::empty(width).append(loading_banner(width))
    } else {
        CanvasView::empty(width)
    };
    shown_entries(start, entries, users, selected, width)
}

/// The messages of `entries` that belong to the channel `selected`.
pub open spec fn entries_of(entries: Seq<Message>, selected: Seq<char>) -> Seq<Message> {
    entries.filter(|message: Message| message@.channel_id() == selected)
}

/// The history of a channel is made of the messages of that channel alone:
/// it is the same as if the messages of the other channels were not there.
pub proof fn lemma_history_of_selected_only(
    entries: Seq<Message>,
    users: Seq<User>,
    selected: Seq<char>,
    loading: bool,
    width: int,
)
    ensures
        history(entries, users, selected, loading, width) == history(
            entries_of(entries, selected),
            users,
            selected,
            loading,
            width,
        ),
{
    let start = if loading {
        CanvasView::empty(width).append(loading_banner(width))
    } else {
        CanvasView::empty(width)
    };
    lemma_shown_entries_of_selected_only(start, entries, users, selected, width);
}

/// Looking at messages changes the rows by the messages of the selected
/// channel alone.
pub proof fn lemma_shown_entries_of_selected_only(
    canvas: CanvasView,
    entries: Seq<Message>,
    users: Seq<User>,
    selected: Seq<char>,
    width: int,
)
    ensures
        shown_entries(canvas, entries, users, selected, width) == shown_entries(
            canvas,
            entries_of(entries, selected),
            users,
            selected,
            width,
        ),
        forall|i: int|
            0 <= i < entries_of(entries, selected).len() ==> (#[trigger] entries_of(
                entries,
                selected,
            )[i])@.channel_id() == selected,
    decreases entries.len(),
{
    let keep = |message: Message| message@.channel_id() == selected;
    if entries.len() == 0 {
        reveal(Seq::filter);
        assert(entries.filter(keep) =~= entries);
    } else {
        let front = entries.drop_last();
        let last = entries.last();
        lemma_shown_entries_of_selected_only(canvas, front, users, selected, width);
        reveal(Seq::filter);
        if keep(last) {
            assert(entries.filter(keep) == front.filter(keep).push(last));
            assert(entries.filter(keep).drop_last() =~= front.filter(keep));
        } else {
            assert(entries.filter(keep) == front.filter(keep));
        }
    }
}

/// The messages of all channels, in the order of their identifiers.
#[derive(Debug, Clone)]
pub struct MessageBuffer {
    messages: KeyedList<Message>,
}

impl View for MessageBuffer {
    type V = Seq<Message>;

    closed spec fn view(&self) -> Seq<Message> {
        self.messages@
    }
}

impl MessageBuffer {
    /// The identifiers rise strictly from each message to the next.
    pub closed spec fn wf(&self) -> bool {
        self.messages.wf()
    }

    /// A buffer of messages is sorted by identifier.
    pub proof fn lemma_wf(&self)
        ensures
            self.wf() == crate::keyed::sorted(self@),
    {
    }

    pub fn new() -> (buffer: MessageBuffer)
        ensures
            buffer@ == Seq::<Message>::empty(),
            buffer.wf(),
    {
        MessageBuffer { messages: KeyedList::new() }
    }

    /// Number of messages.
    pub fn len(&self) -> (len: usize)
        ensures
            len == self@.len(),
    {
        self.messages.len()
    }

    /// Puts `entry` among the messages, in place of the message that had
    /// its identifier if there was one.
    pub fn add<E: HistoryEntry>(&mut self, entry: E)
        requires
            old(self).wf(),
        ensures
            exists|message: Message|
                message@ == entry.entry() && final(self)@ == #[trigger] inserted(
                    old(self)@,
                    message,
                ),
            final(self).wf(),
    {
        let message = entry.into_message();
        let ghost put = message;
        self.messages.insert(message);
        assert(put@ == entry.entry() && self@ == inserted(old(self)@, put));
    }

    /// Puts `message` among the messages, in place of the message that had
    /// its identifier if there was one.
    pub fn add_message(&mut self, message: Message)
        requires
            old(self).wf(),
        ensures
            final(self)@ == inserted(old(self)@, message),
            final(self).wf(),
    {
        self.messages.insert(message);
    }

    /// The history of the channel that `state` has selected, as rows of
    /// `width` columns.
    pub fn render_as_canvas(&self, state: &AppState, width: u16) -> (canvas: Canvas)
        requires
            width > 0,
            state.users.wf(),
        ensures
            canvas.wf(),
            canvas@.width == width,
            canvas@ == history(
                self@,
                state.users@,
                state.selected_channel_id@,
                state.is_loading_more_messages,
                width as int,
            ),
    {
        let mut canvas = Canvas::new(width);
        if state.is_loading_more_messages {
            canvas.append(LoadingMessage::new().render_as_canvas(width));
        }
        let ghost start = canvas@;
        let mut i: usize = 0;
        while i < self.messages.len()
            invariant
                i <= self@.len(),
                width > 0,
                state.users.wf(),
                canvas.wf(),
                canvas@.width == width,
                canvas@ == shown_entries(
                    start,
                    self@.take(i as int),
                    state.users@,
                    state.selected_channel_id@,
                    width as int,
                ),
            decreases self@.len() - i,
        {
            let message = self.messages.at(i);
            assert(self@.take(i + 1).drop_last() == self@.take(i as int));
            if message.channel_id().is(&state.selected_channel_id) {
                canvas.append(message.render_as_canvas(state, width));
                canvas.add_string_truncated("\n", Style::default());
            }
            i += 1;
        }
        assert(self@.take(self@.len() as int) == self@);
        canvas
    }
}

} // verus!
