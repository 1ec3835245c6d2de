//! The application: the state of the screen, the channel selector, and the
//! histories that are to be loaded.

use vstd::prelude::*;
use crate::components::channel_selector::{matching, ChannelSelector};
use crate::frame::Rect;
use vstd::string::StringExecFns;
use crate::clock::Moment;
use crate::data::TaskResult;
use crate::models::app_state::{error_entry, AppState, Mode, StateError};
use crate::models::channel::ChannelID;
use crate::models::messages::{
    convertible, message_of, Message, MessageError, MessageSideChannel,
};
use crate::records::MessageRecord;
use crate::util::texts;

verus! {

/// What is said above an error that came up while a report was made a
/// message.
pub open spec fn conversion_context() -> Seq<char> {
    "Could not convert Slack message to internal representation"@
}

/// What is said above an error that came in place of a history.
pub open spec fn history_context() -> Seq<char> {
    "Could not load channel history"@
}

/// An error of a report in words, with what is said above it.
pub open spec fn conversion_causes(error: MessageError) -> Seq<Seq<char>> {
    seq![conversion_context(), error.spec_message()]
}

/// The error that came in place of a history in words, with what is said
/// above it.
pub open spec fn history_causes(causes: Seq<String>) -> Seq<Seq<char>> {
    seq![history_context()] + texts(causes)
}

/// Whether `after` is the state `before` after the report `record` was
/// taken in, found in the channel `side_channel`: with the message that the
/// report makes, if it makes one; with an entry for the error in the
/// selected channel, dated by the clock, where the report lacks something;
/// and as it was where the report is of a kind that is not shown.
pub open spec fn accepted_one(
    before: AppState,
    record: MessageRecord,
    side_channel: Seq<char>,
    after: AppState,
) -> bool {
    match message_of(record, Some(side_channel)) {
        Ok(Some(message)) => before.with_entry(after, message),
        Ok(None) => after == before,
        Err(error) => exists|moment: Moment| #[trigger]
            before.with_entry(
                after,
                error_entry(before.selected_channel_id@, conversion_causes(error), moment),
            ),
    }
}

/// Whether `after` is the state `before` after the reports `records` were
/// taken in, one after the other.
pub open spec fn accepted_all(
    before: AppState,
    records: Seq<MessageRecord>,
    side_channel: Seq<char>,
    after: AppState,
) -> bool
    decreases records.len(),
{
    if records.len() == 0 {
        after == before
    } else {
        exists|between: AppState|
            accepted_all(before, records.drop_last(), side_channel, between) && #[trigger] accepted_one(
                between,
                records.last(),
                side_channel,
                after,
            )
    }
}

/// Whether `after` is the state `before` after the answer `response` to a
/// request for the history of the channel `channel_id` was taken in: its
/// messages, or an entry for the error that came instead.
pub open spec fn history_accepted(
    before: AppState,
    channel_id: Seq<char>,
    response: Result<Option<Vec<MessageRecord>>, Vec<String>>,
    after: AppState,
) -> bool {
    match response {
        Ok(Some(messages)) => accepted_all(before, messages@, channel_id, after),
        Ok(None) => after == before,
        Err(causes) => exists|moment: Moment| #[trigger]
            before.with_entry(
                after,
                error_entry(before.selected_channel_id@, history_causes(causes@), moment),
            ),
    }
}

/// Whether every report of an answer can be made a message.
pub open spec fn all_convertible(
    channel_id: Seq<char>,
    response: Result<Option<Vec<MessageRecord>>, Vec<String>>,
) -> bool {
    match response {
        Ok(Some(messages)) => forall|i: int|
            0 <= i < messages@.len() ==> convertible(#[trigger] messages@[i], Some(channel_id)),
        Ok(None) => true,
        Err(causes) => 4 * (causes@.len() + 1) <= usize::MAX,
    }
}

/// The application.
#[derive(Debug)]
pub struct App {
    pub size: Rect,
    pub state: AppState,
    /// The channels whose history was asked for and is not yet requested
    /// from the service, oldest first.
    pub requests: Vec<ChannelID>,
    pub channel_selector: ChannelSelector,
}

impl App {
    /// The state of the screen.
    pub open spec fn spec_state(&self) -> AppState {
        self.state
    }

    /// The size of the screen.
    pub open spec fn spec_size(&self) -> Rect {
        self.size
    }

    /// The channels whose history is to be requested, oldest first.
    pub open spec fn spec_requests(&self) -> Seq<Seq<char>> {
        self.requests@.map_values(|id: ChannelID| id@)
    }

    /// The state and the selector are valid.
    pub open spec fn wf(&self) -> bool {
        self.spec_state().wf() && self.channel_selector.wf()
    }

    /// Whether only the state differs from `other`.
    pub open spec fn same_but_state(&self, other: App) -> bool {
        &&& self.spec_size() == other.spec_size()
        &&& self.spec_requests() == other.spec_requests()
        &&& self.channel_selector == other.channel_selector
    }

    /// Whether only the selector differs from `other`.
    pub open spec fn same_but_selector(&self, other: App) -> bool {
        &&& self.spec_size() == other.spec_size()
        &&& self.spec_requests() == other.spec_requests()
        &&& self.spec_state() == other.spec_state()
    }

    /// Whether `after` is this application after it went to the channel
    /// that the selector picks: the history of that channel is asked for,
    /// the banner is on, and the channel is selected and shown from its
    /// bottom. Where the selector picks none, nothing of this happens. In
    /// either case the state is back in the mode of the history.
    pub open spec fn channel_picked(&self, after: App) -> bool {
        let state = self.spec_state();
        let found = matching(state.channels@, self.channel_selector@.text);
        let index = self.channel_selector@.selected_index;
        &&& after.spec_size() == self.spec_size()
        &&& if index < found.len() {
            &&& after.spec_requests() == self.spec_requests().push(found[index]@.id)
            &&& after.spec_state().selected_channel_id@ == found[index]@.id
            &&& after.spec_state() == (AppState {
                current_mode: Mode::History,
                selected_channel_id: after.spec_state().selected_channel_id,
                history_scroll: 0,
                chat_canvas: None,
                is_loading_more_messages: true,
                ..state
            })
        } else {
            &&& after.spec_requests() == self.spec_requests()
            &&& after.spec_state() == (AppState { current_mode: Mode::History, ..state })
        }
    }

    pub fn new(state: AppState, size: Rect) -> (app: App)
        ensures
            app.spec_state() == state,
            app.spec_size() == size,
            app.spec_requests() == Seq::<Seq<char>>::empty(),
            app.channel_selector@ == crate::components::channel_selector::SelectorView::empty(),
    {
        let app = App { channel_selector: ChannelSelector::new(), requests: Vec::new(), size, state };
        assert(app.spec_requests() =~= Seq::<Seq<char>>::empty());
        app
    }

    pub fn state(&self) -> (state: &AppState)
        ensures
            *state == self.spec_state(),
    {
        &self.state
    }

    pub fn state_mut(&mut self) -> (state: &mut AppState)
        ensures
            *state == old(self).spec_state(),
            final(self).spec_state() == *final(state),
            final(self).same_but_state(*old(self)),
    {
        &mut self.state
    }

    pub fn size(&self) -> (size: &Rect)
        ensures
            *size == self.spec_size(),
    {
        &self.size
    }

    /// Takes the new size of the screen; the history is rendered anew when
    /// it is next drawn.
    pub fn resize(&mut self, size: Rect)
        ensures
            final(self).spec_size() == size,
            final(self).spec_state() == (AppState { chat_canvas: None, ..old(self).spec_state() }),
            final(self).spec_requests() == old(self).spec_requests(),
            final(self).channel_selector == old(self).channel_selector,
    {
        self.size = size;
        self.state.chat_canvas = None;
    }

    /// Goes to the channel that the selector picks, if it picks one.
    pub fn select_channel_from_selector(&mut self) -> (done: Result<(), StateError>)
        requires
            old(self).channel_selector@.selected_index < usize::MAX,
        ensures
            done is Ok,
            final(self).channel_selector == old(self).channel_selector,
            old(self).channel_picked_in_mode(*final(self)),
    {
        match self.channel_selector.select(&self.state.channels) {
            Some(id) => {
                self.async_load_channel_history(&id);
                self.state.select_channel(id)
            },
            None => Ok(()),
        }
    }

    /// Whether `after` is this application after it went to the channel
    /// that the selector picks, in whatever mode it is.
    pub open spec fn channel_picked_in_mode(&self, after: App) -> bool {
        let state = self.spec_state();
        let found = matching(state.channels@, self.channel_selector@.text);
        let index = self.channel_selector@.selected_index;
        &&& after.spec_size() == self.spec_size()
        &&& if index < found.len() {
            &&& after.spec_requests() == self.spec_requests().push(found[index]@.id)
            &&& after.spec_state().selected_channel_id@ == found[index]@.id
            &&& after.spec_state() == (AppState {
                selected_channel_id: after.spec_state().selected_channel_id,
                history_scroll: 0,
                chat_canvas: None,
                is_loading_more_messages: true,
                ..state
            })
        } else {
            &&& after.spec_requests() == self.spec_requests()
            &&& after.spec_state() == state
        }
    }

    /// Asks for the history of the channel `channel_id`, and turns the
    /// banner on.
    pub fn async_load_channel_history(&mut self, channel_id: &ChannelID)
        ensures
            final(self).spec_size() == old(self).spec_size(),
            final(self).channel_selector == old(self).channel_selector,
            final(self).spec_requests() == old(self).spec_requests().push(channel_id@),
            final(self).spec_state() == (AppState {
                is_loading_more_messages: true,
                chat_canvas: None,
                ..old(self).spec_state()
            }),
    {
        self.state.set_loading_state(true);
        self.requests.push(channel_id.clone());
        assert(self.spec_requests() =~= old(self).spec_requests().push(channel_id@));
    }

    /// Whether each of the reports `messages`, found in the channel
    /// `channel_id`, can be made a message.
    fn can_convert_all(messages: &Vec<MessageRecord>, channel_id: &ChannelID) -> (can: bool)
        ensures
            can == (forall|i: int|
                0 <= i < messages@.len() ==> convertible(
                    #[trigger] messages@[i],
                    Some(channel_id@),
                )),
    {
        let side_channel = MessageSideChannel { channel_id: Some(channel_id.clone()) };
        let mut i: usize = 0;
        while i < messages.len()
            invariant
                i <= messages.len(),
                side_channel.spec_channel() == Some(channel_id@),
                forall|k: int|
                    0 <= k < i ==> convertible(#[trigger] messages@[k], Some(channel_id@)),
            decreases messages.len() - i,
        {
            if !Message::can_convert(&messages[i], Some(&side_channel)) {
                assert(!convertible(messages@[i as int], Some(channel_id@)));
                return false;
            }
            i += 1;
        }
        true
    }

    /// Whether what came back from a task can be taken in: every report
    /// of a history can be made a message.
    pub fn can_accept(result: &TaskResult) -> (can: bool)
        ensures
            can == (match *result {
                TaskResult::ChannelHistory(channel_id, response) => all_convertible(
                    channel_id@,
                    response,
                ),
            }),
    {
        match result {
            TaskResult::ChannelHistory(channel_id, response) => match response {
                Ok(Some(messages)) => App::can_convert_all(messages, channel_id),
                Ok(None) => true,
                Err(causes) => causes.len() < usize::MAX / 4,
            },
        }
    }

    /// Takes in what came back from a task: the banner goes, and the
    /// history that came is put among the messages.
    pub fn accept_task_result(&mut self, result: TaskResult) -> (done: Result<(), StateError>)
        requires
            old(self).spec_state().messages.wf(),
            match result {
                TaskResult::ChannelHistory(channel_id, response) => all_convertible(
                    channel_id@,
                    response,
                ),
            },
        ensures
            done is Ok,
            final(self).spec_size() == old(self).spec_size(),
            final(self).spec_requests() == old(self).spec_requests(),
            final(self).channel_selector == old(self).channel_selector,
            final(self).spec_state().messages.wf(),
            match result {
                TaskResult::ChannelHistory(channel_id, response) => history_accepted(
                    AppState {
                        is_loading_more_messages: false,
                        chat_canvas: None,
                        ..old(self).spec_state()
                    },
                    channel_id@,
                    response,
                    final(self).spec_state(),
                ),
            },
    {
        match result {
            TaskResult::ChannelHistory(channel_id, response) => {
                self.state.set_loading_state(false);
                self.accept_channel_history(channel_id, response)
            },
        }
    }

    /// Takes in one report of a history.
    fn accept_message(&mut self, message: &MessageRecord, side_channel: &MessageSideChannel)
        requires
            old(self).spec_state().messages.wf(),
            side_channel.channel_id is Some,
            convertible(*message, side_channel.spec_channel()),
        ensures
            final(self).spec_size() == old(self).spec_size(),
            final(self).spec_requests() == old(self).spec_requests(),
            final(self).channel_selector == old(self).channel_selector,
            final(self).spec_state().messages.wf(),
            accepted_one(
                old(self).spec_state(),
                *message,
                side_channel.spec_channel()->0,
                final(self).spec_state(),
            ),
    {
        match Message::from_slack_message(message, Some(side_channel)) {
            Ok(Some(message)) => self.state.add_message(message),
            Ok(None) => {},
            Err(error) => {
                let mut causes: Vec<String> = Vec::new();
                causes.push(
                    String::from_str("Could not convert Slack message to internal representation"),
                );
                causes.push(error.message());
                assert(texts(causes@) =~= conversion_causes(error));
                self.state.add_error_message(&causes);
            },
        }
    }

    fn accept_channel_history(
        &mut self,
        channel_id: ChannelID,
        response: Result<Option<Vec<MessageRecord>>, Vec<String>>,
    ) -> (done: Result<(), StateError>)
        requires
            old(self).spec_state().messages.wf(),
            all_convertible(channel_id@, response),
        ensures
            done is Ok,
            final(self).spec_size() == old(self).spec_size(),
            final(self).spec_requests() == old(self).spec_requests(),
            final(self).channel_selector == old(self).channel_selector,
            final(self).spec_state().messages.wf(),
            history_accepted(
                old(self).spec_state(),
                channel_id@,
                response,
                final(self).spec_state(),
            ),
    {
        match response {
            Ok(response) => {
                if let Some(messages) = response {
                    let side_channel = MessageSideChannel { channel_id: Some(channel_id) };
                    let mut i: usize = 0;
                    while i < messages.len()
                        invariant
                            i <= messages.len(),
                            side_channel.spec_channel() == Some(channel_id@),
                            forall|k: int|
                                0 <= k < messages@.len() ==> convertible(
                                    #[trigger] messages@[k],
                                    Some(channel_id@),
                                ),
                            self.spec_size() == old(self).spec_size(),
                            self.spec_requests() == old(self).spec_requests(),
                            self.channel_selector == old(self).channel_selector,
                            self.spec_state().messages.wf(),
                            accepted_all(
                                old(self).spec_state(),
                                messages@.take(i as int),
                                channel_id@,
                                self.spec_state(),
                            ),
                        decreases messages.len() - i,
                    {
                        let ghost between = self.state;
                        self.accept_message(&messages[i], &side_channel);
                        proof {
                            let taken = messages@.take(i + 1);
                            assert(taken.drop_last() == messages@.take(i as int));
                            assert(taken.last() == messages@[i as int]);
                            assert(accepted_all(old(self).spec_state(), taken.drop_last(), channel_id@, between)
                                && accepted_one(between, taken.last(), channel_id@, self.spec_state()));
                        }
                        i += 1;
                    }
                    assert(messages@.take(messages.len() as int) == messages@);
                }
                Ok(())
            },
            Err(error) => {
                let mut causes: Vec<String> = Vec::new();
                causes.push(String::from_str("Could not load channel history"));
                let mut i: usize = 0;
                while i < error.len()
                    invariant
                        i <= error.len(),
                        texts(causes@) == seq![history_context()] + texts(error@).take(i as int),
                    decreases error.len() - i,
                {
                    let ghost before = causes@;
                    causes.push(error[i].clone());
                    assert(texts(causes@) =~= texts(before).push(error@[i as int]@));
                    assert(texts(error@).take(i + 1) =~= texts(error@).take(i as int).push(
                        error@[i as int]@,
                    ));
                    i += 1;
                }
                assert(texts(error@).take(error.len() as int) == texts(error@));
                self.state.add_error_message(&causes);
                Ok(())
            },
        }
    }

    /// Hands out the channels whose history is to be requested, oldest
    /// first, and forgets them.
    pub fn take_requests(&mut self) -> (requests: Vec<ChannelID>)
        ensures
            requests@.map_values(|id: ChannelID| id@) == old(self).spec_requests(),
            final(self).spec_requests() == Seq::<Seq<char>>::empty(),
            final(self).spec_state() == old(self).spec_state(),
            final(self).spec_size() == old(self).spec_size(),
            final(self).channel_selector == old(self).channel_selector,
    {
        let mut requests: Vec<ChannelID> = Vec::new();
        std::mem::swap(&mut requests, &mut self.requests);
        assert(self.spec_requests() =~= Seq::<Seq<char>>::empty());
        requests
    }
}

} // verus!
