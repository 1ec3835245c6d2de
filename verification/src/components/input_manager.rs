//! What each key does.

use vstd::prelude::*;
use crate::components::app::App;
use crate::components::channel_selector::SelectorView;
use crate::models::app_state::{AppState, Mode};

verus! {

/// A key of the keyboard.
#[derive(Debug, Clone, Copy, PartialEq, Eq, Structural)]
pub enum Key {
    Backspace,
    Left,
    Right,
    Up,
    Down,
    Home,
    End,
    PageUp,
    PageDown,
    BackTab,
    Delete,
    Insert,
    F(u8),
    Char(char),
    Alt(char),
    Ctrl(char),
    Null,
    Esc,
}

/// What is to happen after a key.
#[derive(Debug, Clone, Copy, PartialEq, Eq, Structural)]
pub enum Outcome {
    Continue,
    Quit,
}

/// The one who knows what the keys do.
#[derive(Debug)]
pub struct KeyManager {}

/// Number of rows that a page scrolls: two less than the view has, so that
/// two rows of the last page stay.
pub open spec fn page_size(state: AppState) -> int {
    if state.last_chat_height >= 2 {
        state.last_chat_height - 2
    } else {
        0
    }
}

impl KeyManager {
    pub fn new() -> (manager: KeyManager) {
        KeyManager {  }
    }

    /// Does what the key `input` asks for in the mode that `app` is in.
    /// Only `q` in the history asks to quit.
    pub fn handle_key(&mut self, app: &mut App, input: Key) -> (outcome: Outcome)
        requires
            old(app).wf(),
            old(app).channel_selector@.text.len() < usize::MAX,
            old(app).channel_selector@.selected_index < usize::MAX,
        ensures
            final(app).wf(),
            outcome == (if old(app).spec_state().current_mode == Mode::History && input
                == Key::Char('q') {
                Outcome::Quit
            } else {
                Outcome::Continue
            }),
            old(app).spec_state().current_mode == Mode::History ==> history_key_done(
                *old(app),
                input,
                *final(app),
            ),
            old(app).spec_state().current_mode == Mode::SelectChannel ==> select_channel_key_done(
                *old(app),
                input,
                *final(app),
            ),
    {
        match app.state().current_mode() {
            Mode::History => self.handle_history_key(app, input),
            Mode::SelectChannel => self.handle_select_channel_key(app, input),
        }
    }

    /// Does what the key `input` asks for in the history.
    pub fn handle_history_key(&mut self, app: &mut App, input: Key) -> (outcome: Outcome)
        requires
            old(app).wf(),
        ensures
            final(app).wf(),
            outcome == (if input == Key::Char('q') {
                Outcome::Quit
            } else {
                Outcome::Continue
            }),
            history_key_done(*old(app), input, *final(app)),
    {
        match input {
            Key::Char('q') => return Outcome::Quit,
            Key::Char('j') => app.state_mut().scroll_down(1),
            Key::Char('k') => app.state_mut().scroll_up(1),
            Key::Ctrl('f') => {
                // Leave 2 lines from last page visible
                let page_size = app.state().chat_height().saturating_sub(2);
                app.state_mut().scroll_down(page_size as usize);
            },
            Key::Ctrl('b') => {
                // Leave 2 lines from last page visible
                let page_size = app.state().chat_height().saturating_sub(2);
                app.state_mut().scroll_up(page_size as usize)
            },
            Key::Char('G') => {
                let distance = app.state().current_history_scroll();
                app.state_mut().scroll_down(distance)
            },
            Key::Char('b') => app.state_mut().add_fake_message(None),
            Key::Char('B') => app.state_mut().toggle_loading_state(),
            Key::Ctrl('k') => app.state_mut().enter_mode(Mode::SelectChannel),
            _ => {},
        }
        Outcome::Continue
    }

    /// Does what the key `input` asks for in the channel selector.
    pub fn handle_select_channel_key(&mut self, app: &mut App, input: Key) -> (outcome: Outcome)
        requires
            old(app).wf(),
            old(app).channel_selector@.text.len() < usize::MAX,
            old(app).channel_selector@.selected_index < usize::MAX,
        ensures
            final(app).wf(),
            outcome == Outcome::Continue,
            select_channel_key_done(*old(app), input, *final(app)),
    {
        match input {
            Key::Backspace => app.channel_selector.delete_character(),
            Key::Ctrl('w') => app.channel_selector.delete_word(),
            Key::Ctrl('a') => app.channel_selector.move_to_beginning(),
            Key::Ctrl('e') => app.channel_selector.move_to_end(),
            Key::Ctrl('k') => app.channel_selector.reset(),
            Key::Left => app.channel_selector.move_cursor_left(),
            Key::Right => app.channel_selector.move_cursor_right(),
            Key::Up => app.channel_selector.select_previous_match(),
            Key::Down => app.channel_selector.select_next_match(),
            Key::Char('\n') => {
                app.select_channel_from_selector();
                app.channel_selector.reset();
                app.state_mut().enter_mode(Mode::History);
            },
            Key::Esc => {
                app.channel_selector.reset();
                app.state_mut().enter_mode(Mode::History);
            },
            Key::Char(chr) => app.channel_selector.add_character(chr),
            _ => {},
        }
        Outcome::Continue
    }
}

/// Whether `after` is what a key in the history makes of `before`.
///
/// `j` and `k` scroll one row down and up, Ctrl-f and Ctrl-b a page, and
/// `G` to the bottom. `b` puts a made-up message into the channel, `B`
/// turns the banner on or off, and Ctrl-k goes to the channel selector.
/// Every other key leaves things as they are.
pub open spec fn history_key_done(before: App, input: Key, after: App) -> bool {
    let state = before.spec_state();
    let next = after.spec_state();
    &&& after.same_but_state(before)
    &&& match input {
        Key::Char('j') => next.scroll_view() == state.scroll_view().scroll_down(1)
            && next.same_but_scroll(state),
        Key::Char('k') => next.scroll_view() == state.scroll_view().scroll_up(1)
            && next.same_but_scroll(state),
        Key::Ctrl('f') => next.scroll_view() == state.scroll_view().scroll_down(page_size(state))
            && next.same_but_scroll(state),
        Key::Ctrl('b') => next.scroll_view() == state.scroll_view().scroll_up(page_size(state))
            && next.same_but_scroll(state),
        Key::Char('G') => next.history_scroll == 0 && next.same_but_scroll(state),
        Key::Char('b') => exists|moment: crate::clock::Moment| #[trigger]
            state.with_entry(
                next,
                crate::models::app_state::fake_message(state.selected_channel_id@, None, moment),
            ),
        Key::Char('B') => next == (AppState {
            is_loading_more_messages: !state.is_loading_more_messages,
            chat_canvas: None,
            ..state
        }),
        Key::Ctrl('k') => next == (AppState { current_mode: Mode::SelectChannel, ..state }),
        _ => next == state,
    }
}

/// Whether `after` is what a key in the channel selector makes of `before`.
///
/// The keys edit the text and move the cursor and the pick; Enter goes to
/// the picked channel, if there is one, and back to the history; Esc goes
/// back without. Every other key leaves things as they are.
pub open spec fn select_channel_key_done(before: App, input: Key, after: App) -> bool {
    let selector = before.channel_selector@;
    let edited = after.channel_selector@;
    let state = before.spec_state();
    let next = after.spec_state();
    match input {
        Key::Char('\n') => {
            &&& edited == SelectorView::empty()
            &&& before.channel_picked(after)
        },
        Key::Esc => {
            &&& edited == SelectorView::empty()
            &&& after.spec_size() == before.spec_size()
            &&& after.spec_requests() == before.spec_requests()
            &&& next == (AppState { current_mode: Mode::History, ..state })
        },
        _ => {
            &&& after.same_but_selector(before)
            &&& edited == (match input {
                Key::Backspace => selector.delete_character(),
                Key::Ctrl('w') => selector.delete_word(),
                Key::Ctrl('a') => SelectorView { cursor_pos: 0, ..selector },
                Key::Ctrl('e') => SelectorView { cursor_pos: selector.text.len() as int, ..selector },
                Key::Ctrl('k') => SelectorView::empty(),
                Key::Left => SelectorView {
                    cursor_pos: if selector.cursor_pos > 0 {
                        selector.cursor_pos - 1
                    } else {
                        0
                    },
                    ..selector
                },
                Key::Right => SelectorView {
                    cursor_pos: if selector.cursor_pos < selector.text.len() {
                        selector.cursor_pos + 1
                    } else {
                        selector.text.len() as int
                    },
                    ..selector
                },
                Key::Up => SelectorView {
                    selected_index: if selector.selected_index > 0 {
                        selector.selected_index - 1
                    } else {
                        0
                    },
                    ..selector
                },
                Key::Down => SelectorView { selected_index: selector.selected_index + 1, ..selector },
                Key::Char(chr) => selector.add_character(chr),
                _ => selector,
            })
        },
    }
}

} // verus!
