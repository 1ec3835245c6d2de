//! What goes where on the screen, and what the lines around the history
//! say.

use vstd::prelude::*;
use vstd::string::StringExecFns;
use crate::components::app::App;
use crate::components::channel_selector::top;
use crate::frame::{Frame, Rect};
use crate::keyed::lookup;
use crate::models::app_state::{AppState, Mode};
use crate::text::{decimal, lemma_decimal_unpadded, pad_right, padded_right, push_decimal};
use crate::widgets::chat_history::{shown_cell, ChatHistory};

verus! {

/// The larger of half of `whole` and `least`, but no more than `whole`.
pub open spec fn half_or_least(whole: int, least: int) -> int {
    let half = if whole / 2 >= least {
        whole / 2
    } else {
        least
    };
    if half <= whole {
        half
    } else {
        whole
    }
}

/// The rectangle of the channel selector on a screen `size`: half of the
/// screen each way, but at least 40 columns and 20 rows where the screen has
/// them, and in the middle of the screen.
pub open spec fn spec_selector_rect(size: Rect) -> Rect {
    let width = half_or_least(size.width as int, 40);
    let height = half_or_least(size.height as int, 20);
    Rect {
        x: ((size.x + size.width / 2) - width / 2) as u16,
        y: ((size.y + size.height / 2) - height / 2) as u16,
        width: width as u16,
        height: height as u16,
    }
}

/// The rectangle of the channel selector on a screen `size`.
pub fn selector_rect(size: &Rect) -> (rect: Rect)
    requires
        size.on_screen(),
    ensures
        rect == spec_selector_rect(*size),
        size.encloses(rect),
{
    // Pick the largest out of 50% and X cells in both directions, but also cap it to display
    // size if it's smaller than the intended minimum.
    let half_width = size.width / 2;
    let wide = if half_width >= 40 {
        half_width
    } else {
        40
    };
    let width = if wide <= size.width {
        wide
    } else {
        size.width
    };
    let half_height = size.height / 2;
    let high = if half_height >= 20 {
        half_height
    } else {
        20
    };
    let height = if high <= size.height {
        high
    } else {
        size.height
    };
    // Center selector in the middle of parent size
    Rect {
        x: (size.x + size.width / 2) - (width / 2),
        y: (size.y + size.height / 2) - (height / 2),
        width,
        height,
    }
}

/// The two parts of the channel selector.
#[derive(Debug, Clone, Copy, PartialEq, Eq, Structural)]
pub struct SelectorLayout {
    /// The line in which the name is typed.
    pub input: Rect,
    /// The list of the matching channels.
    pub list: Rect,
}

/// The parts of a channel selector that fills `rect`, inside its border:
/// the line of text on the first row, and the list from the third row on.
/// A selector of 5 columns or rows, or less, has none.
pub fn selector_layout(rect: &Rect) -> (layout: Option<SelectorLayout>)
    requires
        rect.width > 5 && rect.height > 5 ==> rect.on_screen(),
    ensures
        layout == (if rect.width <= 5 || rect.height <= 5 {
            None
        } else {
            Some(
                SelectorLayout {
                    input: Rect {
                        x: (rect.x + 1) as u16,
                        y: (rect.y + 1) as u16,
                        width: (rect.width - 2) as u16,
                        height: 1,
                    },
                    list: Rect {
                        x: (rect.x + 1) as u16,
                        y: (rect.y + 3) as u16,
                        width: (rect.width - 2) as u16,
                        height: (rect.height - 4) as u16,
                    },
                },
            )
        }),
{
    if rect.width <= 5 || rect.height <= 5 {
        return None;
    }
    let input = Rect::new(rect.left() + 1, rect.top() + 1, rect.width - 2, 1);
    let list = Rect::new(rect.left() + 1, rect.top() + 3, rect.width - 2, rect.height - 4);
    Some(SelectorLayout { input, list })
}

/// The line of a channel in the list of the selector: a number sign and the
/// name, with spaces behind it up to `width` characters behind the sign.
pub open spec fn match_line(name: Seq<char>, width: int) -> Seq<char> {
    seq!['#'] + padded_right(name, width)
}

/// The lines of the list of the selector, for a list of the size `list`:
/// one for each of the first matching channels, as many as the list has
/// rows.
pub fn match_lines(app: &App, list: &Rect) -> (lines: Vec<String>)
    ensures
        lines@.len() == top(
            app.spec_state().channels@,
            app.channel_selector@.text,
            list.height as int,
        ).len(),
        forall|i: int|
            0 <= i < lines@.len() ==> (#[trigger] lines@[i])@ == match_line(
                top(
                    app.spec_state().channels@,
                    app.channel_selector@.text,
                    list.height as int,
                )[i]@.name,
                list.width as int,
            ),
{
    // The list does not draw a background behind its items; the items are
    // padded with spaces to achieve the same effect.
    let matches = app.channel_selector.top_matches(&app.state().channels, list.height as usize);
    let mut lines: Vec<String> = Vec::new();
    let mut i: usize = 0;
    while i < matches.len()
        invariant
            i <= matches.len(),
            lines@.len() == i,
            forall|k: int|
                0 <= k < i ==> (#[trigger] lines@[k])@ == match_line(
                    matches@[k].channel@.name,
                    list.width as int,
                ),
        decreases matches.len() - i,
    {
        let mut line = String::from_str("#");
        let padded = pad_right(matches[i].channel.name(), list.width as usize);
        line.append(padded.as_str());
        proof {
            reveal_strlit("#");
            assert("#"@ =~= seq!['#']);
        }
        lines.push(line);
        i += 1;
    }
    lines
}

/// The line above the history: the team, the selected channel and its
/// topic, in markup.
pub open spec fn spec_breadcrumbs(state: AppState) -> Seq<char> {
    match lookup(state.channels@, state.selected_channel_id@) {
        Some(channel) => "{mod=bold "@ + state.team_name@ + "} > {mod=bold #"@ + channel@.name
            + "} ["@ + (match channel@.topic_text {
            Some(text) => "{fg=white "@ + text + "}"@,
            None => "{fg=gray No channel topic}"@,
        }) + "]"@,
        None => state.team_name@ + " > (No channel selected)"@,
    }
}

/// The line above the history.
pub fn breadcrumbs_text(state: &AppState) -> (text: String)
    requires
        state.channels.wf(),
    ensures
        text@ == spec_breadcrumbs(*state),
{
    match state.selected_channel() {
        Some(channel) => {
            let mut text = String::from_str("{mod=bold ");
            text.append(state.team_name.as_str());
            text.append("} > {mod=bold #");
            text.append(channel.name());
            text.append("} [");
            match channel.topic_text() {
                Some(topic) => {
                    text.append("{fg=white ");
                    text.append(topic);
                    text.append("}");
                },
                None => text.append("{fg=gray No channel topic}"),
            }
            text.append("]");
            assert(text@ =~= spec_breadcrumbs(*state));
            text
        },
        None => {
            let mut text = state.team_name.clone();
            text.append(" > (No channel selected)");
            text
        },
    }
}

/// The line below the history: the mode, and how far the history is
/// scrolled of how far it can be, in markup.
pub open spec fn spec_statusbar(state: AppState) -> Seq<char> {
    (match state.current_mode {
        Mode::History => "{bg=cyan;fg=black HISTORY} - ["@,
        Mode::SelectChannel => "{bg=black;fg=white CHANNELS} - ["@,
    }) + decimal(state.history_scroll as nat) + "/"@ + decimal(
        state.scroll_view().max_scroll() as nat,
    ) + "]"@
}

/// The line below the history.
pub fn statusbar_text(state: &AppState) -> (text: String)
    requires
        state.chat_canvas is Some ==> state.chat_canvas->0.wf(),
    ensures
        text@ == spec_statusbar(*state),
{
    let mut text = String::from_str(
        match state.current_mode {
            Mode::History => "{bg=cyan;fg=black HISTORY} - [",
            Mode::SelectChannel => "{bg=black;fg=white CHANNELS} - [",
        },
    );
    push_decimal(&mut text, state.history_scroll as u64, 0);
    text.append("/");
    push_decimal(&mut text, state.max_history_scroll() as u64, 0);
    text.append("]");
    proof {
        lemma_decimal_unpadded(state.history_scroll as nat);
        lemma_decimal_unpadded(state.scroll_view().max_scroll() as nat);
        assert(text@ =~= spec_statusbar(*state));
    }
    text
}

/// The line in which a reply is typed, in markup.
pub fn input_text() -> (text: String)
    ensures
        text@ == "{fg=dark_gray Enter a reply...}"@,
{
    String::from_str("{fg=dark_gray Enter a reply...}")
}

/// Draws the history of the selected channel into the cells of `rect`,
/// scrolled as the state says. The history is rendered one column less
/// wide than `rect`, where none is kept; the height of `rect` is remembered
/// as the height of the view. A `rect` of one column or none is left
/// alone, whatever the frame.
pub fn render_history(state: &mut AppState, buf: &mut Frame, rect: &Rect)
    requires
        old(state).wf(),
        rect.width >= 2 ==> {
            &&& old(buf).wf()
            &&& rect.on_screen()
            &&& old(buf).area.encloses(*rect)
            &&& old(state).chat_canvas is Some ==> old(state).chat_canvas->0@.width
                == rect.width - 1
        },
    ensures
        final(state).wf(),
        final(buf).area == old(buf).area,
        rect.width >= 2 ==> final(buf).wf(),
        rect.width < 2 ==> *final(state) == *old(state) && *final(buf) == *old(buf),
        rect.width >= 2 ==> {
            &&& final(state).chat_canvas is Some
            &&& *final(state) == (AppState {
                chat_canvas: final(state).chat_canvas,
                last_chat_height: rect.height,
                ..*old(state)
            })
            &&& match old(state).chat_canvas {
                Some(kept) => final(state).chat_canvas->0 == kept,
                None => final(state).chat_canvas->0@ == old(state).history(rect.width - 1),
            }
            &&& forall|x: int, y: int|
                old(buf).area.contains(x, y) ==> #[trigger] final(buf).cell_at(x, y)
                    == shown_cell(
                    final(state).chat_canvas->0@,
                    final(state).scroll_view().current(),
                    *rect,
                    old(buf).cell_at(x, y),
                    x,
                    y,
                )
        },
{
    if rect.width < 2 {
        return ;
    }
    // Leave one width for scrollbar
    state.rendered_chat_canvas(rect.width - 1, rect.height);
    let scroll = state.current_history_scroll();
    match &state.chat_canvas {
        Some(canvas) => {
            let mut history = ChatHistory::with_canvas(canvas);
            history.scroll(scroll);
            history.draw(rect, buf);
        },
        None => {},
    }
}

} // verus!
