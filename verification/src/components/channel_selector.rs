//! The channel selector: a line of text with a cursor, and the channels
//! whose names the text matches.

use vstd::prelude::*;
use crate::models::channel::{Channel, ChannelID, ChannelList};
use crate::order::{compare, precedes, Precedence};
use crate::text::{chars_of, text_of_chars};

verus! {

/// What the selector holds, as mathematics.
pub struct SelectorView {
    /// The text typed so far.
    pub text: Seq<char>,
    /// Number of characters in front of the cursor.
    pub cursor_pos: int,
    /// Which of the matching channels is picked, counted from the first.
    pub selected_index: int,
}

/// Index of the last space among the first `end` characters of `text`, or 0
/// where there is none.
pub open spec fn last_space(text: Seq<char>, end: int) -> int
    decreases end,
{
    if end <= 0 {
        0
    } else if text[end - 1] == ' ' {
        end - 1
    } else {
        last_space(text, end - 1)
    }
}

impl SelectorView {
    /// The cursor stands inside the text or at its end.
    pub open spec fn wf(self) -> bool {
        0 <= self.cursor_pos <= self.text.len() && 0 <= self.selected_index
    }

    /// The empty selector.
    pub open spec fn empty() -> SelectorView {
        SelectorView { text: Seq::empty(), cursor_pos: 0, selected_index: 0 }
    }

    /// One more character at the cursor, and the cursor behind it.
    pub open spec fn add_character(self, chr: char) -> SelectorView {
        SelectorView {
            text: self.text.insert(self.cursor_pos, chr),
            cursor_pos: self.cursor_pos + 1,
            ..self
        }
    }

    /// The character in front of the cursor removed, where there is one.
    pub open spec fn delete_character(self) -> SelectorView {
        if self.cursor_pos > 0 {
            SelectorView {
                text: self.text.remove(self.cursor_pos - 1),
                cursor_pos: self.cursor_pos - 1,
                ..self
            }
        } else {
            self
        }
    }

    /// Where the word in front of the cursor starts: at the last space in
    /// front of the character before the cursor, or at the start of the
    /// text.
    pub open spec fn word_start(self) -> int {
        last_space(self.text, self.cursor_pos - 1)
    }

    /// The word in front of the cursor removed, together with the space in
    /// front of it, and the cursor where the word stood.
    pub open spec fn delete_word(self) -> SelectorView {
        if self.cursor_pos > 0 {
            SelectorView {
                text: self.text.take(self.word_start()) + self.text.skip(self.cursor_pos),
                cursor_pos: self.word_start(),
                ..self
            }
        } else {
            self
        }
    }
}

/// Index of the first `chr` in `name`, or the length of `name` where it has
/// none.
pub open spec fn first_index(name: Seq<char>, chr: char) -> int
    decreases name.len(),
{
    if name.len() == 0 {
        0
    } else if name[0] == chr {
        0
    } else {
        1 + first_index(name.drop_first(), chr)
    }
}

/// Whether the name `name` matches the typed `text`: the first character of
/// the text occurs in the name, and what is left of the text matches the
/// name from that place on, that place included.
pub open spec fn name_matches(name: Seq<char>, text: Seq<char>) -> bool
    decreases text.len(),
{
    if text.len() == 0 {
        true
    } else {
        let place = first_index(name, text[0]);
        place < name.len() && name_matches(name.skip(place), text.drop_first())
    }
}

/// The channels whose names match `text`, in the order of the list.
pub open spec fn matching(channels: Seq<Channel>, text: Seq<char>) -> Seq<Channel> {
    channels.filter(|channel: Channel| name_matches(channel@.name, text))
}

/// The first `max` of the matching channels.
pub open spec fn top(channels: Seq<Channel>, text: Seq<char>, max: int) -> Seq<Channel> {
    if matching(channels, text).len() > max {
        matching(channels, text).take(max)
    } else {
        matching(channels, text)
    }
}

/// A channel whose name matches the text, and how well: every match
/// scores 1.
#[derive(Debug)]
pub struct ChannelMatch<'a> {
    pub score: i32,
    pub channel: &'a Channel,
}

impl<'a> ChannelMatch<'a> {
    /// Where this match stands to `rhs`: the lower score first, and of two
    /// with one score the one whose channel has the name that comes first.
    pub fn order(&self, rhs: &ChannelMatch) -> (found: Precedence)
        ensures
            found == (if self.score < rhs.score {
                Precedence::Before
            } else if self.score > rhs.score {
                Precedence::After
            } else if precedes(self.channel@.name, rhs.channel@.name) {
                Precedence::Before
            } else if self.channel@.name == rhs.channel@.name {
                Precedence::Same
            } else {
                Precedence::After
            }),
    {
        if self.score < rhs.score {
            Precedence::Before
        } else if self.score > rhs.score {
            Precedence::After
        } else {
            proof {
                crate::order::lemma_precedes_total(self.channel@.name, rhs.channel@.name);
            }
            compare(self.channel.name(), rhs.channel.name())
        }
    }
}

/// The line of text in which the user types the name of a channel.
#[derive(Debug)]
pub struct ChannelSelector {
    text: Vec<char>,
    cursor_pos: usize,
    selected_index: usize,
}

impl View for ChannelSelector {
    type V = SelectorView;

    closed spec fn view(&self) -> SelectorView {
        SelectorView {
            text: self.text@,
            cursor_pos: self.cursor_pos as int,
            selected_index: self.selected_index as int,
        }
    }
}

/// Index of the first `chr` in `name` from `from` on, or the length of
/// `name`.
fn find_from(name: &Vec<char>, from: usize, chr: char) -> (place: usize)
    requires
        from <= name.len(),
    ensures
        place == from + first_index(name@.skip(from as int), chr),
        from <= place <= name.len(),
{
    let mut i: usize = from;
    while i < name.len() && name[i] != chr
        invariant
            from <= i <= name.len(),
            first_index(name@.skip(from as int), chr) == (i - from) + first_index(
                name@.skip(i as int),
                chr,
            ),
        decreases name.len() - i,
    {
        assert(name@.skip(i as int).drop_first() =~= name@.skip(i + 1));
        assert(name@.skip(i as int)[0] == name@[i as int]);
        i += 1;
    }
    if i < name.len() {
        assert(name@.skip(i as int)[0] == name@[i as int]);
    }
    i
}

/// Whether the channel's name matches the typed text.
fn calculate_score(name: &Vec<char>, text: &Vec<char>) -> (score: i32)
    ensures
        score == (if name_matches(name@, text@) {
            1i32
        } else {
            -1i32
        }),
{
    // Find first character from text in channel name, then search for second text character to the
    // right, and so on. If a character is not found, return a negative score.
    let mut from: usize = 0;
    let mut i: usize = 0;
    assert(name@.skip(0) =~= name@);
    assert(text@.skip(0) =~= text@);
    while i < text.len()
        invariant
            i <= text.len(),
            from <= name.len(),
            name_matches(name@, text@) == name_matches(name@.skip(from as int), text@.skip(i as int)),
        decreases text.len() - i,
    {
        let place = find_from(name, from, text[i]);
        assert(text@.skip(i as int)[0] == text@[i as int]);
        assert(text@.skip(i as int).drop_first() =~= text@.skip(i + 1));
        if place >= name.len() {
            return -1;
        }
        assert(name@.skip(from as int).skip(place - from) =~= name@.skip(place as int));
        from = place;
        i += 1;
    }
    1
}

impl ChannelSelector {
    /// The cursor stands inside the text or at its end.
    pub open spec fn wf(&self) -> bool {
        self@.wf()
    }

    pub fn new() -> (selector: ChannelSelector)
        ensures
            selector@ == SelectorView::empty(),
            selector.wf(),
    {
        ChannelSelector { text: Vec::new(), cursor_pos: 0, selected_index: 0 }
    }

    /// The text typed so far.
    pub fn text(&self) -> (text: String)
        ensures
            text@ == self@.text,
    {
        text_of_chars(&self.text)
    }

    /// Number of characters in front of the cursor.
    pub fn cursor_pos(&self) -> (pos: usize)
        ensures
            pos == self@.cursor_pos,
    {
        self.cursor_pos
    }

    /// Which of the matching channels is picked, where `max` of them are
    /// shown: no more than `max`.
    pub fn selected_index(&self, max: usize) -> (index: usize)
        ensures
            index == (if self@.selected_index <= max {
                self@.selected_index
            } else {
                max as int
            }),
    {
        if self.selected_index <= max {
            self.selected_index
        } else {
            max
        }
    }

    pub fn reset(&mut self)
        ensures
            final(self)@ == SelectorView::empty(),
            final(self).wf(),
    {
        self.text.clear();
        self.cursor_pos = 0;
        self.selected_index = 0;
    }

    /// Puts `chr` in at the cursor.
    pub fn add_character(&mut self, chr: char)
        requires
            old(self).wf(),
            old(self)@.text.len() < usize::MAX,
        ensures
            final(self)@ == old(self)@.add_character(chr),
            final(self).wf(),
    {
        self.text.insert(self.cursor_pos, chr);
        self.cursor_pos += 1;
    }

    /// Removes the character in front of the cursor.
    pub fn delete_character(&mut self)
        requires
            old(self).wf(),
        ensures
            final(self)@ == old(self)@.delete_character(),
            final(self).wf(),
    {
        if self.cursor_pos > 0 {
            if self.cursor_pos < self.text.len() {
                self.text.remove(self.cursor_pos - 1);
            } else {
                let ghost before = self.text@;
                self.text.pop();
                assert(self.text@ =~= before.remove(self.cursor_pos - 1));
            }
            self.cursor_pos -= 1;
        }
    }

    /// Removes the word in front of the cursor.
    pub fn delete_word(&mut self)
        requires
            old(self).wf(),
        ensures
            final(self)@ == old(self)@.delete_word(),
            final(self).wf(),
    {
        if self.cursor_pos > 0 {
            let mut index: usize = self.cursor_pos - 1;
            while index > 0 && self.text[index - 1] != ' '
                invariant
                    index <= self.cursor_pos - 1,
                    self.cursor_pos <= self.text.len(),
                    last_space(self.text@, self.cursor_pos - 1) == last_space(
                        self.text@,
                        index as int,
                    ),
                decreases index,
            {
                index -= 1;
            }
            let index: usize = if index > 0 {
                index - 1
            } else {
                0
            };
            assert(index == self@.word_start());
            let ghost before = self.text@;
            let mut rest = self.text.split_off(index);
            let chars_removed = self.cursor_pos - index;
            let mut tail = rest.split_off(chars_removed);
            self.text.append(&mut tail);
            assert(self.text@ =~= before.take(index as int) + before.skip(self.cursor_pos as int));
            self.cursor_pos -= chars_removed;
        }
    }

    pub fn move_cursor_left(&mut self)
        requires
            old(self).wf(),
        ensures
            final(self)@ == (SelectorView {
                cursor_pos: if old(self)@.cursor_pos > 0 {
                    old(self)@.cursor_pos - 1
                } else {
                    0
                },
                ..old(self)@
            }),
            final(self).wf(),
    {
        self.cursor_pos = self.cursor_pos.saturating_sub(1);
    }

    pub fn move_cursor_right(&mut self)
        requires
            old(self).wf(),
        ensures
            final(self)@ == (SelectorView {
                cursor_pos: if old(self)@.cursor_pos < old(self)@.text.len() {
                    old(self)@.cursor_pos + 1
                } else {
                    old(self)@.text.len() as int
                },
                ..old(self)@
            }),
            final(self).wf(),
    {
        let next = self.cursor_pos.saturating_add(1);
        self.cursor_pos = if next <= self.text.len() {
            next
        } else {
            self.text.len()
        };
    }

    pub fn move_to_end(&mut self)
        requires
            old(self).wf(),
        ensures
            final(self)@ == (SelectorView {
                cursor_pos: old(self)@.text.len() as int,
                ..old(self)@
            }),
            final(self).wf(),
    {
        self.cursor_pos = self.text.len();
    }

    pub fn move_to_beginning(&mut self)
        requires
            old(self).wf(),
        ensures
            final(self)@ == (SelectorView { cursor_pos: 0, ..old(self)@ }),
            final(self).wf(),
    {
        self.cursor_pos = 0;
    }

    /// Picks the next of the matching channels.
    pub fn select_next_match(&mut self)
        requires
            old(self).wf(),
        ensures
            final(self)@ == (SelectorView {
                selected_index: if old(self)@.selected_index < usize::MAX {
                    old(self)@.selected_index + 1
                } else {
                    usize::MAX as int
                },
                ..old(self)@
            }),
            final(self).wf(),
    {
        self.selected_index = self.selected_index.saturating_add(1);
    }

    /// Picks the one before of the matching channels.
    pub fn select_previous_match(&mut self)
        requires
            old(self).wf(),
        ensures
            final(self)@ == (SelectorView {
                selected_index: if old(self)@.selected_index > 0 {
                    old(self)@.selected_index - 1
                } else {
                    0
                },
                ..old(self)@
            }),
            final(self).wf(),
    {
        self.selected_index = self.selected_index.saturating_sub(1);
    }

    /// The first `max` channels whose names match the text, in the order
    /// of the list.
    pub fn top_matches<'channels>(&self, channels: &'channels ChannelList, max: usize) -> (matches:
        Vec<ChannelMatch<'channels>>)
        ensures
            matches@.len() == top(channels@, self@.text, max as int).len(),
            forall|i: int|
                0 <= i < matches@.len() ==> *(#[trigger] matches@[i]).channel == top(
                    channels@,
                    self@.text,
                    max as int,
                )[i] && matches@[i].score == 1,
    {
        let mut matches: Vec<ChannelMatch<'channels>> = Vec::new();
        let mut i: usize = 0;
        let all = channels.iter();
        let ghost keep = |channel: Channel| name_matches(channel@.name, self@.text);
        assert(channels@.take(0).filter(keep) =~= Seq::<Channel>::empty()) by {
            reveal(Seq::filter);
        }
        while i < all.len()
            invariant
                i <= all.len(),
                all@.len() == channels@.len(),
                forall|k: int| 0 <= k < all@.len() ==> *(#[trigger] all@[k]).1 == channels@[k],
                keep == |channel: Channel| name_matches(channel@.name, self@.text),
                matches@.len() == channels@.take(i as int).filter(keep).len(),
                forall|k: int|
                    0 <= k < matches@.len() ==> *(#[trigger] matches@[k]).channel == channels@.take(
                        i as int,
                    ).filter(keep)[k] && matches@[k].score == 1,
            decreases all.len() - i,
        {
            let channel: &'channels Channel = all[i].1;
            let name = chars_of(channel.name());
            let score = calculate_score(&name, &self.text);
            proof {
                reveal(Seq::filter);
                assert(channels@.take(i + 1).drop_last() == channels@.take(i as int));
                assert(channels@.take(i + 1).last() == channels@[i as int]);
            }
            if score > 0 {
                matches.push(ChannelMatch { score, channel });
            }
            i += 1;
        }
        assert(channels@.take(channels@.len() as int) == channels@);
        if matches.len() > max {
            matches.truncate(max);
        }
        matches
    }

    /// The identifier of the picked channel, where as many channels match.
    pub fn select(&self, channels: &ChannelList) -> (id: Option<ChannelID>)
        requires
            self@.selected_index < usize::MAX,
        ensures
            match id {
                Some(picked) => self@.selected_index < matching(channels@, self@.text).len()
                    && picked@ == matching(channels@, self@.text)[self@.selected_index]@.id,
                None => self@.selected_index >= matching(channels@, self@.text).len(),
            },
    {
        let matches = self.top_matches(channels, self.selected_index + 1);
        if self.selected_index < matches.len() {
            Some(matches[self.selected_index].channel.id().clone())
        } else {
            None
        }
    }
}

} // verus!
