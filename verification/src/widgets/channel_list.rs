//! The list of channels at the side of the screen: the starred channels
//! first, then the others that the user is a member of. The list says
//! what is to be written where; writing it is left to the screen.

use vstd::prelude::*;
use vstd::string::StringExecFns;
use crate::frame::Rect;
use crate::models::channel::{starred_by_name, Channel, ChannelID, ChannelList as Channels};
use crate::order::{compare, lemma_precedes_total, precedes, Precedence};
use crate::style::{Color, Modifier, Style};
use crate::text::{pad_right, padded_right};

verus! {

/// What a line of the list says, as mathematics.
pub struct EntryView {
    pub id: Seq<char>,
    pub name: Seq<char>,
    pub has_unreads: bool,
    pub is_selected: bool,
}

/// Whether the entry `a` comes before the entry `b`: those without unread
/// messages first, and among equals the one whose name comes first.
pub open spec fn entry_before(a: EntryView, b: EntryView) -> bool {
    if a.has_unreads != b.has_unreads {
        !a.has_unreads
    } else {
        precedes(a.name, b.name)
    }
}

/// Number of entries at the front of `entries` that `item` does not come
/// before.
pub open spec fn upper_rank(entries: Seq<EntryView>, item: EntryView) -> int
    decreases entries.len(),
{
    if entries.len() == 0 {
        0
    } else if !entry_before(item, entries[0]) {
        1 + upper_rank(entries.drop_first(), item)
    } else {
        0
    }
}

/// The entries in order: each is put behind the entries that it does not
/// come before, so that equal entries stay in the order they came in.
pub open spec fn sorted_entries(entries: Seq<EntryView>) -> Seq<EntryView>
    decreases entries.len(),
{
    if entries.len() == 0 {
        Seq::empty()
    } else {
        let sorted = sorted_entries(entries.drop_last());
        sorted.insert(upper_rank(sorted, entries.last()), entries.last())
    }
}

/// Whether no entry of `entries` comes before an entry in front of it.
pub open spec fn in_order(entries: Seq<EntryView>) -> bool {
    forall|i: int, j: int|
        0 <= i < j < entries.len() ==> !entry_before(#[trigger] entries[j], #[trigger] entries[i])
}

/// The order of entries is strict and total on what it compares, and
/// transitive the other way round: an entry that does not come before a
/// second, which does not come before a third, does not come before the
/// third.
pub proof fn lemma_entry_order(a: EntryView, b: EntryView, c: EntryView)
    ensures
        !(entry_before(a, b) && entry_before(b, a)),
        !entry_before(b, a) && !entry_before(c, b) ==> !entry_before(c, a),
        entry_before(a, b) && !entry_before(c, b) ==> entry_before(a, c),
{
    lemma_precedes_total(a.name, b.name);
    lemma_precedes_total(b.name, c.name);
    lemma_precedes_total(a.name, c.name);
    if precedes(a.name, b.name) && precedes(b.name, c.name) {
        crate::order::lemma_precedes_transitive(a.name, b.name, c.name);
    }
    if precedes(c.name, b.name) && precedes(b.name, a.name) {
        crate::order::lemma_precedes_transitive(c.name, b.name, a.name);
    }
}

/// The rank of an entry in entries in order splits them: it does not come
/// before those in front of the rank, and comes before those behind it.
pub proof fn lemma_upper_rank_splits(entries: Seq<EntryView>, item: EntryView)
    requires
        in_order(entries),
    ensures
        0 <= upper_rank(entries, item) <= entries.len(),
        forall|k: int|
            0 <= k < upper_rank(entries, item) ==> !entry_before(item, #[trigger] entries[k]),
        forall|k: int|
            upper_rank(entries, item) <= k < entries.len() ==> entry_before(
                item,
                #[trigger] entries[k],
            ),
    decreases entries.len(),
{
    if entries.len() > 0 {
        let rest = entries.drop_first();
        assert(in_order(rest)) by {
            assert forall|i: int, j: int| 0 <= i < j < rest.len() implies !entry_before(
                #[trigger] rest[j],
                #[trigger] rest[i],
            ) by {
                assert(rest[i] == entries[i + 1]);
                assert(rest[j] == entries[j + 1]);
            }
        }
        lemma_upper_rank_splits(rest, item);
        if !entry_before(item, entries[0]) {
            assert forall|k: int| 0 <= k < upper_rank(entries, item) implies !entry_before(
                item,
                #[trigger] entries[k],
            ) by {
                if k > 0 {
                    assert(rest[k - 1] == entries[k]);
                }
            }
            assert forall|k: int| upper_rank(entries, item) <= k < entries.len() implies entry_before(
                item,
                #[trigger] entries[k],
            ) by {
                assert(rest[k - 1] == entries[k]);
            }
        } else {
            assert forall|k: int| 0 <= k < entries.len() implies entry_before(
                item,
                #[trigger] entries[k],
            ) by {
                if k > 0 {
                    lemma_entry_order(item, entries[0], entries[k]);
                }
            }
        }
    }
}

/// Sorted entries are in order, and as many as there were.
pub proof fn lemma_sorted_entries_in_order(entries: Seq<EntryView>)
    ensures
        in_order(sorted_entries(entries)),
        sorted_entries(entries).len() == entries.len(),
    decreases entries.len(),
{
    if entries.len() > 0 {
        let item = entries.last();
        let sorted = sorted_entries(entries.drop_last());
        lemma_sorted_entries_in_order(entries.drop_last());
        lemma_upper_rank_splits(sorted, item);
        let place = upper_rank(sorted, item);
        let after = sorted.insert(place, item);
        assert forall|i: int, j: int| 0 <= i < j < after.len() implies !entry_before(
            #[trigger] after[j],
            #[trigger] after[i],
        ) by {
            if i != place && j != place {
                let from_i = if i < place {
                    i
                } else {
                    i - 1
                };
                let from_j = if j < place {
                    j
                } else {
                    j - 1
                };
                assert(after[i] == sorted[from_i]);
                assert(after[j] == sorted[from_j]);
            } else if i == place {
                assert(after[j] == sorted[j - 1]);
                lemma_entry_order(item, sorted[j - 1], item);
            } else {
                assert(after[i] == sorted[i]);
            }
        }
    }
}

/// The entry for a channel, where the channel `selected` is selected.
pub open spec fn entry_of(channel: Channel, selected: Option<Seq<char>>) -> EntryView {
    EntryView {
        id: channel@.id,
        name: channel@.name,
        has_unreads: false,
        is_selected: selected == Some(channel@.id),
    }
}

/// Whether a channel is listed as starred.
pub open spec fn listed_starred(channel: Channel) -> bool {
    channel@.is_starred || starred_by_name(channel@.name)
}

/// The entries of the starred channels among `channels`, as they come.
pub open spec fn starred_entries(channels: Seq<Channel>, selected: Option<Seq<char>>) -> Seq<
    EntryView,
>
    decreases channels.len(),
{
    if channels.len() == 0 {
        Seq::empty()
    } else if listed_starred(channels.last()) {
        starred_entries(channels.drop_last(), selected).push(entry_of(channels.last(), selected))
    } else {
        starred_entries(channels.drop_last(), selected)
    }
}

/// The entries of the channels among `channels` that are not starred and
/// that the user is a member of or has selected, as they come.
pub open spec fn other_entries(channels: Seq<Channel>, selected: Option<Seq<char>>) -> Seq<
    EntryView,
>
    decreases channels.len(),
{
    if channels.len() == 0 {
        Seq::empty()
    } else if !listed_starred(channels.last()) && (channels.last()@.is_member || entry_of(
        channels.last(),
        selected,
    ).is_selected) {
        other_entries(channels.drop_last(), selected).push(entry_of(channels.last(), selected))
    } else {
        other_entries(channels.drop_last(), selected)
    }
}

/// The style of the title of a section.
pub open spec fn title_style() -> Style {
    Style { fg: Color::Reset, bg: Color::Gray, modifier: Modifier::Bold }
}

/// The style of an entry: black on white where it is selected.
pub open spec fn entry_style(entry: EntryView) -> Style {
    if entry.is_selected {
        Style { fg: Color::Black, bg: Color::White, ..Style::plain() }
    } else {
        Style::plain()
    }
}

/// What one piece of text on the screen is, as mathematics.
pub struct WriteView {
    pub x: int,
    pub y: int,
    pub text: Seq<char>,
    pub limit: int,
    pub style: Style,
}

/// A piece of text to be written into a row of the screen: from column `x`
/// of row `y` on, in `style`, and no more than `limit` cells of it.
#[derive(Debug, Clone, PartialEq, Eq)]
pub struct Write {
    pub x: u16,
    pub y: u16,
    pub text: String,
    pub limit: usize,
    pub style: Style,
}

impl View for Write {
    type V = WriteView;

    open spec fn view(&self) -> WriteView {
        WriteView {
            x: self.x as int,
            y: self.y as int,
            text: self.text@,
            limit: self.limit as int,
            style: self.style,
        }
    }
}

/// What each of `writes` is.
pub open spec fn write_views(writes: Seq<Write>) -> Seq<WriteView> {
    writes.map_values(|write: Write| write@)
}

/// Number of rows that a section takes from row `y` on in `area`: its
/// title and its entries, as far as `area` has rows for them.
pub open spec fn section_rows(count: int, area: Rect, y: int) -> int {
    if y >= area.spec_bottom() {
        0
    } else if y + 1 + count <= area.spec_bottom() {
        1 + count
    } else {
        area.spec_bottom() - y
    }
}

/// The title of a section in row `y`: filled up with spaces to the width
/// of `area`, and written whole.
pub open spec fn title_write(title: Seq<char>, area: Rect, y: int) -> WriteView {
    WriteView {
        x: area.x as int,
        y,
        text: padded_right(title, area.width as int),
        limit: usize::MAX as int,
        style: title_style(),
    }
}

/// The number sign in front of an entry in row `y`.
pub open spec fn sign_write(entry: EntryView, area: Rect, y: int) -> WriteView {
    WriteView { x: area.x as int, y, text: "#"@, limit: 1, style: entry_style(entry) }
}

/// The name of an entry in row `y`, behind its number sign: filled up with
/// spaces to the width that is left of `area`, and cut off there.
pub open spec fn name_write(entry: EntryView, area: Rect, y: int) -> WriteView {
    WriteView {
        x: area.x + 1,
        y,
        text: padded_right(entry.name, area.width - 1),
        limit: area.width - 1,
        style: entry_style(entry),
    }
}

/// What is written for the entries `entries`, one row each from row `y`
/// on: for each its number sign, then its name.
pub open spec fn entry_writes(entries: Seq<EntryView>, area: Rect, y: int) -> Seq<WriteView>
    decreases entries.len(),
{
    if entries.len() == 0 {
        Seq::empty()
    } else {
        let row = y + entries.len() - 1;
        entry_writes(entries.drop_last(), area, y).push(
            sign_write(entries.last(), area, row),
        ).push(name_write(entries.last(), area, row))
    }
}

/// What is written for a section from row `y` on: its title, and below it
/// its entries, as far as `area` has rows for them.
pub open spec fn section_writes(
    title: Seq<char>,
    entries: Seq<EntryView>,
    area: Rect,
    y: int,
) -> Seq<WriteView> {
    let rows = section_rows(entries.len() as int, area, y);
    if rows == 0 {
        Seq::empty()
    } else {
        seq![title_write(title, area, y)] + entry_writes(entries.take(rows - 1), area, y + 1)
    }
}

/// What is written for the list of the channels `channels` in `area`: the
/// section "Starred", and below it the section "Channels", each with its
/// entries in order.
pub open spec fn list_writes(channels: Seq<Channel>, selected: Option<Seq<char>>, area: Rect)
    -> Seq<WriteView> {
    let starred = sorted_entries(starred_entries(channels, selected));
    let others = sorted_entries(other_entries(channels, selected));
    let below = area.y + section_rows(starred.len() as int, area, area.y as int);
    section_writes("Starred"@, starred, area, area.y as int) + section_writes(
        "Channels"@,
        others,
        area,
        below,
    )
}

struct ChannelEntry<'a> {
    id: &'a ChannelID,
    name: &'a str,
    has_unreads: bool,
    is_selected: bool,
}

impl<'a> View for ChannelEntry<'a> {
    type V = EntryView;

    closed spec fn view(&self) -> EntryView {
        EntryView {
            id: self.id@,
            name: self.name@,
            has_unreads: self.has_unreads,
            is_selected: self.is_selected,
        }
    }
}

/// What each of `entries` says.
spec fn entry_views<'a>(entries: Seq<ChannelEntry<'a>>) -> Seq<EntryView> {
    entries.map_values(|entry: ChannelEntry<'a>| entry@)
}

/// Whether `a` comes before `b`.
fn comes_before<'a>(a: &ChannelEntry<'a>, b: &ChannelEntry<'a>) -> (before: bool)
    ensures
        before == entry_before(a@, b@),
{
    if a.has_unreads != b.has_unreads {
        !a.has_unreads
    } else {
        match compare(a.name, b.name) {
            Precedence::Before => true,
            _ => false,
        }
    }
}

/// The entries in order.
fn sort_entries<'a>(entries: Vec<ChannelEntry<'a>>) -> (sorted: Vec<ChannelEntry<'a>>)
    ensures
        entry_views(sorted@) == sorted_entries(entry_views(entries@)),
{
    let mut sorted: Vec<ChannelEntry<'a>> = Vec::new();
    let ghost all = entries@;
    assert(entry_views(sorted@) =~= sorted_entries(entry_views(all).take(0)));
    for entry in it: entries
        invariant
            it.seq() == all,
            entry_views(sorted@) == sorted_entries(entry_views(all).take(it.index() as int)),
    {
        let ghost before = sorted@;
        let mut place: usize = 0;
        assert(entry_views(before).skip(0) =~= entry_views(before));
        while place < sorted.len() && !comes_before(&entry, &sorted[place])
            invariant
                place <= sorted.len(),
                sorted@ == before,
                upper_rank(entry_views(before), entry@) == place + upper_rank(
                    entry_views(before).skip(place as int),
                    entry@,
                ),
            decreases sorted.len() - place,
        {
            assert(entry_views(before).skip(place as int)[0] == before[place as int]@);
            assert(entry_views(before).skip(place as int).drop_first() =~= entry_views(
                before,
            ).skip(place + 1));
            place += 1;
        }
        if place < sorted.len() {
            assert(entry_views(before).skip(place as int)[0] == before[place as int]@);
        }
        proof {
            let views = entry_views(all);
            assert(views.take(it.index() + 1).drop_last() == views.take(it.index() as int));
            assert(views.take(it.index() + 1).last() == entry@);
        }
        sorted.insert(place, entry);
        assert(entry_views(sorted@) =~= entry_views(before).insert(place as int, entry@));
    }
    assert(entry_views(all).take(all.len() as int) == entry_views(all));
    sorted
}

/// Puts behind `writes` what is written for a section from row `y` on, and
/// says which row comes below the section.
fn draw_entries<'a>(
    title: &str,
    entries: &Vec<ChannelEntry<'a>>,
    area: &Rect,
    writes: &mut Vec<Write>,
    y: u16,
) -> (below: u16)
    requires
        area.on_screen(),
        area.width >= 3,
        area.y <= y,
    ensures
        below == y + section_rows(entries@.len() as int, *area, y as int),
        write_views(final(writes)@) == write_views(old(writes)@) + section_writes(
            title@,
            entry_views(entries@),
            *area,
            y as int,
        ),
{
    let mut row = y;
    let width: usize = area.width as usize;
    if row < area.bottom() {
        let ghost before = writes@;
        writes.push(
            Write {
                x: area.left(),
                y: row,
                text: pad_right(title, width),
                limit: usize::MAX,
                style: Style::default().modifier(Modifier::Bold).bg(Color::Gray),
            },
        );
        assert(write_views(writes@) =~= write_views(before).push(
            title_write(title@, *area, y as int),
        ));
        row += 1;
    } else {
        assert(write_views(writes@) + Seq::<WriteView>::empty() =~= write_views(writes@));
        return row;
    }
    // Subtracted one character for icon

    let name_width: usize = width - 1;
    let ghost head = write_views(old(writes)@).push(title_write(title@, *area, y as int));
    let mut i: usize = 0;
    assert(entry_views(entries@).take(0) =~= Seq::<EntryView>::empty());
    assert(head + entry_writes(entry_views(entries@).take(0), *area, y + 1) =~= head);
    while i < entries.len()
        invariant
            i <= entries.len(),
            y < area.spec_bottom(),
            row == y + 1 + i,
            row <= area.spec_bottom(),
            width == area.width,
            name_width == width - 1,
            area.width >= 3,
            area.on_screen(),
            head == write_views(old(writes)@).push(title_write(title@, *area, y as int)),
            write_views(writes@) == head + entry_writes(
                entry_views(entries@).take(i as int),
                *area,
                y + 1,
            ),
        decreases entries.len() - i,
    {
        if row >= area.bottom() {
            proof {
                assert(section_rows(entries@.len() as int, *area, y as int) == i + 1);
                assert(head =~= write_views(old(writes)@) + seq![
                    title_write(title@, *area, y as int),
                ]);
            }
            return row;
        }
        let entry = &entries[i];
        let mut style = Style::default();
        if entry.is_selected {
            style = style.bg(Color::White).fg(Color::Black);
        }
        let ghost before = writes@;
        writes.push(Write { x: area.x, y: row, text: String::from_str("#"), limit: 1, style });
        writes.push(
            Write {
                x: area.x + 1,
                y: row,
                text: pad_right(entry.name, name_width),
                limit: name_width,
                style,
            },
        );
        proof {
            let views = entry_views(entries@);
            assert(views.take(i + 1).drop_last() =~= views.take(i as int));
            assert(views.take(i + 1).last() == entry@);
            assert(write_views(writes@) =~= write_views(before).push(
                sign_write(entry@, *area, row as int),
            ).push(name_write(entry@, *area, row as int)));
        }
        row += 1;
        i += 1;
    }
    proof {
        assert(section_rows(entries@.len() as int, *area, y as int) == entries.len() + 1);
        assert(entry_views(entries@).take(entries.len() as int) =~= entry_views(entries@));
        assert(head =~= write_views(old(writes)@) + seq![title_write(title@, *area, y as int)]);
    }
    row
}

/// The list of channels at the side of the screen.
pub struct ChannelList<'a> {
    channels: &'a Channels,
    selected_id: Option<&'a ChannelID>,
}

impl<'a> ChannelList<'a> {
    /// The channels listed.
    pub closed spec fn spec_channels(&self) -> Channels {
        *self.channels
    }

    /// The identifier of the selected channel, if one is selected.
    pub closed spec fn spec_selected(&self) -> Option<Seq<char>> {
        match self.selected_id {
            Some(id) => Some(id@),
            None => None,
        }
    }

    pub fn new(channels: &'a Channels, selected_id: Option<&'a ChannelID>) -> (list: ChannelList<
        'a,
    >)
        ensures
            list.spec_channels() == *channels,
            list.spec_selected() == (match selected_id {
                Some(id) => Some(id@),
                None => None,
            }),
    {
        ChannelList { channels, selected_id }
    }

    /// What is to be written into `area` to show the list, in order. An
    /// `area` of less than 3 columns shows nothing.
    pub fn writes(&self, area: &Rect) -> (writes: Vec<Write>)
        requires
            area.width >= 3 ==> area.on_screen(),
        ensures
            write_views(writes@) == (if area.width < 3 {
                Seq::<WriteView>::empty()
            } else {
                list_writes(self.spec_channels()@, self.spec_selected(), *area)
            }),
    {
        let mut writes: Vec<Write> = Vec::new();
        assert(write_views(writes@) =~= Seq::<WriteView>::empty());
        if area.width < 3 {
            return writes;
        }
        let mut starred: Vec<ChannelEntry<'a>> = Vec::new();
        let mut others: Vec<ChannelEntry<'a>> = Vec::new();
        let all = self.channels.iter();
        let ghost channels = self.channels@;
        let ghost selected = self.spec_selected();
        let mut i: usize = 0;
        assert(entry_views(starred@) =~= starred_entries(channels.take(0), selected));
        assert(entry_views(others@) =~= other_entries(channels.take(0), selected));
        while i < all.len()
            invariant
                i <= all.len(),
                all@.len() == channels.len(),
                channels == self.channels@,
                selected == self.spec_selected(),
                forall|k: int|
                    0 <= k < all@.len() ==> *(#[trigger] all@[k]).1 == channels[k] && (all@[k]).0@
                        == channels[k]@.id,
                entry_views(starred@) == starred_entries(channels.take(i as int), selected),
                entry_views(others@) == other_entries(channels.take(i as int), selected),
            decreases all.len() - i,
        {
            let channel: &'a Channel = all[i].1;
            let is_selected = match self.selected_id {
                Some(id) => id.is(channel.id()),
                None => false,
            };
            let entry = ChannelEntry {
                id: channel.id(),
                name: channel.name(),
                has_unreads: false,
                is_selected,
            };
            proof {
                assert(channels.take(i + 1).drop_last() == channels.take(i as int));
                assert(channels.take(i + 1).last() == channels[i as int]);
                assert(entry@ == entry_of(channels[i as int], selected));
            }
            let ghost starred_before = starred@;
            let ghost others_before = others@;
            if channel.is_starred() {
                starred.push(entry);
                assert(entry_views(starred@) =~= entry_views(starred_before).push(entry@));
            } else if channel.is_member() || entry.is_selected {
                others.push(entry);
                assert(entry_views(others@) =~= entry_views(others_before).push(entry@));
            }
            i += 1;
        }
        assert(channels.take(channels.len() as int) == channels);

        let starred = sort_entries(starred);
        let others = sort_entries(others);

        let mut y = area.top();
        y = draw_entries("Starred", &starred, area, &mut writes, y);
        draw_entries("Channels", &others, area, &mut writes, y);
        assert(write_views(writes@) =~= list_writes(channels, selected, *area));
        writes
    }
}

} // verus!
