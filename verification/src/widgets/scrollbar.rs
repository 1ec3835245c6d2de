//! A vertical scrollbar: of `total` items, which ones are shown, and how
//! that divides a column of rows into three bands. The shares of the bands
//! are worked out in binary64 numbers, with their rounding.

use std::ops::Range;
use vstd::prelude::*;
use crate::binary64::{
    is_share, lemma_nearest, lemma_nearest_scales, lemma_quotient_capped, lemma_round53_exact,
    lemma_round53_monotone, lemma_round53_near, lemma_shares, minus_or_zero, of_count, quotient,
    round53, times, two52, unit, whole, Number,
};
use crate::frame::{Cell, Frame, Rect};
use crate::style::{Color, Style};

verus! {

/// What a scrollbar knows, as mathematics.
pub struct ScrollbarView {
    /// Number of items in all.
    pub total: int,
    /// Index of the first item shown.
    pub start: int,
    /// Index behind the last item shown.
    pub end: int,
}

impl ScrollbarView {
    /// The shown range does not reach beyond the items.
    pub open spec fn wf(self) -> bool {
        0 <= self.end <= self.total && 0 <= self.start
    }

    /// The shown range does not end before it starts.
    pub open spec fn ordered(self) -> bool {
        self.start <= self.end
    }

    /// Number of items shown.
    pub open spec fn items_shown(self) -> int {
        self.end - self.start
    }

    /// The share of the items above the shown ones.
    pub open spec fn ratio_above(self) -> int {
        quotient(of_count(self.start), of_count(self.total))
    }

    /// The share of the items shown.
    pub open spec fn ratio_shown(self) -> int {
        quotient(of_count(self.items_shown()), of_count(self.total))
    }

    /// The share of the items below the shown ones: what the other two
    /// shares leave of one, and nothing where rounding has them leave less.
    pub open spec fn ratio_below(self) -> int {
        minus_or_zero(minus_or_zero(unit(), self.ratio_above()), self.ratio_shown())
    }

    /// Rows above the thumb: the height times the share above, rounded
    /// down; none where there are no items.
    pub open spec fn above_height(self, height: int) -> int {
        if self.total == 0 {
            0
        } else {
            whole(times(height, self.ratio_above()))
        }
    }

    /// Rows below the thumb: the height times the share below, rounded
    /// down; none where there are no items.
    pub open spec fn below_height(self, height: int) -> int {
        if self.total == 0 {
            0
        } else {
            whole(times(height, self.ratio_below()))
        }
    }

    /// Rows of the thumb: what the other two bands leave.
    pub open spec fn shown_height(self, height: int) -> int {
        height - self.below_height(height) - self.above_height(height)
    }

    /// The scrollbar after the number of items changed. A shown range that
    /// would reach beyond the items is moved up by what it reaches beyond,
    /// as far as there is room.
    pub open spec fn with_total(self, total: int) -> ScrollbarView {
        if self.end > total {
            let diff = self.end - total;
            ScrollbarView {
                total,
                start: if self.start >= diff {
                    self.start - diff
                } else {
                    0
                },
                end: total,
            }
        } else {
            ScrollbarView { total, ..self }
        }
    }

    /// Whether anything is drawn: there are items, and some are shown.
    pub open spec fn visible(self) -> bool {
        self.total != 0 && self.start != self.end
    }

    /// Whether row `y` of a column of `height` rows is drawn as thumb: the
    /// rows of the thumb follow the rows above it.
    pub open spec fn in_thumb(self, y: int, height: int) -> bool {
        self.above_height(height) <= y < self.above_height(height) + self.shown_height(height)
    }

    /// The cell drawn in row `y` of a column of `height` rows.
    pub open spec fn cell(self, y: int, height: int) -> Cell {
        Cell {
            symbol: ' ',
            style: Style {
                bg: if self.in_thumb(y, height) {
                    Color::White
                } else {
                    Color::Black
                },
                ..Style::plain()
            },
        }
    }
}

/// The counts of a valid scrollbar as numbers: none is larger than the
/// count of all items, which is not zero where there are items.
pub proof fn lemma_counts(bar: ScrollbarView)
    requires
        bar.wf(),
        bar.ordered(),
        bar.total > 0,
    ensures
        0 <= of_count(bar.start) <= of_count(bar.total),
        0 <= of_count(bar.items_shown()) <= of_count(bar.total),
        of_count(bar.total) > 0,
        is_share(bar.ratio_above()),
        is_share(bar.ratio_shown()),
        is_share(bar.ratio_below()),
{
    lemma_round53_monotone(bar.start, bar.total);
    lemma_round53_monotone(bar.items_shown(), bar.total);
    lemma_round53_monotone(1, bar.total);
    lemma_round53_monotone(0, bar.start);
    lemma_round53_monotone(0, bar.items_shown());
    lemma_round53_exact(1, 0);
    lemma_round53_exact(0, 0);
    vstd::arithmetic::power2::lemma2_to64();
    assert(1 * vstd::arithmetic::power2::pow2(0) == 1 && 0 * vstd::arithmetic::power2::pow2(0)
        == 0);
    let all = round53(bar.total);
    let above = round53(bar.start);
    let shown = round53(bar.items_shown());
    assert(0 <= above * unit() <= all * unit() && 0 <= shown * unit() <= all * unit() && all
        * unit() > 0) by (nonlinear_arith)
        requires
            0 <= above <= all,
            0 <= shown <= all,
            all >= 1,
            unit() > 0,
    ;
    lemma_quotient_capped(of_count(bar.start), of_count(bar.total));
    lemma_quotient_capped(of_count(bar.items_shown()), of_count(bar.total));
    lemma_shares(unit(), bar.ratio_above());
    lemma_shares(minus_or_zero(unit(), bar.ratio_above()), bar.ratio_shown());
}

/// The three bands of a scrollbar are never negative and add up to the
/// height, for every height and every shown range within the items,
/// whatever the rounding of the shares.
pub proof fn lemma_bands_add_up(bar: ScrollbarView, height: int)
    requires
        bar.wf(),
        bar.ordered(),
        0 <= height <= u16::MAX,
    ensures
        0 <= bar.above_height(height) <= height,
        0 <= bar.below_height(height) <= height,
        0 <= bar.shown_height(height) <= height,
        bar.above_height(height) + bar.shown_height(height) + bar.below_height(height)
            == height,
{
    if bar.total != 0 {
        lemma_counts(bar);
        let one = unit();
        let above = bar.ratio_above();
        let shown = bar.ratio_shown();
        let rest = minus_or_zero(one, above);
        let below = bar.ratio_below();
        lemma_shares(one, above);
        lemma_shares(rest, shown);
        lemma_round53_near(one - above);
        if rest >= shown {
            lemma_round53_near(rest - shown);
        }
        // The share below is within rounding of what the share above leaves.
        let e = two52();
        assert(e * below <= (e + 1) * rest) by {
            if rest >= shown {
                assert(e * below <= (e + 1) * rest) by (nonlinear_arith)
                    requires
                        e * below <= e * (rest - shown) + (rest - shown),
                        shown >= 0,
                        e >= 0,
                ;
            } else {
                assert(0 <= (e + 1) * rest) by (nonlinear_arith)
                    requires
                        rest >= 0,
                        e >= 0,
                ;
            }
        }
        assert(e * rest <= (e + 1) * (one - above)) by (nonlinear_arith)
            requires
                e * rest <= e * (one - above) + (one - above),
        ;
        let rows_above = height * above;
        let rows_below = height * below;
        let rows_rest = height * rest;
        let rows_left = height * (one - above);
        assert(rows_above >= 0 && rows_below >= 0 && e * rows_below <= (e + 1) * rows_rest && e
            * rows_rest <= (e + 1) * rows_left && rows_above + rows_left == height * one) by (nonlinear_arith)
            requires
                rows_above == height * above,
                rows_below == height * below,
                rows_rest == height * rest,
                rows_left == height * (one - above),
                e * below <= (e + 1) * rest,
                e * rest <= (e + 1) * (one - above),
                0 <= above <= one,
                0 <= below,
                height >= 0,
        ;
        lemma_round53_near(rows_above);
        lemma_round53_near(rows_below);
        let part_above = times(height, above);
        let part_below = times(height, below);
        // Rounding three times adds less than one row in all.
        assert(part_above + part_below < (height + 1) * one) by (nonlinear_arith)
            requires
                e == 0x10_0000_0000_0000,
                one == 0x1_0000_0000_0000_0000_0000_0000_0000_0000,
                e * part_above <= e * rows_above + rows_above,
                e * part_below <= e * rows_below + rows_below,
                e * rows_below <= (e + 1) * rows_rest,
                e * rows_rest <= (e + 1) * rows_left,
                rows_above + rows_left == height * one,
                rows_above >= 0,
                rows_left >= 0,
                0 <= height <= 0xffff,
        ;
        vstd::arithmetic::div_mod::lemma_fundamental_div_mod(part_above, one);
        vstd::arithmetic::div_mod::lemma_fundamental_div_mod(part_below, one);
        assert(rows_left >= 0) by (nonlinear_arith)
            requires
                rows_left == height * (one - above),
                above <= one,
                height >= 0,
        ;
        let a = part_above / one;
        let b = part_below / one;
        assert(a >= 0 && b >= 0 && a + b <= height) by (nonlinear_arith)
            requires
                one == 0x1_0000_0000_0000_0000_0000_0000_0000_0000,
                part_above == one * a + part_above % one,
                part_below == one * b + part_below % one,
                0 <= part_above % one < one,
                0 <= part_below % one < one,
                part_above >= 0,
                part_below >= 0,
                part_above + part_below < (height + 1) * one,
        ;
    }
}

/// A scrollbar that shows every item is all thumb: no row above, none
/// below, for every height.
pub proof fn lemma_all_shown_is_all_thumb(total: int, height: int)
    requires
        total >= 0,
        height >= 0,
    ensures
        (ScrollbarView { total, start: 0, end: total }).above_height(height) == 0,
        (ScrollbarView { total, start: 0, end: total }).below_height(height) == 0,
        (ScrollbarView { total, start: 0, end: total }).shown_height(height) == height,
{
    if total != 0 {
        let bar = ScrollbarView { total, start: 0, end: total };
        lemma_counts(bar);
        vstd::arithmetic::power2::lemma2_to64();
        vstd::arithmetic::power2::lemma2_to64_rest();
        vstd::arithmetic::power2::lemma_pow2_adds(64, 64);
        vstd::arithmetic::power2::lemma_pow2_adds(64, 12);
        vstd::arithmetic::power2::lemma_pow2_adds(52, 76);
        vstd::arithmetic::power2::lemma_pow2_adds(53, 76);
        let all = of_count(total);
        // Nothing of all is nothing.
        lemma_round53_exact(0, 0);
        assert(0 * vstd::arithmetic::power2::pow2(0) == 0);
        assert(of_count(0) == 0);
        assert(0int * unit() == 0 && 0int / all == 0 && 0int % (all * 1) == 0 && 0int / (all * 1)
            == 0) by (nonlinear_arith)
            requires
                all > 0,
        ;
        assert(bar.ratio_above() == 0);
        assert(height * 0 == 0) by (nonlinear_arith);
        assert(times(height, bar.ratio_above()) == 0);
        // All of all is one.
        let top = all * unit();
        assert(top / all == unit()) by {
            vstd::arithmetic::div_mod::lemma_fundamental_div_mod_converse(top, all, unit(), 0);
            assert(top == unit() * all) by (nonlinear_arith)
                requires
                    top == all * unit(),
            ;
        }
        let step = vstd::arithmetic::power2::pow2(76) as int;
        crate::binary64::lemma_grid_is(unit(), 76);
        lemma_nearest_scales(unit(), step, all);
        assert(unit() == step * two52());
        vstd::arithmetic::div_mod::lemma_fundamental_div_mod_converse(unit(), step, two52(), 0);
        lemma_nearest(unit(), step);
        assert(all * unit() == top && all * step == all * step);
        assert(bar.ratio_shown() == unit());
        lemma_round53_exact(1, 128);
        assert(minus_or_zero(unit(), 0) == unit());
        assert(bar.ratio_below() == 0);
        assert(times(height, bar.ratio_below()) == 0);
        assert(0int / unit() == 0);
    }
}

/// Changing the number of items keeps a scrollbar valid, and keeps the
/// number of items shown wherever they still fit.
pub proof fn lemma_with_total_keeps(bar: ScrollbarView, total: int)
    requires
        bar.wf(),
        total >= 0,
    ensures
        bar.with_total(total).wf(),
        bar.with_total(total).total == total,
        bar.ordered() ==> bar.with_total(total).ordered(),
        bar.ordered() && bar.items_shown() <= total ==> bar.with_total(total).items_shown()
            == bar.items_shown(),
{
}

/// A scrollbar.
#[derive(Debug)]
pub struct Scrollbar {
    total: usize,
    shown_range: Range<usize>,
}

impl View for Scrollbar {
    type V = ScrollbarView;

    closed spec fn view(&self) -> ScrollbarView {
        ScrollbarView {
            total: self.total as int,
            start: self.shown_range.start as int,
            end: self.shown_range.end as int,
        }
    }
}

impl Default for Scrollbar {
    fn default() -> (bar: Scrollbar)
        ensures
            bar@ == (ScrollbarView { total: 0, start: 0, end: 0 }),
    {
        Scrollbar { total: 0, shown_range: 0..0 }
    }
}

impl Scrollbar {
    /// Number of items in all.
    pub fn total(&self) -> (total: usize)
        ensures
            total == self@.total,
    {
        self.total
    }

    /// The items shown.
    pub fn shown_range(&self) -> (range: Range<usize>)
        ensures
            range.start == self@.start,
            range.end == self@.end,
    {
        self.shown_range.start..self.shown_range.end
    }

    /// Sets the number of items, and moves the shown range where it would
    /// reach beyond them.
    pub fn set_total(&mut self, total: usize) -> (bar: &mut Scrollbar)
        ensures
            bar@ == old(self)@.with_total(total as int),
            *final(self) == *final(bar),
    {
        self.total = total;
        if self.shown_range.end > total {
            let diff = self.shown_range.end - total;
            self.shown_range = (self.shown_range.start.saturating_sub(diff))..total;
        }
        self
    }

    /// Sets the items shown. They must lie within the items.
    pub fn set_shown_range(&mut self, shown: Range<usize>) -> (bar: &mut Scrollbar)
        requires
            shown.end <= old(self)@.total,
        ensures
            bar@ == (ScrollbarView {
                total: old(self)@.total,
                start: shown.start as int,
                end: shown.end as int,
            }),
            *final(self) == *final(bar),
    {
        self.shown_range = shown;
        self
    }

    /// Number of items shown.
    pub fn items_shown(&self) -> (shown: usize)
        requires
            self@.ordered(),
        ensures
            shown == self@.items_shown(),
    {
        if self.shown_range.start == self.shown_range.end {
            0
        } else {
            self.shown_range.end - self.shown_range.start
        }
    }

    /// The share of the items above the shown ones.
    pub fn ratio_above(&self) -> (share: Number)
        requires
            self@.wf(),
            self@.ordered(),
            self@.total > 0,
        ensures
            share@ == self@.ratio_above(),
            share.wf(),
            share.exponent <= 12,
            is_share(share@),
    {
        proof {
            lemma_counts(self@);
        }
        let above = Number::of_count(self.shown_range.start);
        let all = Number::of_count(self.total);
        Number::divide(above, all)
    }

    /// The share of the items shown.
    pub fn ratio_shown(&self) -> (share: Number)
        requires
            self@.wf(),
            self@.ordered(),
            self@.total > 0,
        ensures
            share@ == self@.ratio_shown(),
            share.wf(),
            share.exponent <= 12,
            is_share(share@),
    {
        proof {
            lemma_counts(self@);
        }
        let shown = Number::of_count(self.items_shown());
        let all = Number::of_count(self.total);
        Number::divide(shown, all)
    }

    /// The share of the items below the shown ones.
    pub fn ratio_below(&self) -> (share: Number)
        requires
            self@.wf(),
            self@.ordered(),
            self@.total > 0,
        ensures
            share@ == self@.ratio_below(),
            share.wf(),
            share.exponent <= 16,
            is_share(share@),
    {
        // Due to rounding the two other shares can be more than one together.
        let left = Number::minus_or_zero(Number::one(), self.ratio_above());
        Number::minus_or_zero(left, self.ratio_shown())
    }

    /// The rows that the share `share` makes of `height` rows, rounded
    /// down.
    fn rows(height: u16, share: Number) -> (rows: u16)
        requires
            share.wf(),
            share.exponent <= 16,
            is_share(share@),
        ensures
            rows == whole(times(height as int, share@)),
            rows <= height,
    {
        let part = Number::times(height, share);
        proof {
            vstd::arithmetic::power2::lemma2_to64();
            vstd::arithmetic::power2::lemma2_to64_rest();
            vstd::arithmetic::power2::lemma_pow2_adds(64, 64);
            assert(0 <= height * share@ <= height * unit()) by (nonlinear_arith)
                requires
                    0 <= share@ <= unit(),
                    height >= 0,
            ;
            lemma_round53_monotone(height * share@, height * unit());
            lemma_round53_exact(height as int, 128);
            lemma_round53_near(height * share@);
            vstd::arithmetic::div_mod::lemma_fundamental_div_mod(part@, unit());
            assert(part@ / unit() <= height) by (nonlinear_arith)
                requires
                    part@ == unit() * (part@ / unit()) + part@ % unit(),
                    0 <= part@ % unit(),
                    part@ <= height * unit(),
                    unit() > 0,
            ;
        }
        Number::whole(part) as u16
    }

    /// Rows above the thumb in a column of `height` rows.
    pub fn above_height(&self, height: u16) -> (rows: u16)
        requires
            self@.wf(),
            self@.ordered(),
        ensures
            rows == self@.above_height(height as int),
    {
        if self.total == 0 {
            0
        } else {
            Scrollbar::rows(height, self.ratio_above())
        }
    }

    /// Rows of the thumb in a column of `height` rows.
    pub fn shown_height(&self, height: u16) -> (rows: u16)
        requires
            self@.wf(),
            self@.ordered(),
        ensures
            rows == self@.shown_height(height as int),
    {
        proof {
            lemma_bands_add_up(self@, height as int);
        }
        // Base value on sizes around it so we always round the correct way
        height - self.below_height(height) - self.above_height(height)
    }

    /// Rows below the thumb in a column of `height` rows.
    pub fn below_height(&self, height: u16) -> (rows: u16)
        requires
            self@.wf(),
            self@.ordered(),
        ensures
            rows == self@.below_height(height as int),
    {
        if self.total == 0 {
            0
        } else {
            Scrollbar::rows(height, self.ratio_below())
        }
    }

    /// Draws the scrollbar over `area`: every cell becomes a space, white
    /// in the rows of the thumb and black in the others. Nothing is drawn
    /// where there are no items or none is shown, whatever the area and the
    /// frame.
    pub fn draw(&mut self, area: &Rect, buf: &mut Frame)
        requires
            old(self)@.wf(),
            old(self)@.visible() ==> {
                &&& old(self)@.ordered()
                &&& old(buf).wf()
                &&& area.on_screen()
                &&& old(buf).area.encloses(*area)
            },
        ensures
            *final(self) == *old(self),
            final(buf).area == old(buf).area,
            !old(self)@.visible() ==> *final(buf) == *old(buf),
            old(self)@.visible() ==> final(buf).wf(),
            old(self)@.visible() ==> forall|x: int, y: int|
                old(buf).area.contains(x, y) ==> #[trigger] final(buf).cell_at(x, y) == (
                if area.contains(x, y) {
                    old(self)@.cell(y - area.y, area.height as int)
                } else {
                    old(buf).cell_at(x, y)
                }),
    {
        if self.total == 0 || self.shown_range.start == self.shown_range.end {
            return ;
        }
        let above_height = self.above_height(area.height);
        let shown_height = self.shown_height(area.height);
        proof {
            lemma_bands_add_up(self@, area.height as int);
        }
        let background_style = Style::default().bg(Color::Black);
        let shown_style = Style::default().bg(Color::White);

        let mut y: u16 = 0;
        while y < area.height
            invariant
                y <= area.height,
                self@ == old(self)@,
                self@.visible(),
                above_height == self@.above_height(area.height as int),
                shown_height == self@.shown_height(area.height as int),
                above_height + shown_height <= area.height,
                background_style == (Style { bg: Color::Black, ..Style::plain() }),
                shown_style == (Style { bg: Color::White, ..Style::plain() }),
                buf.wf(),
                buf.area == old(buf).area,
                area.on_screen(),
                buf.area.encloses(*area),
                forall|cx: int, cy: int|
                    buf.area.contains(cx, cy) ==> #[trigger] buf.cell_at(cx, cy) == (if area.contains(
                        cx,
                        cy,
                    ) && cy < area.y + y {
                        self@.cell(cy - area.y, area.height as int)
                    } else {
                        old(buf).cell_at(cx, cy)
                    }),
            decreases area.height - y,
        {
            let projected_y = area.top() + y;
            let inside_scroll = y >= above_height && y < above_height + shown_height;
            let style = if inside_scroll {
                shown_style
            } else {
                background_style
            };
            let mut x: u16 = 0;
            while x < area.width
                invariant
                    x <= area.width,
                    y < area.height,
                    projected_y == area.y + y,
                    style == self@.cell(y as int, area.height as int).style,
                    buf.wf(),
                    buf.area == old(buf).area,
                    area.on_screen(),
                    buf.area.encloses(*area),
                    forall|cx: int, cy: int|
                        buf.area.contains(cx, cy) ==> #[trigger] buf.cell_at(cx, cy) == (
                        if area.contains(cx, cy) && (cy < area.y + y || (cy == area.y + y && cx
                            < area.x + x)) {
                            self@.cell(cy - area.y, area.height as int)
                        } else {
                            old(buf).cell_at(cx, cy)
                        }),
                decreases area.width - x,
            {
                let projected_x = area.left() + x;
                let ghost before = *buf;
                buf.set(projected_x, projected_y, Cell::new(' ', style));
                proof {
                    assert forall|cx: int, cy: int| buf.area.contains(cx, cy) implies #[trigger] buf.cell_at(
                        cx,
                        cy,
                    ) == (if area.contains(cx, cy) && (cy < area.y + y || (cy == area.y + y && cx
                        < area.x + x + 1)) {
                        self@.cell(cy - area.y, area.height as int)
                    } else {
                        old(buf).cell_at(cx, cy)
                    }) by {
                        crate::frame::lemma_index_in_injective(
                            buf.area,
                            cx,
                            cy,
                            projected_x as int,
                            projected_y as int,
                        );
                        crate::frame::lemma_index_in_bounds(buf.area, cx, cy);
                        crate::frame::lemma_index_in_bounds(
                            buf.area,
                            projected_x as int,
                            projected_y as int,
                        );
                        if cx == projected_x && cy == projected_y {
                            assert(buf.cell_at(cx, cy) == (Cell { symbol: ' ', style }));
                        } else {
                            assert(buf.cell_at(cx, cy) == before.cell_at(cx, cy));
                        }
                    }
                }
                x += 1;
            }
            y += 1;
        }
    }
}

} // verus!
