//! A line of text with a cursor, drawn into one row.

use vstd::prelude::*;
use crate::text::chars_of;
use crate::frame::{lemma_index_in_bounds, lemma_index_in_injective, Cell, Frame, Rect};
use crate::style::Style;

verus! {

/// What a line edit shows, as mathematics.
pub struct LineView {
    pub text: Seq<char>,
    /// Number of characters in front of the cursor.
    pub cursor_pos: int,
    pub style: Style,
}

impl LineView {
    /// Number of characters left out at the start of the text, in a row of
    /// `width` columns: so many that the end of the text and one column
    /// behind it fit, but none behind the cursor.
    pub open spec fn offset(self, width: int) -> int {
        let fitting = if self.text.len() - width - 1 > 0 {
            self.text.len() - width - 1
        } else {
            0
        };
        if fitting <= self.cursor_pos {
            fitting
        } else {
            self.cursor_pos
        }
    }

    /// The style of the cursor: the colours of the line, exchanged.
    pub open spec fn cursor_style(self) -> Style {
        Style { fg: self.style.bg, bg: self.style.fg, ..Style::plain() }
    }

    /// The cell in column `i` of a row of `width` columns: the character
    /// of the text that stands there, or a space behind the text, in the
    /// style of the line; in the style of the cursor where the cursor is.
    pub open spec fn cell(self, width: int, i: int) -> Cell {
        let offset = self.offset(width);
        Cell {
            symbol: if offset + i < self.text.len() {
                self.text[offset + i]
            } else {
                ' '
            },
            style: if i == self.cursor_pos - offset {
                self.cursor_style()
            } else {
                self.style
            },
        }
    }
}

/// A line of text with a cursor.
pub struct LineEdit<'a> {
    text: &'a str,
    cursor_pos: usize,
    style: Style,
}

impl<'a> View for LineEdit<'a> {
    type V = LineView;

    closed spec fn view(&self) -> LineView {
        LineView { text: self.text@, cursor_pos: self.cursor_pos as int, style: self.style }
    }
}

impl<'a> Default for LineEdit<'a> {
    fn default() -> (line: LineEdit<'a>)
        ensures
            line@ == (LineView { text: Seq::empty(), cursor_pos: 0, style: Style::plain() }),
    {
        proof {
            reveal_strlit("");
            assert(""@ =~= Seq::<char>::empty());
        }
        LineEdit { text: "", cursor_pos: 0, style: Style::default() }
    }
}

impl<'a> LineEdit<'a> {
    pub fn text(&mut self, text: &'a str) -> (line: &mut LineEdit<'a>)
        ensures
            line@ == (LineView { text: text@, ..old(self)@ }),
            *final(self) == *final(line),
    {
        self.text = text;
        self
    }

    pub fn cursor_pos(&mut self, pos: usize) -> (line: &mut LineEdit<'a>)
        ensures
            line@ == (LineView { cursor_pos: pos as int, ..old(self)@ }),
            *final(self) == *final(line),
    {
        self.cursor_pos = pos;
        self
    }

    pub fn style(&mut self, style: Style) -> (line: &mut LineEdit<'a>)
        ensures
            line@ == (LineView { style, ..old(self)@ }),
            *final(self) == *final(line),
    {
        self.style = style;
        self
    }

    /// Draws the line into the first row of `area`, over its whole width.
    pub fn draw(&mut self, area: &Rect, buf: &mut Frame)
        requires
            old(buf).wf(),
            area.on_screen(),
            old(buf).area.encloses(*area),
            area.width > 0 ==> area.height > 0,
        ensures
            *final(self) == *old(self),
            final(buf).wf(),
            final(buf).area == old(buf).area,
            forall|x: int, y: int|
                old(buf).area.contains(x, y) ==> #[trigger] final(buf).cell_at(x, y) == (if y
                    == area.y && area.x <= x < area.x + area.width {
                    old(self)@.cell(area.width as int, x - area.x)
                } else {
                    old(buf).cell_at(x, y)
                }),
    {
        let chars = chars_of(self.text);
        let width: usize = area.width as usize;
        // Leave one extra cell for cursor
        let fitting = chars.len().saturating_sub(width).saturating_sub(1);
        let offset = if fitting <= self.cursor_pos {
            fitting
        } else {
            self.cursor_pos
        };
        let cursor_style = Style::default().fg(self.style.bg).bg(self.style.fg);
        let mut i: u16 = 0;
        while i < area.width
            invariant
                i <= area.width,
                chars@ == self@.text,
                offset == self@.offset(area.width as int),
                offset <= chars.len(),
                cursor_style == self@.cursor_style(),
                *self == *old(self),
                area.on_screen(),
                area.width > 0 ==> area.height > 0,
                buf.wf(),
                buf.area == old(buf).area,
                buf.area.encloses(*area),
                forall|x: int, y: int|
                    buf.area.contains(x, y) ==> #[trigger] buf.cell_at(x, y) == (if y == area.y
                        && area.x <= x < area.x + i {
                        self@.cell(area.width as int, x - area.x)
                    } else {
                        old(buf).cell_at(x, y)
                    }),
            decreases area.width - i,
        {
            let chr = if (i as usize) < chars.len() - offset {
                chars[offset + i as usize]
            } else {
                ' '
            };
            let style = if self.cursor_pos >= offset && i as usize == self.cursor_pos - offset {
                cursor_style
            } else {
                self.style
            };
            let ghost before = *buf;
            let x = area.x + i;
            buf.set(x, area.y, Cell::new(chr, style));
            proof {
                assert forall|cx: int, cy: int| buf.area.contains(cx, cy) implies #[trigger] buf.cell_at(
                    cx,
                    cy,
                ) == (if cy == area.y && area.x <= cx < area.x + i + 1 {
                    self@.cell(area.width as int, cx - area.x)
                } else {
                    old(buf).cell_at(cx, cy)
                }) by {
                    lemma_index_in_bounds(buf.area, cx, cy);
                    lemma_index_in_bounds(buf.area, x as int, area.y as int);
                    lemma_index_in_injective(buf.area, cx, cy, x as int, area.y as int);
                    if cx == x && cy == area.y {
                        assert(buf.cell_at(cx, cy) == (Cell { symbol: chr, style }));
                    } else {
                        assert(buf.cell_at(cx, cy) == before.cell_at(cx, cy));
                    }
                }
            }
            i += 1;
        }
    }
}

} // verus!
