//! The canvas: a growable grid of styled cells with a fixed width, written
//! at its end one character at a time.

use vstd::prelude::*;
use crate::frame::{Cell, Frame, Rect};
use crate::style::Style;
use crate::text::{decimal, lemma_decimal_unpadded, push_decimal, push_spaces, spaces};
use vstd::arithmetic::div_mod::{lemma_add_mod_noop, lemma_fundamental_div_mod, lemma_small_mod};
use vstd::string::StringExecFns;

verus! {

/// What a canvas holds, as mathematics.
pub struct CanvasView {
    /// Number of columns.
    pub width: int,
    /// The cells written so far, row after row. The last row may be partial.
    pub cells: Seq<Cell>,
    /// Whether the last character written filled its row, so that the cursor
    /// still stands behind that row and not yet on the next one.
    pub line_full: bool,
}

impl CanvasView {
    /// A canvas has at least one column.
    pub open spec fn wf(self) -> bool {
        self.width > 0
    }

    /// The empty canvas of the given width.
    pub open spec fn empty(width: int) -> CanvasView {
        CanvasView { width, cells: Seq::empty(), line_full: false }
    }

    /// Number of complete rows.
    pub open spec fn height(self) -> int {
        (self.cells.len() as int) / self.width
    }

    /// Number of cells in the last, partial row: 0 where every row is complete.
    pub open spec fn column(self) -> int {
        (self.cells.len() as int) % self.width
    }

    /// Whether every row is complete.
    pub open spec fn complete(self) -> bool {
        self.column() == 0
    }

    /// Whether the fullness flag tells the truth: it is only set behind a
    /// complete row. Writing text keeps this; so does appending a canvas of
    /// complete rows.
    pub open spec fn aligned(self) -> bool {
        self.line_full ==> self.complete()
    }

    /// The cells of a run of `count` spaces in `style`.
    pub open spec fn padding(count: int, style: Style) -> Seq<Cell> {
        Seq::new(count as nat, |i: int| Cell { symbol: ' ', style })
    }

    /// The canvas after its last row was filled up with spaces in `style`.
    /// Where the last row is complete already, this adds a whole row.
    pub open spec fn pad_line(self, style: Style) -> CanvasView {
        CanvasView {
            cells: self.cells + Self::padding(self.width - self.column(), style),
            line_full: false,
            ..self
        }
    }

    /// The canvas after one more cell was written.
    pub open spec fn push_cell(self, chr: char, style: Style) -> CanvasView {
        let cells = self.cells.push(Cell { symbol: chr, style });
        CanvasView { cells, line_full: (cells.len() as int) % self.width == 0, ..self }
    }

    /// The canvas after one character was handed to the writer.
    ///
    /// A carriage return is dropped. A line feed behind a row that was just
    /// filled only clears the flag; otherwise it pads the row in its own
    /// style. Any other character is written, except in truncating mode
    /// behind a row that was just filled, where it is dropped.
    pub open spec fn put_char(self, chr: char, style: Style, wrapping: bool) -> CanvasView {
        if chr == '\n' {
            if self.line_full {
                CanvasView { line_full: false, ..self }
            } else {
                self.pad_line(style)
            }
        } else if chr == '\r' {
            self
        } else if self.line_full && !wrapping {
            self
        } else {
            self.push_cell(chr, style)
        }
    }

    /// The canvas after the characters of `text` were handed to the writer in
    /// order.
    pub open spec fn put_str(self, text: Seq<char>, style: Style, wrapping: bool) -> CanvasView
        decreases text.len(),
    {
        if text.len() == 0 {
            self
        } else {
            self.put_str(text.drop_last(), style, wrapping).put_char(text.last(), style, wrapping)
        }
    }

    /// This canvas with the cells of `other` behind its own. The flag stays
    /// as it was.
    pub open spec fn append(self, other: CanvasView) -> CanvasView {
        CanvasView { cells: self.cells + other.cells, ..self }
    }

    /// The cell with index `i`, or a blank cell behind the last one.
    pub open spec fn cell_or_blank(self, i: int) -> Cell {
        if 0 <= i < self.cells.len() {
            self.cells[i]
        } else {
            Cell::blank()
        }
    }

    /// The cells of the `height` rows that start `offset` rows down: those
    /// that the canvas has, and blank cells in place of the others.
    pub open spec fn viewport(self, height: int, offset: int) -> Seq<Cell> {
        Seq::new(
            (height * self.width) as nat,
            |i: int| self.cell_or_blank(offset * self.width + i),
        )
    }

    /// The characters of the first `count` cells, with `marker` and a line
    /// feed between one row and the next.
    pub open spec fn text_upto(self, count: int, marker: Seq<char>) -> Seq<char>
        decreases count,
    {
        if count <= 0 {
            Seq::empty()
        } else {
            let i = count - 1;
            let row_break = if i > 0 && i % self.width == 0 {
                marker.push('\n')
            } else {
                Seq::empty()
            };
            self.text_upto(i, marker) + row_break + seq![self.cells[i].symbol]
        }
    }

    /// The canvas as text: each row followed by `marker`, a line feed
    /// between rows, and the last row filled up with spaces.
    pub open spec fn text(self, marker: Seq<char>) -> Seq<char> {
        let fill = if self.column() == 0 {
            0
        } else {
            self.width - self.column()
        };
        self.text_upto(self.cells.len() as int, marker) + spaces(fill) + marker
    }

    /// The text that describes the canvas for a developer: its size, then
    /// its rows as they are, one per line.
    pub open spec fn debug_text(self) -> Seq<char> {
        "Canvas (width="@ + decimal(self.width as nat) + ", height="@ + decimal(
            self.height() as nat,
        ) + ")\n"@ + self.text_upto(self.cells.len() as int, Seq::empty())
    }
}

/// A grid of styled cells, `width` columns wide, that grows at its end.
#[derive(Debug, Clone)]
pub struct Canvas {
    width: u16,
    cells: Vec<Cell>,
    line_full: bool,
}

impl View for Canvas {
    type V = CanvasView;

    closed spec fn view(&self) -> CanvasView {
        CanvasView { width: self.width as int, cells: self.cells@, line_full: self.line_full }
    }
}

impl Canvas {
    /// A canvas has at least one column, and its width is a `u16`.
    pub open spec fn wf(&self) -> bool {
        0 < self@.width <= u16::MAX
    }

    /// An empty canvas of `width` columns.
    pub fn new(width: u16) -> (canvas: Canvas)
        requires
            width > 0,
        ensures
            canvas.wf(),
            canvas@ == CanvasView::empty(width as int),
    {
        Canvas { width, cells: Vec::new(), line_full: false }
    }

    pub fn width(&self) -> (width: u16)
        ensures
            width == self@.width,
    {
        self.width
    }

    /// Number of complete rows.
    pub fn height(&self) -> (height: usize)
        requires
            self.wf(),
        ensures
            height == self@.height(),
    {
        self.cells.len() / (self.width as usize)
    }

    /// Number of cells written so far.
    pub fn len(&self) -> (len: usize)
        ensures
            len == self@.cells.len(),
    {
        self.cells.len()
    }

    /// Whether the last character written filled its row.
    pub fn line_full(&self) -> (full: bool)
        ensures
            full == self@.line_full,
    {
        self.line_full
    }

    /// The cell in column `x` of row `y`, where the canvas has one.
    pub fn get_pos(&self, x: u16, y: u16) -> (cell: Option<&Cell>)
        requires
            self.wf(),
        ensures
            match cell {
                Some(found) => {
                    &&& x < self@.width
                    &&& y * self@.width + x < self@.cells.len()
                    &&& *found == self@.cells[y * self@.width + x]
                },
                None => !(x < self@.width && y * self@.width + x < self@.cells.len()),
            },
    {
        match self.get_index(x, y) {
            Some(i) => Some(&self.cells[i]),
            None => None,
        }
    }

    fn get_index(&self, x: u16, y: u16) -> (index: Option<usize>)
        requires
            self.wf(),
        ensures
            match index {
                Some(i) => {
                    &&& x < self@.width
                    &&& i == y * self@.width + x
                    &&& i < self@.cells.len()
                },
                None => !(x < self@.width && y * self@.width + x < self@.cells.len()),
            },
    {
        if x < self.width {
            assert(y * self.width <= 0xffff * 0xffff) by (nonlinear_arith)
                requires
                    y <= 0xffff,
                    self.width <= 0xffff,
            ;
            let index: usize = (y as u32 * self.width as u32 + x as u32) as usize;
            if index < self.cells.len() {
                return Some(index);
            }
        }
        None
    }

    fn total_characters_on_last_line(&self) -> (column: u16)
        requires
            self.wf(),
        ensures
            column == self@.column(),
    {
        (self.cells.len() % (self.width as usize)) as u16
    }

    fn add_cell(&mut self, chr: char, style: Style)
        ensures
            final(self)@ == (CanvasView {
                cells: old(self)@.cells.push(Cell { symbol: chr, style }),
                ..old(self)@
            }),
    {
        let mut cell = Cell::default();
        cell.set_char(chr).set_style(style);
        self.cells.push(cell);
    }

    fn complete_line(&mut self, style: Style)
        requires
            old(self).wf(),
        ensures
            final(self)@ == old(self)@.pad_line(style),
    {
        let remaining: u16 = self.width - self.total_characters_on_last_line();
        let mut written: u16 = 0;
        while written < remaining
            invariant
                written <= remaining,
                remaining == old(self)@.width - old(self)@.column(),
                self@ == (CanvasView {
                    cells: old(self)@.cells + CanvasView::padding(written as int, style),
                    ..old(self)@
                }),
            decreases remaining - written,
        {
            self.add_cell(' ', style);
            written += 1;
            assert(self@.cells == old(self)@.cells + CanvasView::padding(written as int, style));
        }
        self.line_full = false;
    }

    fn add_char(&mut self, chr: char, style: Style, wrapping: bool)
        requires
            old(self).wf(),
        ensures
            final(self)@ == old(self)@.put_char(chr, style, wrapping),
    {
        if chr == '\n' {
            if self.line_full {
                self.line_full = false;
            } else {
                self.complete_line(style)
            }
        } else if chr == '\r' {
        } else {
            if self.line_full && wrapping {
                self.line_full = false;
            }
            if !self.line_full {
                self.add_cell(chr, style);
                self.line_full = self.total_characters_on_last_line() == 0;
            }
        }
    }

    fn add_string(&mut self, string: &str, style: Style, wrapping: bool)
        requires
            old(self).wf(),
        ensures
            final(self)@ == old(self)@.put_str(string@, style, wrapping),
            final(self)@.width == old(self)@.width,
            final(self).wf(),
    {
        for chr in it: string.chars()
            invariant
                it.seq() == string@,
                self.wf(),
                self@.width == old(self)@.width,
                self@ == old(self)@.put_str(string@.take(it.index() as int), style, wrapping),
        {
            assert(string@.take(it.index() + 1).drop_last() == string@.take(it.index() as int));
            self.add_char(chr, style, wrapping);
        }
        assert(string@.take(string@.len() as int) == string@);
    }

    /// Writes `string` at the end of the canvas; a character that finds its
    /// row full starts the next row.
    pub fn add_string_wrapped(&mut self, string: &str, style: Style)
        requires
            old(self).wf(),
        ensures
            final(self)@ == old(self)@.put_str(string@, style, true),
            final(self)@.width == old(self)@.width,
            final(self).wf(),
    {
        self.add_string(string, style, true)
    }

    /// Writes `string` at the end of the canvas; characters that find their
    /// row full are dropped until the next line feed.
    pub fn add_string_truncated(&mut self, string: &str, style: Style)
        requires
            old(self).wf(),
        ensures
            final(self)@ == old(self)@.put_str(string@, style, false),
            final(self)@.width == old(self)@.width,
            final(self).wf(),
    {
        self.add_string(string, style, false)
    }

    /// The frame that shows `viewport_options.height` rows of the canvas,
    /// starting `viewport_options.offset` rows down, placed at the position
    /// that the options name. Rows that the canvas does not have are blank.
    pub fn render_viewport(&self, viewport_options: ViewportOptions) -> (frame: Frame)
        requires
            self.wf(),
        ensures
            frame.wf(),
            frame.area == (Rect {
                x: viewport_options.spec_rect_x(),
                y: viewport_options.spec_rect_y(),
                width: self@.width as u16,
                height: viewport_options.spec_height(),
            }),
            frame.content@ == self@.viewport(
                viewport_options.spec_height() as int,
                viewport_options.spec_offset() as int,
            ),
    {
        let rect = Rect::new(
            viewport_options.rect_x,
            viewport_options.rect_y,
            self.width,
            viewport_options.height,
        );
        let width: usize = self.width as usize;
        let wanted: usize = rect.area();
        let len: usize = self.cells.len();
        let rows: usize = len / width;
        let offset: usize = viewport_options.offset;
        // Cells of the canvas from the first one wanted on; none where the
        // viewport starts below the last row.
        let (start, available): (usize, usize) = if offset <= rows {
            assert(offset * width <= rows * width <= len) by (nonlinear_arith)
                requires
                    offset <= rows,
                    rows == len / width,
                    width > 0,
            ;
            (offset * width, len - offset * width)
        } else {
            assert(offset * width >= len) by (nonlinear_arith)
                requires
                    offset >= rows + 1,
                    rows == len / width,
                    width > 0,
            ;
            (0, 0)
        };
        let ghost first: int = offset * width;
        assert(wanted == viewport_options.height * self@.width) by (nonlinear_arith)
            requires
                wanted == self@.width * viewport_options.height,
        ;
        let mut cells: Vec<Cell> = Vec::new();
        let mut i: usize = 0;
        while i < wanted
            invariant
                i <= wanted,
                cells.len() == i,
                len == self.cells.len(),
                available <= len,
                available > 0 ==> start == first && start + available == len,
                available == 0 ==> first >= len,
                forall|k: int| 0 <= k < i ==> cells@[k] == self@.cell_or_blank(first + k),
            decreases wanted - i,
        {
            if i < available {
                cells.push(self.cells[start + i]);
            } else {
                cells.push(Cell::default());
            }
            i += 1;
        }
        assert(cells@ =~= self@.viewport(
            viewport_options.height as int,
            viewport_options.offset as int,
        ));
        Frame { area: rect, content: cells }
    }

    /// Puts the characters of the cells behind `out`, with `marker` and a
    /// line feed between one row and the next.
    fn push_rows(&self, out: &mut String, marker: &str)
        requires
            self.wf(),
        ensures
            final(out)@ == old(out)@ + self@.text_upto(self@.cells.len() as int, marker@),
    {
        let width: usize = self.width as usize;
        let mut i: usize = 0;
        assert(out@ == old(out)@ + self@.text_upto(0, marker@));
        while i < self.cells.len()
            invariant
                i <= self.cells.len(),
                width == self@.width,
                self.wf(),
                out@ == old(out)@ + self@.text_upto(i as int, marker@),
            decreases self.cells.len() - i,
        {
            let ghost before = out@;
            if i > 0 && i % width == 0 {
                out.append(marker);
                out.push('\n');
                assert(out@ == before + marker@.push('\n'));
            }
            out.push(self.cells[i].symbol);
            i += 1;
            assert(out@ == old(out)@ + self@.text_upto(i as int, marker@));
        }
    }

    /// The canvas as text, row by row, the last row filled up with spaces.
    /// Each row ends in `eol_marker`, where one is given.
    pub fn render_to_string(&self, eol_marker: Option<&str>) -> (text: String)
        requires
            self.wf(),
        ensures
            text@ == self@.text(
                match eol_marker {
                    Some(marker) => marker@,
                    None => Seq::empty(),
                },
            ),
    {
        let marker: &str = match eol_marker {
            Some(marker) => marker,
            None => "",
        };
        proof {
            reveal_strlit("");
            assert(""@ == Seq::<char>::empty());
        }
        let mut out = String::new();
        self.push_rows(&mut out, marker);
        let width: usize = self.width as usize;
        let column: usize = self.cells.len() % width;
        if column != 0 {
            push_spaces(&mut out, width - column);
        } else {
            assert(out@ + spaces(0) == out@);
        }
        out.append(marker);
        out
    }

    /// A description of the canvas for a developer: a line with its width
    /// and height, then its rows, one per line.
    pub fn debug_string(&self) -> (text: String)
        requires
            self.wf(),
        ensures
            text@ == self@.debug_text(),
    {
        let mut out = String::from_str("Canvas (width=");
        push_decimal(&mut out, self.width as u64, 0);
        out.append(", height=");
        push_decimal(&mut out, self.height() as u64, 0);
        out.append(")\n");
        proof {
            lemma_decimal_unpadded(self@.width as nat);
            lemma_decimal_unpadded(self@.height() as nat);
            reveal_strlit("");
            assert(""@ == Seq::<char>::empty());
        }
        self.push_rows(&mut out, "");
        out
    }

    /// Puts the cells of `rhs` behind those of this canvas.
    pub fn append(&mut self, rhs: Canvas)
        requires
            old(self)@.width == rhs@.width,
        ensures
            final(self)@ == old(self)@.append(rhs@),
    {
        let mut rhs = rhs;
        self.cells.append(&mut rhs.cells);
    }
}

/// Whether `text` holds a line feed.
pub open spec fn has_line_feed(text: Seq<char>) -> bool
    decreases text.len(),
{
    if text.len() == 0 {
        false
    } else {
        text.last() == '\n' || has_line_feed(text.drop_last())
    }
}

/// Number of characters of `text` behind its last line feed, carriage
/// returns not counted.
pub open spec fn tail_width(text: Seq<char>) -> int
    decreases text.len(),
{
    if text.len() == 0 {
        0
    } else if text.last() == '\n' {
        0
    } else if text.last() == '\r' {
        tail_width(text.drop_last())
    } else {
        tail_width(text.drop_last()) + 1
    }
}

/// The column behind the last cell after `text` was written in wrapping
/// mode, on a canvas `width` columns wide that stood at column `start`.
pub open spec fn wrapped_end_column(start: int, width: int, text: Seq<char>) -> int {
    if has_line_feed(text) {
        tail_width(text) % width
    } else {
        (start + tail_width(text)) % width
    }
}

/// One character keeps the width, loses no cell, and keeps the fullness flag
/// truthful. A line feed leaves only complete rows; a carriage return leaves
/// the canvas as it is; another character that is written adds one cell.
pub proof fn lemma_put_char_keeps(canvas: CanvasView, chr: char, style: Style, wrapping: bool)
    requires
        canvas.wf(),
    ensures
        canvas.put_char(chr, style, wrapping).width == canvas.width,
        canvas.put_char(chr, style, wrapping).cells.len() >= canvas.cells.len(),
        canvas.aligned() ==> canvas.put_char(chr, style, wrapping).aligned(),
        chr == '\n' ==> !canvas.put_char(chr, style, wrapping).line_full,
        chr == '\n' && canvas.aligned() ==> canvas.put_char(chr, style, wrapping).complete(),
        chr == '\r' ==> canvas.put_char(chr, style, wrapping) == canvas,
        chr != '\n' && chr != '\r' && (wrapping || !canvas.line_full) ==> canvas.put_char(
            chr,
            style,
            wrapping,
        ).cells.len() == canvas.cells.len() + 1,
{
    let width = canvas.width;
    let len = canvas.cells.len() as int;
    if chr == '\n' && !canvas.line_full {
        lemma_fundamental_div_mod(len, width);
        let rows = len / width;
        let fill = width - len % width;
        assert(CanvasView::padding(fill, style).len() == fill);
        assert(canvas.pad_line(style).cells.len() == len + fill);
        assert((width * rows + width) % width == 0) by (nonlinear_arith)
            requires
                width > 0,
        ;
    }
}

/// Writing text keeps the width, loses no cell, and keeps the fullness flag
/// truthful.
pub proof fn lemma_put_str_keeps(
    canvas: CanvasView,
    text: Seq<char>,
    style: Style,
    wrapping: bool,
)
    requires
        canvas.wf(),
    ensures
        canvas.put_str(text, style, wrapping).width == canvas.width,
        canvas.put_str(text, style, wrapping).cells.len() >= canvas.cells.len(),
        canvas.aligned() ==> canvas.put_str(text, style, wrapping).aligned(),
    decreases text.len(),
{
    if text.len() > 0 {
        lemma_put_str_keeps(canvas, text.drop_last(), style, wrapping);
        lemma_put_char_keeps(
            canvas.put_str(text.drop_last(), style, wrapping),
            text.last(),
            style,
            wrapping,
        );
    }
}

/// Where wrapped writing leaves the cursor: behind the last line feed of the
/// text there are as many cells in the last row as characters followed it,
/// modulo the width; without a line feed the text continues the row that
/// the canvas stood in.
pub proof fn lemma_wrapped_end_column(canvas: CanvasView, text: Seq<char>, style: Style)
    requires
        canvas.wf(),
        canvas.aligned(),
    ensures
        canvas.put_str(text, style, true).column() == wrapped_end_column(
            canvas.column(),
            canvas.width,
            text,
        ),
    decreases text.len(),
{
    let width = canvas.width;
    if text.len() == 0 {
        lemma_small_mod(canvas.column() as nat, width as nat);
    } else {
        let before = canvas.put_str(text.drop_last(), style, true);
        lemma_wrapped_end_column(canvas, text.drop_last(), style);
        lemma_put_str_keeps(canvas, text.drop_last(), style, true);
        lemma_put_char_keeps(before, text.last(), style, true);
        let chr = text.last();
        if chr == '\n' {
            lemma_small_mod(0, width as nat);
        } else if chr != '\r' {
            let len = before.cells.len() as int;
            let tail = tail_width(text.drop_last());
            lemma_add_mod_noop(len, 1, width);
            if has_line_feed(text.drop_last()) {
                lemma_add_mod_noop(tail, 1, width);
            } else {
                lemma_add_mod_noop(canvas.column() + tail, 1, width);
            }
        }
    }
}

/// Wrapped writing leaves only complete rows exactly where the text ends
/// the last row: on a canvas whose flag is truthful, where the end column
/// of the text is 0.
pub proof fn lemma_wrapped_rows_complete(canvas: CanvasView, text: Seq<char>, style: Style)
    requires
        canvas.wf(),
        canvas.aligned(),
    ensures
        canvas.put_str(text, style, true).complete() <==> wrapped_end_column(
            canvas.column(),
            canvas.width,
            text,
        ) == 0,
        has_line_feed(text) && text.last() == '\n' ==> canvas.put_str(text, style, true).complete(),
{
    lemma_wrapped_end_column(canvas, text, style);
    if text.len() > 0 && text.last() == '\n' {
        lemma_small_mod(0, canvas.width as nat);
    }
}

/// Text that ends in a line feed leaves only complete rows, in either mode.
pub proof fn lemma_line_feed_completes(
    canvas: CanvasView,
    text: Seq<char>,
    style: Style,
    wrapping: bool,
)
    requires
        canvas.wf(),
        canvas.aligned(),
        text.len() > 0,
        text.last() == '\n',
    ensures
        canvas.put_str(text, style, wrapping).complete(),
        !canvas.put_str(text, style, wrapping).line_full,
{
    let before = canvas.put_str(text.drop_last(), style, wrapping);
    lemma_put_str_keeps(canvas, text.drop_last(), style, wrapping);
    lemma_put_char_keeps(before, text.last(), style, wrapping);
}

/// The character with index `i` of a text.
pub open spec fn char_at(text: Seq<char>, i: int) -> char {
    text[i]
}

/// The cells of a text in one style.
pub open spec fn cells_of(text: Seq<char>, style: Style) -> Seq<Cell> {
    Seq::new(text.len(), |i: int| Cell { symbol: char_at(text, i), style })
}

/// Number of characters of a text of `len` characters that fit into `room`
/// columns.
pub open spec fn fitting(len: int, room: int) -> int {
    if len <= room {
        len
    } else {
        room
    }
}

/// One more character in truncating mode, behind a text that was written
/// as far as it fit.
proof fn lemma_truncated_step(
    canvas: CanvasView,
    before: CanvasView,
    text: Seq<char>,
    style: Style,
)
    requires
        canvas.wf(),
        !canvas.line_full,
        text.len() > 0,
        text.last() != '\n',
        text.last() != '\r',
        before.width == canvas.width,
        before.cells == canvas.cells + cells_of(
            text.drop_last().take(fitting(text.len() - 1, canvas.width - canvas.column())),
            style,
        ),
        text.len() > 1 ==> before.line_full == (text.len() - 1 >= canvas.width
            - canvas.column()),
        text.len() == 1 ==> before == canvas,
    ensures
        before.put_char(text.last(), style, false).cells == canvas.cells + cells_of(
            text.take(fitting(text.len() as int, canvas.width - canvas.column())),
            style,
        ),
        before.put_char(text.last(), style, false).line_full == (text.len() >= canvas.width
            - canvas.column()),
{
    let width = canvas.width;
    let room = width - canvas.column();
    let front = text.drop_last();
    let chr = text.last();
    let len = text.len() as int;
    if len - 1 >= room {
        assert(front.take(room) =~= text.take(room));
    } else {
        assert(front.take(len - 1) =~= front);
        assert(text.take(len) =~= text);
        let after = before.push_cell(char_at(text, len - 1), style);
        assert(after.cells =~= canvas.cells + cells_of(text, style));
        let total = canvas.cells.len() as int;
        lemma_fundamental_div_mod(total, width);
        let rows = total / width;
        let column = canvas.column();
        assert(after.cells.len() == width * rows + column + len);
        if len == room {
            assert((width * rows + column + len) % width == 0) by (nonlinear_arith)
                requires
                    width > 0,
                    column + len == width,
            ;
        } else {
            assert((width * rows + column + len) % width != 0) by (nonlinear_arith)
                requires
                    width > 0,
                    0 < column + len < width,
            ;
        }
    }
}

/// Truncation drops what does not fit, and nothing else: a text without
/// line feeds and carriage returns, written in truncating mode behind a row
/// that is not marked full, adds its characters as far as the row has room
/// and leaves the others out. The row is marked full exactly where the text
/// reaches its end.
pub proof fn lemma_truncated_keeps_what_fits(canvas: CanvasView, text: Seq<char>, style: Style)
    requires
        canvas.wf(),
        !canvas.line_full,
        forall|i: int| 0 <= i < text.len() ==> text[i] != '\n' && text[i] != '\r',
    ensures
        canvas.put_str(text, style, false).cells == canvas.cells + cells_of(
            text.take(fitting(text.len() as int, canvas.width - canvas.column())),
            style,
        ),
        text.len() > 0 ==> canvas.put_str(text, style, false).line_full == (text.len()
            >= canvas.width - canvas.column()),
    decreases text.len(),
{
    if text.len() == 0 {
        lemma_no_cells(canvas, style);
    } else {
        let front = text.drop_last();
        lemma_truncated_keeps_what_fits(canvas, front, style);
        lemma_put_str_keeps(canvas, front, style, false);
        lemma_truncated_step(canvas, canvas.put_str(front, style, false), text, style);
    }
}

/// The cells of no text are none.
proof fn lemma_no_cells(canvas: CanvasView, style: Style)
    ensures
        canvas.cells + cells_of(Seq::<char>::empty().take(0), style) == canvas.cells,
        forall|room: int| fitting(0, room) <= 0,
{
    assert(canvas.cells + cells_of(Seq::<char>::empty().take(0), style) =~= canvas.cells);
}

/// Two line feeds behind a partial row give one padded row and one blank
/// row, each filled in the style of its line feed, in either mode.
pub proof fn lemma_two_line_feeds(canvas: CanvasView, style: Style, wrapping: bool)
    requires
        canvas.wf(),
        canvas.aligned(),
        canvas.column() > 0,
    ensures
        canvas.put_str(seq!['\n', '\n'], style, wrapping).cells == canvas.cells
            + CanvasView::padding(canvas.width - canvas.column(), style) + CanvasView::padding(
            canvas.width,
            style,
        ),
        canvas.put_str(seq!['\n', '\n'], style, wrapping).height() == canvas.height() + 2,
        canvas.put_str(seq!['\n', '\n'], style, wrapping).complete(),
{
    let text = seq!['\n', '\n'];
    let once = canvas.put_char('\n', style, wrapping);
    assert(text.drop_last() =~= seq!['\n']);
    assert(seq!['\n'].drop_last() =~= Seq::<char>::empty());
    assert(canvas.put_str(seq!['\n'], style, wrapping) == once) by {
        reveal_with_fuel(CanvasView::put_str, 2);
    }
    assert(canvas.put_str(text, style, wrapping) == once.put_char('\n', style, wrapping));
    lemma_put_char_keeps(canvas, '\n', style, wrapping);
    lemma_put_char_keeps(once, '\n', style, wrapping);
    lemma_second_line_feed_adds_blank_row(once, style);
    let width = canvas.width;
    let len = canvas.cells.len() as int;
    lemma_fundamental_div_mod(len, width);
    let rows = len / width;
    assert((width * rows + width) / width == rows + 1) by (nonlinear_arith)
        requires
            width > 0,
    ;
    assert(once.cells.len() == width * rows + width);
}

/// A second line feed behind a padded row adds one blank row in the style
/// of that line feed.
pub proof fn lemma_second_line_feed_adds_blank_row(canvas: CanvasView, style: Style)
    requires
        canvas.wf(),
        canvas.complete(),
        !canvas.line_full,
    ensures
        canvas.put_char('\n', style, true) == canvas.put_char('\n', style, false),
        canvas.put_char('\n', style, true).cells == canvas.cells + CanvasView::padding(
            canvas.width,
            style,
        ),
        canvas.put_char('\n', style, true).height() == canvas.height() + 1,
{
    let width = canvas.width;
    let len = canvas.cells.len() as int;
    lemma_fundamental_div_mod(len, width);
    let rows = len / width;
    assert((width * rows + width) / width == rows + 1) by (nonlinear_arith)
        requires
            width > 0,
    ;
}

/// Appending adds the heights exactly where the two partial rows together
/// do not fill a row; so it does for canvases of complete rows.
pub proof fn lemma_append_height(top: CanvasView, bottom: CanvasView)
    requires
        top.wf(),
        bottom.wf(),
        top.width == bottom.width,
    ensures
        top.append(bottom).width == top.width,
        top.append(bottom).cells.len() == top.cells.len() + bottom.cells.len(),
        top.append(bottom).height() == top.height() + bottom.height() <==> top.column()
            + bottom.column() < top.width,
        top.complete() && bottom.complete() ==> top.append(bottom).height() == top.height()
            + bottom.height() && top.append(bottom).complete(),
{
    let width = top.width;
    let a = top.cells.len() as int;
    let b = bottom.cells.len() as int;
    lemma_fundamental_div_mod(a, width);
    lemma_fundamental_div_mod(b, width);
    lemma_fundamental_div_mod(a + b, width);
    let qa = a / width;
    let ra = a % width;
    let qb = b / width;
    let rb = b % width;
    let q = (a + b) / width;
    let r = (a + b) % width;
    assert(q == qa + qb <==> ra + rb < width) by (nonlinear_arith)
        requires
            width > 0,
            a == width * qa + ra,
            b == width * qb + rb,
            a + b == width * q + r,
            0 <= ra < width,
            0 <= rb < width,
            0 <= r < width,
    ;
    if ra == 0 && rb == 0 {
        lemma_add_mod_noop(a, b, width);
        lemma_small_mod(0, width as nat);
    }
}

/// A viewport has one cell for each of its positions, whatever the canvas
/// holds: the cells of the canvas where it has them, and blank cells from
/// its end on.
pub proof fn lemma_viewport_pads(canvas: CanvasView, height: int, offset: int)
    requires
        canvas.wf(),
        height >= 0,
        offset >= 0,
    ensures
        canvas.viewport(height, offset).len() == height * canvas.width,
        forall|i: int|
            0 <= i < height * canvas.width && offset * canvas.width + i < canvas.cells.len()
                ==> #[trigger] canvas.viewport(height, offset)[i] == canvas.cells[offset
                * canvas.width + i],
        forall|i: int|
            0 <= i < height * canvas.width && offset * canvas.width + i >= canvas.cells.len()
                ==> #[trigger] canvas.viewport(height, offset)[i] == Cell::blank(),
{
    let width = canvas.width;
    assert(height * width >= 0 && offset * width >= 0) by (nonlinear_arith)
        requires
            height >= 0,
            offset >= 0,
            width > 0,
    ;
}

/// Which rows of a canvas to show, and where on the screen.
#[derive(Debug, Clone, Copy, PartialEq, Eq, Structural)]
pub struct ViewportOptions {
    height: u16,
    offset: usize,
    rect_x: u16,
    rect_y: u16,
}

impl ViewportOptions {
    /// Number of rows to show.
    pub closed spec fn spec_height(self) -> u16 {
        self.height
    }

    /// Number of rows of the canvas above the first row shown.
    pub closed spec fn spec_offset(self) -> usize {
        self.offset
    }

    /// Screen column of the left edge.
    pub closed spec fn spec_rect_x(self) -> u16 {
        self.rect_x
    }

    /// Screen row of the top edge.
    pub closed spec fn spec_rect_y(self) -> u16 {
        self.rect_y
    }

    /// `height` rows from the top of the canvas, placed at the origin.
    pub fn new(height: u16) -> (options: ViewportOptions)
        ensures
            options.spec_height() == height,
            options.spec_offset() == 0,
            options.spec_rect_x() == 0,
            options.spec_rect_y() == 0,
    {
        ViewportOptions { height, offset: 0, rect_x: 0, rect_y: 0 }
    }

    pub fn with_height(self, height: u16) -> (options: ViewportOptions)
        ensures
            options.spec_height() == height,
            options.spec_offset() == self.spec_offset(),
            options.spec_rect_x() == self.spec_rect_x(),
            options.spec_rect_y() == self.spec_rect_y(),
    {
        ViewportOptions { height, offset: self.offset, rect_x: self.rect_x, rect_y: self.rect_y }
    }

    pub fn with_offset(self, offset: usize) -> (options: ViewportOptions)
        ensures
            options.spec_height() == self.spec_height(),
            options.spec_offset() == offset,
            options.spec_rect_x() == self.spec_rect_x(),
            options.spec_rect_y() == self.spec_rect_y(),
    {
        ViewportOptions { height: self.height, offset, rect_x: self.rect_x, rect_y: self.rect_y }
    }

    pub fn with_rect_position(self, x: u16, y: u16) -> (options: ViewportOptions)
        ensures
            options.spec_height() == self.spec_height(),
            options.spec_offset() == self.spec_offset(),
            options.spec_rect_x() == x,
            options.spec_rect_y() == y,
    {
        ViewportOptions { height: self.height, offset: self.offset, rect_x: x, rect_y: y }
    }

    pub fn height(&self) -> (height: u16)
        ensures
            height == self.spec_height(),
    {
        self.height
    }

    pub fn offset(&self) -> (offset: usize)
        ensures
            offset == self.spec_offset(),
    {
        self.offset
    }

    pub fn rect_x(&self) -> (x: u16)
        ensures
            x == self.spec_rect_x(),
    {
        self.rect_x
    }

    pub fn rect_y(&self) -> (y: u16)
        ensures
            y == self.spec_rect_y(),
    {
        self.rect_y
    }
}

impl Default for ViewportOptions {
    fn default() -> (options: ViewportOptions)
        ensures
            options.spec_height() == 0,
            options.spec_offset() == 0,
            options.spec_rect_x() == 0,
            options.spec_rect_y() == 0,
    {
        ViewportOptions { height: 0, offset: 0, rect_x: 0, rect_y: 0 }
    }
}

} // verus!
