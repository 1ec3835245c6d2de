//! Rectangles, cells and rectangular frames of cells.

use vstd::prelude::*;
use crate::style::Style;

verus! {

/// A rectangle on the screen: its upper left corner and its size.
#[derive(Debug, Clone, Copy, PartialEq, Eq, Structural)]
pub struct Rect {
    pub x: u16,
    pub y: u16,
    pub width: u16,
    pub height: u16,
}

impl Rect {
    /// Number of cells in the rectangle.
    pub open spec fn spec_area(self) -> int {
        self.width * self.height
    }

    /// Column just right of the rectangle.
    pub open spec fn spec_right(self) -> int {
        self.x + self.width
    }

    /// Row just below the rectangle.
    pub open spec fn spec_bottom(self) -> int {
        self.y + self.height
    }

    /// Whether the position `(x, y)` lies inside the rectangle.
    pub open spec fn contains(self, x: int, y: int) -> bool {
        self.x <= x < self.spec_right() && self.y <= y < self.spec_bottom()
    }

    /// Whether every position of `inner` lies inside this rectangle.
    pub open spec fn encloses(self, inner: Rect) -> bool {
        &&& self.x <= inner.x
        &&& inner.spec_right() <= self.spec_right()
        &&& self.y <= inner.y
        &&& inner.spec_bottom() <= self.spec_bottom()
    }

    /// Whether the right and bottom edges are screen coordinates themselves.
    pub open spec fn on_screen(self) -> bool {
        self.spec_right() <= u16::MAX && self.spec_bottom() <= u16::MAX
    }

    /// Whether the right and bottom edges are screen coordinates.
    pub fn is_on_screen(&self) -> (fits: bool)
        ensures
            fits == self.on_screen(),
    {
        self.width <= u16::MAX - self.x && self.height <= u16::MAX - self.y
    }

    /// Whether every position of `inner` lies inside this rectangle.
    pub fn holds(&self, inner: &Rect) -> (inside: bool)
        ensures
            inside == self.encloses(*inner),
    {
        self.x <= inner.x && inner.x as u32 + inner.width as u32 <= self.x as u32
            + self.width as u32 && self.y <= inner.y && inner.y as u32 + inner.height as u32
            <= self.y as u32 + self.height as u32
    }

    pub fn new(x: u16, y: u16, width: u16, height: u16) -> (rect: Rect)
        ensures
            rect == (Rect { x, y, width, height }),
    {
        Rect { x, y, width, height }
    }

    /// Number of cells in the rectangle.
    pub fn area(&self) -> (cells: usize)
        ensures
            cells == self.spec_area(),
    {
        assert(self.width * self.height <= 0xffff * 0xffff) by (nonlinear_arith)
            requires
                self.width <= 0xffff,
                self.height <= 0xffff,
        ;
        (self.width as u32 * self.height as u32) as usize
    }

    pub fn left(&self) -> (x: u16)
        ensures
            x == self.x,
    {
        self.x
    }

    pub fn right(&self) -> (x: u16)
        requires
            self.spec_right() <= u16::MAX,
        ensures
            x == self.spec_right(),
    {
        self.x + self.width
    }

    pub fn top(&self) -> (y: u16)
        ensures
            y == self.y,
    {
        self.y
    }

    pub fn bottom(&self) -> (y: u16)
        requires
            self.spec_bottom() <= u16::MAX,
        ensures
            y == self.spec_bottom(),
    {
        self.y + self.height
    }
}

impl Default for Rect {
    fn default() -> (rect: Rect)
        ensures
            rect == (Rect { x: 0, y: 0, width: 0, height: 0 }),
    {
        Rect { x: 0, y: 0, width: 0, height: 0 }
    }
}

/// One position of a grid: a character and how it is shown.
#[derive(Debug, Clone, Copy, PartialEq, Eq, Structural)]
pub struct Cell {
    pub symbol: char,
    pub style: Style,
}

impl Cell {
    /// A space in the plain style.
    pub open spec fn blank() -> Cell {
        Cell { symbol: ' ', style: Style::plain() }
    }

    pub fn new(symbol: char, style: Style) -> (cell: Cell)
        ensures
            cell == (Cell { symbol, style }),
    {
        Cell { symbol, style }
    }

    pub fn set_char(&mut self, ch: char) -> (cell: &mut Cell)
        ensures
            *cell == (Cell { symbol: ch, style: old(self).style }),
            *final(self) == *final(cell),
    {
        self.symbol = ch;
        self
    }

    pub fn set_style(&mut self, style: Style) -> (cell: &mut Cell)
        ensures
            *cell == (Cell { symbol: old(self).symbol, style }),
            *final(self) == *final(cell),
    {
        self.style = style;
        self
    }
}

impl Default for Cell {
    fn default() -> (cell: Cell)
        ensures
            cell == Cell::blank(),
    {
        Cell { symbol: ' ', style: Style::default() }
    }
}

/// The cells of a rectangle, row by row.
#[derive(Debug, Clone, PartialEq, Eq)]
pub struct Frame {
    pub area: Rect,
    pub content: Vec<Cell>,
}

/// Index of the position `(x, y)` among the cells of `area`, row by row.
pub open spec fn index_in(area: Rect, x: int, y: int) -> int {
    (y - area.y) * area.width + (x - area.x)
}

/// Column, counted from the left edge of `area`, of the cell with index `i`.
pub open spec fn column_in(area: Rect, i: int) -> int {
    i % (area.width as int)
}

/// Row, counted from the top edge of `area`, of the cell with index `i`.
pub open spec fn row_in(area: Rect, i: int) -> int {
    i / (area.width as int)
}

/// The identity `(y - area.y) * width + (x - area.x) < width * height` for
/// positions inside `area`, and that the index is not negative.
pub proof fn lemma_index_in_bounds(area: Rect, x: int, y: int)
    requires
        area.contains(x, y),
    ensures
        0 <= index_in(area, x, y) < area.spec_area(),
        (y - area.y) * area.width <= (area.height - 1) * area.width,
{
    let row = y - area.y;
    let w = area.width as int;
    let h = area.height as int;
    assert(0 <= row * w) by (nonlinear_arith)
        requires
            0 <= row,
            0 <= w,
    ;
    assert(row * w <= (h - 1) * w) by (nonlinear_arith)
        requires
            row <= h - 1,
            0 <= w,
    ;
    assert((h - 1) * w + w == h * w) by (nonlinear_arith);
    assert(w * h == h * w) by (nonlinear_arith);
}

/// Two positions inside `area` have the same index only where they are the
/// same position.
pub proof fn lemma_index_in_injective(area: Rect, x1: int, y1: int, x2: int, y2: int)
    requires
        area.contains(x1, y1),
        area.contains(x2, y2),
    ensures
        index_in(area, x1, y1) == index_in(area, x2, y2) <==> (x1 == x2 && y1 == y2),
{
    let w = area.width as int;
    let a = y1 - area.y;
    let b = y2 - area.y;
    let c = x1 - area.x;
    let d = x2 - area.x;
    assert(a * w + c == b * w + d ==> a == b && c == d) by (nonlinear_arith)
        requires
            0 <= c < w,
            0 <= d < w,
            0 <= a,
            0 <= b,
    ;
}

impl Frame {
    /// A frame holds exactly one cell for each position of its area.
    pub open spec fn wf(&self) -> bool {
        self.content.len() == self.area.spec_area()
    }

    /// The cell at `(x, y)`.
    pub open spec fn cell_at(&self, x: int, y: int) -> Cell {
        self.content@[index_in(self.area, x, y)]
    }

    /// Whether the frame holds one cell for each position of its area.
    pub fn is_whole(&self) -> (whole: bool)
        ensures
            whole == self.wf(),
    {
        self.content.len() == self.area.area()
    }

    /// A frame over `area` in which every cell is `cell`.
    pub fn filled(area: Rect, cell: &Cell) -> (frame: Frame)
        ensures
            frame.wf(),
            frame.area == area,
            forall|i: int| 0 <= i < frame.content.len() ==> frame.content@[i] == *cell,
    {
        let size = area.area();
        let mut content: Vec<Cell> = Vec::new();
        let mut i: usize = 0;
        while i < size
            invariant
                i <= size,
                content.len() == i,
                forall|k: int| 0 <= k < i ==> content@[k] == *cell,
            decreases size - i,
        {
            content.push(*cell);
            i += 1;
        }
        Frame { area, content }
    }

    /// A frame over `area` of blank cells.
    pub fn empty(area: Rect) -> (frame: Frame)
        ensures
            frame.wf(),
            frame.area == area,
            forall|i: int| 0 <= i < frame.content.len() ==> frame.content@[i] == Cell::blank(),
    {
        let cell = Cell::default();
        Frame::filled(area, &cell)
    }

    /// Index of the cell at `(x, y)`.
    pub fn index_of(&self, x: u16, y: u16) -> (i: usize)
        requires
            self.wf(),
            self.area.contains(x as int, y as int),
        ensures
            i == index_in(self.area, x as int, y as int),
            i < self.content.len(),
    {
        proof {
            lemma_index_in_bounds(self.area, x as int, y as int);
        }
        let row: usize = (y - self.area.y) as usize;
        let column: usize = (x - self.area.x) as usize;
        assert(row * self.area.width <= (self.area.height - 1) * self.area.width);
        assert((self.area.height - 1) * self.area.width <= 0xffff * 0xffff) by (nonlinear_arith)
            requires
                1 <= self.area.height <= 0xffff,
                self.area.width <= 0xffff,
        ;
        row * (self.area.width as usize) + column
    }

    /// Position of the cell with index `i`.
    pub fn pos_of(&self, i: usize) -> (pos: (u16, u16))
        requires
            self.wf(),
            i < self.content.len(),
            self.area.x + column_in(self.area, i as int) <= u16::MAX,
            self.area.y + row_in(self.area, i as int) <= u16::MAX,
        ensures
            pos.0 == self.area.x + column_in(self.area, i as int),
            pos.1 == self.area.y + row_in(self.area, i as int),
            self.area.contains(pos.0 as int, pos.1 as int),
            index_in(self.area, pos.0 as int, pos.1 as int) == i,
    {
        let width: usize = self.area.width as usize;
        proof {
            lemma_cell_count_positive(self.area, i as int);
            lemma_position_of_index(self.area, i as int);
        }
        let column: usize = i % width;
        let row: usize = i / width;
        (self.area.x + column as u16, self.area.y + row as u16)
    }

    /// The cell at `(x, y)`.
    pub fn get(&self, x: u16, y: u16) -> (cell: &Cell)
        requires
            self.wf(),
            self.area.contains(x as int, y as int),
        ensures
            *cell == self.cell_at(x as int, y as int),
    {
        let i = self.index_of(x, y);
        &self.content[i]
    }

    /// Puts `cell` at `(x, y)` and leaves every other cell as it was.
    pub fn set(&mut self, x: u16, y: u16, cell: Cell)
        requires
            old(self).wf(),
            old(self).area.contains(x as int, y as int),
        ensures
            final(self).area == old(self).area,
            final(self).content@ == old(self).content@.update(
                index_in(old(self).area, x as int, y as int),
                cell,
            ),
            final(self).wf(),
    {
        let i = self.index_of(x, y);
        self.content[i] = cell;
    }
}

/// An area that has a cell with index `i` has a width and a height.
pub proof fn lemma_cell_count_positive(area: Rect, i: int)
    requires
        0 <= i < area.spec_area(),
    ensures
        area.width > 0,
        area.height > 0,
{
    let w = area.width as int;
    let h = area.height as int;
    assert(w == 0 || h == 0 ==> w * h == 0) by (nonlinear_arith);
}

/// Row and column of the cell with index `i`: `i / width` and `i % width`,
/// counted from the corner of the area.
pub proof fn lemma_position_of_index(area: Rect, i: int)
    requires
        0 <= i < area.spec_area(),
    ensures
        area.width > 0,
        0 <= column_in(area, i) < area.width,
        0 <= row_in(area, i) < area.height,
        row_in(area, i) * area.width + column_in(area, i) == i,
{
    lemma_cell_count_positive(area, i);
    let w = area.width as int;
    let h = area.height as int;
    let q = i / w;
    let r = i % w;
    assert(i == w * q + r && 0 <= r < w) by {
        vstd::arithmetic::div_mod::lemma_fundamental_div_mod(i, w);
    }
    assert(q >= 0 && q < h) by (nonlinear_arith)
        requires
            i == w * q + r,
            0 <= r < w,
            0 <= i < w * h,
            w > 0,
    ;
    assert(q * w == w * q) by (nonlinear_arith);
}

} // verus!
