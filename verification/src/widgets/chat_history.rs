//! The chat history: the rows of a canvas that a scroll position selects,
//! drawn into a rectangle with a scrollbar in its last column.

use vstd::prelude::*;
use crate::canvas::{Canvas, CanvasView, ViewportOptions};
use crate::frame::{index_in, lemma_index_in_bounds, lemma_index_in_injective, Cell, Frame, Rect};
use crate::widgets::scrollbar::{Scrollbar, ScrollbarView};

verus! {

/// Number of rows of a canvas above the first row shown, where the view is
/// `scroll` rows up from the bottom and `rows` rows high. It is 0 where the
/// canvas does not reach that far up.
pub open spec fn row_offset(canvas_height: int, scroll: int, rows: int) -> int {
    if canvas_height - scroll - rows > 0 {
        canvas_height - scroll - rows
    } else {
        0
    }
}

/// The scrollbar of a view that is `scroll` rows up from the bottom and
/// `rows` rows high: all rows of the canvas are its items, and the rows
/// from the offset to the lower edge of the view are shown.
pub open spec fn scrollbar_of(canvas_height: int, scroll: int, rows: int) -> ScrollbarView {
    let bottom = if canvas_height > scroll {
        canvas_height - scroll
    } else {
        0
    };
    ScrollbarView {
        total: canvas_height,
        start: if bottom > rows {
            bottom - rows
        } else {
            0
        },
        end: bottom,
    }
}

/// The rectangle of the text: `area` without its last column.
pub open spec fn text_area(area: Rect) -> Rect {
    Rect { width: (area.width - 1) as u16, ..area }
}

/// The cell that the history shows at `(x, y)`, a position of the frame, in
/// place of `before`.
///
/// In the text area it is the cell of the canvas in that column, in the row
/// that lies as far below the offset as `y` lies below the top of `area`, or
/// a blank cell where the canvas ends above it. In the last column it is the
/// scrollbar's cell, where `area` is more than 10 columns wide and the
/// scrollbar has something to show. Everywhere else it is `before`.
pub open spec fn shown_cell(
    canvas: CanvasView,
    scroll: int,
    area: Rect,
    before: Cell,
    x: int,
    y: int,
) -> Cell {
    let bar = scrollbar_of(canvas.height(), scroll, area.height as int);
    if text_area(area).contains(x, y) {
        canvas.cell_or_blank(
            (row_offset(canvas.height(), scroll, area.height as int) + (y - area.y))
                * canvas.width + (x - area.x),
        )
    } else if area.contains(x, y) && area.width > 10 && bar.visible() {
        bar.cell(y - area.y, area.height as int)
    } else {
        before
    }
}

/// The scrollbar of a view is valid, whatever the scroll position.
pub proof fn lemma_scrollbar_of_valid(canvas_height: int, scroll: int, rows: int)
    requires
        canvas_height >= 0,
        scroll >= 0,
        rows >= 0,
    ensures
        scrollbar_of(canvas_height, scroll, rows).wf(),
        scrollbar_of(canvas_height, scroll, rows).ordered(),
        scrollbar_of(canvas_height, scroll, rows).start == row_offset(
            canvas_height,
            scroll,
            rows,
        ),
        scrollbar_of(canvas_height, scroll, rows).items_shown() <= rows,
{
}

/// A canvas and how far up from its bottom to show it.
pub struct ChatHistory<'a> {
    scroll: usize,
    canvas: &'a Canvas,
}

impl<'a> ChatHistory<'a> {
    /// Rows between the bottom of the canvas and the lower edge of the view.
    pub closed spec fn spec_scroll(&self) -> usize {
        self.scroll
    }

    /// The canvas shown.
    pub closed spec fn spec_canvas(&self) -> Canvas {
        *self.canvas
    }

    /// The history of `canvas`, seen from its bottom.
    pub fn with_canvas(canvas: &'a Canvas) -> (history: ChatHistory<'a>)
        ensures
            history.spec_canvas() == *canvas,
            history.spec_scroll() == 0,
    {
        ChatHistory { canvas, scroll: 0 }
    }

    /// Sets how many rows up from the bottom the view stands.
    pub fn scroll(&mut self, position: usize) -> (history: &mut ChatHistory<'a>)
        ensures
            history.spec_scroll() == position,
            history.spec_canvas() == old(self).spec_canvas(),
            *final(self) == *final(history),
    {
        self.scroll = position;
        self
    }

    /// Draws the history into the cells of `area`: the text in all columns
    /// but the last, and in the last the scrollbar, where `area` is more
    /// than 10 columns wide. An `area` of one column or none is left alone,
    /// whatever the canvas and the frame.
    pub fn draw(&mut self, area: &Rect, buf: &mut Frame)
        requires
            area.width > 1 ==> {
                &&& old(self).spec_canvas().wf()
                &&& old(buf).wf()
                &&& area.on_screen()
                &&& old(buf).area.encloses(*area)
                &&& area.width == old(self).spec_canvas()@.width + 1
            },
        ensures
            *final(self) == *old(self),
            final(buf).area == old(buf).area,
            area.width <= 1 ==> *final(buf) == *old(buf),
            area.width > 1 ==> final(buf).wf(),
            area.width > 1 ==> forall|x: int, y: int|
                old(buf).area.contains(x, y) ==> #[trigger] final(buf).cell_at(x, y)
                    == shown_cell(
                    old(self).spec_canvas()@,
                    old(self).spec_scroll() as int,
                    *area,
                    old(buf).cell_at(x, y),
                    x,
                    y,
                ),
    {
        if area.width <= 1 {
            return ;
        }
        let canvas_height: usize = self.canvas.height();
        let viewport_height: usize = area.height as usize;
        let scroll_from_top: usize = canvas_height.saturating_sub(self.scroll).saturating_sub(
            viewport_height,
        );
        let ghost canvas = self.canvas@;
        let ghost scroll = self.scroll as int;
        assert(scroll_from_top == row_offset(canvas.height(), scroll, area.height as int));

        // Draw viewport
        let viewport = self.canvas.render_viewport(
            ViewportOptions::new(area.height).with_offset(scroll_from_top).with_rect_position(
                area.x,
                area.y,
            ),
        );
        assert(viewport.area == text_area(*area));
        let mut i: usize = 0;
        while i < viewport.content.len()
            invariant
                i <= viewport.content.len(),
                viewport.wf(),
                viewport.area == text_area(*area),
                area.on_screen(),
                area.width > 1,
                buf.wf(),
                buf.area == old(buf).area,
                buf.area.encloses(*area),
                forall|cx: int, cy: int|
                    buf.area.contains(cx, cy) ==> #[trigger] buf.cell_at(cx, cy) == (
                    if viewport.area.contains(cx, cy) && index_in(viewport.area, cx, cy) < i {
                        viewport.content@[index_in(viewport.area, cx, cy)]
                    } else {
                        old(buf).cell_at(cx, cy)
                    }),
            decreases viewport.content.len() - i,
        {
            proof {
                crate::frame::lemma_position_of_index(viewport.area, i as int);
            }
            let (x, y) = viewport.pos_of(i);
            let ghost before = *buf;
            buf.set(x, y, viewport.content[i]);
            proof {
                assert forall|cx: int, cy: int| buf.area.contains(cx, cy) implies #[trigger] buf.cell_at(
                    cx,
                    cy,
                ) == (if viewport.area.contains(cx, cy) && index_in(viewport.area, cx, cy) < i
                    + 1 {
                    viewport.content@[index_in(viewport.area, cx, cy)]
                } else {
                    old(buf).cell_at(cx, cy)
                }) by {
                    lemma_index_in_bounds(buf.area, cx, cy);
                    lemma_index_in_bounds(buf.area, x as int, y as int);
                    lemma_index_in_injective(buf.area, cx, cy, x as int, y as int);
                    if viewport.area.contains(cx, cy) {
                        lemma_index_in_injective(viewport.area, cx, cy, x as int, y as int);
                    }
                    if cx == x && cy == y {
                        assert(buf.cell_at(cx, cy) == viewport.content@[i as int]);
                    } else {
                        assert(buf.cell_at(cx, cy) == before.cell_at(cx, cy));
                    }
                }
            }
            i += 1;
        }
        let ghost painted = *buf;
        proof {
            assert forall|cx: int, cy: int| buf.area.contains(cx, cy) implies #[trigger] buf.cell_at(
                cx,
                cy,
            ) == (if text_area(*area).contains(cx, cy) {
                shown_cell(canvas, scroll, *area, old(buf).cell_at(cx, cy), cx, cy)
            } else {
                old(buf).cell_at(cx, cy)
            }) by {
                if viewport.area.contains(cx, cy) {
                    lemma_index_in_bounds(viewport.area, cx, cy);
                    let k = index_in(viewport.area, cx, cy);
                    assert(viewport.content@[k] == canvas.cell_or_blank(
                        scroll_from_top * canvas.width + k,
                    ));
                    assert(scroll_from_top * canvas.width + k == (scroll_from_top + (cy - area.y))
                        * canvas.width + (cx - area.x)) by (nonlinear_arith)
                        requires
                            k == (cy - area.y) * canvas.width + (cx - area.x),
                    ;
                }
            }
        }

        // Draw scrollbar.
        if area.width > 10 {
            let scrollbar_bottom: usize = canvas_height.saturating_sub(self.scroll);
            let scrollbar_top: usize = scrollbar_bottom.saturating_sub(area.height as usize);
            let scrollbar_area = Rect::new(area.right() - 1, area.top(), 1, area.height);
            let mut scrollbar = Scrollbar::default();
            scrollbar.set_total(canvas_height);
            scrollbar.set_shown_range(scrollbar_top..scrollbar_bottom);
            assert(scrollbar@ == scrollbar_of(canvas.height(), scroll, area.height as int));
            scrollbar.draw(&scrollbar_area, buf);
            proof {
                assert forall|cx: int, cy: int| buf.area.contains(cx, cy) implies #[trigger] buf.cell_at(
                    cx,
                    cy,
                ) == shown_cell(canvas, scroll, *area, old(buf).cell_at(cx, cy), cx, cy) by {
                    assert(painted.cell_at(cx, cy) == (if text_area(*area).contains(cx, cy) {
                        shown_cell(canvas, scroll, *area, old(buf).cell_at(cx, cy), cx, cy)
                    } else {
                        old(buf).cell_at(cx, cy)
                    }));
                    if scrollbar@.visible() {
                        assert(buf.cell_at(cx, cy) == (if scrollbar_area.contains(cx, cy) {
                            scrollbar@.cell(cy - scrollbar_area.y, scrollbar_area.height as int)
                        } else {
                            painted.cell_at(cx, cy)
                        }));
                    }
                }
            }
        }
    }
}

} // verus!
