//! The banner that is shown while more messages are on their way.

use vstd::prelude::*;
use crate::canvas::{Canvas, CanvasView};
use crate::style::{Color, Style};
use crate::text::{center, centered};

verus! {

/// The banner as rows of `width` columns: one row, the words centered in
/// it, red; where the row is too short for the words, their beginning.
pub open spec fn loading_banner(width: int) -> CanvasView {
    CanvasView::empty(width).put_str(
        centered("Loading more messages"@, width),
        Style { fg: Color::Red, ..Style::plain() },
        false,
    )
}

/// The banner "Loading more messages".
#[derive(Debug, Clone, Copy)]
pub struct LoadingMessage {}

impl LoadingMessage {
    pub fn new() -> (banner: LoadingMessage) {
        LoadingMessage {  }
    }

    /// The banner as rows of `width` columns.
    pub fn render_as_canvas(&self, width: u16) -> (canvas: Canvas)
        requires
            width > 0,
        ensures
            canvas.wf(),
            canvas@.width == width,
            canvas@ == loading_banner(width as int),
    {
        let mut canvas = Canvas::new(width);
        let text = center("Loading more messages", width as usize);
        canvas.add_string_truncated(text.as_str(), Style::default().fg(Color::Red));
        canvas
    }
}

} // verus!
