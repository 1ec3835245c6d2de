//! Errors in words, and frames as text.

use vstd::prelude::*;
use vstd::string::StringExecFns;
use crate::frame::{Frame, Rect};
use crate::text::{decimal, lemma_decimal_unpadded, push_decimal, push_spaces, spaces};

verus! {

/// The line for the cause with index `i` of an error: the error itself
/// comes first, and each cause behind it stands on a line of its own, four
/// spaces further in than the one before.
pub open spec fn cause_line(i: int, cause: Seq<char>) -> Seq<char> {
    if i == 0 {
        "Error: "@ + cause
    } else {
        "\n"@ + spaces(4 * i) + "Caused by: "@ + cause
    }
}

/// An error and its causes in words, one line for each.
pub open spec fn error_text(causes: Seq<Seq<char>>) -> Seq<char>
    decreases causes.len(),
{
    if causes.len() == 0 {
        Seq::empty()
    } else {
        error_text(causes.drop_last()) + cause_line(causes.len() - 1, causes.last())
    }
}

/// The texts of `strings`.
pub open spec fn texts(strings: Seq<String>) -> Seq<Seq<char>> {
    strings.map_values(|text: String| text@)
}

/// An error in words, given by what it and each of its causes say, the
/// error itself first.
pub fn format_error_with_causes(causes: &Vec<String>) -> (text: String)
    requires
        4 * causes.len() <= usize::MAX,
    ensures
        text@ == error_text(texts(causes@)),
{
    let mut text = String::new();
    let mut i: usize = 0;
    while i < causes.len()
        invariant
            i <= causes.len(),
            4 * causes.len() <= usize::MAX,
            text@ == error_text(texts(causes@).take(i as int)),
        decreases causes.len() - i,
    {
        let ghost before = text@;
        if i == 0 {
            text.append("Error: ");
        } else {
            let indentation: usize = 4 * i;
            text.append("\n");
            push_spaces(&mut text, indentation);
            text.append("Caused by: ");
        }
        text.append(causes[i].as_str());
        assert(text@ == before + cause_line(i as int, texts(causes@)[i as int]));
        assert(texts(causes@).take(i + 1).drop_last() == texts(causes@).take(i as int));
        i += 1;
    }
    assert(texts(causes@).take(causes.len() as int) == texts(causes@));
    text
}

/// A rectangle in words, field by field.
pub open spec fn rect_text(area: Rect) -> Seq<char> {
    "Rect { x: "@ + decimal(area.x as nat) + ", y: "@ + decimal(area.y as nat) + ", width: "@
        + decimal(area.width as nat) + ", height: "@ + decimal(area.height as nat) + " }"@
}

/// The characters of the first `count` cells of a frame, with a carriage
/// return and a line feed between one row and the next.
pub open spec fn frame_rows(frame: Frame, count: int) -> Seq<char>
    decreases count,
{
    if count <= 0 {
        Seq::empty()
    } else {
        let i = count - 1;
        let row_break = if i > 0 && i % (frame.area.width as int) == 0 {
            "\r\n"@
        } else {
            Seq::empty()
        };
        frame_rows(frame, i) + row_break + seq![frame.content@[i].symbol]
    }
}

/// A frame as text: a line that names its area, then its rows.
pub open spec fn frame_text(frame: Frame) -> Seq<char> {
    "Buffer area: "@ + rect_text(frame.area) + "\r\n"@ + frame_rows(
        frame,
        frame.content.len() as int,
    )
}

/// A frame as text, for showing what differs when two frames were expected
/// to be equal.
pub fn render_buffer(buf: &Frame) -> (text: String)
    requires
        buf.wf(),
    ensures
        text@ == frame_text(*buf),
{
    let mut text = String::from_str("Buffer area: ");
    text.append("Rect { x: ");
    push_decimal(&mut text, buf.area.x as u64, 0);
    text.append(", y: ");
    push_decimal(&mut text, buf.area.y as u64, 0);
    text.append(", width: ");
    push_decimal(&mut text, buf.area.width as u64, 0);
    text.append(", height: ");
    push_decimal(&mut text, buf.area.height as u64, 0);
    text.append(" }");
    text.append("\r\n");
    proof {
        lemma_decimal_unpadded(buf.area.x as nat);
        lemma_decimal_unpadded(buf.area.y as nat);
        lemma_decimal_unpadded(buf.area.width as nat);
        lemma_decimal_unpadded(buf.area.height as nat);
        assert(text@ =~= "Buffer area: "@ + rect_text(buf.area) + "\r\n"@);
    }
    let ghost head = text@;
    let width: usize = buf.area.width as usize;
    let mut i: usize = 0;
    assert(text@ == head + frame_rows(*buf, 0));
    while i < buf.content.len()
        invariant
            i <= buf.content.len(),
            buf.wf(),
            width == buf.area.width,
            text@ == head + frame_rows(*buf, i as int),
        decreases buf.content.len() - i,
    {
        proof {
            crate::frame::lemma_cell_count_positive(buf.area, i as int);
        }
        let ghost before = text@;
        if i > 0 && i % width == 0 {
            text.append("\r\n");
        }
        text.push(buf.content[i].symbol);
        i += 1;
        assert(text@ == head + frame_rows(*buf, i as int));
    }
    text
}

} // verus!
