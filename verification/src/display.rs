//! The terminal's display buffer, as far as the renderer needs it.
//!
//! The buffer is `ratatui::buffer::Buffer`. Its cells lie row by row in one
//! vector; the cell of a position is found from the buffer's area alone.

use vstd::prelude::*;
use ratatui::buffer::Buffer;
use crate::rect::Rect;

verus! {

/// `ratatui::buffer::Buffer`, of which the verifier knows the name and no more.
#[verifier::external_type_specification]
#[verifier::external_body]
pub struct ExBuffer(Buffer);

/// The symbol of each cell of a display buffer, in the order in which the
/// buffer stores its cells.
pub uninterp spec fn display_symbols(display: Buffer) -> Seq<Seq<char>>;

/// The area of the terminal that a display buffer stands for.
pub uninterp spec fn display_area(display: Buffer) -> Rect;

/// The index of the cell at `(x, y)` in a buffer that covers `frame`.
pub open spec fn cell_index(frame: Rect, x: int, y: int) -> int {
    (y - frame.y) * frame.width + (x - frame.x)
}

/// The position of the cell with index `i` in a buffer that covers `frame`.
pub open spec fn cell_position(frame: Rect, i: int) -> (int, int) {
    (frame.x + i % (frame.width as int), frame.y + i / (frame.width as int))
}

/// Whether a buffer that covers `frame` with `cells` cells has one cell for
/// each position of the frame, and few enough for its own index arithmetic.
pub open spec fn display_ok(frame: Rect, cells: nat) -> bool {
    frame.width * frame.height == cells && cells <= u16::MAX
}

/// `Buffer::area`: the area that the buffer covers, field by field.
#[verifier::external_body]
pub(crate) fn area_of(display: &Buffer) -> (frame: Rect)
    ensures
        frame == display_area(*display),
{
    let area = display.area();
    Rect { x: area.x, y: area.y, width: area.width, height: area.height }
}

/// `Buffer::content`: the number of cells that the buffer stores.
#[verifier::external_body]
pub(crate) fn cell_count(display: &Buffer) -> (cells: usize)
    ensures
        cells == display_symbols(*display).len(),
{
    display.content().len()
}

/// `Buffer::get_mut` and `Cell::set_char`: the symbol of the cell at `(x, y)`
/// becomes the one character `glyph`; no other symbol and not the area
/// change. The buffer computes the cell's index in `u16` and checks the
/// position against its area in debug builds only, so the caller keeps the
/// position inside the area and the index inside both the vector and `u16`.
#[verifier::external_body]
pub(crate) fn put_char(display: &mut Buffer, x: u16, y: u16, glyph: char)
    requires
        display_area(*old(display)).holds(x as int, y as int),
        cell_index(display_area(*old(display)), x as int, y as int) < display_symbols(
            *old(display),
        ).len(),
        cell_index(display_area(*old(display)), x as int, y as int) <= u16::MAX,
    ensures
        display_area(*final(display)) == display_area(*old(display)),
        display_symbols(*final(display)) == display_symbols(*old(display)).update(
            cell_index(display_area(*old(display)), x as int, y as int),
            seq![glyph],
        ),
{
    display.get_mut(x, y).set_char(glyph);
}

} // verus!
