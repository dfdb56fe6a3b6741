//! The background renderer: it resolves every cell to one glyph and writes
//! the glyphs of a region into the terminal's display buffer.
//!
//! Precedence inside a cell: a slow drop wins over all others; without one,
//! the drop that came first wins; an empty cell shows the glyph of `Absent`.

use vstd::prelude::*;
use vstd::arithmetic::div_mod::{lemma_fundamental_div_mod, lemma_fundamental_div_mod_converse};
use ratatui::buffer::Buffer;
use crate::buffer::{grid_of, has_cell, DropColumn, Grid};
use crate::cell::{render_tier, DropCell};
use crate::display::{area_of, cell_count, cell_index, cell_position, display_area, display_ok, display_symbols, put_char};
use crate::rect::Rect;
use crate::tier::DropSpeed;

pub mod rain;
pub mod snow;
pub mod timer;

verus! {

/// The glyphs of an effect: one for each tier, and one for a cell without a
/// drop.
#[derive(Clone, Copy, Debug, PartialEq, Eq, Structural)]
pub struct GlyphTable {
    pub absent: char,
    pub fast: char,
    pub medium: char,
    pub slow: char,
}

impl GlyphTable {
    /// The glyph for `tier`.
    pub open spec fn of(self, tier: DropSpeed) -> char {
        match tier {
            DropSpeed::Absent => self.absent,
            DropSpeed::Fast => self.fast,
            DropSpeed::Medium => self.medium,
            DropSpeed::Slow => self.slow,
        }
    }

    /// The glyph for `tier`.
    pub fn get(&self, tier: DropSpeed) -> (glyph: char)
        ensures
            glyph == self.of(tier),
    {
        match tier {
            DropSpeed::Absent => self.absent,
            DropSpeed::Fast => self.fast,
            DropSpeed::Medium => self.medium,
            DropSpeed::Slow => self.slow,
        }
    }
}

/// Precedence: a cell that holds a slow drop shows the glyph of the slow
/// tier, whatever else it holds.
pub proof fn lemma_slow_glyph_wins(glyphs: GlyphTable, cell: Seq<DropSpeed>)
    requires
        cell.contains(DropSpeed::Slow),
    ensures
        glyphs.of(render_tier(cell)) == glyphs.slow,
{
}

/// An empty cell shows the glyph of `Absent`.
pub proof fn lemma_empty_glyph(glyphs: GlyphTable, cell: Seq<DropSpeed>)
    requires
        cell.len() == 0,
    ensures
        glyphs.of(render_tier(cell)) == glyphs.absent,
{
}

/// Whether rendering `area` writes the position `(x, y)`: it lies in the
/// area and the grid has a cell there.
pub open spec fn written(grid: Grid, area: Rect, x: int, y: int) -> bool {
    area.holds(x, y) && has_cell(grid, x, y)
}

/// Whether every position that rendering `area` writes lies in `frame`.
pub open spec fn fits(grid: Grid, area: Rect, frame: Rect) -> bool {
    forall|x: int, y: int| written(grid, area, x, y) ==> frame.holds(x, y)
}

/// The symbols of a display that covers `frame` after `area` was rendered
/// from `grid` with the given glyphs: each written position shows the glyph
/// of its cell, every other cell keeps its symbol.
pub open spec fn rendered(
    symbols: Seq<Seq<char>>,
    frame: Rect,
    area: Rect,
    grid: Grid,
    glyphs: GlyphTable,
) -> Seq<Seq<char>> {
    Seq::new(
        symbols.len(),
        |i: int|
            {
                let (x, y) = cell_position(frame, i);
                if written(grid, area, x, y) {
                    seq![glyphs.of(render_tier(grid[x][y]))]
                } else {
                    symbols[i]
                }
            },
    )
}

/// The symbols in the middle of a render pass: of the written positions,
/// those in a column before `x_done`, and those in column `x_done` above row
/// `y_done`, show their glyph already.
spec fn rendered_until(
    symbols: Seq<Seq<char>>,
    frame: Rect,
    area: Rect,
    grid: Grid,
    glyphs: GlyphTable,
    x_done: int,
    y_done: int,
) -> Seq<Seq<char>> {
    Seq::new(
        symbols.len(),
        |i: int|
            {
                let (x, y) = cell_position(frame, i);
                if written(grid, area, x, y) && (x < x_done || (x == x_done && y < y_done)) {
                    seq![glyphs.of(render_tier(grid[x][y]))]
                } else {
                    symbols[i]
                }
            },
    )
}

/// In a well-formed display, the index of a position inside the frame is an
/// index of the cell vector, and leads back to the position.
proof fn lemma_index_of_position(frame: Rect, cells: nat, x: int, y: int)
    requires
        display_ok(frame, cells),
        frame.holds(x, y),
    ensures
        0 <= cell_index(frame, x, y) < cells,
        cell_position(frame, cell_index(frame, x, y)) == (x, y),
{
    let w = frame.width as int;
    let h = frame.height as int;
    let dx = x - frame.x;
    let dy = y - frame.y;
    assert(0 <= dx < w && 0 <= dy < h);
    assert(0 <= dy * w + dx < h * w && dy * w + dx < w * h) by (nonlinear_arith)
        requires
            0 <= dx < w,
            0 <= dy < h,
    ;
    lemma_fundamental_div_mod_converse(dy * w + dx, w, dy, dx);
}

/// In a display with a frame of positive width, only one index leads to a
/// position.
proof fn lemma_position_of_index(frame: Rect, i: int, x: int, y: int)
    requires
        frame.width > 0,
        cell_position(frame, i) == (x, y),
    ensures
        cell_index(frame, x, y) == i,
{
    let w = frame.width as int;
    lemma_fundamental_div_mod(i, w);
    assert((i / w) * w == w * (i / w)) by (nonlinear_arith);
}

/// After a render pass, a position of a well-formed display shows the glyph
/// of its cell where the pass wrote it, and what it showed before where the
/// pass did not.
pub proof fn lemma_rendered_position(
    symbols: Seq<Seq<char>>,
    frame: Rect,
    area: Rect,
    grid: Grid,
    glyphs: GlyphTable,
    x: int,
    y: int,
)
    requires
        display_ok(frame, symbols.len()),
        frame.holds(x, y),
    ensures
        0 <= cell_index(frame, x, y) < symbols.len(),
        rendered(symbols, frame, area, grid, glyphs)[cell_index(frame, x, y)] == if written(
            grid,
            area,
            x,
            y,
        ) {
            seq![glyphs.of(render_tier(grid[x][y]))]
        } else {
            symbols[cell_index(frame, x, y)]
        },
{
    lemma_index_of_position(frame, symbols.len(), x, y);
}

/// Whether every position that rendering `area` writes lies in `frame`.
pub fn region_fits(columns: &Vec<DropColumn>, area: Rect, frame: Rect) -> (ok: bool)
    ensures
        ok == fits(grid_of(columns@), area, frame),
{
    let ghost grid = grid_of(columns@);
    let right = area.right();
    let top = area.top();
    let bottom = area.bottom();
    let mut x = area.left();
    while x < right && (x as usize) < columns.len()
        invariant
            area.left() <= x <= right,
            right == area.right(),
            top == area.top(),
            bottom == area.bottom(),
            grid == grid_of(columns@),
            forall|i: int, j: int| i < x && written(grid, area, i, j) ==> frame.holds(i, j),
        decreases right - x,
    {
        let rows = columns[x as usize].len();
        if top < bottom && (top as usize) < rows {
            let last: u16 = if (bottom as usize) <= rows {
                (bottom - 1) as u16
            } else {
                (rows - 1) as u16
            };
            proof {
                assert(written(grid, area, x as int, top as int));
                assert(written(grid, area, x as int, last as int));
            }
            if !(frame.contains(x, top) && frame.contains(x, last)) {
                return false;
            }
            proof {
                assert forall|j: int| written(grid, area, x as int, j) implies frame.holds(x as int, j) by {
                    assert(top <= j <= last);
                }
            }
        }
        x += 1;
    }
    true
}

/// An effect that draws the grid as the background of a frame.
pub trait BackgroundWidget {
    /// The glyphs of the effect.
    spec fn glyphs() -> GlyphTable;

    /// The contents of the grid that the widget draws.
    spec fn shown(&self) -> Grid;

    /// The columns of the grid that the widget draws.
    fn buf(&self) -> (columns: &Vec<DropColumn>)
        ensures
            grid_of(columns@) == self.shown(),
    ;

    /// The glyph that the effect shows for a tier.
    fn get_drop_char(d: DropSpeed) -> (glyph: char)
        ensures
            glyph == Self::glyphs().of(d),
    ;

    /// The one glyph that stands for a cell: that of its slow drop if it has
    /// one, else that of its earliest drop, else that of `Absent`.
    fn get_render_char(cell: &DropCell) -> (glyph: char)
        ensures
            glyph == Self::glyphs().of(render_tier(cell@)),
    {
        Self::get_drop_char(cell.render_tier())
    }

    /// Writes the glyph of every cell that lies in `area` into the display
    /// buffer, at the cell's own position. Positions of the area at which the
    /// grid has no cell are passed over. Every position that is written must
    /// lie in the display buffer.
    fn render_background(&self, area: Rect, buf: &mut Buffer)
        requires
            display_ok(display_area(*old(buf)), display_symbols(*old(buf)).len()),
            fits(self.shown(), area, display_area(*old(buf))),
        ensures
            display_area(*final(buf)) == display_area(*old(buf)),
            display_symbols(*final(buf)) == rendered(
                display_symbols(*old(buf)),
                display_area(*old(buf)),
                area,
                self.shown(),
                Self::glyphs(),
            ),
    {
        let ghost before = display_symbols(*buf);
        let ghost frame = display_area(*buf);
        let ghost grid = self.shown();
        let columns = self.buf();
        let right = area.right();
        let bottom = area.bottom();
        let mut x = area.left();
        proof {
            assert(before =~= rendered_until(before, frame, area, grid, Self::glyphs(), x as int, 0));
        }
        while x < right
            invariant
                area.left() <= x <= right,
                right == area.right(),
                bottom == area.bottom(),
                grid_of(columns@) == grid,
                display_ok(frame, before.len()),
                fits(grid, area, frame),
                display_area(*buf) == frame,
                display_symbols(*buf) == rendered_until(before, frame, area, grid, Self::glyphs(), x as int, 0),
            decreases right - x,
        {
            let mut y = area.top();
            proof {
                assert(display_symbols(*buf) =~= rendered_until(before, frame, area, grid, Self::glyphs(), x as int, y as int));
            }
            while y < bottom
                invariant
                    area.left() <= x < right,
                    area.top() <= y <= bottom,
                    right == area.right(),
                    bottom == area.bottom(),
                    grid_of(columns@) == grid,
                    display_ok(frame, before.len()),
                    fits(grid, area, frame),
                    display_area(*buf) == frame,
                    display_symbols(*buf) == rendered_until(before, frame, area, grid, Self::glyphs(), x as int, y as int),
                decreases bottom - y,
            {
                if (x as usize) < columns.len() && (y as usize) < columns[x as usize].len() {
                    let glyph = Self::get_render_char(&columns[x as usize][y as usize]);
                    proof {
                        assert(written(grid, area, x as int, y as int));
                        lemma_index_of_position(frame, before.len(), x as int, y as int);
                    }
                    let ghost during = display_symbols(*buf);
                    put_char(buf, x, y, glyph);
                    proof {
                        let index = cell_index(frame, x as int, y as int);
                        let goal = rendered_until(before, frame, area, grid, Self::glyphs(), x as int, y + 1);
                        assert forall|i: int| 0 <= i < before.len() implies during.update(index, seq![glyph])[i] == goal[i] by {
                            if i != index && cell_position(frame, i) == (x as int, y as int) {
                                lemma_position_of_index(frame, i, x as int, y as int);
                            }
                        }
                        assert(display_symbols(*buf) =~= goal);
                    }
                } else {
                    proof {
                        assert(!written(grid, area, x as int, y as int));
                        assert(display_symbols(*buf) =~= rendered_until(before, frame, area, grid, Self::glyphs(), x as int, y + 1));
                    }
                }
                y += 1;
            }
            proof {
                assert(display_symbols(*buf) =~= rendered_until(before, frame, area, grid, Self::glyphs(), x + 1, 0));
            }
            x += 1;
        }
        proof {
            assert(display_symbols(*buf) =~= rendered(before, frame, area, grid, Self::glyphs()));
        }
    }

    /// Renders as `render_background` does where the display buffer is well
    /// formed and holds every position that would be written, and says so;
    /// otherwise leaves the display buffer as it is.
    fn try_render_background(&self, area: Rect, buf: &mut Buffer) -> (done: bool)
        ensures
            done == (display_ok(display_area(*old(buf)), display_symbols(*old(buf)).len())
                && fits(self.shown(), area, display_area(*old(buf)))),
            display_area(*final(buf)) == display_area(*old(buf)),
            display_symbols(*final(buf)) == if done {
                rendered(
                    display_symbols(*old(buf)),
                    display_area(*old(buf)),
                    area,
                    self.shown(),
                    Self::glyphs(),
                )
            } else {
                display_symbols(*old(buf))
            },
    {
        let frame = area_of(buf);
        let cells = cell_count(buf);
        proof {
            let w = frame.width as int;
            let h = frame.height as int;
            assert(0 <= w * h <= 0xFFFF * 0xFFFF) by (nonlinear_arith)
                requires
                    0 <= w <= 0xFFFF,
                    0 <= h <= 0xFFFF,
            ;
        }
        if cells <= 0xFFFF && (frame.width as u32) * (frame.height as u32) == cells as u32
            && region_fits(self.buf(), area, frame) {
            self.render_background(area, buf);
            true
        } else {
            false
        }
    }
}

} // verus!
