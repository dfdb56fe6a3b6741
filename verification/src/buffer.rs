//! The column-major grid of cells that holds the animation's state.

use vstd::prelude::*;
use crate::cell::{render_tier, DropCell};
use crate::rect::Rect;
use crate::tier::DropSpeed;

verus! {

/// One column of the grid: its cells from the top row down.
pub type DropColumn = Vec<DropCell>;

/// The contents of a grid: for each column, for each row, the tiers present.
pub type Grid = Seq<Seq<Seq<DropSpeed>>>;

/// The contents of one column.
pub open spec fn column_of(cells: Seq<DropCell>) -> Seq<Seq<DropSpeed>> {
    Seq::new(cells.len(), |y: int| cells[y]@)
}

/// The contents of a sequence of columns.
pub open spec fn grid_of(columns: Seq<DropColumn>) -> Grid {
    Seq::new(columns.len(), |x: int| column_of(columns[x]@))
}

/// The grid of `width` columns and `height` rows in which every cell is empty.
pub open spec fn empty_grid(width: nat, height: nat) -> Grid {
    Seq::new(width, |x: int| Seq::new(height, |y: int| Seq::<DropSpeed>::empty()))
}

/// Whether the grid has exactly `width` columns of exactly `height` cells.
pub open spec fn shaped(grid: Grid, width: nat, height: nat) -> bool {
    &&& grid.len() == width
    &&& forall|x: int| 0 <= x < grid.len() ==> (#[trigger] grid[x]).len() == height
}

/// Whether the grid has a cell at column `x`, row `y`.
pub open spec fn has_cell(grid: Grid, x: int, y: int) -> bool {
    0 <= x < grid.len() && 0 <= y < grid[x].len()
}

/// Row `y` of a grid as one tier per column: the tier that stands for the
/// cell, and `Absent` where the column has no such row.
pub open spec fn row_tiers(grid: Grid, y: int) -> Seq<DropSpeed> {
    Seq::new(
        grid.len(),
        |x: int|
            if has_cell(grid, x, y) {
                render_tier(grid[x][y])
            } else {
                DropSpeed::Absent
            },
    )
}

/// The animation state: `buf` holds one column per display column, each with
/// one cell per display row; `line` is scratch space in which one row of
/// output is composed.
pub struct RenderBuffer {
    pub buf: Vec<DropColumn>,
    pub line: Vec<DropSpeed>,
}

impl RenderBuffer {
    /// The contents of the grid.
    pub open spec fn grid(&self) -> Grid {
        grid_of(self.buf@)
    }

    /// A buffer of `size.width` columns and `size.height` rows with every
    /// cell empty and nothing in the scratch line.
    pub fn new(size: Rect) -> (buffer: RenderBuffer)
        ensures
            buffer.grid() == empty_grid(size.width as nat, size.height as nat),
            shaped(buffer.grid(), size.width as nat, size.height as nat),
            buffer.line@ == Seq::<DropSpeed>::empty(),
    {
        let mut buf: Vec<DropColumn> = Vec::with_capacity(size.width as usize);
        let mut x: u16 = 0;
        while x < size.width
            invariant
                x <= size.width,
                buf@.len() == x,
                forall|i: int| 0 <= i < x ==> column_of(#[trigger] buf@[i]@) == Seq::new(
                    size.height as nat,
                    |y: int| Seq::<DropSpeed>::empty(),
                ),
            decreases size.width - x,
        {
            let mut column: DropColumn = Vec::with_capacity(size.height as usize);
            let mut y: u16 = 0;
            while y < size.height
                invariant
                    y <= size.height,
                    column@.len() == y,
                    forall|j: int| 0 <= j < y ==> (#[trigger] column@[j])@ == Seq::<DropSpeed>::empty(),
                decreases size.height - y,
            {
                column.push(DropCell::new());
                y += 1;
            }
            assert(column_of(column@) =~= Seq::new(
                size.height as nat,
                |y: int| Seq::<DropSpeed>::empty(),
            ));
            buf.push(column);
            x += 1;
        }
        let line: Vec<DropSpeed> = Vec::with_capacity(buf.len());
        let buffer = RenderBuffer { line, buf };
        assert(buffer.grid() =~= empty_grid(size.width as nat, size.height as nat));
        buffer
    }

    /// Rebuilds the buffer for a display of `size`: every cell of the new
    /// grid is empty, whatever the old one held.
    pub fn resize(&mut self, size: Rect)
        ensures
            final(self).grid() == empty_grid(size.width as nat, size.height as nat),
            shaped(final(self).grid(), size.width as nat, size.height as nat),
            final(self).line@ == Seq::<DropSpeed>::empty(),
    {
        *self = RenderBuffer::new(size);
    }

    /// Composes row `y` in the scratch line, which is cleared first: one
    /// tier per column, the one that stands for the cell. The grid is left
    /// as it is.
    pub fn compose_row(&mut self, y: usize)
        ensures
            final(self).grid() == old(self).grid(),
            final(self).line@ == row_tiers(old(self).grid(), y as int),
    {
        self.line.clear();
        let n = self.buf.len();
        let mut x: usize = 0;
        while x < n
            invariant
                x <= n,
                n == self.buf@.len(),
                self.buf@ == old(self).buf@,
                self.line@ == row_tiers(self.grid(), y as int).take(x as int),
            decreases n - x,
        {
            let tier = if y < self.buf[x].len() {
                self.buf[x][y].render_tier()
            } else {
                DropSpeed::Absent
            };
            self.line.push(tier);
            proof {
                let row = row_tiers(self.grid(), y as int);
                assert(self.line@ =~= row.take(x + 1));
            }
            x += 1;
        }
        proof {
            let row = row_tiers(self.grid(), y as int);
            assert(row.take(n as int) =~= row);
        }
    }

    /// The number of columns.
    pub fn width(&self) -> (columns: usize)
        ensures
            columns == self.grid().len(),
    {
        self.buf.len()
    }

    /// The number of rows of column `x`, or zero where there is no such column.
    pub fn height_at(&self, x: usize) -> (rows: usize)
        ensures
            rows == if x < self.grid().len() {
                self.grid()[x as int].len()
            } else {
                0
            },
    {
        if x < self.buf.len() {
            self.buf[x].len()
        } else {
            0
        }
    }
}

} // verus!
