//! Spawning: new drops enter at the top of a column, by the insertion rule
//! of the cell, where a roll of the caller's dice wins at the tier's rate.

use vstd::prelude::*;
use crate::buffer::{column_of, has_cell, Grid, RenderBuffer};
use crate::cell::inserted;
use crate::tier::{DropSpeed, PerTier};

verus! {

/// The grid after an attempt to spawn a drop of `tier` at the top of column
/// `x`: the insertion rule of the cell decides; where the column or its top
/// row is missing, nothing changes.
pub open spec fn with_spawn(grid: Grid, x: int, tier: DropSpeed) -> Grid {
    if has_cell(grid, x, 0) {
        grid.update(x, grid[x].update(0, inserted(grid[x][0], tier)))
    } else {
        grid
    }
}

/// Tries to spawn a drop of `tier` at the top of column `x`. Returns whether
/// the drop went in.
pub fn spawn(buffer: &mut RenderBuffer, x: usize, tier: DropSpeed) -> (accepted: bool)
    ensures
        final(buffer).grid() == with_spawn(old(buffer).grid(), x as int, tier),
        final(buffer).line@ == old(buffer).line@,
        accepted == (final(buffer).grid() != old(buffer).grid()),
{
    if x < buffer.buf.len() && buffer.buf[x].len() > 0 {
        let mut cell = buffer.buf[x][0];
        let accepted = cell.insert(tier);
        buffer.buf[x][0] = cell;
        proof {
            let before = old(buffer).grid();
            let after = buffer.grid();
            assert(after[x as int] =~= before[x as int].update(0, inserted(before[x as int][0], tier)));
            assert(after =~= with_spawn(before, x as int, tier));
            if accepted {
                assert(after[x as int][0] != before[x as int][0]);
            } else {
                assert(after[x as int] =~= before[x as int]);
                assert(after =~= before);
            }
        }
        accepted
    } else {
        false
    }
}

/// Whether a roll wins at a chance of `rate` thousandths. A rate of a
/// thousand or more always wins, a rate of zero never.
pub open spec fn wins(rate: u16, roll: u32) -> bool {
    roll % 1000 < rate
}

/// The tiers that spawn in a column for which `roll` was drawn.
pub open spec fn drawn(rates: PerTier<u16>, roll: PerTier<u32>) -> PerTier<bool> {
    PerTier {
        fast: wins(rates.fast, roll.fast),
        medium: wins(rates.medium, roll.medium),
        slow: wins(rates.slow, roll.slow),
    }
}

/// The tiers that spawn in a column for which `roll` was drawn.
pub fn draw(rates: &PerTier<u16>, roll: &PerTier<u32>) -> (spawning: PerTier<bool>)
    ensures
        spawning == drawn(*rates, *roll),
{
    PerTier {
        fast: roll.fast % 1000 < rates.fast as u32,
        medium: roll.medium % 1000 < rates.medium as u32,
        slow: roll.slow % 1000 < rates.slow as u32,
    }
}

/// A top cell after the tiers of `spawning` tried to enter it, the fast one
/// first and the slow one last.
pub open spec fn spawned_cell(top: Seq<DropSpeed>, spawning: PerTier<bool>) -> Seq<DropSpeed> {
    let one = if spawning.fast {
        inserted(top, DropSpeed::Fast)
    } else {
        top
    };
    let two = if spawning.medium {
        inserted(one, DropSpeed::Medium)
    } else {
        one
    };
    if spawning.slow {
        inserted(two, DropSpeed::Slow)
    } else {
        two
    }
}

/// A grid after spawning: column `x` spawns what `rolls[x]` draws at the
/// given rates. A column without a roll, or without a row, spawns nothing.
pub open spec fn spawned_grid(grid: Grid, rates: PerTier<u16>, rolls: Seq<PerTier<u32>>) -> Grid {
    Seq::new(
        grid.len(),
        |x: int|
            if x < rolls.len() && grid[x].len() > 0 {
                grid[x].update(0, spawned_cell(grid[x][0], drawn(rates, rolls[x])))
            } else {
                grid[x]
            },
    )
}

/// Spawns drops in the top row: column `x` spawns what `rolls[x]` draws at
/// the given rates.
pub fn spawn_row(buffer: &mut RenderBuffer, rates: &PerTier<u16>, rolls: &Vec<PerTier<u32>>)
    ensures
        final(buffer).grid() == spawned_grid(old(buffer).grid(), *rates, rolls@),
        final(buffer).line@ == old(buffer).line@,
{
    let ghost before = buffer.grid();
    let n = if rolls.len() < buffer.buf.len() {
        rolls.len()
    } else {
        buffer.buf.len()
    };
    let mut x: usize = 0;
    while x < n
        invariant
            x <= n,
            n <= rolls@.len(),
            n <= buffer.buf@.len(),
            buffer.buf@.len() == before.len(),
            buffer.line@ == old(buffer).line@,
            forall|i: int| 0 <= i < x ==> column_of(#[trigger] buffer.buf@[i]@) == spawned_grid(before, *rates, rolls@)[i],
            forall|i: int| x <= i < before.len() ==> column_of(#[trigger] buffer.buf@[i]@) == before[i],
        decreases n - x,
    {
        if buffer.buf[x].len() > 0 {
            let spawning = draw(rates, &rolls[x]);
            let mut cell = buffer.buf[x][0];
            if spawning.fast {
                cell.insert(DropSpeed::Fast);
            }
            if spawning.medium {
                cell.insert(DropSpeed::Medium);
            }
            if spawning.slow {
                cell.insert(DropSpeed::Slow);
            }
            buffer.buf[x][0] = cell;
            proof {
                assert(column_of(buffer.buf@[x as int]@) =~= before[x as int].update(
                    0,
                    spawned_cell(before[x as int][0], drawn(*rates, rolls@[x as int])),
                ));
            }
        }
        x += 1;
    }
    proof {
        assert(buffer.grid() =~= spawned_grid(before, *rates, rolls@));
    }
}

} // verus!
