//! The drop simulator: it counts for each tier the ticks since its drops
//! last moved, and once per tick moves the tiers that are due and then
//! spawns new drops in the top row.

use vstd::prelude::*;
use vstd::arithmetic::div_mod::{lemma_fundamental_div_mod, lemma_fundamental_div_mod_converse};
use crate::buffer::{shaped, Grid, RenderBuffer};
use crate::spawn::{spawn_row, spawned_grid};
use crate::step::{advance, stepped_grid};
use crate::tier::PerTier;

verus! {

/// Whether a tier whose drops move every `every` ticks, and which has waited
/// `count` ticks since its last move, moves on the next tick. A tier with
/// `every` of zero or one moves on every tick.
pub open spec fn is_due(count: u32, every: u32) -> bool {
    count + 1 >= every
}

/// The ticks waited after the next tick.
pub open spec fn next_count(count: u32, every: u32) -> u32 {
    if is_due(count, every) {
        0
    } else {
        (count + 1) as u32
    }
}

/// The tiers that move on the next tick.
pub open spec fn due_tiers(phase: PerTier<u32>, every: PerTier<u32>) -> PerTier<bool> {
    PerTier {
        fast: is_due(phase.fast, every.fast),
        medium: is_due(phase.medium, every.medium),
        slow: is_due(phase.slow, every.slow),
    }
}

/// The ticks that each tier has waited after the next tick.
pub open spec fn next_phase(phase: PerTier<u32>, every: PerTier<u32>) -> PerTier<u32> {
    PerTier {
        fast: next_count(phase.fast, every.fast),
        medium: next_count(phase.medium, every.medium),
        slow: next_count(phase.slow, every.slow),
    }
}

/// The ticks that a tier has waited after `ticks` ticks on a simulator that
/// started fresh, where its drops move every `every` ticks.
pub open spec fn waited_after(every: u32, ticks: nat) -> u32
    decreases ticks,
{
    if ticks == 0 {
        0
    } else {
        next_count(waited_after(every, (ticks - 1) as nat), every)
    }
}

/// Speed: on a simulator that started fresh, the drops of a tier move on
/// every `every`-th tick and on no tick between, so that over time a tier
/// falls one row per `every` ticks.
pub proof fn lemma_moves_every(every: u32, ticks: nat)
    requires
        every >= 1,
    ensures
        waited_after(every, ticks) == ticks % (every as nat),
        is_due(waited_after(every, ticks), every) == ((ticks + 1) % (every as nat) == 0),
    decreases ticks,
{
    let e = every as int;
    if ticks > 0 {
        lemma_moves_every(every, (ticks - 1) as nat);
        lemma_next_remainder(ticks - 1, e);
    }
    lemma_next_remainder(ticks as int, e);
}

/// The remainder of `n + 1` from that of `n`.
proof fn lemma_next_remainder(n: int, e: int)
    requires
        n >= 0,
        e >= 1,
    ensures
        0 <= n % e < e,
        (n + 1) % e == if n % e + 1 == e {
            0
        } else {
            n % e + 1
        },
{
    let q = n / e;
    let r = n % e;
    lemma_fundamental_div_mod(n, e);
    if r + 1 == e {
        assert(n + 1 == (q + 1) * e + 0) by (nonlinear_arith)
            requires
                n == e * q + r,
                r + 1 == e,
        ;
        lemma_fundamental_div_mod_converse(n + 1, e, q + 1, 0);
    } else {
        assert(n + 1 == q * e + (r + 1)) by (nonlinear_arith)
            requires
                n == e * q + r,
        ;
        lemma_fundamental_div_mod_converse(n + 1, e, q, r + 1);
    }
}

/// A grid after one whole tick: the due tiers move, then the top row spawns.
pub open spec fn ticked_grid(
    grid: Grid,
    config: DropConfig,
    phase: PerTier<u32>,
    rolls: Seq<PerTier<u32>>,
) -> Grid {
    spawned_grid(
        stepped_grid(grid, due_tiers(phase, config.speed_ratio)),
        config.spawn_rate,
        rolls,
    )
}

/// Shape: a tick changes neither the number of columns nor the number of
/// rows of any column.
pub proof fn lemma_tick_keeps_shape(
    grid: Grid,
    config: DropConfig,
    phase: PerTier<u32>,
    rolls: Seq<PerTier<u32>>,
    width: nat,
    height: nat,
)
    requires
        shaped(grid, width, height),
    ensures
        shaped(ticked_grid(grid, config, phase, rolls), width, height),
{
    let after = ticked_grid(grid, config, phase, rolls);
    assert forall|x: int| 0 <= x < after.len() implies (#[trigger] after[x]).len() == height by {
        assert(grid[x].len() == height);
    }
}

/// The tuning of an effect.
#[derive(Clone, Copy, Debug, PartialEq, Eq)]
pub struct DropConfig {
    /// For each tier, the chance in thousandths that a drop of it appears in
    /// a column on a tick.
    pub spawn_rate: PerTier<u16>,
    /// For each tier, the number of ticks from one move of its drops to the
    /// next.
    pub speed_ratio: PerTier<u32>,
}

impl DropConfig {
    /// Rain: frequent drops, the fast ones moving on every tick.
    pub fn rain() -> (config: DropConfig)
        ensures
            config.spawn_rate == (PerTier::<u16> { fast: 20, medium: 15, slow: 10 }),
            config.speed_ratio == (PerTier::<u32> { fast: 1, medium: 2, slow: 3 }),
    {
        DropConfig {
            spawn_rate: PerTier { fast: 20, medium: 15, slow: 10 },
            speed_ratio: PerTier { fast: 1, medium: 2, slow: 3 },
        }
    }

    /// Snow: flakes that drift down at a fraction of the speed of rain.
    pub fn snow() -> (config: DropConfig)
        ensures
            config.spawn_rate == (PerTier::<u16> { fast: 8, medium: 12, slow: 16 }),
            config.speed_ratio == (PerTier::<u32> { fast: 3, medium: 5, slow: 8 }),
    {
        DropConfig {
            spawn_rate: PerTier { fast: 8, medium: 12, slow: 16 },
            speed_ratio: PerTier { fast: 3, medium: 5, slow: 8 },
        }
    }

    /// The overlay behind a timer: a sparse fall that leaves the digits
    /// readable.
    pub fn timer() -> (config: DropConfig)
        ensures
            config.spawn_rate == (PerTier::<u16> { fast: 4, medium: 3, slow: 2 }),
            config.speed_ratio == (PerTier::<u32> { fast: 2, medium: 3, slow: 4 }),
    {
        DropConfig {
            spawn_rate: PerTier { fast: 4, medium: 3, slow: 2 },
            speed_ratio: PerTier { fast: 2, medium: 3, slow: 4 },
        }
    }
}

/// The simulator of one effect: its tuning, and for each tier the ticks that
/// its drops have waited since their last move.
#[derive(Clone, Copy, Debug, PartialEq, Eq)]
pub struct DropSimulator {
    pub config: DropConfig,
    pub phase: PerTier<u32>,
}

/// One step of a tier's count: whether the tier moves on this tick, and the
/// count after it.
fn step_count(count: u32, every: u32) -> (step: (bool, u32))
    ensures
        step.0 == is_due(count, every),
        step.1 == next_count(count, every),
{
    if count >= every.saturating_sub(1) {
        (true, 0)
    } else {
        (false, count + 1)
    }
}

impl DropSimulator {
    /// A simulator on which no tier has waited yet.
    pub fn new(config: DropConfig) -> (simulator: DropSimulator)
        ensures
            simulator.config == config,
            simulator.phase == (PerTier::<u32> { fast: 0, medium: 0, slow: 0 }),
    {
        DropSimulator { config, phase: PerTier { fast: 0, medium: 0, slow: 0 } }
    }

    /// The tiers that move on the next tick.
    pub fn due(&self) -> (moving: PerTier<bool>)
        ensures
            moving == due_tiers(self.phase, self.config.speed_ratio),
    {
        PerTier {
            fast: step_count(self.phase.fast, self.config.speed_ratio.fast).0,
            medium: step_count(self.phase.medium, self.config.speed_ratio.medium).0,
            slow: step_count(self.phase.slow, self.config.speed_ratio.slow).0,
        }
    }

    /// One tick: the tiers that are due move one row down, what leaves the
    /// last row is gone, and then column `x` spawns what `rolls[x]` draws.
    /// The rolls are the caller's random numbers, one triple per column.
    pub fn tick(&mut self, buffer: &mut RenderBuffer, rolls: &Vec<PerTier<u32>>)
        ensures
            final(self).config == old(self).config,
            final(self).phase == next_phase(old(self).phase, old(self).config.speed_ratio),
            final(buffer).grid() == ticked_grid(
                old(buffer).grid(),
                old(self).config,
                old(self).phase,
                rolls@,
            ),
            final(buffer).line@ == old(buffer).line@,
    {
        let fast = step_count(self.phase.fast, self.config.speed_ratio.fast);
        let medium = step_count(self.phase.medium, self.config.speed_ratio.medium);
        let slow = step_count(self.phase.slow, self.config.speed_ratio.slow);
        self.phase = PerTier { fast: fast.1, medium: medium.1, slow: slow.1 };
        advance(buffer, PerTier { fast: fast.0, medium: medium.0, slow: slow.0 });
        spawn_row(buffer, &self.config.spawn_rate, rolls);
    }
}

} // verus!
