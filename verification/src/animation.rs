//! The animation as the signal stream sees it: a grid, the simulator that
//! moves its drops, and the reaction to each signal.

use vstd::prelude::*;
use crate::buffer::{empty_grid, shaped, RenderBuffer};
use crate::event::Event;
use crate::rect::Rect;
use crate::simulator::{next_phase, ticked_grid, DropConfig, DropSimulator};
use crate::tier::{DropSpeed, PerTier};

verus! {

/// The state of one running effect.
pub struct Animation {
    pub buffer: RenderBuffer,
    pub simulator: DropSimulator,
}

impl Animation {
    /// An animation for a display of `size`: an empty grid, and a simulator
    /// on which no tier has waited yet.
    pub fn new(size: Rect, config: DropConfig) -> (animation: Animation)
        ensures
            animation.buffer.grid() == empty_grid(size.width as nat, size.height as nat),
            animation.buffer.line@ == Seq::<DropSpeed>::empty(),
            animation.simulator.config == config,
            animation.simulator.phase == (PerTier::<u32> { fast: 0, medium: 0, slow: 0 }),
    {
        Animation { buffer: RenderBuffer::new(size), simulator: DropSimulator::new(config) }
    }

    /// Reacts to one signal. A `Tick` runs one tick of the simulator with the
    /// caller's rolls. A `Resize` starts over on an empty grid of the new size:
    /// no drop and no waiting tick survives it. Every other signal leaves the
    /// animation as it is.
    pub fn handle(&mut self, event: &Event, rolls: &Vec<PerTier<u32>>)
        ensures
            final(self).simulator.config == old(self).simulator.config,
            match *event {
                Event::Tick => {
                    &&& final(self).buffer.grid() == ticked_grid(
                        old(self).buffer.grid(),
                        old(self).simulator.config,
                        old(self).simulator.phase,
                        rolls@,
                    )
                    &&& final(self).buffer.line@ == old(self).buffer.line@
                    &&& final(self).simulator.phase == next_phase(
                        old(self).simulator.phase,
                        old(self).simulator.config.speed_ratio,
                    )
                },
                Event::Resize(width, height) => {
                    &&& final(self).buffer.grid() == empty_grid(width as nat, height as nat)
                    &&& shaped(final(self).buffer.grid(), width as nat, height as nat)
                    &&& final(self).buffer.line@ == Seq::<DropSpeed>::empty()
                    &&& final(self).simulator.phase == (PerTier::<u32> { fast: 0, medium: 0, slow: 0 })
                },
                _ => {
                    &&& final(self).buffer.grid() == old(self).buffer.grid()
                    &&& final(self).buffer.line@ == old(self).buffer.line@
                    &&& final(self).simulator.phase == old(self).simulator.phase
                },
            },
    {
        match event {
            Event::Tick => {
                self.simulator.tick(&mut self.buffer, rolls);
            },
            Event::Resize(width, height) => {
                self.buffer.resize(Rect { x: 0, y: 0, width: *width, height: *height });
                self.simulator = DropSimulator::new(self.simulator.config);
            },
            _ => {},
        }
    }
}

} // verus!
