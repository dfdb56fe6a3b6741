//! A falling-particle animation on a character grid: cells that hold a few
//! overlapping drop speeds, the column-major buffer that owns them, the
//! simulator that moves the drops once per tick, and the renderer that
//! resolves every cell to one glyph per frame.

pub mod animation;
pub mod buffer;
pub mod cell;
pub mod display;
pub mod event;
pub mod rect;
pub mod simulator;
pub mod spawn;
pub mod step;
pub mod tier;
pub mod widget;
