//! Snow: flakes, the slower the smaller.

use vstd::prelude::*;
use crate::buffer::{grid_of, DropColumn, Grid, RenderBuffer};
use crate::tier::DropSpeed;
use crate::widget::{BackgroundWidget, GlyphTable};

verus! {

/// The widget that draws a grid with the glyphs of this effect. It borrows
/// the columns for the length of one render pass.
pub struct Snow<'a> {
    pub columns: &'a Vec<DropColumn>,
}

impl<'a> Snow<'a> {
    /// The widget for the grid of `buffer`.
    pub fn new(buffer: &'a RenderBuffer) -> (widget: Snow<'a>)
        ensures
            widget.shown() == buffer.grid(),
    {
        Snow { columns: &buffer.buf }
    }
}

impl<'a> BackgroundWidget for Snow<'a> {
    open spec fn glyphs() -> GlyphTable {
        GlyphTable { absent: ' ', fast: '*', medium: '+', slow: '.' }
    }

    open spec fn shown(&self) -> Grid {
        grid_of(self.columns@)
    }

    fn buf(&self) -> (columns: &Vec<DropColumn>) {
        self.columns
    }

    fn get_drop_char(d: DropSpeed) -> (glyph: char) {
        match d {
            DropSpeed::Absent => ' ',
            DropSpeed::Fast => '*',
            DropSpeed::Medium => '+',
            DropSpeed::Slow => '.',
        }
    }
}

} // verus!
