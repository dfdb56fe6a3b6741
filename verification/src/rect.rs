//! A rectangle of grid positions.

use vstd::prelude::*;

verus! {

/// A rectangular area of the character grid, given by its top left corner
/// and its size. The edges saturate at `u16::MAX`, so the last column and
/// row of the coordinate space are never inside a rectangle that reaches it.
#[derive(Clone, Copy, Debug, PartialEq, Eq, Hash, Structural)]
pub struct Rect {
    pub x: u16,
    pub y: u16,
    pub width: u16,
    pub height: u16,
}

impl Rect {
    pub open spec fn spec_left(self) -> u16 {
        self.x
    }

    pub open spec fn spec_right(self) -> u16 {
        if self.x + self.width > u16::MAX {
            u16::MAX
        } else {
            (self.x + self.width) as u16
        }
    }

    pub open spec fn spec_top(self) -> u16 {
        self.y
    }

    pub open spec fn spec_bottom(self) -> u16 {
        if self.y + self.height > u16::MAX {
            u16::MAX
        } else {
            (self.y + self.height) as u16
        }
    }

    /// Whether the position `(x, y)` lies inside the rectangle.
    pub open spec fn holds(self, x: int, y: int) -> bool {
        &&& self.spec_left() <= x < self.spec_right()
        &&& self.spec_top() <= y < self.spec_bottom()
    }

    /// The first column inside the rectangle.
    #[verifier::when_used_as_spec(spec_left)]
    pub fn left(self) -> (edge: u16)
        ensures
            edge == self.spec_left(),
    {
        self.x
    }

    /// The first column behind the rectangle.
    #[verifier::when_used_as_spec(spec_right)]
    pub fn right(self) -> (edge: u16)
        ensures
            edge == self.spec_right(),
    {
        self.x.saturating_add(self.width)
    }

    /// The first row inside the rectangle.
    #[verifier::when_used_as_spec(spec_top)]
    pub fn top(self) -> (edge: u16)
        ensures
            edge == self.spec_top(),
    {
        self.y
    }

    /// The first row below the rectangle.
    #[verifier::when_used_as_spec(spec_bottom)]
    pub fn bottom(self) -> (edge: u16)
        ensures
            edge == self.spec_bottom(),
    {
        self.y.saturating_add(self.height)
    }

    /// Whether the position `(x, y)` lies inside the rectangle.
    pub fn contains(self, x: u16, y: u16) -> (inside: bool)
        ensures
            inside == self.holds(x as int, y as int),
    {
        x >= self.left() && x < self.right() && y >= self.top() && y < self.bottom()
    }
}

} // verus!
