//! Speed tiers of falling drops, and values kept per tier.

use vstd::prelude::*;

verus! {

/// How fast a drop falls. `Absent` stands for "no drop" wherever a tier is
/// asked for and nothing is there; it is never stored in a cell.
#[derive(Clone, Copy, Debug, PartialEq, Eq, PartialOrd, Ord, Hash, Default, Structural)]
pub enum DropSpeed {
    #[default]
    Absent,
    Fast,
    Medium,
    Slow,
}

/// One value for each tier that a drop can have.
#[derive(Debug, PartialEq, Eq)]
pub struct PerTier<T> {
    pub fast: T,
    pub medium: T,
    pub slow: T,
}

impl<T: Copy> Clone for PerTier<T> {
    fn clone(&self) -> (copy: Self)
        ensures
            copy == *self,
    {
        *self
    }
}

impl<T: Copy> Copy for PerTier<T> {

}

impl<T: Copy> PerTier<T> {
    /// The value for `tier`; `Absent` has none.
    pub open spec fn of(self, tier: DropSpeed) -> Option<T> {
        match tier {
            DropSpeed::Absent => None,
            DropSpeed::Fast => Some(self.fast),
            DropSpeed::Medium => Some(self.medium),
            DropSpeed::Slow => Some(self.slow),
        }
    }

    /// The value for `tier`; `Absent` has none.
    pub fn get(&self, tier: DropSpeed) -> (value: Option<T>)
        ensures
            value == self.of(tier),
    {
        match tier {
            DropSpeed::Absent => None,
            DropSpeed::Fast => Some(self.fast),
            DropSpeed::Medium => Some(self.medium),
            DropSpeed::Slow => Some(self.slow),
        }
    }
}

impl PerTier<bool> {
    /// Whether the set of tiers holds `tier`. It never holds `Absent`.
    pub open spec fn has(self, tier: DropSpeed) -> bool {
        self.of(tier) == Some(true)
    }

    /// Whether the set of tiers holds `tier`. It never holds `Absent`.
    pub fn contains(&self, tier: DropSpeed) -> (found: bool)
        ensures
            found == self.has(tier),
    {
        match self.get(tier) {
            Some(found) => found,
            None => false,
        }
    }
}

} // verus!
