//! One grid cell: the few tiers that overlap at a position, oldest first.
//!
//! The tiers sit in an inline `tinyvec::ArrayVec` of three slots. A cell
//! stores each tier at most once and never stores `Absent`; an insertion
//! that would break either rule, or that finds every slot taken, is turned
//! away and leaves the cell as it was.

use vstd::prelude::*;
use tinyvec::ArrayVec;
use crate::tier::DropSpeed;

verus! {

/// Number of slots in a cell.
pub const CAPACITY: usize = 3;

/// `tinyvec::ArrayVec`, of which the verifier knows the name and no more.
#[verifier::external_type_specification]
#[verifier::external_body]
#[verifier::reject_recursive_types(A)]
pub struct ExArrayVec<A>(ArrayVec<A>);

/// The tiers that an inline vector of three slots holds, in index order.
pub uninterp spec fn held(slots: ArrayVec<[DropSpeed; 3]>) -> Seq<DropSpeed>;

/// `ArrayVec::default`: a vector of length zero.
#[verifier::external_body]
fn slots_empty() -> (slots: ArrayVec<[DropSpeed; 3]>)
    ensures
        held(slots) == Seq::<DropSpeed>::empty(),
{
    ArrayVec::default()
}

/// `ArrayVec::is_empty`: whether the length is zero.
#[verifier::external_body]
fn slots_is_empty(slots: &ArrayVec<[DropSpeed; 3]>) -> (empty: bool)
    ensures
        empty == (held(*slots).len() == 0),
{
    slots.is_empty()
}

/// `ArrayVec::as_slice`: the held elements as a slice, in index order.
#[verifier::external_body]
fn slots_as_slice(slots: &ArrayVec<[DropSpeed; 3]>) -> (items: &[DropSpeed])
    ensures
        items@ == held(*slots),
{
    slots.as_slice()
}

/// `ArrayVec::push`: appends the element behind the others. The call panics
/// on a full vector, so a free slot is asked of the caller.
#[verifier::external_body]
fn slots_push(slots: &mut ArrayVec<[DropSpeed; 3]>, tier: DropSpeed)
    requires
        held(*old(slots)).len() < 3,
    ensures
        held(*final(slots)) == held(*old(slots)).push(tier),
{
    slots.push(tier)
}

/// `ArrayVec::remove`: takes out the element at `index`, moves the later ones
/// down by one and returns what was taken. The call panics on an index past
/// the end, so the caller keeps it below the length.
#[verifier::external_body]
fn slots_remove(slots: &mut ArrayVec<[DropSpeed; 3]>, index: usize) -> (taken: DropSpeed)
    requires
        index < held(*old(slots)).len(),
    ensures
        held(*final(slots)) == held(*old(slots)).remove(index as int),
        taken == held(*old(slots))[index as int],
{
    slots.remove(index)
}

/// What a sequence of tiers must satisfy to be the contents of a cell.
pub open spec fn valid_cell(tiers: Seq<DropSpeed>) -> bool {
    &&& tiers.len() <= CAPACITY
    &&& tiers.no_duplicates()
    &&& !tiers.contains(DropSpeed::Absent)
}

/// The contents after an attempt to insert `tier`: appended behind the
/// others, unless it is `Absent`, already present, or no slot is free.
pub open spec fn inserted(tiers: Seq<DropSpeed>, tier: DropSpeed) -> Seq<DropSpeed> {
    if tier == DropSpeed::Absent || tiers.contains(tier) || tiers.len() >= CAPACITY {
        tiers
    } else {
        tiers.push(tier)
    }
}

/// The tier whose glyph stands for a cell with these contents: a slow drop
/// wins over all others; without one, the drop that came first wins; an
/// empty cell shows `Absent`.
pub open spec fn render_tier(tiers: Seq<DropSpeed>) -> DropSpeed {
    if tiers.contains(DropSpeed::Slow) {
        DropSpeed::Slow
    } else if tiers.len() > 0 {
        tiers[0]
    } else {
        DropSpeed::Absent
    }
}

/// The cell at one grid position.
#[derive(Clone, Copy, Debug)]
pub struct DropCell {
    slots: ArrayVec<[DropSpeed; 3]>,
}

impl View for DropCell {
    type V = Seq<DropSpeed>;

    /// The tiers present, earliest insertion first.
    closed spec fn view(&self) -> Seq<DropSpeed> {
        held(self.slots)
    }
}

impl DropCell {
    /// Every cell is valid: the library hands out no other.
    #[verifier::type_invariant]
    pub open spec fn well_formed(self) -> bool {
        valid_cell(self@)
    }

    /// An empty cell.
    pub fn new() -> (cell: DropCell)
        ensures
            cell@ == Seq::<DropSpeed>::empty(),
    {
        DropCell { slots: slots_empty() }
    }

    /// The number of tiers present.
    pub fn len(&self) -> (n: usize)
        ensures
            n == self@.len(),
            valid_cell(self@),
    {
        proof {
            use_type_invariant(self);
        }
        slots_as_slice(&self.slots).len()
    }

    /// Whether no tier is present.
    pub fn is_empty(&self) -> (empty: bool)
        ensures
            empty == (self@.len() == 0),
    {
        slots_is_empty(&self.slots)
    }

    /// The tier at `index`, counted from the earliest insertion.
    pub fn get(&self, index: usize) -> (tier: Option<DropSpeed>)
        ensures
            tier == if index < self@.len() {
                Some(self@[index as int])
            } else {
                None
            },
    {
        let items = slots_as_slice(&self.slots);
        if index < items.len() {
            Some(items[index])
        } else {
            None
        }
    }

    /// The earliest-inserted tier, if there is one.
    pub fn first(&self) -> (tier: Option<DropSpeed>)
        ensures
            tier == if self@.len() > 0 {
                Some(self@[0])
            } else {
                None
            },
    {
        match slots_as_slice(&self.slots).first() {
            Some(tier) => Some(*tier),
            None => None,
        }
    }

    /// Where `tier` sits in the cell, if it is present.
    pub fn position(&self, tier: DropSpeed) -> (found: Option<usize>)
        ensures
            match found {
                Some(index) => index < self@.len() && self@[index as int] == tier,
                None => !self@.contains(tier),
            },
            found.is_some() == self@.contains(tier),
            found matches Some(index) ==> self@.index_of_first(tier) == Some(index as int),
    {
        let items = slots_as_slice(&self.slots);
        let mut index: usize = 0;
        while index < items.len()
            invariant
                index <= items.len(),
                items@ == self@,
                forall|j: int| 0 <= j < index ==> items@[j] != tier,
            decreases items.len() - index,
        {
            if items[index] == tier {
                proof {
                    self@.index_of_first_ensures(tier);
                }
                return Some(index);
            }
            index += 1;
        }
        None
    }

    /// Whether `tier` is present.
    pub fn contains(&self, tier: DropSpeed) -> (found: bool)
        ensures
            found == self@.contains(tier),
    {
        self.position(tier).is_some()
    }

    /// The tier whose glyph stands for the cell.
    pub fn render_tier(&self) -> (tier: DropSpeed)
        ensures
            tier == render_tier(self@),
    {
        if self.contains(DropSpeed::Slow) {
            DropSpeed::Slow
        } else if !self.is_empty() {
            self.first().unwrap()
        } else {
            DropSpeed::Absent
        }
    }

    /// Tries to insert `tier` behind the tiers present. Returns whether it
    /// went in; a tier that is turned away leaves the cell unchanged.
    pub fn insert(&mut self, tier: DropSpeed) -> (accepted: bool)
        ensures
            final(self)@ == inserted(old(self)@, tier),
            accepted == (final(self)@ != old(self)@),
    {
        proof {
            use_type_invariant(&*self);
        }
        if tier == DropSpeed::Absent || self.contains(tier) || self.len() >= CAPACITY {
            return false;
        }
        let mut slots = self.slots;
        slots_push(&mut slots, tier);
        proof {
            lemma_room_for_missing_tier(self@, tier);
        }
        self.slots = slots;
        true
    }

    /// Takes `tier` out of the cell. Returns whether it was present.
    pub fn remove(&mut self, tier: DropSpeed) -> (present: bool)
        ensures
            final(self)@ == old(self)@.remove_value(tier),
            present == old(self)@.contains(tier),
    {
        proof {
            use_type_invariant(&*self);
            self@.index_of_first_ensures(tier);
        }
        match self.position(tier) {
            Some(index) => {
                let mut slots = self.slots;
                slots_remove(&mut slots, index);
                proof {
                    lemma_remove_keeps_valid(self@, index as int);
                }
                self.slots = slots;
                true
            },
            None => false,
        }
    }

    /// The tiers present, earliest insertion first.
    pub fn tiers(&self) -> (list: Vec<DropSpeed>)
        ensures
            list@ == self@,
    {
        let items = slots_as_slice(&self.slots);
        let mut list: Vec<DropSpeed> = Vec::new();
        let mut index: usize = 0;
        while index < items.len()
            invariant
                index <= items.len(),
                items@ == self@,
                list@ == self@.take(index as int),
            decreases items.len() - index,
        {
            list.push(items[index]);
            index += 1;
        }
        list
    }
}

/// A sequence of distinct tiers without `Absent` has at most three entries.
pub proof fn lemma_distinct_tiers_fit(tiers: Seq<DropSpeed>)
    requires
        tiers.no_duplicates(),
        !tiers.contains(DropSpeed::Absent),
    ensures
        tiers.len() <= CAPACITY,
{
    if tiers.len() > 3 {
        assert(tiers.contains(tiers[0]));
        assert(tiers.contains(tiers[1]));
        assert(tiers.contains(tiers[2]));
        assert(tiers.contains(tiers[3]));
        assert(tiers[0] != tiers[1] && tiers[0] != tiers[2] && tiers[0] != tiers[3]);
        assert(tiers[1] != tiers[2] && tiers[1] != tiers[3] && tiers[2] != tiers[3]);
    }
}

/// A valid cell always has a free slot for a tier that it lacks: a drop is
/// turned away only for being `Absent` or for being there already, never for
/// want of room.
pub proof fn lemma_room_for_missing_tier(cell: Seq<DropSpeed>, tier: DropSpeed)
    requires
        valid_cell(cell),
        tier != DropSpeed::Absent,
        !cell.contains(tier),
    ensures
        cell.len() < CAPACITY,
        inserted(cell, tier) == cell.push(tier),
        valid_cell(cell.push(tier)),
{
    let after = cell.push(tier);
    assert forall|i: int, j: int| 0 <= i < after.len() && 0 <= j < after.len() && i != j implies after[i] != after[j] by {
        if i < cell.len() {
            assert(cell.contains(cell[i]));
        }
        if j < cell.len() {
            assert(cell.contains(cell[j]));
        }
    }
    assert forall|i: int| 0 <= i < after.len() implies after[i] != DropSpeed::Absent by {
        if i < cell.len() {
            assert(cell.contains(cell[i]));
        }
    }
    lemma_distinct_tiers_fit(after);
}

/// The contents after an attempt to insert each of `tiers` in turn.
pub open spec fn inserted_all(cell: Seq<DropSpeed>, tiers: Seq<DropSpeed>) -> Seq<DropSpeed>
    decreases tiers.len(),
{
    if tiers.len() == 0 {
        cell
    } else {
        inserted(inserted_all(cell, tiers.drop_last()), tiers.last())
    }
}

/// An attempt to insert a tier into a valid cell leaves a valid cell.
pub proof fn lemma_insert_keeps_valid(cell: Seq<DropSpeed>, tier: DropSpeed)
    requires
        valid_cell(cell),
    ensures
        valid_cell(inserted(cell, tier)),
{
    if inserted(cell, tier) != cell {
        lemma_room_for_missing_tier(cell, tier);
    }
}

/// Capacity: whatever is inserted into a valid cell, and in whatever order,
/// the cell never holds more than three tiers, none of them twice.
pub proof fn lemma_insertions_keep_valid(cell: Seq<DropSpeed>, tiers: Seq<DropSpeed>)
    requires
        valid_cell(cell),
    ensures
        valid_cell(inserted_all(cell, tiers)),
        inserted_all(cell, tiers).len() <= CAPACITY,
        inserted_all(cell, tiers).no_duplicates(),
    decreases tiers.len(),
{
    if tiers.len() > 0 {
        lemma_insertions_keep_valid(cell, tiers.drop_last());
        lemma_insert_keeps_valid(inserted_all(cell, tiers.drop_last()), tiers.last());
    }
}

/// Precedence: a cell that holds a slow drop shows the slow tier, whatever
/// else it holds and in whatever order.
pub proof fn lemma_slow_wins(cell: Seq<DropSpeed>)
    requires
        cell.contains(DropSpeed::Slow),
    ensures
        render_tier(cell) == DropSpeed::Slow,
{
}

/// A cell without a slow drop shows the tier that came first.
pub proof fn lemma_earliest_wins(cell: Seq<DropSpeed>)
    requires
        !cell.contains(DropSpeed::Slow),
        cell.len() > 0,
    ensures
        render_tier(cell) == cell[0],
{
}

/// An empty cell shows `Absent`.
pub proof fn lemma_empty_shows_absent(cell: Seq<DropSpeed>)
    requires
        cell.len() == 0,
    ensures
        render_tier(cell) == DropSpeed::Absent,
{
}

/// An insertion lands behind the others wherever the cell with the tier
/// appended is valid.
pub proof fn lemma_insert_lands(tiers: Seq<DropSpeed>, tier: DropSpeed)
    requires
        valid_cell(tiers.push(tier)),
    ensures
        inserted(tiers, tier) == tiers.push(tier),
{
    let after = tiers.push(tier);
    assert(after[tiers.len() as int] == tier);
    if tiers.contains(tier) {
        let i = choose|i: int| 0 <= i < tiers.len() && tiers[i] == tier;
        assert(after[i] == after[tiers.len() as int]);
    }
}

/// Taking one entry out of a valid cell gives a valid cell.
pub proof fn lemma_remove_keeps_valid(tiers: Seq<DropSpeed>, index: int)
    requires
        valid_cell(tiers),
        0 <= index < tiers.len(),
    ensures
        valid_cell(tiers.remove(index)),
{
    let after = tiers.remove(index);
    assert forall|i: int| 0 <= i < after.len() implies tiers.contains(#[trigger] after[i]) by {
        if i < index {
            assert(after[i] == tiers[i]);
        } else {
            assert(after[i] == tiers[i + 1]);
        }
    }
}

} // verus!
