//! One step of the fall: the drops of the tiers that are due move one row
//! down, and those that move out of the last row are gone.
//!
//! All drops of one tier move on the same steps, so a drop never catches up
//! with another of its tier, and a cell always has room for what arrives.

use vstd::prelude::*;
use crate::buffer::{column_of, DropColumn, Grid, RenderBuffer};
use crate::cell::{lemma_distinct_tiers_fit, lemma_insert_lands, valid_cell, DropCell};
use crate::tier::{DropSpeed, PerTier};

verus! {

/// The test that picks the tiers of `moving`.
pub open spec fn moves(moving: PerTier<bool>) -> spec_fn(DropSpeed) -> bool {
    |tier: DropSpeed| moving.has(tier)
}

/// The test that picks the tiers outside `moving`.
pub open spec fn rests(moving: PerTier<bool>) -> spec_fn(DropSpeed) -> bool {
    |tier: DropSpeed| !moving.has(tier)
}

/// The entries of a cell that stay where they are on a step on which the
/// tiers of `moving` move.
pub open spec fn staying(cell: Seq<DropSpeed>, moving: PerTier<bool>) -> Seq<DropSpeed> {
    cell.filter(rests(moving))
}

/// The entries of a cell that leave it on such a step.
pub open spec fn leaving(cell: Seq<DropSpeed>, moving: PerTier<bool>) -> Seq<DropSpeed> {
    cell.filter(moves(moving))
}

/// A cell after such a step: what stayed, then what came down from the cell
/// `above`, each part in its old order.
pub open spec fn stepped_cell(
    above: Seq<DropSpeed>,
    here: Seq<DropSpeed>,
    moving: PerTier<bool>,
) -> Seq<DropSpeed> {
    staying(here, moving) + leaving(above, moving)
}

/// A column after such a step. Nothing comes down into the top row, and what
/// leaves the last row is gone.
pub open spec fn stepped_column(column: Seq<Seq<DropSpeed>>, moving: PerTier<bool>) -> Seq<
    Seq<DropSpeed>,
> {
    Seq::new(
        column.len(),
        |y: int|
            stepped_cell(
                if y == 0 {
                    Seq::empty()
                } else {
                    column[y - 1]
                },
                column[y],
                moving,
            ),
    )
}

/// A grid after such a step: every column stepped on its own.
pub open spec fn stepped_grid(grid: Grid, moving: PerTier<bool>) -> Grid {
    Seq::new(grid.len(), |x: int| stepped_column(grid[x], moving))
}

/// The entries that a test picks out of distinct entries are distinct.
proof fn lemma_filter_distinct(tiers: Seq<DropSpeed>, pick: spec_fn(DropSpeed) -> bool)
    requires
        tiers.no_duplicates(),
    ensures
        tiers.filter(pick).no_duplicates(),
    decreases tiers.len(),
{
    reveal(Seq::filter);
    if tiers.len() > 0 {
        let front = tiers.drop_last();
        lemma_filter_distinct(front, pick);
        if pick(tiers.last()) {
            let kept = front.filter(pick);
            if kept.contains(tiers.last()) {
                front.lemma_filter_contains_rev(pick, tiers.last());
                let i = choose|i: int| 0 <= i < front.len() && front[i] == tiers.last();
                assert(tiers[i] == tiers[tiers.len() - 1]);
            }
            assert forall|i: int, j: int|
                0 <= i < kept.push(tiers.last()).len() && 0 <= j < kept.push(tiers.last()).len()
                    && i != j implies kept.push(tiers.last())[i] != kept.push(tiers.last())[j] by {
                if i < kept.len() {
                    assert(kept.contains(kept[i]));
                }
                if j < kept.len() {
                    assert(kept.contains(kept[j]));
                }
            }
        }
    }
}

/// A cell stays valid over a tick: what rests in it and what comes down from
/// the cell above never collide, and together they fit.
pub proof fn lemma_stepped_cell_valid(
    above: Seq<DropSpeed>,
    here: Seq<DropSpeed>,
    moving: PerTier<bool>,
)
    requires
        valid_cell(above),
        valid_cell(here),
    ensures
        valid_cell(stepped_cell(above, here, moving)),
{
    broadcast use vstd::seq_lib::group_filter_ensures;

    let stay = staying(here, moving);
    let come = leaving(above, moving);
    let both = stay + come;
    lemma_filter_distinct(here, rests(moving));
    lemma_filter_distinct(above, moves(moving));
    assert forall|i: int| 0 <= i < stay.len() implies here.contains(#[trigger] stay[i])
        && !moving.has(stay[i]) by {
        assert(stay.contains(stay[i]));
        here.lemma_filter_contains_rev(rests(moving), stay[i]);
        here.lemma_filter_pred(rests(moving), i);
    }
    assert forall|i: int| 0 <= i < come.len() implies above.contains(#[trigger] come[i])
        && moving.has(come[i]) by {
        assert(come.contains(come[i]));
        above.lemma_filter_contains_rev(moves(moving), come[i]);
        above.lemma_filter_pred(moves(moving), i);
    }
    assert(both.no_duplicates()) by {
        assert forall|i: int, j: int| 0 <= i < both.len() && 0 <= j < both.len() && i != j implies both[i] != both[j] by {
            if i < stay.len() {
                assert(both[i] == stay[i]);
            } else {
                assert(both[i] == come[i - stay.len()]);
            }
            if j < stay.len() {
                assert(both[j] == stay[j]);
            } else {
                assert(both[j] == come[j - stay.len()]);
            }
        }
    }
    assert(!both.contains(DropSpeed::Absent)) by {
        if both.contains(DropSpeed::Absent) {
            let i = choose|i: int| 0 <= i < both.len() && both[i] == DropSpeed::Absent;
            if i < stay.len() {
                assert(both[i] == stay[i]);
            } else {
                assert(both[i] == come[i - stay.len()]);
            }
        }
    }
    lemma_distinct_tiers_fit(both);
}

/// What a test picks out of a sequence holds a value just when the sequence
/// holds it and it passes the test.
proof fn lemma_filter_holds(tiers: Seq<DropSpeed>, pick: spec_fn(DropSpeed) -> bool, tier: DropSpeed)
    ensures
        tiers.filter(pick).contains(tier) == (tiers.contains(tier) && pick(tier)),
{
    broadcast use vstd::seq_lib::group_filter_ensures;

    let kept = tiers.filter(pick);
    if kept.contains(tier) {
        tiers.lemma_filter_contains_rev(pick, tier);
        let i = choose|i: int| 0 <= i < kept.len() && kept[i] == tier;
        tiers.lemma_filter_pred(pick, i);
    }
    if tiers.contains(tier) && pick(tier) {
        let i = choose|i: int| 0 <= i < tiers.len() && tiers[i] == tier;
        tiers.lemma_filter_contains(pick, i);
    }
}

/// One step moves a drop one row: after it, a tier that moved is at a row
/// just when it was at the row above before, and a tier that rested is where
/// it was.
pub proof fn lemma_step_moves_one_row(
    column: Seq<Seq<DropSpeed>>,
    moving: PerTier<bool>,
    tier: DropSpeed,
    y: int,
)
    requires
        0 <= y < column.len(),
    ensures
        stepped_column(column, moving)[y].contains(tier) == if moving.has(tier) {
            y > 0 && column[y - 1].contains(tier)
        } else {
            column[y].contains(tier)
        },
{
    let above = if y == 0 {
        Seq::<DropSpeed>::empty()
    } else {
        column[y - 1]
    };
    let stay = staying(column[y], moving);
    let come = leaving(above, moving);
    lemma_filter_holds(column[y], rests(moving), tier);
    lemma_filter_holds(above, moves(moving), tier);
    let both = stay + come;
    if both.contains(tier) {
        let i = choose|i: int| 0 <= i < both.len() && both[i] == tier;
        if i < stay.len() {
            assert(stay[i] == tier);
        } else {
            assert(come[i - stay.len()] == tier);
        }
    }
    if stay.contains(tier) {
        let i = choose|i: int| 0 <= i < stay.len() && stay[i] == tier;
        assert(both[i] == tier);
    }
    if come.contains(tier) {
        let i = choose|i: int| 0 <= i < come.len() && come[i] == tier;
        assert(both[stay.len() + i] == tier);
    }
}

/// Drop termination: a drop that moves out of the last row is gone after
/// the same step. Where only the last row held the tier, no row holds it
/// afterwards.
pub proof fn lemma_drop_leaves_at_bottom(
    column: Seq<Seq<DropSpeed>>,
    moving: PerTier<bool>,
    tier: DropSpeed,
)
    requires
        moving.has(tier),
        forall|y: int| 0 <= y < column.len() - 1 ==> !(#[trigger] column[y]).contains(tier),
    ensures
        forall|y: int| 0 <= y < column.len() ==> !(#[trigger] stepped_column(column, moving)[y]).contains(tier),
{
    assert forall|y: int| 0 <= y < column.len() implies !(#[trigger] stepped_column(column, moving)[y]).contains(tier) by {
        lemma_step_moves_one_row(column, moving, tier, y);
    }
}

/// A step brings no drop back: a column without a tier is without it after
/// the step, whichever tiers move.
pub proof fn lemma_step_creates_nothing(
    column: Seq<Seq<DropSpeed>>,
    moving: PerTier<bool>,
    tier: DropSpeed,
)
    requires
        forall|y: int| 0 <= y < column.len() ==> !(#[trigger] column[y]).contains(tier),
    ensures
        forall|y: int| 0 <= y < column.len() ==> !(#[trigger] stepped_column(column, moving)[y]).contains(tier),
{
    assert forall|y: int| 0 <= y < column.len() implies !(#[trigger] stepped_column(column, moving)[y]).contains(tier) by {
        lemma_step_moves_one_row(column, moving, tier, y);
    }
}

/// A column after `steps` steps on each of which the tiers of `moving` move.
pub open spec fn stepped_times(column: Seq<Seq<DropSpeed>>, moving: PerTier<bool>, steps: nat) -> Seq<
    Seq<DropSpeed>,
>
    decreases steps,
{
    if steps == 0 {
        column
    } else {
        stepped_column(stepped_times(column, moving, (steps - 1) as nat), moving)
    }
}

/// After `steps` steps a moving tier is at a row just when it was `steps`
/// rows higher at the start.
pub proof fn lemma_drop_falls(
    column: Seq<Seq<DropSpeed>>,
    moving: PerTier<bool>,
    tier: DropSpeed,
    steps: nat,
    y: int,
)
    requires
        moving.has(tier),
        0 <= y < column.len(),
    ensures
        stepped_times(column, moving, steps).len() == column.len(),
        stepped_times(column, moving, steps)[y].contains(tier) == (y >= steps && column[y - steps].contains(
            tier,
        )),
    decreases steps,
{
    if steps > 0 {
        let before = stepped_times(column, moving, (steps - 1) as nat);
        lemma_drop_falls(column, moving, tier, (steps - 1) as nat, y);
        lemma_step_moves_one_row(before, moving, tier, y);
        if y > 0 {
            lemma_drop_falls(column, moving, tier, (steps - 1) as nat, y - 1);
        }
    }
}

/// Drop termination: once a tier has moved as many times as the column has
/// rows, and nothing was spawned meanwhile, the column holds no drop of it.
pub proof fn lemma_drops_run_out(
    column: Seq<Seq<DropSpeed>>,
    moving: PerTier<bool>,
    tier: DropSpeed,
    steps: nat,
)
    requires
        moving.has(tier),
        steps >= column.len(),
    ensures
        forall|y: int| 0 <= y < column.len() ==> !(#[trigger] stepped_times(column, moving, steps)[y]).contains(tier),
{
    assert forall|y: int| 0 <= y < column.len() implies !(#[trigger] stepped_times(column, moving, steps)[y]).contains(tier) by {
        lemma_drop_falls(column, moving, tier, steps, y);
    }
}

/// The first entries of a valid cell form a valid cell.
proof fn lemma_prefix_valid(tiers: Seq<DropSpeed>, n: int)
    requires
        valid_cell(tiers),
        0 <= n <= tiers.len(),
    ensures
        valid_cell(tiers.take(n)),
{
    let front = tiers.take(n);
    assert forall|i: int| 0 <= i < front.len() implies tiers.contains(#[trigger] front[i]) by {
        assert(front[i] == tiers[i]);
    }
}

/// The entries that a test picks out of a valid cell form a valid cell.
proof fn lemma_filter_valid(tiers: Seq<DropSpeed>, pick: spec_fn(DropSpeed) -> bool)
    requires
        valid_cell(tiers),
    ensures
        valid_cell(tiers.filter(pick)),
{
    broadcast use vstd::seq_lib::group_filter_ensures;

    lemma_filter_distinct(tiers, pick);
    if tiers.filter(pick).contains(DropSpeed::Absent) {
        tiers.lemma_filter_contains_rev(pick, DropSpeed::Absent);
    }
}

/// Parts a cell into the entries that rest and those that move on.
fn split_cell(cell: &DropCell, moving: PerTier<bool>) -> (parts: (DropCell, DropCell))
    ensures
        parts.0@ == staying(cell@, moving),
        parts.1@ == leaving(cell@, moving),
{
    let mut stay = DropCell::new();
    let mut leave = DropCell::new();
    let n = cell.len();
    let mut i: usize = 0;
    proof {
        reveal(Seq::filter);
        assert(cell@.take(0) =~= Seq::<DropSpeed>::empty());
    }
    while i < n
        invariant
            n == cell@.len(),
            i <= n,
            valid_cell(cell@),
            stay@ == staying(cell@.take(i as int), moving),
            leave@ == leaving(cell@.take(i as int), moving),
        decreases n - i,
    {
        let tier = match cell.get(i) {
            Some(tier) => tier,
            None => DropSpeed::Absent,
        };
        proof {
            let front = cell@.take(i as int);
            let next = cell@.take(i + 1);
            assert(next =~= front.push(tier));
            front.lemma_filter_push(tier, rests(moving));
            front.lemma_filter_push(tier, moves(moving));
            lemma_prefix_valid(cell@, i + 1);
            lemma_filter_valid(next, rests(moving));
            lemma_filter_valid(next, moves(moving));
            if moving.has(tier) {
                lemma_insert_lands(leave@, tier);
            } else {
                lemma_insert_lands(stay@, tier);
            }
        }
        if moving.contains(tier) {
            leave.insert(tier);
        } else {
            stay.insert(tier);
        }
        i += 1;
    }
    proof {
        assert(cell@.take(n as int) =~= cell@);
    }
    (stay, leave)
}

/// Puts the arrivals into the cell, behind what it holds.
fn absorb(cell: &mut DropCell, arrivals: &DropCell)
    requires
        valid_cell(old(cell)@ + arrivals@),
    ensures
        final(cell)@ == old(cell)@ + arrivals@,
{
    let ghost before = cell@;
    let n = arrivals.len();
    let mut i: usize = 0;
    proof {
        assert(before + arrivals@.take(0) =~= before);
    }
    while i < n
        invariant
            n == arrivals@.len(),
            i <= n,
            valid_cell(before + arrivals@),
            cell@ == before + arrivals@.take(i as int),
        decreases n - i,
    {
        let tier = match arrivals.get(i) {
            Some(tier) => tier,
            None => DropSpeed::Absent,
        };
        proof {
            let whole = before + arrivals@;
            assert(cell@.push(tier) =~= before + arrivals@.take(i + 1));
            assert(before + arrivals@.take(i + 1) =~= whole.take(before.len() + i + 1));
            lemma_prefix_valid(whole, before.len() + i + 1);
            lemma_insert_lands(cell@, tier);
        }
        cell.insert(tier);
        i += 1;
    }
    proof {
        assert(arrivals@.take(n as int) =~= arrivals@);
    }
}

/// Moves the drops of the tiers in `moving` one row down in one column. The
/// rows are handled from the last one up, so that a drop moves once.
pub fn advance_column(column: &mut DropColumn, moving: PerTier<bool>)
    ensures
        column_of(final(column)@) == stepped_column(column_of(old(column)@), moving),
{
    let ghost before = column_of(column@);
    let n = column.len();
    let mut y: usize = n;
    while y > 0
        invariant
            y <= n,
            column@.len() == n,
            before.len() == n,
            y < n ==> valid_cell(before[y as int]),
            y < n ==> column@[y as int]@ == staying(before[y as int], moving),
            forall|j: int| y < j < n ==> (#[trigger] column@[j])@ == stepped_cell(before[j - 1], before[j], moving),
            forall|j: int| 0 <= j < y ==> (#[trigger] column@[j])@ == before[j],
        decreases y,
    {
        y -= 1;
        let cell = column[y];
        proof {
            use_type_invariant(&cell);
        }
        let (stay, leave) = split_cell(&cell, moving);
        column.set(y, stay);
        if y + 1 < n {
            let mut below = column[y + 1];
            proof {
                lemma_stepped_cell_valid(before[y as int], before[y + 1], moving);
            }
            absorb(&mut below, &leave);
            column.set(y + 1, below);
        }
    }
    proof {
        reveal(Seq::filter);
        assert forall|j: int| 0 <= j < n implies column@[j]@ == stepped_column(before, moving)[j] by {
            if j == 0 {
                assert(leaving(Seq::<DropSpeed>::empty(), moving) =~= Seq::<DropSpeed>::empty());
                assert(staying(before[0], moving) + Seq::<DropSpeed>::empty() =~= staying(before[0], moving));
            }
        }
        assert(column_of(column@) =~= stepped_column(before, moving));
    }
}

/// Moves the drops of the tiers in `moving` one row down in every column.
pub fn advance(buffer: &mut RenderBuffer, moving: PerTier<bool>)
    ensures
        final(buffer).grid() == stepped_grid(old(buffer).grid(), moving),
        final(buffer).line@ == old(buffer).line@,
{
    let ghost before = buffer.grid();
    let n = buffer.buf.len();
    let mut x: usize = 0;
    while x < n
        invariant
            x <= n,
            buffer.buf@.len() == n,
            before.len() == n,
            buffer.line@ == old(buffer).line@,
            forall|i: int| 0 <= i < x ==> column_of(#[trigger] buffer.buf@[i]@) == stepped_column(before[i], moving),
            forall|i: int| x <= i < n ==> column_of(#[trigger] buffer.buf@[i]@) == before[i],
        decreases n - x,
    {
        advance_column(&mut buffer.buf[x], moving);
        x += 1;
    }
    proof {
        assert(buffer.grid() =~= stepped_grid(before, moving));
    }
}

} // verus!
