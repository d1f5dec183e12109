//! Cutting a rectangle into slots along one axis.
//!
//! A list of constraints asks for one slot each. A proportional slot gets its
//! share of the whole extent, rounded down; what the proportional slots leave
//! is divided evenly among the remainder slots, and where it does not divide,
//! the first remainder slots get one cell more. Slots follow one another
//! without a gap, in the order of the constraints.
//!
//! The functions that say what a partition is come first, then `partition`
//! itself and its companions, then what is proved of them.

use crate::geometry::{Axis, Rectangle};
use crate::layout_lemmas::{
    lemma_even_prefix, lemma_extents_total, lemma_granted_bounds, lemma_leftover_split,
    lemma_offset_is_sum, lemma_proportional_budget, lemma_proportional_extent_bounds,
    lemma_remainders_grow, lemma_slot_bounds, lemma_slots_fill, lemma_slots_in_order,
    lemma_weight_grows,
};
use vstd::prelude::*;

verus! {

/// The weight that stands for the whole extent.
pub const FULL_WEIGHT: u16 = 100;

/// How one slot of a partition is sized.
#[derive(Clone, Copy, Debug, PartialEq, Eq, Structural)]
pub enum Constraint {
    /// That many hundredths of the whole extent, rounded down to whole cells.
    Proportional(u16),
    /// An even share of what the proportional slots leave.
    Remainder,
}

/// The weight that a constraint asks for.
pub open spec fn weight(k: Constraint) -> int {
    match k {
        Constraint::Proportional(p) => p as int,
        Constraint::Remainder => 0,
    }
}

/// Sum of the weights asked for by the first `n` constraints.
pub open spec fn weight_before(c: Seq<Constraint>, n: int) -> int
    decreases n,
{
    if n <= 0 {
        0
    } else {
        weight_before(c, n - 1) + weight(c[n - 1])
    }
}

/// Sum of all the weights asked for.
pub open spec fn total_weight(c: Seq<Constraint>) -> int {
    weight_before(c, c.len() as int)
}

/// A sum of weights, held to the whole.
pub open spec fn capped(w: int) -> int {
    if w < FULL_WEIGHT {
        w
    } else {
        FULL_WEIGHT as int
    }
}

/// The weight that slot `i` is given: what it asks for, as long as the slots
/// up to it ask for no more than the whole; of a list that asks for more, the
/// slot that crosses the whole gets what was left and the later ones nothing.
pub open spec fn granted(c: Seq<Constraint>, i: int) -> int {
    capped(weight_before(c, i + 1)) - capped(weight_before(c, i))
}

/// Cells of a proportional slot: its weight's share of `extent`, rounded down.
pub open spec fn proportional_extent(c: Seq<Constraint>, extent: int, i: int) -> int {
    granted(c, i) * extent / (FULL_WEIGHT as int)
}

/// Cells taken by the proportional slots among the first `n`.
pub open spec fn proportional_before(c: Seq<Constraint>, extent: int, n: int) -> int
    decreases n,
{
    if n <= 0 {
        0
    } else {
        proportional_before(c, extent, n - 1) + proportional_extent(c, extent, n - 1)
    }
}

/// Number of remainder slots among the first `n`.
pub open spec fn remainders_before(c: Seq<Constraint>, n: int) -> int
    decreases n,
{
    if n <= 0 {
        0
    } else {
        remainders_before(c, n - 1) + if c[n - 1] is Remainder {
            1int
        } else {
            0int
        }
    }
}

/// Number of remainder slots.
pub open spec fn remainder_count(c: Seq<Constraint>) -> int {
    remainders_before(c, c.len() as int)
}

/// Cells that the proportional slots leave.
pub open spec fn leftover(c: Seq<Constraint>, extent: int) -> int {
    extent - proportional_before(c, extent, c.len() as int)
}

/// Cells of the remainder slot at `i`: an even share of the leftover, and one
/// cell more for as many of the first remainder slots as the division leaves
/// cells over.
pub open spec fn remainder_extent(c: Seq<Constraint>, extent: int, i: int) -> int {
    let share = leftover(c, extent) / remainder_count(c);
    let spare = leftover(c, extent) % remainder_count(c);
    if remainders_before(c, i) < spare {
        share + 1
    } else {
        share
    }
}

/// Cells of slot `i`.
pub open spec fn slot_extent(c: Seq<Constraint>, extent: int, i: int) -> int {
    match c[i] {
        Constraint::Proportional(_) => proportional_extent(c, extent, i),
        Constraint::Remainder => remainder_extent(c, extent, i),
    }
}

/// Cells taken by the first `n` slots, which is where slot `n` starts.
pub open spec fn slot_offset(c: Seq<Constraint>, extent: int, n: int) -> int
    decreases n,
{
    if n <= 0 {
        0
    } else {
        slot_offset(c, extent, n - 1) + slot_extent(c, extent, n - 1)
    }
}

/// Cells of `extent` that no slot takes. There are none as soon as one
/// remainder slot is there to absorb them.
pub open spec fn unused(c: Seq<Constraint>, extent: int) -> int {
    if remainder_count(c) > 0 {
        0
    } else {
        leftover(c, extent)
    }
}

/// The rectangle that starts `offset` cells into `area` along `axis`, is
/// `extent` cells long and is as large as `area` across.
pub open spec fn slice_of(area: Rectangle, axis: Axis, offset: int, extent: int) -> Rectangle {
    match axis {
        Axis::Horizontal => Rectangle {
            x: (area.x + offset) as u16,
            y: area.y,
            width: extent as u16,
            height: area.height,
        },
        Axis::Vertical => Rectangle {
            x: area.x,
            y: (area.y + offset) as u16,
            width: area.width,
            height: extent as u16,
        },
    }
}

/// The rectangle of slot `i`.
pub open spec fn slot_rect(area: Rectangle, axis: Axis, c: Seq<Constraint>, i: int) -> Rectangle {
    slice_of(
        area,
        axis,
        slot_offset(c, area.extent(axis), i),
        slot_extent(c, area.extent(axis), i),
    )
}

/// The slots into which the constraints `c` cut `area` along `axis`.
pub open spec fn partitioned(area: Rectangle, axis: Axis, c: Seq<Constraint>) -> Seq<Rectangle> {
    Seq::new(c.len(), |i: int| slot_rect(area, axis, c, i))
}

/// Sum of the extents along `axis` of the first `n` of `slots`.
pub open spec fn extents_total(slots: Seq<Rectangle>, axis: Axis, n: int) -> int
    decreases n,
{
    if n <= 0 {
        0
    } else {
        extents_total(slots, axis, n - 1) + slots[n - 1].extent(axis)
    }
}

/// `slots` tile `area` along `axis` but for `gap` cells at its end: each is as
/// large as `area` across the axis and lies within it, the first starts where
/// `area` starts and each further one where the one before it ends, so that
/// no two of them share a cell, and their extents add up to that of `area`
/// less `gap`.
#[verifier::opaque]
pub open spec fn tiles(area: Rectangle, axis: Axis, slots: Seq<Rectangle>, gap: int) -> bool {
    &&& forall|i: int|
        0 <= i < slots.len() ==> {
            &&& (#[trigger] slots[i]).start(axis.across()) == area.start(axis.across())
            &&& slots[i].extent(axis.across()) == area.extent(axis.across())
            &&& slots[i].wf()
            &&& area.encloses(slots[i])
        }
    &&& forall|i: int|
        0 <= i < slots.len() ==> (#[trigger] slots[i]).start(axis) == if i == 0 {
            area.start(axis)
        } else {
            slots[i - 1].end(axis)
        }
    &&& forall|i: int, j: int|
        0 <= i < j < slots.len() ==> (#[trigger] slots[i]).end(axis) <= (#[trigger] slots[j]).start(
            axis,
        )
    &&& extents_total(slots, axis, slots.len() as int) == area.extent(axis) - gap
}

/// The list that cuts an extent in two halves. Where the extent is odd, the
/// second half is the larger.
pub open spec fn halves() -> Seq<Constraint> {
    seq![Constraint::Proportional(50), Constraint::Remainder]
}

/// The list that cuts an extent into `n` slots of even size.
pub open spec fn even_shares(n: nat) -> Seq<Constraint> {
    Seq::new(n, |i: int| Constraint::Remainder)
}

/// Cuts `area` along `axis` into one slot for each constraint, in their
/// order. The first slot starts where `area` starts, each further slot where
/// the one before it ends, and across the axis every slot is as large as
/// `area`.
///
/// A proportional slot gets its weight's share of the extent, rounded down; a
/// list that asks for more than the whole is held to the whole, slot by slot.
/// The remainder slots divide what is left evenly, the first of them taking
/// the cells that the division leaves over. Without a remainder slot the
/// leftover stays unused behind the last slot.
pub fn partition(area: Rectangle, axis: Axis, constraints: &[Constraint]) -> (slots: Vec<Rectangle>)
    requires
        area.wf(),
    ensures
        slots@ == partitioned(area, axis, constraints@),
        tiles(area, axis, slots@, unused(constraints@, area.extent(axis))),
{
    let extent: u16 = match axis {
        Axis::Horizontal => area.width,
        Axis::Vertical => area.height,
    };
    let totals: (u16, usize) = measure(constraints, extent);
    let taken: u16 = totals.0;
    let remainders: usize = totals.1;
    proof {
        lemma_leftover_split(constraints@, extent as int);
    }
    let left: u16 = extent - taken;
    let mut share: u16 = 0;
    let mut spare: usize = 0;
    if remainders > 0 {
        share = (left as usize / remainders) as u16;
        spare = left as usize % remainders;
    }
    let mut slots: Vec<Rectangle> = Vec::new();
    let mut used: u16 = 0;
    let mut rank: usize = 0;
    let mut offset: u16 = 0;
    let mut i: usize = 0;
    while i < constraints.len()
        invariant
            area.wf(),
            extent == area.extent(axis),
            remainders == remainder_count(constraints@),
            remainders > 0 ==> share == leftover(constraints@, extent as int) / (remainders as int),
            remainders > 0 ==> spare == leftover(constraints@, extent as int) % (remainders as int),
            i <= constraints@.len(),
            slots@.len() == i,
            used == capped(weight_before(constraints@, i as int)),
            rank == remainders_before(constraints@, i as int),
            offset == slot_offset(constraints@, extent as int, i as int),
            forall|j: int| 0 <= j < i ==> slots@[j] == slot_rect(area, axis, constraints@, j),
        decreases constraints@.len() - i,
    {
        proof {
            lemma_slot_bounds(constraints@, extent as int, i as int);
            lemma_weight_grows(constraints@, i as int, i + 1);
            lemma_remainders_grow(constraints@, i + 1, constraints@.len() as int);
        }
        let size: u16 = match constraints[i] {
            Constraint::Proportional(p) => {
                let next: u16 = raise(used, p);
                let cells: u16 = share_of(next - used, extent);
                used = next;
                cells
            },
            Constraint::Remainder => {
                let cells: u16 = if rank < spare {
                    share + 1
                } else {
                    share
                };
                rank = rank + 1;
                cells
            },
        };
        slots.push(slot_at(area, axis, offset, size));
        offset = offset + size;
        i = i + 1;
    }
    proof {
        assert(slots@ =~= partitioned(area, axis, constraints@));
        partition_tiles(area, axis, constraints@);
    }
    slots
}

/// Cuts `area` in two halves along `axis`. The first half has half the
/// extent, rounded down; the second has the rest.
pub fn halve(area: Rectangle, axis: Axis) -> (parts: (Rectangle, Rectangle))
    requires
        area.wf(),
    ensures
        parts.0 == slot_rect(area, axis, halves(), 0),
        parts.1 == slot_rect(area, axis, halves(), 1),
        parts.0 == slice_of(area, axis, 0, area.extent(axis) / 2),
        parts.1 == slice_of(
            area,
            axis,
            area.extent(axis) / 2,
            area.extent(axis) - area.extent(axis) / 2,
        ),
        parts.0.wf(),
        parts.1.wf(),
        area.encloses(parts.0),
        area.encloses(parts.1),
{
    let pair: [Constraint; 2] = half_split();
    let slots: Vec<Rectangle> = partition(area, axis, pair.as_slice());
    proof {
        halves_in_closed_form(area.extent(axis));
        slot_geometry(area, axis, halves(), 0);
        slot_geometry(area, axis, halves(), 1);
    }
    (slots[0], slots[1])
}

/// The list that cuts an extent in two halves.
pub fn half_split() -> (constraints: [Constraint; 2])
    ensures
        constraints@ == halves(),
{
    let constraints: [Constraint; 2] = [Constraint::Proportional(50), Constraint::Remainder];
    assert(constraints@ =~= halves());
    constraints
}

/// The list that cuts an extent into `n` slots of even size.
pub fn even_split(n: usize) -> (constraints: Vec<Constraint>)
    ensures
        constraints@ == even_shares(n as nat),
{
    let mut constraints: Vec<Constraint> = Vec::new();
    let mut i: usize = 0;
    while i < n
        invariant
            i <= n,
            constraints@ == even_shares(i as nat),
        decreases n - i,
    {
        constraints.push(Constraint::Remainder);
        assert(constraints@ =~= even_shares((i + 1) as nat));
        i = i + 1;
    }
    constraints
}

/// Whether the list asks for no more than the whole, so that every
/// proportional slot gets the share that it asks for.
pub fn within_budget(constraints: &[Constraint]) -> (ok: bool)
    ensures
        ok == (total_weight(constraints@) <= FULL_WEIGHT),
{
    let mut asked: u16 = 0;
    let mut i: usize = 0;
    while i < constraints.len()
        invariant
            i <= constraints@.len(),
            asked == weight_before(constraints@, i as int),
            asked <= FULL_WEIGHT,
        decreases constraints@.len() - i,
    {
        match constraints[i] {
            Constraint::Proportional(p) => {
                if p > FULL_WEIGHT - asked {
                    proof {
                        lemma_weight_grows(constraints@, i + 1, constraints@.len() as int);
                    }
                    return false;
                }
                asked = asked + p;
            },
            Constraint::Remainder => {},
        }
        i = i + 1;
    }
    true
}

/// Cells of `extent` that the proportional slots take, and the number of
/// remainder slots.
fn measure(constraints: &[Constraint], extent: u16) -> (totals: (u16, usize))
    ensures
        totals.0 == proportional_before(constraints@, extent as int, constraints@.len() as int),
        totals.1 == remainder_count(constraints@),
{
    let mut used: u16 = 0;
    let mut taken: u16 = 0;
    let mut remainders: usize = 0;
    let mut i: usize = 0;
    while i < constraints.len()
        invariant
            i <= constraints@.len(),
            used == capped(weight_before(constraints@, i as int)),
            taken == proportional_before(constraints@, extent as int, i as int),
            remainders == remainders_before(constraints@, i as int),
        decreases constraints@.len() - i,
    {
        proof {
            lemma_weight_grows(constraints@, i as int, i + 1);
            lemma_proportional_budget(constraints@, extent as int, i + 1);
            lemma_proportional_extent_bounds(constraints@, extent as int, i as int);
            lemma_remainders_grow(constraints@, 0, i + 1);
        }
        match constraints[i] {
            Constraint::Proportional(p) => {
                let next: u16 = raise(used, p);
                taken = taken + share_of(next - used, extent);
                used = next;
            },
            Constraint::Remainder => {
                remainders = remainders + 1;
            },
        }
        i = i + 1;
    }
    (taken, remainders)
}

/// Adds the weight `p` to a sum of weights that is held to the whole.
fn raise(used: u16, p: u16) -> (next: u16)
    requires
        used <= FULL_WEIGHT,
    ensures
        next == capped(used + p),
        used <= next <= FULL_WEIGHT,
{
    if p >= FULL_WEIGHT - used {
        FULL_WEIGHT
    } else {
        used + p
    }
}

/// Cells of `extent` that `weight` hundredths stand for, rounded down.
fn share_of(weight: u16, extent: u16) -> (cells: u16)
    requires
        weight <= FULL_WEIGHT,
    ensures
        cells == weight * extent / (FULL_WEIGHT as int),
        cells <= extent,
{
    assert(0 <= weight * extent <= 100 * extent) by (nonlinear_arith)
        requires
            0 <= weight <= 100,
            0 <= extent,
    ;
    let product: u32 = weight as u32 * extent as u32;
    (product / FULL_WEIGHT as u32) as u16
}

/// The part of `area` that starts `offset` cells in along `axis` and is
/// `extent` cells long.
fn slot_at(area: Rectangle, axis: Axis, offset: u16, extent: u16) -> (slot: Rectangle)
    requires
        area.wf(),
        offset + extent <= area.extent(axis),
    ensures
        slot == slice_of(area, axis, offset as int, extent as int),
        slot.wf(),
        area.encloses(slot),
{
    match axis {
        Axis::Horizontal => Rectangle {
            x: area.x + offset,
            y: area.y,
            width: extent,
            height: area.height,
        },
        Axis::Vertical => Rectangle {
            x: area.x,
            y: area.y + offset,
            width: area.width,
            height: extent,
        },
    }
}

/// A partition tiles its area exactly: as soon as a remainder slot is there,
/// or the proportional slots leave no cell, the slots lie side by side from
/// one end of the area to the other, no two of them share a cell, their
/// extents along the axis add up to that of the area, and across the axis
/// each is as large as the area.
pub proof fn partition_tiles_exactly(area: Rectangle, axis: Axis, c: Seq<Constraint>)
    requires
        area.wf(),
        remainder_count(c) > 0 || leftover(c, area.extent(axis)) == 0,
    ensures
        tiles(area, axis, partitioned(area, axis, c), 0),
        c.len() > 0 ==> partitioned(area, axis, c).last().end(axis) == area.end(axis),
{
    reveal(tiles);
    partition_tiles(area, axis, c);
    if c.len() > 0 {
        let last: int = c.len() - 1;
        slot_geometry(area, axis, c, last);
        lemma_slot_bounds(c, area.extent(axis), last);
        lemma_slots_fill(c, area.extent(axis));
    }
}

/// The slots of a partition tile the area but for the cells that stay unused.
pub proof fn partition_tiles(area: Rectangle, axis: Axis, c: Seq<Constraint>)
    requires
        area.wf(),
    ensures
        tiles(area, axis, partitioned(area, axis, c), unused(c, area.extent(axis))),
{
    reveal(tiles);
    let slots = partitioned(area, axis, c);
    let extent: int = area.extent(axis);
    assert forall|i: int| 0 <= i < slots.len() implies {
        &&& (#[trigger] slots[i]).start(axis.across()) == area.start(axis.across())
        &&& slots[i].extent(axis.across()) == area.extent(axis.across())
        &&& slots[i].wf()
        &&& area.encloses(slots[i])
        &&& slots[i].start(axis) == if i == 0 {
            area.start(axis)
        } else {
            slots[i - 1].end(axis)
        }
    } by {
        slot_geometry(area, axis, c, i);
        if i > 0 {
            slot_geometry(area, axis, c, i - 1);
            lemma_slot_bounds(c, extent, i - 1);
        }
    }
    assert forall|i: int, j: int| 0 <= i < j < slots.len() implies (#[trigger] slots[i]).end(axis)
        <= (#[trigger] slots[j]).start(axis) by {
        slot_geometry(area, axis, c, i);
        slot_geometry(area, axis, c, j);
        lemma_slots_in_order(c, extent, i, j);
    }
    lemma_extents_total(area, axis, c, c.len() as int);
    lemma_slots_fill(c, extent);
}

/// A list that asks for no more than the whole gives every proportional slot
/// exactly the share that it asks for.
pub proof fn share_within_budget(c: Seq<Constraint>, extent: int, i: int)
    requires
        total_weight(c) <= FULL_WEIGHT,
        0 <= i < c.len(),
    ensures
        proportional_extent(c, extent, i) == weight(c[i]) * extent / (FULL_WEIGHT as int),
{
    lemma_granted_bounds(c, i);
}

/// The rectangle of a slot has the offset and the extent of the slot.
pub proof fn slot_geometry(area: Rectangle, axis: Axis, c: Seq<Constraint>, i: int)
    requires
        area.wf(),
        0 <= i < c.len(),
    ensures
        slot_rect(area, axis, c, i).start(axis) == area.start(axis) + slot_offset(
            c,
            area.extent(axis),
            i,
        ),
        slot_rect(area, axis, c, i).extent(axis) == slot_extent(c, area.extent(axis), i),
        slot_rect(area, axis, c, i).start(axis.across()) == area.start(axis.across()),
        slot_rect(area, axis, c, i).extent(axis.across()) == area.extent(axis.across()),
        slot_rect(area, axis, c, i).wf(),
        area.encloses(slot_rect(area, axis, c, i)),
{
    lemma_slot_bounds(c, area.extent(axis), i);
}

/// The two slots of `halves()`: the first `extent / 2` cells, and the rest.
pub proof fn halves_in_closed_form(extent: int)
    requires
        0 <= extent,
    ensures
        slot_offset(halves(), extent, 0) == 0,
        slot_extent(halves(), extent, 0) == extent / 2,
        slot_offset(halves(), extent, 1) == extent / 2,
        slot_extent(halves(), extent, 1) == extent - extent / 2,
        unused(halves(), extent) == 0,
{
    let c = halves();
    reveal_with_fuel(weight_before, 3);
    reveal_with_fuel(proportional_before, 3);
    reveal_with_fuel(remainders_before, 3);
    reveal_with_fuel(slot_offset, 3);
    assert(c.len() == 2);
    assert(granted(c, 0) == 50);
    assert(granted(c, 1) == 0);
    assert(proportional_extent(c, extent, 0) == extent / 2);
    assert(proportional_extent(c, extent, 1) == 0);
    assert(remainder_count(c) == 1);
    let l: int = leftover(c, extent);
    assert(l == extent - extent / 2);
    assert(l / 1 == l && l % 1 == 0);
}

/// The slots of `even_shares(n)`: each gets `extent / n` cells, and the first
/// `extent % n` of them one cell more.
pub proof fn even_shares_in_closed_form(n: nat, extent: int, i: int)
    requires
        0 <= extent,
        0 <= i < n,
    ensures
        slot_extent(even_shares(n), extent, i) == extent / (n as int) + if i < extent % (n as int) {
            1int
        } else {
            0int
        },
        slot_offset(even_shares(n), extent, i) == i * (extent / (n as int)) + if i < extent % (
        n as int) {
            i
        } else {
            extent % (n as int)
        },
        unused(even_shares(n), extent) == 0,
{
    let c = even_shares(n);
    lemma_even_prefix(n, extent, n as int);
    lemma_even_prefix(n, extent, i);
    lemma_offset_is_sum(c, extent, i);
    assert(i == 0 ==> i * (extent / (n as int)) == 0) by (nonlinear_arith);
}

} // verus!
