//! The arithmetic behind the partition: bounds on weights and shares, and
//! where each slot starts.

use crate::geometry::{Axis, Rectangle};
use crate::layout::{
    capped, even_shares, extents_total, granted, leftover, partitioned, proportional_before,
    proportional_extent, remainder_count, remainder_extent, remainders_before, slot_extent,
    slot_geometry, slot_offset, total_weight, unused, weight, weight_before, Constraint,
    FULL_WEIGHT,
};
use vstd::prelude::*;

verus! {

/// Sums of weights do not shrink as slots are added.
pub proof fn lemma_weight_grows(c: Seq<Constraint>, m: int, n: int)
    requires
        0 <= m <= n,
    ensures
        0 <= weight_before(c, m) <= weight_before(c, n),
    decreases n,
{
    if n > m {
        lemma_weight_grows(c, m, n - 1);
    } else if n > 0 {
        lemma_weight_grows(c, m - 1, n - 1);
    }
}

/// No slot is given a negative weight, nor more than it asks for, and all of
/// them together are given no more than the whole.
pub proof fn lemma_granted_bounds(c: Seq<Constraint>, i: int)
    requires
        0 <= i,
    ensures
        0 <= granted(c, i) <= weight(c[i]),
        granted(c, i) <= FULL_WEIGHT,
        total_weight(c) <= FULL_WEIGHT && i < c.len() ==> granted(c, i) == weight(c[i]),
{
    lemma_weight_grows(c, i, i + 1);
    if i < c.len() {
        lemma_weight_grows(c, i + 1, c.len() as int);
    }
}

/// A slot's share of the extent never exceeds the extent, and a slot that is
/// given no weight gets no cell.
pub proof fn lemma_proportional_extent_bounds(c: Seq<Constraint>, extent: int, i: int)
    requires
        0 <= extent,
        0 <= i,
    ensures
        0 <= proportional_extent(c, extent, i) <= extent,
        (FULL_WEIGHT as int) * proportional_extent(c, extent, i) <= granted(c, i) * extent,
        granted(c, i) == 0 ==> proportional_extent(c, extent, i) == 0,
{
    lemma_granted_bounds(c, i);
    let g: int = granted(c, i);
    let product: int = g * extent;
    assert(0 <= product <= 100 * extent) by (nonlinear_arith)
        requires
            0 <= g <= 100,
            0 <= extent,
            product == g * extent,
    ;
    assert(g == 0 ==> product == 0) by (nonlinear_arith)
        requires
            product == g * extent,
    ;
}

/// The proportional slots among the first `n` take no more cells than the
/// share of the extent that their capped weights stand for.
pub proof fn lemma_proportional_budget(c: Seq<Constraint>, extent: int, n: int)
    requires
        0 <= extent,
        0 <= n,
    ensures
        0 <= proportional_before(c, extent, n) <= extent,
        (FULL_WEIGHT as int) * proportional_before(c, extent, n) <= capped(weight_before(c, n))
            * extent,
    decreases n,
{
    if n > 0 {
        lemma_proportional_budget(c, extent, n - 1);
        lemma_proportional_extent_bounds(c, extent, n - 1);
        lemma_weight_grows(c, n - 1, n);
        let before: int = capped(weight_before(c, n - 1));
        let after: int = capped(weight_before(c, n));
        let g: int = granted(c, n - 1);
        assert(after * extent == before * extent + g * extent) by (nonlinear_arith)
            requires
                after == before + g,
        ;
    }
    let cap: int = capped(weight_before(c, n));
    lemma_weight_grows(c, 0, n);
    assert(cap * extent <= 100 * extent) by (nonlinear_arith)
        requires
            0 <= cap <= 100,
            0 <= extent,
    ;
}

/// The cells taken by proportional slots do not shrink as slots are added.
pub proof fn lemma_proportional_grows(c: Seq<Constraint>, extent: int, m: int, n: int)
    requires
        0 <= extent,
        0 <= m <= n,
    ensures
        proportional_before(c, extent, m) <= proportional_before(c, extent, n),
    decreases n,
{
    if n > m {
        lemma_proportional_grows(c, extent, m, n - 1);
        lemma_proportional_extent_bounds(c, extent, n - 1);
    }
}

/// The count of remainder slots does not shrink as slots are added, and it
/// counts no more slots than there are.
pub proof fn lemma_remainders_grow(c: Seq<Constraint>, m: int, n: int)
    requires
        0 <= m <= n,
    ensures
        0 <= remainders_before(c, m) <= remainders_before(c, n) <= n,
    decreases n,
{
    if n > m {
        lemma_remainders_grow(c, m, n - 1);
    } else if n > 0 {
        lemma_remainders_grow(c, m - 1, n - 1);
    }
}

/// Cells taken by the first `k` remainder slots.
pub open spec fn remainder_span(c: Seq<Constraint>, extent: int, k: int) -> int {
    if k <= 0 {
        0
    } else {
        let share = leftover(c, extent) / remainder_count(c);
        let spare = leftover(c, extent) % remainder_count(c);
        k * share + if k < spare {
            k
        } else {
            spare
        }
    }
}

/// The leftover is not negative, and where there is a remainder slot, share
/// and spare cells account for all of it.
pub proof fn lemma_leftover_split(c: Seq<Constraint>, extent: int)
    requires
        0 <= extent,
    ensures
        0 <= leftover(c, extent) <= extent,
        remainder_count(c) > 0 ==> {
            &&& 0 <= leftover(c, extent) / remainder_count(c) <= leftover(c, extent)
            &&& 0 <= leftover(c, extent) % remainder_count(c) < remainder_count(c)
            &&& leftover(c, extent) % remainder_count(c) <= leftover(c, extent)
            &&& remainder_span(c, extent, remainder_count(c)) == leftover(c, extent)
        },
{
    let l: int = leftover(c, extent);
    let r: int = remainder_count(c);
    lemma_proportional_budget(c, extent, c.len() as int);
    if r > 0 {
        assert(0 <= l / r <= l && 0 <= l % r < r && l == r * (l / r) + l % r) by (nonlinear_arith)
            requires
                0 <= l,
                0 < r,
        ;
    }
}

/// Where the first `k` remainder slots end, for `k` up to their number: never
/// beyond the leftover, and never before an earlier one.
pub proof fn lemma_remainder_span_bounds(c: Seq<Constraint>, extent: int, j: int, k: int)
    requires
        0 <= extent,
        0 <= j <= k <= remainder_count(c),
    ensures
        0 <= remainder_span(c, extent, j) <= remainder_span(c, extent, k) <= leftover(c, extent),
{
    lemma_leftover_split(c, extent);
    if k > 0 {
        let r: int = remainder_count(c);
        let share: int = leftover(c, extent) / r;
        assert(0 <= j * share <= k * share <= r * share) by (nonlinear_arith)
            requires
                0 <= j <= k <= r,
                0 <= share,
        ;
    }
}

/// One more remainder slot adds its own cells to the span.
pub proof fn lemma_remainder_span_step(c: Seq<Constraint>, extent: int, i: int)
    requires
        0 <= extent,
        0 <= i < c.len(),
        c[i] is Remainder,
    ensures
        remainder_span(c, extent, remainders_before(c, i) + 1) == remainder_span(
            c,
            extent,
            remainders_before(c, i),
        ) + remainder_extent(c, extent, i),
        0 <= remainder_extent(c, extent, i),
{
    lemma_remainders_grow(c, i, i + 1);
    lemma_remainders_grow(c, i + 1, c.len() as int);
    lemma_leftover_split(c, extent);
    let k: int = remainders_before(c, i);
    let share: int = leftover(c, extent) / remainder_count(c);
    assert((k + 1) * share == k * share + share && (k == 0 ==> k * share == 0))
        by (nonlinear_arith);
}

/// Where slot `n` starts: behind the proportional and the remainder slots
/// before it.
pub proof fn lemma_offset_is_sum(c: Seq<Constraint>, extent: int, n: int)
    requires
        0 <= extent,
        0 <= n <= c.len(),
    ensures
        slot_offset(c, extent, n) == proportional_before(c, extent, n) + remainder_span(
            c,
            extent,
            remainders_before(c, n),
        ),
    decreases n,
{
    if n > 0 {
        lemma_offset_is_sum(c, extent, n - 1);
        lemma_remainders_grow(c, 0, n - 1);
        match c[n - 1] {
            Constraint::Proportional(_) => {},
            Constraint::Remainder => {
                lemma_remainder_span_step(c, extent, n - 1);
                lemma_proportional_extent_bounds(c, extent, n - 1);
            },
        }
    }
}

/// Every slot has a size that is not negative and ends within the extent.
pub proof fn lemma_slot_bounds(c: Seq<Constraint>, extent: int, i: int)
    requires
        0 <= extent,
        0 <= i < c.len(),
    ensures
        0 <= slot_extent(c, extent, i),
        0 <= slot_offset(c, extent, i),
        slot_offset(c, extent, i) + slot_extent(c, extent, i) == slot_offset(c, extent, i + 1),
        slot_offset(c, extent, i + 1) <= extent - unused(c, extent),
        unused(c, extent) >= 0,
{
    let len: int = c.len() as int;
    lemma_offset_is_sum(c, extent, i);
    lemma_offset_is_sum(c, extent, i + 1);
    lemma_remainders_grow(c, 0, i);
    lemma_remainders_grow(c, i, i + 1);
    lemma_remainders_grow(c, i + 1, len);
    lemma_remainder_span_bounds(c, extent, 0, remainders_before(c, i));
    lemma_remainder_span_bounds(c, extent, remainders_before(c, i + 1), remainder_count(c));
    lemma_proportional_budget(c, extent, i);
    lemma_proportional_grows(c, extent, i + 1, len);
    lemma_proportional_extent_bounds(c, extent, i);
    lemma_leftover_split(c, extent);
    match c[i] {
        Constraint::Proportional(_) => {},
        Constraint::Remainder => {
            lemma_remainder_span_step(c, extent, i);
        },
    }
}

/// Slots come in order: one that comes first ends before a later one starts.
pub proof fn lemma_slots_in_order(c: Seq<Constraint>, extent: int, i: int, j: int)
    requires
        0 <= extent,
        0 <= i < j < c.len(),
    ensures
        slot_offset(c, extent, i) + slot_extent(c, extent, i) <= slot_offset(c, extent, j),
    decreases j - i,
{
    lemma_slot_bounds(c, extent, i);
    if i + 1 < j {
        lemma_slots_in_order(c, extent, i + 1, j);
        lemma_slot_bounds(c, extent, i + 1);
    }
}

/// All slots together take the whole extent but for the unused cells.
pub proof fn lemma_slots_fill(c: Seq<Constraint>, extent: int)
    requires
        0 <= extent,
    ensures
        slot_offset(c, extent, c.len() as int) == extent - unused(c, extent),
        0 <= unused(c, extent) <= extent,
{
    let len: int = c.len() as int;
    lemma_offset_is_sum(c, extent, len);
    lemma_leftover_split(c, extent);
    lemma_remainders_grow(c, 0, len);
}

/// The extents of the first `n` slots add up to where slot `n` starts.
pub proof fn lemma_extents_total(area: Rectangle, axis: Axis, c: Seq<Constraint>, n: int)
    requires
        area.wf(),
        0 <= n <= c.len(),
    ensures
        extents_total(partitioned(area, axis, c), axis, n) == slot_offset(
            c,
            area.extent(axis),
            n,
        ),
    decreases n,
{
    if n > 0 {
        lemma_extents_total(area, axis, c, n - 1);
        slot_geometry(area, axis, c, n - 1);
    }
}

/// A list of remainder slots alone has no weight, takes no cell for
/// proportional slots and counts every slot.
pub proof fn lemma_even_prefix(n: nat, extent: int, k: int)
    requires
        0 <= k <= n,
    ensures
        weight_before(even_shares(n), k) == 0,
        proportional_before(even_shares(n), extent, k) == 0,
        remainders_before(even_shares(n), k) == k,
    decreases k,
{
    if k > 0 {
        lemma_even_prefix(n, extent, k - 1);
        assert(0 * extent == 0);
    }
}

} // verus!
