//! Layout solvers and setters.
//!
//! A [`RulesSolver`] collects child constraints for one container and
//! axis and combines them; the matching [`RulesSetter`] later distributes
//! a resolved rectangle back over the children, using exactly the
//! per-child constraints the solver stored. [`distribute_sizes`] is the
//! shared distribution algorithm.

use vstd::prelude::*;

use crate::geom::Coord;
use crate::geom::Rect;
use crate::geom::Size;
use crate::layout::size_rules::appended_all_spec;
use crate::layout::size_rules::margin_between;
use crate::layout::size_rules::margin_between_spec;
use crate::layout::size_rules::max_rank;
use crate::layout::size_rules::sum_gaps;
use crate::layout::size_rules::sum_ideal;
use crate::layout::size_rules::sum_min;
use crate::layout::AxisInfo;
use crate::layout::Layout;
use crate::layout::SizeRules;
use crate::layout::Stretch;

verus! {

/// Marker for the per-container data a solver stores and the matching
/// setter reads back.
pub trait Storage {

}

/// A [`SizeRules`] solver for layouts.
///
/// Fed one child at a time, in the order the layout defines, then
/// finished to yield the container's combined constraint for the axis
/// being solved. The result does not include the container's own
/// margins.
pub trait RulesSolver: Sized {
    /// Type of storage
    type Storage;

    /// Type of child identifiers (see implementation documentation)
    type ChildInfo;

    /// Consistency between the solver and its storage.
    spec fn valid(&self, storage: Self::Storage) -> bool;

    /// Which child identifiers the solver accepts in its current state.
    spec fn accepts(&self, storage: Self::Storage, info: Self::ChildInfo) -> bool;

    /// Called once for each child, with that child's constraint on the
    /// solved axis. For most layouts the order is important.
    fn for_child(&mut self, storage: &mut Self::Storage, info: Self::ChildInfo, rules: SizeRules)
        requires
            old(self).valid(*old(storage)),
            old(self).accepts(*old(storage), info),
            rules.wf(),
        ensures
            final(self).valid(*final(storage)),
    ;

    /// Called at the end to output the combined constraint.
    ///
    /// Note that this does not include the container's margins.
    fn finish(self, storage: &mut Self::Storage) -> (r: SizeRules)
        requires
            self.valid(*old(storage)),
        ensures
            r.wf(),
    ;
}

/// Distributor of a resolved rectangle over child widgets.
///
/// Mirrors the matching [`RulesSolver`]'s child enumeration for the same
/// layout and the same stored per-child constraints.
pub trait RulesSetter: Sized {
    /// Type of storage
    type Storage;

    /// Type of child identifiers (see implementation documentation)
    type ChildInfo;

    /// Internal consistency of the setter.
    spec fn setter_wf(&self) -> bool;

    /// Which child identifiers the setter accepts.
    spec fn accepts(&self, info: Self::ChildInfo) -> bool;

    /// Called once for each child; returns the rectangle to assign.
    fn child_rect(&mut self, info: Self::ChildInfo) -> (r: crate::geom::Rect)
        requires
            old(self).setter_wf(),
            old(self).accepts(info),
        ensures
            final(self).setter_wf(),
            *final(self) == *old(self),
    ;
}

/// Sum of a sequence of widths.
pub open spec fn sum_u32(s: Seq<u32>) -> int
    decreases s.len(),
{
    if s.len() == 0 {
        0
    } else {
        sum_u32(s.drop_last()) + s.last()
    }
}

/// Sum of the ideal sizes of the children with stretch priority `r`.
pub open spec fn tier_ideal(s: Seq<SizeRules>, r: int) -> int
    decreases s.len(),
{
    if s.len() == 0 {
        0
    } else if s.last().stretch.rank() == r {
        tier_ideal(s.drop_last(), r) + s.last().ideal
    } else {
        tier_ideal(s.drop_last(), r)
    }
}

/// The index of the last child with stretch priority `r`, or `-1` if
/// none has it.
pub open spec fn last_of_rank(s: Seq<SizeRules>, r: int) -> int
    decreases s.len(),
{
    if s.len() == 0 {
        -1
    } else if s.last().stretch.rank() == r {
        s.len() - 1
    } else {
        last_of_rank(s.drop_last(), r)
    }
}

/// The extra space assigned to child `i` while distributing slack:
/// nothing outside the winning tier, a share of the remaining slack
/// `sl` proportional to the child's ideal within the remaining tier
/// ideals `tr`, and the whole remainder for the tier's last child.
pub open spec fn extra_of(s: Seq<SizeRules>, rstar: int, last: int, sl: int, tr: int, i: int)
    -> int {
    if s[i].stretch.rank() != rstar {
        0
    } else if i == last {
        sl
    } else if tr > 0 {
        sl * s[i].ideal / tr
    } else {
        0
    }
}

/// The slack and tier-ideal bookkeeping left before child `i` is
/// assigned, starting from `slack` and the whole tier.
pub open spec fn stretch_state(s: Seq<SizeRules>, rstar: int, last: int, slack: int, i: int) -> (
    int,
    int,
)
    decreases i,
{
    if i <= 0 {
        (slack, tier_ideal(s, rstar))
    } else {
        let p = stretch_state(s, rstar, last, slack, i - 1);
        let e = extra_of(s, rstar, last, p.0, p.1, i - 1);
        (
            p.0 - e,
            if s[i - 1].stretch.rank() == rstar {
                p.1 - s[i - 1].ideal
            } else {
                p.1
            },
        )
    }
}

/// For a non-empty sequence, the last child of the maximal priority
/// exists, carries that priority, and no later child reaches it.
proof fn lemma_last_of_rank(s: Seq<SizeRules>)
    requires
        s.len() > 0,
    ensures
        0 <= last_of_rank(s, max_rank(s)) < s.len(),
        s[last_of_rank(s, max_rank(s))].stretch.rank() == max_rank(s),
        forall|k: int|
            last_of_rank(s, max_rank(s)) < k < s.len() ==> (#[trigger] s[k]).stretch.rank()
                < max_rank(s),
    decreases s.len(),
{
    lemma_max_rank_nonneg(s);
    if s.last().stretch.rank() == max_rank(s) {
    } else {
        assert(max_rank(s) == max_rank(s.drop_last()));
        lemma_last_of_rank(s.drop_last());
        assert forall|k: int|
            last_of_rank(s, max_rank(s)) < k < s.len() implies (#[trigger] s[k]).stretch.rank()
            < max_rank(s) by {
            if k < s.len() - 1 {
                assert(s.drop_last()[k] == s[k]);
            }
        }
    }
}

/// The maximal priority is at least every child's priority, and at
/// least zero.
proof fn lemma_max_rank_nonneg(s: Seq<SizeRules>)
    ensures
        max_rank(s) >= 0,
        forall|k: int| 0 <= k < s.len() ==> (#[trigger] s[k]).stretch.rank() <= max_rank(s),
    decreases s.len(),
{
    if s.len() > 0 {
        lemma_max_rank_nonneg(s.drop_last());
        assert forall|k: int|
            0 <= k < s.len() implies (#[trigger] s[k]).stretch.rank() <= max_rank(s) by {
            if k < s.len() - 1 {
                assert(s.drop_last()[k] == s[k]);
            }
        }
    }
}

/// One step of every prefix sum: extending the prefix by `s[i]`.
proof fn lemma_take_step(s: Seq<SizeRules>, i: int, r: int)
    requires
        0 <= i < s.len(),
    ensures
        sum_min(s.take(i + 1)) == sum_min(s.take(i)) + s[i].min,
        sum_ideal(s.take(i + 1)) == sum_ideal(s.take(i)) + s[i].ideal,
        max_rank(s.take(i + 1)) == if max_rank(s.take(i)) >= s[i].stretch.rank() {
            max_rank(s.take(i))
        } else {
            s[i].stretch.rank()
        },
        tier_ideal(s.take(i + 1), r) == if s[i].stretch.rank() == r {
            tier_ideal(s.take(i), r) + s[i].ideal
        } else {
            tier_ideal(s.take(i), r)
        },
        sum_gaps(s.take(i + 1)) == sum_gaps(s.take(i)) + if i == 0 {
            0
        } else {
            margin_between_spec(s[i - 1], s[i]) as int
        },
{
    assert(s.take(i + 1).drop_last() =~= s.take(i));
    assert(s.take(i + 1).last() == s[i]);
    if i > 0 {
        assert(s.take(i + 1)[i - 1] == s[i - 1]);
    }
}

/// A full prefix is the sequence itself.
proof fn lemma_take_all(s: Seq<SizeRules>)
    ensures
        s.take(s.len() as int) =~= s,
{
}

/// Prefix sums never exceed the whole, and neither does the prefix of
/// the ideal-over-minimum slack or of any stretch tier.
proof fn lemma_prefix_bounds(s: Seq<SizeRules>, i: int, r: int)
    requires
        0 <= i <= s.len(),
        forall|k: int| 0 <= k < s.len() ==> s[k].wf(),
    ensures
        sum_min(s.take(i)) <= sum_min(s),
        sum_ideal(s.take(i)) <= sum_ideal(s),
        sum_ideal(s.take(i)) - sum_min(s.take(i)) <= sum_ideal(s) - sum_min(s),
        tier_ideal(s.take(i), r) <= tier_ideal(s, r),
        max_rank(s.take(i)) <= max_rank(s),
        sum_gaps(s.take(i)) <= sum_gaps(s),
    decreases s.len() - i,
{
    if i == s.len() {
        lemma_take_all(s);
    } else {
        lemma_take_step(s, i, r);
        lemma_prefix_bounds(s, i + 1, r);
    }
}

/// Sums are non-negative termwise: every sum of minima, ideals or a
/// tier's ideals is at least zero.
proof fn lemma_sums_nonneg(s: Seq<SizeRules>, r: int)
    ensures
        sum_min(s) >= 0,
        sum_ideal(s) >= 0,
        tier_ideal(s, r) >= 0,
    decreases s.len(),
{
    if s.len() > 0 {
        lemma_sums_nonneg(s.drop_last(), r);
    }
}

/// For valid constraints the minima sum below the ideals.
proof fn lemma_min_le_ideal(s: Seq<SizeRules>)
    requires
        forall|k: int| 0 <= k < s.len() ==> s[k].wf(),
    ensures
        sum_min(s) <= sum_ideal(s),
    decreases s.len(),
{
    if s.len() > 0 {
        assert(s[s.len() - 1].wf());
        lemma_min_le_ideal(s.drop_last());
    }
}

/// If widths are pointwise bounded by the ideals (or by the minima) on
/// one side and their sums agree, the widths equal that bound pointwise.
proof fn lemma_sum_pointwise(w: Seq<u32>, s: Seq<SizeRules>)
    requires
        w.len() == s.len(),
    ensures
        (forall|k: int| 0 <= k < w.len() ==> w[k] <= s[k].ideal) && sum_u32(w) == sum_ideal(s)
            ==> forall|k: int| 0 <= k < w.len() ==> w[k] == s[k].ideal,
        (forall|k: int| 0 <= k < w.len() ==> w[k] >= s[k].ideal) && sum_u32(w) == sum_ideal(s)
            ==> forall|k: int| 0 <= k < w.len() ==> w[k] == s[k].ideal,
        (forall|k: int| 0 <= k < w.len() ==> w[k] >= s[k].min) && sum_u32(w) == sum_min(s)
            ==> forall|k: int| 0 <= k < w.len() ==> w[k] == s[k].min,
    decreases w.len(),
{
    if w.len() > 0 {
        lemma_sum_pointwise(w.drop_last(), s.drop_last());
        lemma_sum_bound(w.drop_last(), s.drop_last());
        assert forall|k: int| 0 <= k < w.len() - 1 implies w.drop_last()[k] == w[k]
            && s.drop_last()[k] == s[k] by {}
    }
}

/// Pointwise bounds carry over to the sums.
proof fn lemma_sum_bound(w: Seq<u32>, s: Seq<SizeRules>)
    requires
        w.len() == s.len(),
    ensures
        (forall|k: int| 0 <= k < w.len() ==> w[k] <= s[k].ideal) ==> sum_u32(w) <= sum_ideal(s),
        (forall|k: int| 0 <= k < w.len() ==> w[k] >= s[k].ideal) ==> sum_u32(w) >= sum_ideal(s),
        (forall|k: int| 0 <= k < w.len() ==> w[k] >= s[k].min) ==> sum_u32(w) >= sum_min(s),
        (forall|k: int| 0 <= k < w.len() ==> w[k] == s[k].min) ==> sum_u32(w) == sum_min(s),
    decreases w.len(),
{
    if w.len() > 0 {
        lemma_sum_bound(w.drop_last(), s.drop_last());
        assert forall|k: int| 0 <= k < w.len() - 1 implies w.drop_last()[k] == w[k]
            && s.drop_last()[k] == s[k] by {}
    }
}

/// One step of a width prefix sum.
proof fn lemma_sum_u32_push(w: Seq<u32>, x: u32)
    ensures
        sum_u32(w.push(x)) == sum_u32(w) + x,
{
    assert(w.push(x).drop_last() =~= w);
}

/// Distribute `target` units of space over children with the given
/// constraints, one width per child.
///
/// - When `target` is below the sum of minima, every child is clamped to
///   its minimum and the caller accepts overflow; widths never go
///   negative.
/// - Between the sums of minima and ideals, every unit is assigned:
///   children receive between their minimum and ideal, earlier children
///   reaching their ideal first.
/// - Above the sum of ideals, every child receives its ideal, and all
///   slack goes to the children of the highest stretch priority present:
///   shared in proportion to their ideals (the last such child takes the
///   rounding remainder, and takes everything when the tier's ideals are
///   all zero). Lower-priority children receive none.
pub fn distribute_sizes(rules: &Vec<SizeRules>, target: u32) -> (widths: Vec<u32>)
    requires
        forall|i: int| 0 <= i < rules@.len() ==> rules@[i].wf(),
    ensures
        widths@.len() == rules@.len(),
        target <= sum_min(rules@) ==> forall|i: int|
            0 <= i < widths@.len() ==> #[trigger] widths@[i] == rules@[i].min,
        sum_min(rules@) <= target <= sum_ideal(rules@) ==> sum_u32(widths@) == target as int
            && forall|i: int|
            0 <= i < widths@.len() ==> rules@[i].min <= #[trigger] widths@[i] <= rules@[i].ideal,
        rules@.len() > 0 && sum_ideal(rules@) <= target ==> sum_u32(widths@) == target as int && (
        forall|i: int| 0 <= i < widths@.len() ==> #[trigger] widths@[i] >= rules@[i].ideal) && (
        forall|i: int|
            0 <= i < widths@.len() && rules@[i].stretch.rank() < max_rank(rules@)
                ==> #[trigger] widths@[i] == rules@[i].ideal),
        rules@.len() > 0 && sum_ideal(rules@) < target ==> forall|i: int|
            0 <= i < widths@.len() ==> #[trigger] widths@[i] as int == rules@[i].ideal + extra_of(
                rules@,
                max_rank(rules@),
                last_of_rank(rules@, max_rank(rules@)),
                stretch_state(
                    rules@,
                    max_rank(rules@),
                    last_of_rank(rules@, max_rank(rules@)),
                    target - sum_ideal(rules@),
                    i,
                ).0,
                stretch_state(
                    rules@,
                    max_rank(rules@),
                    last_of_rank(rules@, max_rank(rules@)),
                    target - sum_ideal(rules@),
                    i,
                ).1,
                i,
            ),
{
    let ghost s = rules@;
    let n = rules.len();
    proof {
        lemma_sums_nonneg(s, 0);
        lemma_min_le_ideal(s);
    }
    let total_min = sum_min_exec(rules);
    let total_ideal = sum_ideal_exec(rules);

    if target as u128 <= total_min {
        let widths = distribute_minima(rules, target);
        proof {
            // At the boundary `target == sum_min == sum_ideal` the other
            // clauses apply as well: the minima then equal the ideals.
            lemma_sum_pointwise(widths@, s);
        }
        widths
    } else if target as u128 <= total_ideal {
        let widths = distribute_between(rules, target, total_min);
        proof {
            lemma_sum_pointwise(widths@, s);
        }
        widths
    } else if n == 0 {
        // Unreachable given the sums: an empty sequence has no ideal
        // sum below `target` only when `target > 0`, and then no clause
        // constrains the result beyond its length.
        Vec::new()
    } else {
        distribute_stretch(rules, target, total_ideal)
    }
}

/// Sum of minima, exactly.
pub fn sum_min_exec(rules: &Vec<SizeRules>) -> (r: u128)
    ensures
        r as int == sum_min(rules@),
{
    let ghost s = rules@;
    let n = rules.len();
    let mut acc: u128 = 0;
    let mut i: usize = 0;
    while i < n
        invariant
            0 <= i <= n,
            n == s.len(),
            s == rules@,
            acc as int == sum_min(s.take(i as int)),
            acc <= i as u128 * (u32::MAX as u128),
        decreases n - i,
    {
        proof {
            lemma_take_step(s, i as int, 0);
        }
        acc = acc + rules[i].min as u128;
        i = i + 1;
    }
    proof {
        lemma_take_all(s);
    }
    acc
}

/// Sum of ideals, exactly.
pub fn sum_ideal_exec(rules: &Vec<SizeRules>) -> (r: u128)
    ensures
        r as int == sum_ideal(rules@),
{
    let ghost s = rules@;
    let n = rules.len();
    let mut acc: u128 = 0;
    let mut i: usize = 0;
    while i < n
        invariant
            0 <= i <= n,
            n == s.len(),
            s == rules@,
            acc as int == sum_ideal(s.take(i as int)),
            acc <= i as u128 * (u32::MAX as u128),
        decreases n - i,
    {
        proof {
            lemma_take_step(s, i as int, 0);
        }
        acc = acc + rules[i].ideal as u128;
        i = i + 1;
    }
    proof {
        lemma_take_all(s);
    }
    acc
}

/// Underfull case: clamp every child to its minimum.
fn distribute_minima(rules: &Vec<SizeRules>, target: u32) -> (widths: Vec<u32>)
    requires
        forall|i: int| 0 <= i < rules@.len() ==> rules@[i].wf(),
        target <= sum_min(rules@),
    ensures
        widths@.len() == rules@.len(),
        forall|i: int| 0 <= i < widths@.len() ==> #[trigger] widths@[i] == rules@[i].min,
        sum_u32(widths@) == sum_min(rules@),
{
    let ghost s = rules@;
    let n = rules.len();
    let mut widths: Vec<u32> = Vec::new();
    let mut i: usize = 0;
    while i < n
        invariant
            0 <= i <= n,
            n == s.len(),
            s == rules@,
            widths@.len() == i,
            forall|k: int| 0 <= k < i ==> #[trigger] widths@[k] == s[k].min,
        decreases n - i,
    {
        widths.push(rules[i].min);
        i = i + 1;
    }
    proof {
        lemma_sum_bound(widths@, s);
    }
    widths
}

/// Middle case: every unit between the minima and the target is
/// assigned, earlier children reaching their ideal first.
fn distribute_between(rules: &Vec<SizeRules>, target: u32, total_min: u128) -> (widths: Vec<u32>)
    requires
        forall|i: int| 0 <= i < rules@.len() ==> rules@[i].wf(),
        total_min as int == sum_min(rules@),
        sum_min(rules@) <= target <= sum_ideal(rules@),
    ensures
        widths@.len() == rules@.len(),
        sum_u32(widths@) == target as int,
        forall|i: int|
            0 <= i < widths@.len() ==> rules@[i].min <= #[trigger] widths@[i] <= rules@[i].ideal,
{
    let ghost s = rules@;
    let n = rules.len();
    // The budget above the minima fits in u32 because it is at most `target`.
    let budget: u32 = (target as u128 - total_min) as u32;
    let mut rem: u32 = budget;
    let mut widths: Vec<u32> = Vec::new();
    let mut i: usize = 0;
    while i < n
        invariant
            0 <= i <= n,
            n == s.len(),
            s == rules@,
            forall|k: int| 0 <= k < s.len() ==> s[k].wf(),
            widths@.len() == i,
            forall|k: int| 0 <= k < i ==> s[k].min <= #[trigger] widths@[k] <= s[k].ideal,
            sum_u32(widths@) == sum_min(s.take(i as int)) + (budget - rem),
            rem <= (sum_ideal(s) - sum_min(s)) - (sum_ideal(s.take(i as int)) - sum_min(
                s.take(i as int),
            )),
        decreases n - i,
    {
        proof {
            lemma_take_step(s, i as int, 0);
            lemma_prefix_bounds(s, i as int + 1, 0);
        }
        let gap: u32 = rules[i].ideal - rules[i].min;
        let give: u32 = if gap <= rem {
            gap
        } else {
            rem
        };
        let w: u32 = rules[i].min + give;
        proof {
            lemma_sum_u32_push(widths@, w);
        }
        widths.push(w);
        rem = rem - give;
        i = i + 1;
    }
    proof {
        lemma_take_all(s);
    }
    widths
}

/// Overfull case: every child gets its ideal; the slack goes to the
/// highest-priority tier, proportionally to ideals, the last tier member
/// taking the remainder.
fn distribute_stretch(rules: &Vec<SizeRules>, target: u32, total_ideal: u128) -> (widths: Vec<u32>)
    requires
        forall|i: int| 0 <= i < rules@.len() ==> rules@[i].wf(),
        total_ideal as int == sum_ideal(rules@),
        sum_ideal(rules@) < target,
        rules@.len() > 0,
    ensures
        widths@.len() == rules@.len(),
        sum_u32(widths@) == target as int,
        forall|i: int| 0 <= i < widths@.len() ==> #[trigger] widths@[i] >= rules@[i].ideal,
        forall|i: int|
            0 <= i < widths@.len() && rules@[i].stretch.rank() < max_rank(rules@)
                ==> #[trigger] widths@[i] == rules@[i].ideal,
        forall|i: int|
            0 <= i < widths@.len() ==> #[trigger] widths@[i] as int == rules@[i].ideal + extra_of(
                rules@,
                max_rank(rules@),
                last_of_rank(rules@, max_rank(rules@)),
                stretch_state(
                    rules@,
                    max_rank(rules@),
                    last_of_rank(rules@, max_rank(rules@)),
                    target - sum_ideal(rules@),
                    i,
                ).0,
                stretch_state(
                    rules@,
                    max_rank(rules@),
                    last_of_rank(rules@, max_rank(rules@)),
                    target - sum_ideal(rules@),
                    i,
                ).1,
                i,
            ),
{
    let ghost s = rules@;
    let n = rules.len();
    // The slack fits in u32 because the sum of ideals is below `target`.
    let slack: u32 = (target as u128 - total_ideal) as u32;

    // Find the highest stretch priority and its last occupant.
    let mut best: u8 = rules[0].stretch.priority();
    let mut last: usize = 0;
    proof {
        assert(s.take(1).drop_last() =~= Seq::<SizeRules>::empty());
        assert(max_rank(Seq::<SizeRules>::empty()) == 0);
        assert(s.take(1).last() == s[0]);
    }
    let mut i: usize = 1;
    while i < n
        invariant
            1 <= i <= n,
            n == s.len(),
            s == rules@,
            0 <= last < i,
            best as int == max_rank(s.take(i as int)),
            s[last as int].stretch.rank() == best as int,
            forall|k: int| last < k < i ==> s[k].stretch.rank() < best as int,
        decreases n - i,
    {
        proof {
            lemma_take_step(s, i as int, 0);
        }
        let p = rules[i].stretch.priority();
        if p >= best {
            best = p;
            last = i;
        }
        i = i + 1;
    }
    proof {
        lemma_take_all(s);
    }
    let ghost rstar = best as int;
    proof {
        lemma_last_of_rank(s);
        let lo = last_of_rank(s, rstar);
        if (last as int) < lo {
            assert(s[lo].stretch.rank() < rstar);
            assert(false);
        }
        if lo < last as int {
            assert(s[last as int].stretch.rank() < rstar);
            assert(false);
        }
    }

    // The ideals within the winning tier, for proportional sharing.
    let mut tier_total: u32 = 0;
    let mut j: usize = 0;
    while j < n
        invariant
            0 <= j <= n,
            n == s.len(),
            s == rules@,
            forall|q: int| 0 <= q < s.len() ==> s[q].wf(),
            sum_ideal(s) < target,
            rstar == best as int,
            tier_total as int == tier_ideal(s.take(j as int), rstar),
        decreases n - j,
    {
        proof {
            lemma_take_step(s, j as int, rstar);
            lemma_prefix_bounds(s, j as int + 1, rstar);
            lemma_tier_le_sum(s.take(j as int + 1), rstar);
            lemma_sums_nonneg(s.take(j as int), rstar);
        }
        if rules[j].stretch.priority() == best {
            tier_total = tier_total + rules[j].ideal;
        }
        j = j + 1;
    }
    proof {
        lemma_take_all(s);
    }

    // Assign: ideals everywhere, plus a proportional share of the slack
    // inside the winning tier.
    let mut widths: Vec<u32> = Vec::new();
    let mut slack_rem: u32 = slack;
    let mut tier_rem: u32 = tier_total;
    let mut k: usize = 0;
    while k < n
        invariant
            0 <= k <= n,
            n == s.len(),
            s == rules@,
            forall|q: int| 0 <= q < s.len() ==> s[q].wf(),
            sum_ideal(s) < target <= u32::MAX,
            rstar == max_rank(s),
            rstar == best as int,
            0 <= last < n,
            s[last as int].stretch.rank() == rstar,
            forall|q: int| last < q < s.len() ==> s[q].stretch.rank() < rstar,
            slack == target - sum_ideal(s),
            widths@.len() == k,
            last as int == last_of_rank(s, rstar),
            tier_rem as int == tier_ideal(s, rstar) - tier_ideal(s.take(k as int), rstar),
            (slack_rem as int, tier_rem as int) == stretch_state(
                s,
                rstar,
                last as int,
                slack as int,
                k as int,
            ),
            forall|q: int|
                0 <= q < k ==> #[trigger] widths@[q] as int == s[q].ideal + extra_of(
                    s,
                    rstar,
                    last as int,
                    stretch_state(s, rstar, last as int, slack as int, q).0,
                    stretch_state(s, rstar, last as int, slack as int, q).1,
                    q,
                ),
            sum_u32(widths@) == sum_ideal(s.take(k as int)) + (slack - slack_rem),
            slack_rem <= slack,
            k > last ==> slack_rem == 0,
            forall|q: int| 0 <= q < k ==> #[trigger] widths@[q] >= s[q].ideal,
            forall|q: int|
                0 <= q < k && s[q].stretch.rank() < rstar ==> #[trigger] widths@[q] == s[q].ideal,
        decreases n - k,
    {
        proof {
            lemma_take_step(s, k as int, rstar);
            lemma_prefix_bounds(s, k as int + 1, rstar);
            lemma_sums_nonneg(s, rstar);
            lemma_sums_nonneg(s.take(k as int), rstar);
            lemma_tier_le_sum(s, rstar);
        }
        let extra: u32 = if rules[k].stretch.priority() == best {
            if k == last {
                slack_rem
            } else if tier_rem > 0 {
                proof {
                    assert(s[k as int].ideal <= tier_rem);
                    assert(slack_rem as int * s[k as int].ideal as int
                        <= u32::MAX as int * u32::MAX as int) by (nonlinear_arith)
                        requires
                            0 <= slack_rem <= u32::MAX,
                            0 <= s[k as int].ideal <= u32::MAX,
                    ;
                }
                let num: u64 = slack_rem as u64 * rules[k].ideal as u64;
                let e64: u64 = num / (tier_rem as u64);
                proof {
                    lemma_mul_div_le(slack_rem as int, s[k as int].ideal as int, tier_rem as int);
                    assert(e64 <= slack_rem);
                }
                e64 as u32
            } else {
                0
            }
        } else {
            0
        };
        proof {
            // The assigned width stays within range: the child's ideal is
            // part of the ideal sum and the extra part of the slack.
            assert(extra <= slack_rem);
            assert(s[k as int].ideal + extra <= target);
        }
        let w: u32 = rules[k].ideal + extra;
        proof {
            lemma_sum_u32_push(widths@, w);
        }
        widths.push(w);
        slack_rem = slack_rem - extra;
        if rules[k].stretch.priority() == best {
            tier_rem = tier_rem - rules[k].ideal;
        }
        k = k + 1;
    }
    proof {
        lemma_take_all(s);
    }
    widths
}

/// Every stretch tier's ideals are part of the overall ideal sum.
proof fn lemma_tier_le_sum(s: Seq<SizeRules>, r: int)
    ensures
        tier_ideal(s, r) <= sum_ideal(s),
    decreases s.len(),
{
    if s.len() > 0 {
        lemma_tier_le_sum(s.drop_last(), r);
        lemma_sums_nonneg(s.drop_last(), r);
    }
}

/// A proportional share never exceeds the whole: `a * b / c <= a` when
/// `b <= c`.
proof fn lemma_mul_div_le(a: int, b: int, c: int)
    requires
        a >= 0,
        0 <= b <= c,
        c > 0,
    ensures
        a * b / c <= a,
        a * b / c >= 0,
{
    assert(a * b <= a * c) by (nonlinear_arith)
        requires
            a >= 0,
            b <= c,
    ;
    assert(a * b / c <= a * c / c) by (nonlinear_arith)
        requires
            a * b <= a * c,
            c > 0,
    ;
    assert(a * c / c == a) by (nonlinear_arith)
        requires
            c > 0,
    ;
    assert(a * b >= 0) by (nonlinear_arith)
        requires
            a >= 0,
            b >= 0,
    ;
}


/// Validity of a whole constraint sequence.
pub open spec fn all_wf(s: Seq<SizeRules>) -> bool {
    forall|i: int| 0 <= i < s.len() ==> s[i].wf()
}

/// Clamp an unbounded sum into `u32`.
pub open spec fn clamp_u32(x: int) -> u32 {
    if x >= u32::MAX {
        u32::MAX
    } else if x <= 0 {
        0
    } else {
        x as u32
    }
}

/// The space left for children once the collapsed inter-child gaps are
/// taken out of the container's size.
pub open spec fn line_avail(s: Seq<SizeRules>, size: u32) -> u32 {
    if sum_gaps(s) >= size {
        0
    } else {
        (size - sum_gaps(s)) as u32
    }
}

/// The component of a rectangle's size along the chosen axis.
pub open spec fn axis_size_of(rect: Rect, vertical: bool) -> u32 {
    if vertical {
        rect.size.h
    } else {
        rect.size.w
    }
}

/// A correct distribution of one axis of a container over its
/// children: what [`distribute_sizes`] guarantees for the space that
/// remains after the collapsed gaps.
///
/// Below the sum of minima every child is clamped to its minimum;
/// between the sums of minima and ideals every unit is assigned within
/// the children's bounds; above the sum of ideals all slack goes to the
/// children of the highest stretch priority present; and at exactly the
/// combined ideal every child receives its ideal.
pub open spec fn dist_ok(s: Seq<SizeRules>, size: u32, ws: Seq<u32>) -> bool {
    let avail = line_avail(s, size);
    &&& ws.len() == s.len()
    &&& (avail <= sum_min(s) ==> forall|i: int| 0 <= i < ws.len() ==> #[trigger] ws[i] == s[i].min)
    &&& (sum_min(s) <= avail <= sum_ideal(s) ==> sum_u32(ws) == avail as int && forall|i: int|
        0 <= i < ws.len() ==> s[i].min <= #[trigger] ws[i] <= s[i].ideal)
    &&& (s.len() > 0 && sum_ideal(s) <= avail ==> sum_u32(ws) == avail as int && (forall|i: int|
        0 <= i < ws.len() ==> #[trigger] ws[i] >= s[i].ideal) && (forall|i: int|
        0 <= i < ws.len() && s[i].stretch.rank() < max_rank(s) ==> #[trigger] ws[i] == s[i].ideal))
    &&& (size as int == sum_ideal(s) + sum_gaps(s) ==> forall|i: int|
        0 <= i < ws.len() ==> #[trigger] ws[i] == s[i].ideal)
}

/// The rectangle of child `i` in a row or column layout, given the
/// container rectangle, the stored constraints and the distributed
/// widths: positioned after the widths and gaps before it, filling the
/// container on the cross axis.
pub open spec fn line_rect(rect: Rect, vertical: bool, s: Seq<SizeRules>, ws: Seq<u32>, i: int)
    -> Rect {
    let pos_axis = if vertical {
        rect.pos.y as int
    } else {
        rect.pos.x as int
    };
    let off = pos_axis + sum_u32(ws.take(i)) + sum_gaps(s.take(i + 1));
    if vertical {
        Rect {
            pos: Coord { x: rect.pos.x, y: off as i32 },
            size: Size { w: rect.size.w, h: ws[i] },
        }
    } else {
        Rect {
            pos: Coord { x: off as i32, y: rect.pos.y },
            size: Size { w: ws[i], h: rect.size.h },
        }
    }
}

/// The combined constraint of a row of children, as a spec value: the
/// sizes sum together with the collapsed inter-child gaps, the outer
/// margins survive, and the highest stretch priority wins.
pub open spec fn row_total_spec(s: Seq<SizeRules>) -> SizeRules {
    SizeRules {
        min: clamp_u32(sum_min(s) + sum_gaps(s)),
        ideal: clamp_u32(sum_ideal(s) + sum_gaps(s)),
        margins: if s.len() == 0 {
            (0u16, 0u16)
        } else {
            (s[0].margins.0, s.last().margins.1)
        },
        stretch: appended_all_spec(s).stretch,
    }
}

/// Compute the combined constraint of a row of children.
#[verifier::loop_isolation(false)]
pub fn row_total(rules: &Vec<SizeRules>) -> (r: SizeRules)
    requires
        all_wf(rules@),
    ensures
        r == row_total_spec(rules@),
        r.wf(),
{
    let ghost s = rules@;
    let n = rules.len();
    if n == 0 {
        let r = SizeRules::empty();
        proof {
            assert(r == row_total_spec(s));
        }
        return r;
    }
    let mut msum: u128 = 0;
    let mut isum: u128 = 0;
    let mut gsum: u128 = 0;
    let mut stretch: Stretch = Stretch::Fixed;
    let mut i: usize = 0;
    while i < n
        invariant
            0 <= i <= n,
            msum as int == sum_min(s.take(i as int)),
            isum as int == sum_ideal(s.take(i as int)),
            gsum as int == sum_gaps(s.take(i as int)),
            msum <= i as u128 * (u32::MAX as u128),
            isum <= i as u128 * (u32::MAX as u128),
            gsum <= i as u128 * (u16::MAX as u128),
            i == 0 ==> stretch == Stretch::Fixed,
            i >= 1 ==> stretch == appended_all_spec(s.take(i as int)).stretch,
        decreases n - i,
    {
        proof {
            lemma_take_step(s, i as int, 0);
            assert(s.take(i as int + 1).drop_last() =~= s.take(i as int));
            assert(s.take(i as int + 1).last() == s[i as int]);
        }
        msum = msum + rules[i].min as u128;
        isum = isum + rules[i].ideal as u128;
        if i > 0 {
            gsum = gsum + margin_between(&rules[i - 1], &rules[i]) as u128;
        }
        stretch = stretch.max_with(rules[i].stretch);
        proof {
            if i == 0 {
                assert(s.take(1).len() == 1);
                assert(appended_all_spec(s.take(1)) == s.take(1)[0]);
            }
        }
        i = i + 1;
    }
    proof {
        lemma_take_all(s);
    }
    let tmin: u128 = msum + gsum;
    let tideal: u128 = isum + gsum;
    let min: u32 = if tmin >= u32::MAX as u128 {
        u32::MAX
    } else {
        tmin as u32
    };
    let ideal: u32 = if tideal >= u32::MAX as u128 {
        u32::MAX
    } else {
        tideal as u32
    };
    proof {
        lemma_min_le_ideal(s);
        lemma_sums_nonneg(s, 0);
    }
    SizeRules { min, ideal, margins: (rules[0].margins.0, rules[n - 1].margins.1), stretch }
}

/// Storage of a row or column layout: the per-child constraints the
/// solve pass collected, read back by the matching setter.
#[derive(Clone, Debug)]
pub struct RowStorage {
    /// One constraint per child, in positional order
    pub rules: Vec<SizeRules>,
}

impl Storage for RowStorage {

}

impl RowStorage {
    /// Empty storage.
    pub fn new() -> (r: RowStorage)
        ensures
            r.rules@ == Seq::<SizeRules>::empty(),
    {
        RowStorage { rules: Vec::new() }
    }
}

/// Solver for row and column layouts: children are fed strictly in
/// positional order (left to right, or top to bottom) and combined
/// sequentially with collapsed margins between neighbours.
pub struct RowSolver {
    _priv: (),
}

impl RowSolver {
    /// Start solving a row: clears the storage for this pass.
    pub fn new(storage: &mut RowStorage) -> (r: RowSolver)
        ensures
            final(storage).rules@ == Seq::<SizeRules>::empty(),
            r.valid(*final(storage)),
    {
        storage.rules = Vec::new();
        RowSolver { _priv: () }
    }
}

impl RulesSolver for RowSolver {
    type Storage = RowStorage;

    type ChildInfo = ();

    open spec fn valid(&self, storage: RowStorage) -> bool {
        all_wf(storage.rules@)
    }

    open spec fn accepts(&self, storage: RowStorage, info: ()) -> bool {
        true
    }

    fn for_child(&mut self, storage: &mut RowStorage, info: (), rules: SizeRules)
        ensures
            final(storage).rules@ == old(storage).rules@.push(rules),
            *final(self) == *old(self),
    {
        storage.rules.push(rules);
    }

    fn finish(self, storage: &mut RowStorage) -> (r: SizeRules)
        ensures
            r == row_total_spec(old(storage).rules@),
            *final(storage) == *old(storage),
    {
        row_total(&storage.rules)
    }
}

/// One step of a width prefix sum, by index.
proof fn lemma_u32_take_step(s: Seq<u32>, i: int)
    requires
        0 <= i < s.len(),
    ensures
        sum_u32(s.take(i + 1)) == sum_u32(s.take(i)) + s[i],
{
    assert(s.take(i + 1).drop_last() =~= s.take(i));
    assert(s.take(i + 1).last() == s[i]);
}

/// Width sums are non-negative.
proof fn lemma_u32_nonneg(s: Seq<u32>)
    ensures
        sum_u32(s) >= 0,
    decreases s.len(),
{
    if s.len() > 0 {
        lemma_u32_nonneg(s.drop_last());
    }
}

/// Width prefix sums are non-negative and never exceed the whole.
proof fn lemma_u32_prefix(s: Seq<u32>, i: int)
    requires
        0 <= i <= s.len(),
    ensures
        0 <= sum_u32(s.take(i)) <= sum_u32(s),
    decreases s.len() - i,
{
    lemma_u32_nonneg(s.take(i));
    if i == s.len() {
        assert(s.take(i) =~= s);
    } else {
        lemma_u32_take_step(s, i);
        lemma_u32_prefix(s, i + 1);
    }
}

/// Lay a line of children out along one axis: distribute the available
/// space (the axis size less the collapsed gaps) into per-child widths,
/// and derive each child's position.
///
/// Positions are exact: child `i` starts at `pos` plus the widths and
/// gaps before it.
#[verifier::loop_isolation(false)]
fn line_layout(rules: &Vec<SizeRules>, pos: i32, size: u32) -> (r: (Vec<u32>, Vec<i32>))
    requires
        all_wf(rules@),
        0 <= pos,
        pos + size <= i32::MAX,
        pos + sum_min(rules@) + sum_gaps(rules@) <= i32::MAX,
    ensures
        r.0@.len() == rules@.len(),
        r.1@.len() == rules@.len(),
        forall|i: int| 0 <= i < r.0@.len() ==> #[trigger] r.0@[i] <= i32::MAX,
        forall|i: int|
            0 <= i < r.1@.len() ==> #[trigger] r.1@[i] as int == pos + sum_u32(r.0@.take(i))
                + sum_gaps(rules@.take(i + 1)),
        forall|i: int|
            0 <= i < r.1@.len() ==> pos <= #[trigger] r.1@[i] && r.1@[i] + r.0@[i] <= i32::MAX,
        line_avail(rules@, size) <= sum_min(rules@) ==> forall|i: int|
            0 <= i < r.0@.len() ==> #[trigger] r.0@[i] == rules@[i].min,
        sum_min(rules@) <= line_avail(rules@, size) <= sum_ideal(rules@) ==> sum_u32(r.0@)
            == line_avail(rules@, size) as int && forall|i: int|
            0 <= i < r.0@.len() ==> rules@[i].min <= #[trigger] r.0@[i] <= rules@[i].ideal,
        rules@.len() > 0 && sum_ideal(rules@) <= line_avail(rules@, size) ==> sum_u32(r.0@)
            == line_avail(rules@, size) as int && (forall|i: int|
            0 <= i < r.0@.len() ==> #[trigger] r.0@[i] >= rules@[i].ideal) && (forall|i: int|
            0 <= i < r.0@.len() && rules@[i].stretch.rank() < max_rank(rules@)
                ==> #[trigger] r.0@[i] == rules@[i].ideal),
        size as int == sum_ideal(rules@) + sum_gaps(rules@) ==> forall|i: int|
            0 <= i < r.0@.len() ==> #[trigger] r.0@[i] == rules@[i].ideal,
        dist_ok(rules@, size, r.0@),
{
    let ghost s = rules@;
    let n = rules.len();
    proof {
        lemma_sums_nonneg(s, 0);
        lemma_min_le_ideal(s);
    }

    // Space for the children themselves, after the fixed gaps.
    let gaps = sum_gaps_exec(rules);
    let avail: u32 = if gaps >= size as u128 {
        0
    } else {
        size - gaps as u32
    };
    proof {
        assert(avail == line_avail(s, size));
    }

    let widths = distribute_sizes(rules, avail);
    proof {
        if size as int == sum_ideal(s) + sum_gaps(s) {
            lemma_sum_pointwise(widths@, s);
        }
        // The widths total at most the larger of the minima sum and the
        // available space, so every position fits in range.
        if avail as int <= sum_min(s) {
            lemma_sum_bound(widths@, s);
        }
        assert(sum_u32(widths@) + sum_gaps(s) + pos <= i32::MAX);
    }

    let mut offsets: Vec<i32> = Vec::new();
    let mut cur: i64 = pos as i64;
    let mut i: usize = 0;
    while i < n
        invariant
            0 <= i <= n,
            offsets@.len() == i,
            widths@.len() == n,
            forall|k: int|
                0 <= k < i ==> #[trigger] offsets@[k] as int == pos + sum_u32(widths@.take(k))
                    + sum_gaps(s.take(k + 1)),
            forall|k: int| 0 <= k < i ==> pos <= #[trigger] offsets@[k],
            cur as int == pos + sum_u32(widths@.take(i as int)) + sum_gaps(s.take(i as int)),
        decreases n - i,
    {
        proof {
            lemma_take_step(s, i as int, 0);
            lemma_u32_take_step(widths@, i as int);
            lemma_u32_prefix(widths@, i as int);
            lemma_u32_prefix(widths@, i as int + 1);
            lemma_prefix_bounds(s, i as int + 1, 0);
            lemma_sums_nonneg(s.take(i as int), 0);
            crate::layout::size_rules::lemma_sum_min_nonneg(s.take(i as int + 1));
            crate::layout::size_rules::lemma_sum_min_nonneg(s.take(i as int));
        }
        let off: i64 = if i > 0 {
            cur + margin_between(&rules[i - 1], &rules[i]) as i64
        } else {
            cur
        };
        offsets.push(off as i32);
        cur = off + widths[i] as i64;
        i = i + 1;
    }
    proof {
        lemma_take_all(s);
        assert forall|k: int|
            0 <= k < offsets@.len() implies pos <= #[trigger] offsets@[k] && offsets@[k]
            + widths@[k] <= i32::MAX by {
            lemma_u32_take_step(widths@, k);
            lemma_u32_prefix(widths@, k + 1);
            lemma_prefix_bounds(s, k + 1, 0);
        }
        assert forall|k: int| 0 <= k < widths@.len() implies #[trigger] widths@[k]
            <= i32::MAX by {
            lemma_u32_take_step(widths@, k);
            lemma_u32_prefix(widths@, k);
            lemma_u32_prefix(widths@, k + 1);
            crate::layout::size_rules::lemma_sum_min_nonneg(s);
        }
    }
    (widths, offsets)
}

/// Sum of the collapsed inter-child gaps, exactly.
#[verifier::loop_isolation(false)]
pub fn sum_gaps_exec(rules: &Vec<SizeRules>) -> (r: u128)
    ensures
        r as int == sum_gaps(rules@),
{
    let ghost s = rules@;
    let n = rules.len();
    let mut acc: u128 = 0;
    let mut i: usize = 0;
    while i < n
        invariant
            0 <= i <= n,
            acc as int == sum_gaps(s.take(i as int)),
            acc <= i as u128 * (u16::MAX as u128),
        decreases n - i,
    {
        proof {
            lemma_take_step(s, i as int, 0);
        }
        if i > 0 {
            acc = acc + margin_between(&rules[i - 1], &rules[i]) as u128;
        }
        i = i + 1;
    }
    proof {
        lemma_take_all(s);
    }
    acc
}

/// Setter for row and column layouts: distributes the container's
/// rectangle over the children using exactly the constraints stored by
/// the matching [`RowSolver`] pass.
#[derive(Clone, Debug)]
pub struct RowSetter {
    widths: Vec<u32>,
    offsets: Vec<i32>,
    rect: Rect,
    vertical: bool,
}

impl RowSetter {
    /// The per-child sizes along the solved axis.
    pub closed spec fn widths_spec(&self) -> Seq<u32> {
        self.widths@
    }

    /// The per-child positions along the solved axis.
    pub closed spec fn offsets_spec(&self) -> Seq<i32> {
        self.offsets@
    }

    /// The container rectangle being distributed.
    pub closed spec fn rect_spec(&self) -> Rect {
        self.rect
    }

    /// Whether the solved axis is vertical.
    pub closed spec fn vertical_spec(&self) -> bool {
        self.vertical
    }

    /// Construct a setter for the given container rectangle and the
    /// storage filled by the matching solve pass.
    ///
    /// When the rectangle's size on the solved axis equals the combined
    /// ideal of the children, every child receives exactly its ideal
    /// size: solving and then setting at the ideal size round-trips.
    pub fn new(rect: Rect, vertical: bool, storage: &RowStorage) -> (r: RowSetter)
        requires
            all_wf(storage.rules@),
            rect.wf(),
            (if vertical {
                rect.pos.y
            } else {
                rect.pos.x
            }) + sum_min(storage.rules@) + sum_gaps(storage.rules@) <= i32::MAX,
        ensures
            r.setter_wf(),
            r.rect_spec() == rect,
            r.vertical_spec() == vertical,
            r.widths_spec().len() == storage.rules@.len(),
            ({
                let s = storage.rules@;
                let size = if vertical {
                    rect.size.h
                } else {
                    rect.size.w
                };
                let avail = line_avail(s, size);
                let w = r.widths_spec();
                &&& (forall|i: int|
                    0 <= i < r.offsets_spec().len()
                        ==> #[trigger] r.offsets_spec()[i] as int == (if vertical {
                        rect.pos.y
                    } else {
                        rect.pos.x
                    }) + sum_u32(w.take(i)) + sum_gaps(s.take(i + 1)))
                &&& (avail <= sum_min(s) ==> forall|i: int|
                    0 <= i < w.len() ==> #[trigger] w[i] == s[i].min)
                &&& (sum_min(s) <= avail <= sum_ideal(s) ==> sum_u32(w) == avail as int
                    && forall|i: int| 0 <= i < w.len() ==> s[i].min <= #[trigger] w[i] <= s[i].ideal)
                &&& (s.len() > 0 && sum_ideal(s) <= avail ==> sum_u32(w) == avail as int && (
                forall|i: int| 0 <= i < w.len() ==> #[trigger] w[i] >= s[i].ideal) && (forall|i: int|
                    0 <= i < w.len() && s[i].stretch.rank() < max_rank(s)
                        ==> #[trigger] w[i] == s[i].ideal))
                &&& (size as int == sum_ideal(s) + sum_gaps(s) ==> forall|i: int|
                    0 <= i < w.len() ==> #[trigger] w[i] == s[i].ideal)
                &&& dist_ok(s, size, w)
            }),
    {
        let pos: i32 = if vertical {
            rect.pos.y
        } else {
            rect.pos.x
        };
        let size: u32 = if vertical {
            rect.size.h
        } else {
            rect.size.w
        };
        let (widths, offsets) = line_layout(&storage.rules, pos, size);
        RowSetter { widths, offsets, rect, vertical }
    }

    /// Number of children this setter serves.
    pub fn len(&self) -> (r: usize)
        ensures
            r == self.widths_spec().len(),
    {
        self.widths.len()
    }
}

impl RulesSetter for RowSetter {
    type Storage = RowStorage;

    type ChildInfo = usize;

    open spec fn setter_wf(&self) -> bool {
        &&& self.widths_spec().len() == self.offsets_spec().len()
        &&& self.rect_spec().wf()
        &&& forall|i: int|
            0 <= i < self.offsets_spec().len() ==> (if self.vertical_spec() {
                self.rect_spec().pos.y
            } else {
                self.rect_spec().pos.x
            }) <= #[trigger] self.offsets_spec()[i] && self.offsets_spec()[i]
                + self.widths_spec()[i] <= i32::MAX
        &&& forall|i: int| 0 <= i < self.widths_spec().len() ==> #[trigger] self.widths_spec()[i]
            <= i32::MAX
    }

    open spec fn accepts(&self, info: usize) -> bool {
        info < self.widths_spec().len()
    }

    /// The rectangle of child `info`: positioned at the child's offset
    /// along the solved axis, filling the container on the other axis.
    fn child_rect(&mut self, info: usize) -> (r: Rect)
        ensures
            r == (if old(self).vertical_spec() {
                Rect {
                    pos: Coord {
                        x: old(self).rect_spec().pos.x,
                        y: old(self).offsets_spec()[info as int],
                    },
                    size: Size {
                        w: old(self).rect_spec().size.w,
                        h: old(self).widths_spec()[info as int],
                    },
                }
            } else {
                Rect {
                    pos: Coord {
                        x: old(self).offsets_spec()[info as int],
                        y: old(self).rect_spec().pos.y,
                    },
                    size: Size {
                        w: old(self).widths_spec()[info as int],
                        h: old(self).rect_spec().size.h,
                    },
                }
            }),
            r.wf(),
    {
        if self.vertical {
            Rect {
                pos: Coord { x: self.rect.pos.x, y: self.offsets[info] },
                size: Size { w: self.rect.size.w, h: self.widths[info] },
            }
        } else {
            Rect {
                pos: Coord { x: self.offsets[info], y: self.rect.pos.y },
                size: Size { w: self.widths[info], h: self.rect.size.h },
            }
        }
    }
}


/// Identification of a grid cell: the column and row ranges it spans.
///
/// A cell occupying a single column has `col_end == col + 1`; a
/// spanning cell covers `[col, col_end)`, and likewise for rows.
#[derive(Clone, Copy, Debug, PartialEq, Eq, Structural)]
pub struct GridChildInfo {
    /// First column occupied
    pub col: usize,
    /// One past the last column occupied
    pub col_end: usize,
    /// First row occupied
    pub row: usize,
    /// One past the last row occupied
    pub row_end: usize,
}

/// Storage of a grid layout along one axis: one combined constraint per
/// line (column or row), persisted from the solve pass to the set pass.
#[derive(Clone, Debug)]
pub struct GridStorage {
    /// One constraint per line
    pub lines: Vec<SizeRules>,
}

impl Storage for GridStorage {

}

impl GridStorage {
    /// Empty storage.
    pub fn new() -> (r: GridStorage)
        ensures
            r.lines@ == Seq::<SizeRules>::empty(),
    {
        GridStorage { lines: Vec::new() }
    }
}

/// Sums of a sequence change only at an updated position, and the gaps
/// not at all when the margins are kept.
proof fn lemma_update_sums(s: Seq<SizeRules>, i: int, v: SizeRules)
    requires
        0 <= i < s.len(),
    ensures
        sum_min(s.update(i, v)) == sum_min(s) - s[i].min + v.min,
        sum_ideal(s.update(i, v)) == sum_ideal(s) - s[i].ideal + v.ideal,
        v.margins == s[i].margins ==> sum_gaps(s.update(i, v)) == sum_gaps(s),
    decreases s.len(),
{
    let t = s.update(i, v);
    if i == s.len() - 1 {
        assert(t.drop_last() =~= s.drop_last());
        assert(t.last() == v);
        if s.len() >= 2 {
            assert(t[s.len() - 2] == s[s.len() - 2]);
        }
    } else {
        assert(t.drop_last() =~= s.drop_last().update(i, v));
        assert(t.last() == s.last());
        lemma_update_sums(s.drop_last(), i, v);
        if s.len() >= 2 {
            if i == s.len() - 2 {
                assert(t[s.len() - 2] == v);
            } else {
                assert(t[s.len() - 2] == s[s.len() - 2]);
            }
        }
    }
}

/// Widening lines pointwise (same margins) only widens a row total.
proof fn lemma_row_monotone(s1: Seq<SizeRules>, s2: Seq<SizeRules>)
    requires
        s1.len() == s2.len(),
        forall|i: int|
            0 <= i < s1.len() ==> (#[trigger] s2[i]).min >= s1[i].min && s2[i].ideal >= s1[i].ideal
                && s2[i].margins == s1[i].margins,
    ensures
        sum_min(s2) >= sum_min(s1),
        sum_ideal(s2) >= sum_ideal(s1),
        sum_gaps(s2) == sum_gaps(s1),
        row_total_spec(s2).min >= row_total_spec(s1).min,
        row_total_spec(s2).ideal >= row_total_spec(s1).ideal,
    decreases s1.len(),
{
    if s1.len() > 0 {
        assert forall|i: int|
            0 <= i < s1.len() - 1 implies (#[trigger] s2.drop_last()[i]).min
            >= s1.drop_last()[i].min && s2.drop_last()[i].ideal >= s1.drop_last()[i].ideal
            && s2.drop_last()[i].margins == s1.drop_last()[i].margins by {
            assert(s2.drop_last()[i] == s2[i]);
            assert(s1.drop_last()[i] == s1[i]);
        }
        lemma_row_monotone(s1.drop_last(), s2.drop_last());
        assert(s2[s1.len() - 1].min >= s1[s1.len() - 1].min);
        if s1.len() >= 2 {
            assert(s2[s1.len() - 2].margins == s1[s1.len() - 2].margins);
        }
    }
}

/// Solver for grid layouts along one axis.
///
/// Cells are fed in any order. A cell occupying a single line
/// contributes to that line's parallel maximum at once; a spanning cell
/// is recorded and applied in `finish`: if the combined total of its
/// spanned lines is below the cell's own constraint, the last spanned
/// line is widened until the span is satisfied.
pub struct GridSolver {
    /// Whether the vertical axis is being solved
    vertical: bool,
    /// Spanning cells, as `(first line, one past last, constraint)`
    spans: Vec<(usize, usize, SizeRules)>,
}

impl GridSolver {
    /// Which axis the solver works on.
    pub closed spec fn vertical_spec(&self) -> bool {
        self.vertical
    }

    /// The spanning cells recorded so far.
    pub closed spec fn spans_spec(&self) -> Seq<(usize, usize, SizeRules)> {
        self.spans@
    }

    /// Start solving a grid axis with `n` lines: resets the storage to
    /// `n` empty line constraints.
    pub fn new(vertical: bool, n: usize, storage: &mut GridStorage) -> (r: GridSolver)
        ensures
            r.valid(*final(storage)),
            r.vertical_spec() == vertical,
            r.spans_spec() == Seq::<(usize, usize, SizeRules)>::empty(),
            final(storage).lines@.len() == n,
            forall|i: int|
                0 <= i < n ==> #[trigger] final(storage).lines@[i] == SizeRules::empty_spec(),
    {
        let mut lines: Vec<SizeRules> = Vec::new();
        let mut i: usize = 0;
        while i < n
            invariant
                0 <= i <= n,
                lines@.len() == i,
                forall|k: int| 0 <= k < i ==> #[trigger] lines@[k] == SizeRules::empty_spec(),
            decreases n - i,
        {
            lines.push(SizeRules::empty());
            i = i + 1;
        }
        storage.lines = lines;
        GridSolver { vertical, spans: Vec::new() }
    }
}

impl RulesSolver for GridSolver {
    type Storage = GridStorage;

    type ChildInfo = GridChildInfo;

    open spec fn valid(&self, storage: GridStorage) -> bool {
        &&& all_wf(storage.lines@)
        &&& forall|k: int|
            0 <= k < self.spans_spec().len() ==> (#[trigger] self.spans_spec()[k]).0
                < self.spans_spec()[k].1 <= storage.lines@.len() && self.spans_spec()[k].2.wf()
    }

    open spec fn accepts(&self, storage: GridStorage, info: GridChildInfo) -> bool {
        if self.vertical_spec() {
            info.row < info.row_end <= storage.lines@.len()
        } else {
            info.col < info.col_end <= storage.lines@.len()
        }
    }

    fn for_child(&mut self, storage: &mut GridStorage, info: GridChildInfo, rules: SizeRules)
        ensures
            final(self).vertical_spec() == old(self).vertical_spec(),
            ({
                let a = if old(self).vertical_spec() {
                    info.row
                } else {
                    info.col
                };
                let b = if old(self).vertical_spec() {
                    info.row_end
                } else {
                    info.col_end
                };
                if b == a + 1 {
                    &&& final(storage).lines@ == old(storage).lines@.update(
                        a as int,
                        old(storage).lines@[a as int].max_with_spec(rules),
                    )
                    &&& final(self).spans_spec() == old(self).spans_spec()
                } else {
                    &&& final(storage).lines@ == old(storage).lines@
                    &&& final(self).spans_spec() == old(self).spans_spec().push((a, b, rules))
                }
            }),
    {
        let (a, b) = if self.vertical {
            (info.row, info.row_end)
        } else {
            (info.col, info.col_end)
        };
        if b == a + 1 {
            let cur = storage.lines[a];
            storage.lines[a] = cur.max_with(rules);
        } else {
            self.spans.push((a, b, rules));
        }
    }

    /// Apply the recorded spans, then combine the lines sequentially.
    ///
    /// Every spanning cell is satisfied: the combined total of its
    /// spanned lines is clamped upward to at least the cell's own
    /// minimum, never silently truncated. Lines only widen; their
    /// margins are untouched, and without spans they are unchanged.
    fn finish(self, storage: &mut GridStorage) -> (r: SizeRules)
        ensures
            r == row_total_spec(final(storage).lines@),
            final(storage).lines@.len() == old(storage).lines@.len(),
            all_wf(final(storage).lines@),
            forall|i: int|
                0 <= i < final(storage).lines@.len() ==> line_widened(
                    old(storage).lines@[i],
                    #[trigger] final(storage).lines@[i],
                ),
            self.spans_spec().len() == 0 ==> final(storage).lines@ == old(storage).lines@,
            forall|k: int|
                0 <= k < self.spans_spec().len() ==> row_total_spec(
                    final(storage).lines@.subrange(
                        (#[trigger] self.spans_spec()[k]).0 as int,
                        self.spans_spec()[k].1 as int,
                    ),
                ).min >= self.spans_spec()[k].2.min,
    {
        let ghost lines0 = storage.lines@;
        let ghost spans = self.spans@;
        let m = self.spans.len();
        let mut k: usize = 0;
        while k < m
            invariant
                0 <= k <= m,
                m == spans.len(),
                self.spans@ == spans,
                self.valid(*old(storage)),
                old(storage).lines@ == lines0,
                storage.lines@.len() == lines0.len(),
                all_wf(storage.lines@),
                forall|i: int|
                    0 <= i < lines0.len() ==> (#[trigger] storage.lines@[i]).min >= lines0[i].min
                        && storage.lines@[i].ideal >= lines0[i].ideal
                        && storage.lines@[i].margins == lines0[i].margins,
                k == 0 ==> storage.lines@ == lines0,
                forall|q: int|
                    0 <= q < k ==> row_total_spec(
                        storage.lines@.subrange(
                            (#[trigger] spans[q]).0 as int,
                            spans[q].1 as int,
                        ),
                    ).min >= spans[q].2.min,
            decreases m - k,
        {
            let (a, b, req) = self.spans[k];
            proof {
                assert(self.spans_spec()[k as int] == (a, b, req));
                assert(a < b && b <= lines0.len());
            }
            let ghost pre_lines = storage.lines@;

            // Combined total of the spanned lines as they stand.
            let mut sub: Vec<SizeRules> = Vec::new();
            let mut j: usize = a;
            while j < b
                invariant
                    a <= j <= b,
                    b <= storage.lines@.len(),
                    storage.lines@ == pre_lines,
                    all_wf(storage.lines@),
                    sub@ =~= storage.lines@.subrange(a as int, j as int),
                decreases b - j,
            {
                sub.push(storage.lines[j]);
                proof {
                    assert(sub@ =~= storage.lines@.subrange(a as int, j as int + 1));
                }
                j = j + 1;
            }
            let t = row_total(&sub);

            if t.min < req.min {
                let deficit: u32 = req.min - t.min;
                let idx = b - 1;
                let cur = storage.lines[idx];
                let new_min: u32 = cur.min.saturating_add(deficit);
                let new_ideal: u32 = if cur.ideal >= new_min {
                    cur.ideal
                } else {
                    new_min
                };
                let widened = SizeRules {
                    min: new_min,
                    ideal: new_ideal,
                    margins: cur.margins,
                    stretch: cur.stretch,
                };
                storage.lines[idx] = widened;
                proof {
                    lemma_update_sums(pre_lines, idx as int, widened);
                    lemma_span_satisfied(pre_lines, a as int, b as int, widened, req);
                    assert forall|q: int|
                        0 <= q < k implies row_total_spec(
                        storage.lines@.subrange((#[trigger] spans[q]).0 as int, spans[q].1 as int),
                    ).min >= spans[q].2.min by {
                        assert(self.spans_spec()[q] == spans[q]);
                        assert(spans[q].0 < spans[q].1 <= lines0.len());
                        let s1 = pre_lines.subrange(spans[q].0 as int, spans[q].1 as int);
                        let s2 = storage.lines@.subrange(spans[q].0 as int, spans[q].1 as int);
                        assert forall|i: int|
                            0 <= i < s1.len() implies (#[trigger] s2[i]).min >= s1[i].min
                            && s2[i].ideal >= s1[i].ideal && s2[i].margins == s1[i].margins by {
                            assert(s1[i] == pre_lines[spans[q].0 + i]);
                            assert(s2[i] == storage.lines@[spans[q].0 + i]);
                        }
                        lemma_row_monotone(s1, s2);
                    }
                }
            }
            k = k + 1;
        }
        row_total(&storage.lines)
    }
}

/// `b` covers `a`: at least the sizes, with the same margins.
pub open spec fn line_widened(a: SizeRules, b: SizeRules) -> bool {
    &&& b.min >= a.min
    &&& b.ideal >= a.ideal
    &&& b.margins == a.margins
}


/// Setter for grid layouts: distributes the container's rectangle over
/// the grid cells using exactly the per-line constraints stored by the
/// matching [`GridSolver`] passes, one per axis.
#[derive(Clone, Debug)]
pub struct GridSetter {
    col_widths: Vec<u32>,
    col_offsets: Vec<i32>,
    row_heights: Vec<u32>,
    row_offsets: Vec<i32>,
    rect: Rect,
}

impl GridSetter {
    /// The per-column widths.
    pub closed spec fn col_widths_spec(&self) -> Seq<u32> {
        self.col_widths@
    }

    /// The per-column positions.
    pub closed spec fn col_offsets_spec(&self) -> Seq<i32> {
        self.col_offsets@
    }

    /// The per-row heights.
    pub closed spec fn row_heights_spec(&self) -> Seq<u32> {
        self.row_heights@
    }

    /// The per-row positions.
    pub closed spec fn row_offsets_spec(&self) -> Seq<i32> {
        self.row_offsets@
    }

    /// The container rectangle being distributed.
    pub closed spec fn rect_spec(&self) -> Rect {
        self.rect
    }

    /// The rectangle of the cell `info`, as a spec value: from the
    /// first spanned line's position to the end of the last spanned
    /// line, on each axis.
    pub open spec fn cell_rect_spec(&self, info: GridChildInfo) -> Rect {
        let x0 = self.col_offsets_spec()[info.col as int] as int;
        let xe = self.col_offsets_spec()[info.col_end - 1] as int
            + self.col_widths_spec()[info.col_end - 1];
        let y0 = self.row_offsets_spec()[info.row as int] as int;
        let ye = self.row_offsets_spec()[info.row_end - 1] as int
            + self.row_heights_spec()[info.row_end - 1];
        Rect {
            pos: Coord { x: x0 as i32, y: y0 as i32 },
            size: Size {
                w: if xe >= x0 {
                    (xe - x0) as u32
                } else {
                    0
                },
                h: if ye >= y0 {
                    (ye - y0) as u32
                } else {
                    0
                },
            },
        }
    }

    /// Construct a setter for the given container rectangle and the
    /// column and row storages filled by the matching solve passes.
    pub fn new(rect: Rect, cols: &GridStorage, rows: &GridStorage) -> (r: GridSetter)
        requires
            all_wf(cols.lines@),
            all_wf(rows.lines@),
            rect.wf(),
            rect.pos.x + sum_min(cols.lines@) + sum_gaps(cols.lines@) <= i32::MAX,
            rect.pos.y + sum_min(rows.lines@) + sum_gaps(rows.lines@) <= i32::MAX,
        ensures
            r.setter_wf(),
            r.rect_spec() == rect,
            r.col_widths_spec().len() == cols.lines@.len(),
            r.row_heights_spec().len() == rows.lines@.len(),
            dist_ok(cols.lines@, rect.size.w, r.col_widths_spec()),
            dist_ok(rows.lines@, rect.size.h, r.row_heights_spec()),
            forall|i: int|
                0 <= i < r.col_offsets_spec().len() ==> #[trigger] r.col_offsets_spec()[i] as int
                    == rect.pos.x + sum_u32(r.col_widths_spec().take(i)) + sum_gaps(
                    cols.lines@.take(i + 1),
                ),
            forall|i: int|
                0 <= i < r.row_offsets_spec().len() ==> #[trigger] r.row_offsets_spec()[i] as int
                    == rect.pos.y + sum_u32(r.row_heights_spec().take(i)) + sum_gaps(
                    rows.lines@.take(i + 1),
                ),
    {
        let (col_widths, col_offsets) = line_layout(&cols.lines, rect.pos.x, rect.size.w);
        let (row_heights, row_offsets) = line_layout(&rows.lines, rect.pos.y, rect.size.h);
        GridSetter { col_widths, col_offsets, row_heights, row_offsets, rect }
    }
}

impl RulesSetter for GridSetter {
    type Storage = GridStorage;

    type ChildInfo = GridChildInfo;

    open spec fn setter_wf(&self) -> bool {
        &&& self.col_widths_spec().len() == self.col_offsets_spec().len()
        &&& self.row_heights_spec().len() == self.row_offsets_spec().len()
        &&& self.rect_spec().wf()
        &&& forall|i: int|
            0 <= i < self.col_offsets_spec().len() ==> self.rect_spec().pos.x
                <= #[trigger] self.col_offsets_spec()[i] && self.col_offsets_spec()[i]
                + self.col_widths_spec()[i] <= i32::MAX
        &&& forall|i: int|
            0 <= i < self.row_offsets_spec().len() ==> self.rect_spec().pos.y
                <= #[trigger] self.row_offsets_spec()[i] && self.row_offsets_spec()[i]
                + self.row_heights_spec()[i] <= i32::MAX
    }

    open spec fn accepts(&self, info: GridChildInfo) -> bool {
        &&& info.col < info.col_end <= self.col_widths_spec().len()
        &&& info.row < info.row_end <= self.row_heights_spec().len()
    }

    /// The rectangle of the cell `info`, spanning its column and row
    /// ranges.
    fn child_rect(&mut self, info: GridChildInfo) -> (r: Rect)
        ensures
            r == old(self).cell_rect_spec(info),
            r.wf(),
    {
        let x0 = self.col_offsets[info.col];
        let xe: i64 = self.col_offsets[info.col_end - 1] as i64 + self.col_widths[info.col_end
            - 1] as i64;
        let y0 = self.row_offsets[info.row];
        let ye: i64 = self.row_offsets[info.row_end - 1] as i64 + self.row_heights[info.row_end
            - 1] as i64;
        let w: u32 = if xe >= x0 as i64 {
            (xe - x0 as i64) as u32
        } else {
            0
        };
        let h: u32 = if ye >= y0 as i64 {
            (ye - y0 as i64) as u32
        } else {
            0
        };
        Rect { pos: Coord { x: x0, y: y0 }, size: Size { w, h } }
    }
}

/// Widening the last line of a span by the missing amount satisfies the
/// span's minimum.
proof fn lemma_span_satisfied(
    lines: Seq<SizeRules>,
    a: int,
    b: int,
    widened: SizeRules,
    req: SizeRules,
)
    requires
        0 <= a < b <= lines.len(),
        all_wf(lines),
        widened.margins == lines[b - 1].margins,
        widened.min >= lines[b - 1].min,
        widened.ideal >= lines[b - 1].ideal,
        widened.min as int >= if lines[b - 1].min + (req.min
            - row_total_spec(lines.subrange(a, b)).min) <= u32::MAX {
            lines[b - 1].min + (req.min - row_total_spec(lines.subrange(a, b)).min)
        } else {
            u32::MAX as int
        },
        row_total_spec(lines.subrange(a, b)).min < req.min,
    ensures
        row_total_spec(lines.update(b - 1, widened).subrange(a, b)).min >= req.min,
{
    let sub = lines.subrange(a, b);
    let sub2 = lines.update(b - 1, widened).subrange(a, b);
    assert(sub2 =~= sub.update(b - 1 - a, widened));
    lemma_update_sums(sub, b - 1 - a, widened);
    crate::layout::size_rules::lemma_sum_min_nonneg(sub);
    let deficit = req.min - row_total_spec(sub).min;
    if widened.min == u32::MAX {
        lemma_elem_le_sum_min(sub2, b - 1 - a);
    }
}

/// Each element's minimum is at most the sum of minima.
proof fn lemma_elem_le_sum_min(s: Seq<SizeRules>, i: int)
    requires
        0 <= i < s.len(),
    ensures
        s[i].min <= sum_min(s),
    decreases s.len(),
{
    crate::layout::size_rules::lemma_sum_min_nonneg(s.drop_last());
    if i == s.len() - 1 {
    } else {
        lemma_elem_le_sum_min(s.drop_last(), i);
    }
}

/// Round trip of solving and setting: when a row of children is solved
/// and the resulting combined ideal size is then distributed back over
/// the same stored constraints, every child receives exactly its ideal
/// size — no slack-distribution branch is taken.
pub proof fn lemma_round_trip(s: Seq<SizeRules>, ws: Seq<u32>)
    requires
        all_wf(s),
        sum_ideal(s) + sum_gaps(s) <= u32::MAX,
        dist_ok(s, row_total_spec(s).ideal, ws),
    ensures
        forall|i: int| 0 <= i < ws.len() ==> ws[i] == s[i].ideal,
{
    lemma_sums_nonneg(s, 0);
    crate::layout::size_rules::lemma_sum_min_nonneg(s);
    assert(row_total_spec(s).ideal as int == sum_ideal(s) + sum_gaps(s));
}

/// Solve `widget` for size constraints on both axes, horizontal first,
/// resolving the vertical pass against the window width in `size`.
///
/// Both passes must run before `set_rect` is called on the widget: this
/// is what establishes the widget's sized state.
pub fn solve<L: Layout>(widget: &mut L, size: Size)
    requires
        old(widget).wf(),
    ensures
        final(widget).wf(),
        final(widget).sized_h(),
        final(widget).sized_v(),
        exists|mid: L, r1: SizeRules, r2: SizeRules|
            #![trigger L::size_rules_rel(
                *old(widget),
                (AxisInfo { vertical: false, fixed: None }),
                mid,
                r1,
            ), L::size_rules_rel(
                mid,
                (AxisInfo { vertical: true, fixed: Some(size.w) }),
                *final(widget),
                r2,
            )]
            L::size_rules_rel(
                *old(widget),
                (AxisInfo { vertical: false, fixed: None }),
                mid,
                r1,
            ) && L::size_rules_rel(
                mid,
                (AxisInfo { vertical: true, fixed: Some(size.w) }),
                *final(widget),
                r2,
            ),
{
    // The results are not needed here: the calls are made because the
    // protocol requires both passes before any rectangle is assigned.
    let _w = widget.size_rules(AxisInfo::new(false, None));
    let ghost mid = *widget;
    let ghost r1 = _w;
    let _h = widget.size_rules(AxisInfo::new(true, Some(size.w)));
    proof {
        assert(L::size_rules_rel(
            *old(widget),
            (AxisInfo { vertical: false, fixed: None }),
            mid,
            r1,
        ));
    }
}

} // verus!
