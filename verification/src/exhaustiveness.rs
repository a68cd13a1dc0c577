//! Coverage of an integer domain by the intervals of a match.

use crate::syntax::Span;
use vstd::prelude::*;

verus! {

/// The integers from `lo` to `hi` that one pattern covers.
#[derive(Debug, Clone, Copy)]
pub struct Interval {
    pub lo: i128,
    pub hi: i128,
    pub span: Span,
}

impl Interval {
    /// Whether the interval covers `value`.
    pub open spec fn covers(self, value: int) -> bool {
        self.lo <= value <= self.hi
    }
}

/// What a match covers twice and what it leaves out.
pub struct CoverageReport {
    pub overlaps: Vec<(Interval, Interval)>,
    pub gaps: Vec<(i128, i128)>,
}

/// `sorted` with `interval` behind every interval that starts no later.
pub open spec fn placed(sorted: Seq<Interval>, interval: Interval) -> Seq<Interval>
    decreases sorted.len(),
{
    if sorted.len() == 0 {
        seq![interval]
    } else if sorted.last().lo <= interval.lo {
        sorted.push(interval)
    } else {
        placed(sorted.drop_last(), interval).push(sorted.last())
    }
}

/// The intervals in the order in which they start; those that start together
/// keep their order.
pub open spec fn by_start(intervals: Seq<Interval>) -> Seq<Interval>
    decreases intervals.len(),
{
    if intervals.len() == 0 {
        Seq::empty()
    } else {
        placed(by_start(intervals.drop_last()), intervals.last())
    }
}

/// How far the intervals, taken in order, reach: the least value of the domain
/// that none of them, nor any value before it, leaves for later.
pub open spec fn reach(start: int, sorted: Seq<Interval>) -> int
    decreases sorted.len(),
{
    if sorted.len() == 0 {
        start
    } else {
        let before = reach(start, sorted.drop_last());
        if sorted.last().hi + 1 > before {
            sorted.last().hi + 1
        } else {
            before
        }
    }
}

/// The last interval that extended the reach.
pub open spec fn farthest(start: int, sorted: Seq<Interval>) -> Option<Interval>
    decreases sorted.len(),
{
    if sorted.len() == 0 {
        None
    } else if sorted.last().hi + 1 > reach(start, sorted.drop_last()) {
        Some(sorted.last())
    } else {
        farthest(start, sorted.drop_last())
    }
}

/// Each interval that starts before the reach of those before it, with the
/// interval that reached there.
pub open spec fn overlapping(start: int, sorted: Seq<Interval>) -> Seq<(Interval, Interval)>
    decreases sorted.len(),
{
    if sorted.len() == 0 {
        Seq::empty()
    } else {
        let front = sorted.drop_last();
        let found = overlapping(start, front);
        if sorted.last().lo < reach(start, front) {
            found.push((farthest(start, front)->0, sorted.last()))
        } else {
            found
        }
    }
}

/// The stretches between the reach of some intervals and the start of the
/// next.
pub open spec fn gaps_between(start: int, sorted: Seq<Interval>) -> Seq<(int, int)>
    decreases sorted.len(),
{
    if sorted.len() == 0 {
        Seq::empty()
    } else {
        let front = sorted.drop_last();
        let found = gaps_between(start, front);
        if sorted.last().lo > reach(start, front) {
            found.push((reach(start, front), sorted.last().lo - 1))
        } else {
            found
        }
    }
}

/// The stretches of the domain that no interval covers.
pub open spec fn uncovered(domain: (i128, i128), sorted: Seq<Interval>) -> Seq<(int, int)> {
    let found = gaps_between(domain.0 as int, sorted);
    let end = reach(domain.0 as int, sorted);
    if end <= domain.1 {
        found.push((end, domain.1 as int))
    } else {
        found
    }
}

/// Pairs of machine integers as integers.
pub open spec fn stretches(gaps: Seq<(i128, i128)>) -> Seq<(int, int)> {
    gaps.map_values(|gap: (i128, i128)| (gap.0 as int, gap.1 as int))
}

proof fn lemma_placed_members(sorted: Seq<Interval>, interval: Interval)
    ensures
        placed(sorted, interval).len() == sorted.len() + 1,
        placed(sorted, interval).to_multiset() == sorted.to_multiset().insert(interval),
    decreases sorted.len(),
{
    broadcast use vstd::seq_lib::group_to_multiset_ensures;

    if sorted.len() == 0 {
        assert(placed(sorted, interval) =~= sorted.push(interval));
    } else if sorted.last().lo > interval.lo {
        lemma_placed_members(sorted.drop_last(), interval);
        assert(sorted =~= sorted.drop_last().push(sorted.last()));
        assert(placed(sorted, interval).to_multiset() =~= sorted.to_multiset().insert(interval));
    }
}

/// Sorting keeps every interval as often as it occurs.
pub proof fn law_sorting_keeps_intervals(intervals: Seq<Interval>)
    ensures
        by_start(intervals).len() == intervals.len(),
        by_start(intervals).to_multiset() == intervals.to_multiset(),
    decreases intervals.len(),
{
    broadcast use vstd::seq_lib::group_to_multiset_ensures;

    if intervals.len() == 0 {
        assert(by_start(intervals) =~= intervals);
    } else {
        law_sorting_keeps_intervals(intervals.drop_last());
        lemma_placed_members(by_start(intervals.drop_last()), intervals.last());
        assert(intervals =~= intervals.drop_last().push(intervals.last()));
    }
}

/// Whether intervals stand in the order in which they start.
pub open spec fn starts_ascend(sorted: Seq<Interval>) -> bool {
    forall|i: int, j: int|
        0 <= i <= j < sorted.len() ==> (#[trigger] sorted[i]).lo <= (#[trigger] sorted[j]).lo
}

proof fn lemma_placed_ascends(sorted: Seq<Interval>, interval: Interval)
    requires
        starts_ascend(sorted),
    ensures
        starts_ascend(placed(sorted, interval)),
        forall|i: int|
            0 <= i < placed(sorted, interval).len() ==> (#[trigger] placed(sorted, interval)[i]).lo
                <= interval.lo || (sorted.len() > 0 && placed(sorted, interval)[i].lo
                <= sorted.last().lo),
    decreases sorted.len(),
{
    lemma_placed_members(sorted, interval);
    if sorted.len() > 0 {
        let front = sorted.drop_last();
        assert(starts_ascend(front)) by {
            assert forall|i: int, j: int| 0 <= i <= j < front.len() implies (
            #[trigger] front[i]).lo <= (#[trigger] front[j]).lo by {
                assert(sorted[i].lo <= sorted[j].lo);
            }
        }
        lemma_placed_members(front, interval);
        lemma_placed_ascends(front, interval);
        let last = sorted[sorted.len() - 1];
        if last.lo <= interval.lo {
            assert forall|i: int| 0 <= i < sorted.len() implies (#[trigger] sorted[i]).lo
                <= interval.lo by {
                assert(sorted[i].lo <= last.lo);
            }
        } else {
            if front.len() > 0 {
                assert(sorted[front.len() - 1].lo <= last.lo);
                assert(front.last() == sorted[front.len() - 1]);
            }
        }
    }
}

/// Sorting puts the intervals in the order in which they start.
pub proof fn law_sorting_orders_intervals(intervals: Seq<Interval>)
    ensures
        starts_ascend(by_start(intervals)),
    decreases intervals.len(),
{
    if intervals.len() > 0 {
        law_sorting_orders_intervals(intervals.drop_last());
        lemma_placed_ascends(by_start(intervals.drop_last()), intervals.last());
    }
}

proof fn lemma_placed_split(sorted: Seq<Interval>, interval: Interval, at: int)
    requires
        0 <= at <= sorted.len(),
        forall|k: int| at <= k < sorted.len() ==> (#[trigger] sorted[k]).lo > interval.lo,
        at > 0 ==> sorted[at - 1].lo <= interval.lo,
    ensures
        placed(sorted, interval) == sorted.insert(at, interval),
    decreases sorted.len(),
{
    if at == sorted.len() {
        assert(placed(sorted, interval) =~= sorted.insert(at, interval));
    } else {
        let front = sorted.drop_last();
        assert(sorted[sorted.len() - 1].lo > interval.lo);
        assert forall|k: int| at <= k < front.len() implies (#[trigger] front[k]).lo
            > interval.lo by {
            assert(sorted[k].lo > interval.lo);
        }
        lemma_placed_split(front, interval, at);
        assert(placed(sorted, interval) =~= sorted.insert(at, interval));
    }
}

fn sort_by_start(intervals: &Vec<Interval>) -> (sorted: Vec<Interval>)
    ensures
        sorted@ == by_start(intervals@),
{
    let mut sorted: Vec<Interval> = Vec::new();
    let mut n: usize = 0;
    while n < intervals.len()
        invariant
            n <= intervals@.len(),
            sorted@ == by_start(intervals@.take(n as int)),
        decreases intervals.len() - n,
    {
        let interval: Interval = intervals[n];
        let mut at: usize = sorted.len();
        while at > 0 && sorted[at - 1].lo > interval.lo
            invariant
                at <= sorted@.len(),
                forall|k: int| at <= k < sorted@.len() ==> (#[trigger] sorted@[k]).lo > interval.lo,
            decreases at,
        {
            at = at - 1;
        }
        proof {
            assert(intervals@.take(n as int + 1).drop_last() =~= intervals@.take(n as int));
            lemma_placed_split(sorted@, interval, at as int);
        }
        sorted.insert(at, interval);
        n = n + 1;
    }
    assert(intervals@.take(n as int) =~= intervals@);
    sorted
}

proof fn lemma_reached(start: int, sorted: Seq<Interval>)
    ensures
        start <= reach(start, sorted),
        reach(start, sorted) > start ==> farthest(start, sorted) is Some,
    decreases sorted.len(),
{
    if sorted.len() > 0 {
        lemma_reached(start, sorted.drop_last());
    }
}

/// Which values of `domain` the intervals leave out and which intervals start
/// inside what earlier ones already cover.
///
/// No interval starts before the domain, and none reaches the greatest value
/// of `i128`.
pub fn check(domain: (i128, i128), intervals: Vec<Interval>) -> (report: CoverageReport)
    requires
        forall|i: int|
            0 <= i < intervals@.len() ==> domain.0 <= (#[trigger] intervals@[i]).lo
                && intervals@[i].hi < i128::MAX,
    ensures
        report.overlaps@ == overlapping(domain.0 as int, by_start(intervals@)),
        stretches(report.gaps@) == uncovered(domain, by_start(intervals@)),
{
    let sorted: Vec<Interval> = sort_by_start(&intervals);
    let ghost start = domain.0 as int;
    proof {
        law_sorting_keeps_intervals(intervals@);
        assert forall|i: int| 0 <= i < sorted@.len() implies domain.0 <= (#[trigger] sorted@[i]).lo
            && sorted@[i].hi < i128::MAX by {
            sorted@.to_multiset_ensures();
            intervals@.to_multiset_ensures();
            assert(sorted@.contains(sorted@[i]));
            assert(sorted@.to_multiset().count(sorted@[i]) > 0);
            assert(intervals@.contains(sorted@[i]));
        }
    }
    let mut overlaps: Vec<(Interval, Interval)> = Vec::new();
    let mut gaps: Vec<(i128, i128)> = Vec::new();
    let mut cursor: i128 = domain.0;
    let mut covering: Option<Interval> = None;
    let mut i: usize = 0;
    assert(stretches(gaps@) =~= Seq::<(int, int)>::empty());
    while i < sorted.len()
        invariant
            i <= sorted@.len(),
            start == domain.0,
            forall|k: int|
                0 <= k < sorted@.len() ==> domain.0 <= (#[trigger] sorted@[k]).lo && sorted@[k].hi
                    < i128::MAX,
            cursor == reach(start, sorted@.take(i as int)),
            covering == farthest(start, sorted@.take(i as int)),
            overlaps@ == overlapping(start, sorted@.take(i as int)),
            stretches(gaps@) == gaps_between(start, sorted@.take(i as int)),
        decreases sorted.len() - i,
    {
        let interval: Interval = sorted[i];
        let ghost front = sorted@.take(i as int);
        let ghost before = gaps@;
        proof {
            assert(sorted@.take(i as int + 1).drop_last() =~= front);
            lemma_reached(start, front);
        }
        if interval.lo < cursor {
            if let Some(previous) = covering {
                overlaps.push((previous, interval));
            }
        } else if interval.lo > cursor {
            gaps.push((cursor, interval.lo - 1));
            assert(stretches(gaps@) =~= stretches(before).push(
                (cursor as int, interval.lo - 1),
            ));
        }
        if interval.hi + 1 > cursor {
            cursor = interval.hi + 1;
            covering = Some(interval);
        }
        i = i + 1;
    }
    assert(sorted@.take(i as int) =~= sorted@);
    let ghost before = gaps@;
    if cursor <= domain.1 {
        gaps.push((cursor, domain.1));
        assert(stretches(gaps@) =~= stretches(before).push((cursor as int, domain.1 as int)));
    }
    CoverageReport { overlaps, gaps }
}

/// Whether some interval covers `value`.
pub open spec fn covered(intervals: Seq<Interval>, value: int) -> bool {
    exists|i: int| 0 <= i < intervals.len() && (#[trigger] intervals[i]).covers(value)
}

/// Whether `value` lies in one of the stretches.
pub open spec fn in_some(gaps: Seq<(int, int)>, value: int) -> bool {
    exists|i: int| 0 <= i < gaps.len() && (#[trigger] gaps[i]).0 <= value <= gaps[i].1
}

proof fn lemma_gaps(start: int, sorted: Seq<Interval>, value: int)
    requires
        starts_ascend(sorted),
        forall|i: int|
            0 <= i < sorted.len() ==> start <= (#[trigger] sorted[i]).lo <= sorted[i].hi,
    ensures
        start <= value < reach(start, sorted) ==> (in_some(gaps_between(start, sorted), value)
            <==> !covered(sorted, value)),
        in_some(gaps_between(start, sorted), value) ==> start <= value < reach(start, sorted),
        covered(sorted, value) ==> start <= value < reach(start, sorted),
    decreases sorted.len(),
{
    if sorted.len() == 0 {
        assert(!covered(sorted, value));
    } else {
        let front = sorted.drop_last();
        let last = sorted[sorted.len() - 1];
        assert(last == sorted.last());
        assert forall|i: int| 0 <= i < front.len() implies start <= (#[trigger] front[i]).lo
            <= front[i].hi by {
            assert(start <= sorted[i].lo <= sorted[i].hi);
        }
        assert(starts_ascend(front)) by {
            assert forall|i: int, j: int| 0 <= i <= j < front.len() implies (
            #[trigger] front[i]).lo <= (#[trigger] front[j]).lo by {
                assert(sorted[i].lo <= sorted[j].lo);
            }
        }
        lemma_gaps(start, front, value);
        lemma_reached(start, front);
        let before = reach(start, front);
        let gaps = gaps_between(start, front);
        let found = gaps_between(start, sorted);
        assert(covered(sorted, value) <==> (covered(front, value) || last.covers(value))) by {
            if covered(sorted, value) {
                let i = choose|i: int| 0 <= i < sorted.len() && (#[trigger] sorted[i]).covers(value);
                if i < front.len() {
                    assert(front[i].covers(value));
                }
            }
            if covered(front, value) {
                let i = choose|i: int| 0 <= i < front.len() && (#[trigger] front[i]).covers(value);
                assert(sorted[i].covers(value));
            }
            if last.covers(value) {
                assert(sorted[sorted.len() - 1].covers(value));
            }
        }
        if last.lo > before {
            assert(found =~= gaps.push((before, last.lo - 1)));
            assert(in_some(found, value) <==> (in_some(gaps, value) || before <= value <= last.lo
                - 1)) by {
                if in_some(found, value) {
                    let i = choose|i: int|
                        0 <= i < found.len() && (#[trigger] found[i]).0 <= value <= found[i].1;
                    if i < gaps.len() {
                        assert(gaps[i].0 <= value <= gaps[i].1);
                    }
                }
                if in_some(gaps, value) {
                    let i = choose|i: int|
                        0 <= i < gaps.len() && (#[trigger] gaps[i]).0 <= value <= gaps[i].1;
                    assert(found[i].0 <= value <= found[i].1);
                }
                if before <= value <= last.lo - 1 {
                    assert(found[gaps.len() as int].0 <= value <= found[gaps.len() as int].1);
                }
            }
        } else if last.covers(value) && value < before {
            // Everything from this start up to the reach is covered by what
            // came before: its start is no earlier than any of theirs.
            lemma_before_reach(start, front, last.lo as int, value);
        }
    }
}

/// Below the reach, a value no earlier than the last start is covered.
proof fn lemma_before_reach(start: int, sorted: Seq<Interval>, from: int, value: int)
    requires
        starts_ascend(sorted),
        forall|i: int|
            0 <= i < sorted.len() ==> start <= (#[trigger] sorted[i]).lo <= sorted[i].hi
                && sorted[i].lo <= from,
        from <= value < reach(start, sorted),
        start <= from,
    ensures
        covered(sorted, value),
    decreases sorted.len(),
{
    if sorted.len() > 0 {
        let front = sorted.drop_last();
        let last = sorted[sorted.len() - 1];
        if value < reach(start, front) {
            assert forall|i: int| 0 <= i < front.len() implies start <= (#[trigger] front[i]).lo
                <= front[i].hi && front[i].lo <= from by {
                assert(start <= sorted[i].lo <= sorted[i].hi);
            }
            assert(starts_ascend(front)) by {
                assert forall|i: int, j: int| 0 <= i <= j < front.len() implies (
                #[trigger] front[i]).lo <= (#[trigger] front[j]).lo by {
                    assert(sorted[i].lo <= sorted[j].lo);
                }
            }
            lemma_before_reach(start, front, from, value);
            let i = choose|i: int| 0 <= i < front.len() && (#[trigger] front[i]).covers(value);
            assert(sorted[i].covers(value));
        } else {
            assert(last.covers(value));
        }
    }
}

/// The reported gaps hold exactly the values of the domain that no interval
/// covers.
pub proof fn law_gaps_are_what_is_uncovered(
    domain: (i128, i128),
    intervals: Seq<Interval>,
    value: int,
)
    requires
        forall|i: int|
            0 <= i < intervals.len() ==> domain.0 <= (#[trigger] intervals[i]).lo
                <= intervals[i].hi <= domain.1,
        domain.0 <= value <= domain.1,
    ensures
        in_some(uncovered(domain, by_start(intervals)), value) <==> !covered(intervals, value),
{
    let sorted = by_start(intervals);
    let start = domain.0 as int;
    law_sorting_keeps_intervals(intervals);
    law_sorting_orders_intervals(intervals);
    sorted.to_multiset_ensures();
    intervals.to_multiset_ensures();
    assert forall|i: int| 0 <= i < sorted.len() implies start <= (#[trigger] sorted[i]).lo
        <= sorted[i].hi by {
        assert(sorted.to_multiset().count(sorted[i]) > 0) by {
            assert(sorted.contains(sorted[i]));
        }
        assert(intervals.contains(sorted[i]));
    }
    assert(covered(intervals, value) <==> covered(sorted, value)) by {
        if covered(intervals, value) {
            let i = choose|i: int| 0 <= i < intervals.len() && (#[trigger] intervals[i]).covers(value);
            assert(intervals.contains(intervals[i]));
            assert(intervals.to_multiset().count(intervals[i]) > 0);
            assert(sorted.contains(intervals[i]));
            let k = choose|k: int| 0 <= k < sorted.len() && sorted[k] == intervals[i];
            assert(sorted[k].covers(value));
        }
        if covered(sorted, value) {
            let i = choose|i: int| 0 <= i < sorted.len() && (#[trigger] sorted[i]).covers(value);
            assert(sorted.contains(sorted[i]));
            assert(sorted.to_multiset().count(sorted[i]) > 0);
            assert(intervals.contains(sorted[i]));
            let k = choose|k: int| 0 <= k < intervals.len() && intervals[k] == sorted[i];
            assert(intervals[k].covers(value));
        }
    }
    lemma_gaps(start, sorted, value);
    let found = gaps_between(start, sorted);
    let all = uncovered(domain, sorted);
    let end = reach(start, sorted);
    if end <= domain.1 {
        assert(all =~= found.push((end, domain.1 as int)));
        assert(in_some(all, value) <==> (in_some(found, value) || end <= value)) by {
            if in_some(all, value) {
                let i = choose|i: int|
                    0 <= i < all.len() && (#[trigger] all[i]).0 <= value <= all[i].1;
                if i < found.len() {
                    assert(found[i].0 <= value <= found[i].1);
                }
            }
            if in_some(found, value) {
                let i = choose|i: int|
                    0 <= i < found.len() && (#[trigger] found[i]).0 <= value <= found[i].1;
                assert(all[i].0 <= value <= all[i].1);
            }
            if end <= value {
                assert(all[found.len() as int].0 <= value <= all[found.len() as int].1);
            }
        }
    }
}

/// No overlap is reported exactly when no value is covered by two of the
/// intervals.
pub proof fn law_no_overlap_means_disjoint(start: int, sorted: Seq<Interval>)
    requires
        starts_ascend(sorted),
        forall|i: int|
            0 <= i < sorted.len() ==> start <= (#[trigger] sorted[i]).lo <= sorted[i].hi,
    ensures
        overlapping(start, sorted).len() == 0 <==> forall|i: int, j: int|
            0 <= i < j < sorted.len() ==> (#[trigger] sorted[i]).hi < (#[trigger] sorted[j]).lo,
    decreases sorted.len(),
{
    if sorted.len() > 0 {
        let front = sorted.drop_last();
        let last = sorted[sorted.len() - 1];
        assert forall|i: int| 0 <= i < front.len() implies start <= (#[trigger] front[i]).lo
            <= front[i].hi by {
            assert(start <= sorted[i].lo <= sorted[i].hi);
        }
        assert(starts_ascend(front)) by {
            assert forall|i: int, j: int| 0 <= i <= j < front.len() implies (
            #[trigger] front[i]).lo <= (#[trigger] front[j]).lo by {
                assert(sorted[i].lo <= sorted[j].lo);
            }
        }
        law_no_overlap_means_disjoint(start, front);
        lemma_reach_is_greatest(start, front);
        if overlapping(start, sorted).len() == 0 {
            assert forall|i: int, j: int| 0 <= i < j < sorted.len() implies (
            #[trigger] sorted[i]).hi < (#[trigger] sorted[j]).lo by {
                assert(front[i] == sorted[i]);
                if j < front.len() {
                    assert(front[j] == sorted[j]);
                }
            }
        }
        if forall|i: int, j: int|
            0 <= i < j < sorted.len() ==> (#[trigger] sorted[i]).hi < (#[trigger] sorted[j]).lo {
            assert forall|i: int, j: int| 0 <= i < j < front.len() implies (#[trigger] front[i]).hi
                < (#[trigger] front[j]).lo by {
                assert(sorted[i].hi < sorted[j].lo);
            }
            if front.len() > 0 && reach(start, front) > last.lo {
                let i = choose|i: int|
                    0 <= i < front.len() && (#[trigger] front[i]).hi + 1 == reach(start, front);
                assert(sorted[i].hi < sorted[sorted.len() - 1].lo);
            }
        }
    }
}

proof fn lemma_reach_is_greatest(start: int, sorted: Seq<Interval>)
    requires
        forall|i: int|
            0 <= i < sorted.len() ==> start <= (#[trigger] sorted[i]).lo <= sorted[i].hi,
    ensures
        forall|i: int|
            0 <= i < sorted.len() ==> (#[trigger] sorted[i]).hi + 1 <= reach(start, sorted),
        sorted.len() == 0 ==> reach(start, sorted) == start,
        sorted.len() > 0 ==> exists|i: int|
            0 <= i < sorted.len() && (#[trigger] sorted[i]).hi + 1 == reach(start, sorted),
    decreases sorted.len(),
{
    if sorted.len() > 0 {
        let front = sorted.drop_last();
        assert forall|i: int| 0 <= i < front.len() implies start <= (#[trigger] front[i]).lo
            <= front[i].hi by {
            assert(start <= sorted[i].lo <= sorted[i].hi);
        }
        lemma_reach_is_greatest(start, front);
        let last = sorted[sorted.len() - 1];
        assert forall|i: int| 0 <= i < sorted.len() implies (#[trigger] sorted[i]).hi + 1 <= reach(
            start,
            sorted,
        ) by {
            if i < front.len() {
                assert(front[i].hi + 1 <= reach(start, front));
            }
        }
        if last.hi + 1 > reach(start, front) {
            assert(sorted[sorted.len() - 1].hi + 1 == reach(start, sorted));
        } else {
            let i = choose|i: int|
                0 <= i < front.len() && (#[trigger] front[i]).hi + 1 == reach(start, front);
            assert(sorted[i].hi + 1 == reach(start, sorted));
        }
    }
}

} // verus!
