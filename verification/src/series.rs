use vstd::prelude::*;
use rayon::slice::ParallelSliceMut;
use crate::reading::MeterReading;
use crate::units::GAP_THRESHOLD;

verus! {

/// No reading is older than one that stands before it.
pub open spec fn time_ordered(data: Seq<MeterReading>) -> bool {
    forall|i: int, j: int| 0 <= i < j < data.len() ==> data[i].timestamp <= data[j].timestamp
}

/// Tells of a reading whether it was taken at `instant`.
pub open spec fn taken_at(instant: i64) -> spec_fn(MeterReading) -> bool {
    |reading: MeterReading| reading.timestamp == instant
}

/// The readings of `data` that were taken at `instant`, in their order.
pub open spec fn readings_at(data: Seq<MeterReading>, instant: i64) -> Seq<MeterReading> {
    data.filter(taken_at(instant))
}

/// `output` holds the readings of `input` ordered by time, readings of the
/// same instant in the order that they had.
pub open spec fn prepared(input: Seq<MeterReading>, output: Seq<MeterReading>) -> bool {
    &&& time_ordered(output)
    &&& output.to_multiset() == input.to_multiset()
    &&& forall|instant: i64| #[trigger]
        readings_at(output, instant) == readings_at(input, instant)
}

/// Sorts the readings by time with `rayon`'s
/// `ParallelSliceMut::par_sort_by_key`, keyed by the timestamp. Its
/// documentation promises a sort of the slice by the key that is stable; the
/// contract says so: the result is ordered by time, holds the same readings,
/// and keeps readings of one instant in their order.
#[verifier::external_body]
fn sort_by_time(data: &mut Vec<MeterReading>)
    ensures
        time_ordered(final(data)@),
        final(data)@.to_multiset() == old(data)@.to_multiset(),
        forall|instant: i64| #[trigger]
            readings_at(final(data)@, instant) == readings_at(old(data)@, instant),
{
    data.par_sort_by_key(|reading| reading.timestamp);
}

/// Tells whether the readings are ordered by time.
pub fn is_time_ordered(data: &[MeterReading]) -> (ordered: bool)
    ensures
        ordered == time_ordered(data@),
{
    if data.len() < 2 {
        return true;
    }
    let mut i: usize = 1;
    while i < data.len()
        invariant
            1 <= i <= data@.len(),
            forall|a: int, b: int| 0 <= a < b < i ==> data@[a].timestamp <= data@[b].timestamp,
        decreases data@.len() - i,
    {
        if data[i - 1].timestamp > data[i].timestamp {
            return false;
        }
        i = i + 1;
    }
    true
}

/// Brings the readings into the order of their timestamps and tells whether
/// anything had to move. Readings that are ordered already are left as they
/// are; otherwise readings of the same instant keep their order.
pub fn prepare_series(data: &mut Vec<MeterReading>) -> (reordered: bool)
    ensures
        prepared(old(data)@, final(data)@),
        reordered == !time_ordered(old(data)@),
        !reordered ==> final(data)@ == old(data)@,
        final(data)@.len() == old(data)@.len(),
        (forall|i: int| 0 <= i < old(data)@.len() ==> (#[trigger] old(data)@[i]).wf()) ==> (forall|
            i: int,
        | 0 <= i < final(data)@.len() ==> (#[trigger] final(data)@[i]).wf()),
{
    if is_time_ordered(data.as_slice()) {
        false
    } else {
        let ghost before = data@;
        sort_by_time(data);
        proof {
            lemma_same_readings(before, data@);
        }
        true
    }
}

/// Two series that hold the same readings are equally long, and where every
/// reading of the one is well formed, so is every reading of the other.
pub proof fn lemma_same_readings(input: Seq<MeterReading>, output: Seq<MeterReading>)
    requires
        output.to_multiset() == input.to_multiset(),
    ensures
        output.len() == input.len(),
        (forall|i: int| 0 <= i < input.len() ==> (#[trigger] input[i]).wf()) ==> (forall|i: int|
            0 <= i < output.len() ==> (#[trigger] output[i]).wf()),
{
    input.to_multiset_ensures();
    output.to_multiset_ensures();
    if forall|i: int| 0 <= i < input.len() ==> (#[trigger] input[i]).wf() {
        assert forall|i: int| 0 <= i < output.len() implies (#[trigger] output[i]).wf() by {
            assert(output.to_multiset().count(output[i]) > 0);
            assert(input.contains(output[i]));
            let k = choose|k: int| 0 <= k < input.len() && input[k] == output[i];
            assert(input[k].wf());
        }
    }
}

/// Where a series holds readings of an instant, one of its readings was
/// taken at that instant.
proof fn lemma_instant_present(data: Seq<MeterReading>, instant: i64)
    requires
        readings_at(data, instant).len() > 0,
    ensures
        exists|i: int| 0 <= i < data.len() && (#[trigger] data[i]).timestamp == instant,
{
    let found = readings_at(data, instant);
    let first = found[0];
    data.lemma_filter_pred(taken_at(instant), 0);
    assert(found.contains(first));
    data.lemma_filter_contains_rev(taken_at(instant), first);
    let i = choose|i: int| 0 <= i < data.len() && data[i] == first;
    assert(data[i].timestamp == instant);
}

/// The readings of an instant in a series, told from its last reading.
proof fn lemma_readings_at_last(data: Seq<MeterReading>, instant: i64)
    requires
        data.len() > 0,
    ensures
        readings_at(data, instant) == if data.last().timestamp == instant {
            readings_at(data.drop_last(), instant).push(data.last())
        } else {
            readings_at(data.drop_last(), instant)
        },
{
    reveal(Seq::filter);
}

/// The last reading of a time-ordered series is its youngest.
proof fn lemma_last_is_youngest(data: Seq<MeterReading>, instant: i64)
    requires
        time_ordered(data),
        readings_at(data, instant).len() > 0,
    ensures
        data.len() > 0,
        instant <= data.last().timestamp,
{
    lemma_instant_present(data, instant);
    let i = choose|i: int| 0 <= i < data.len() && (#[trigger] data[i]).timestamp == instant;
    if i < data.len() - 1 {
        assert(data[i].timestamp <= data[data.len() - 1].timestamp);
    }
}

/// A time-ordered series is determined by the readings that it holds of
/// every instant and their order: two such series that agree in these are
/// the same series.
pub proof fn lemma_stable_ordering_unique(a: Seq<MeterReading>, b: Seq<MeterReading>)
    requires
        time_ordered(a),
        time_ordered(b),
        forall|instant: i64| #[trigger] readings_at(a, instant) == readings_at(b, instant),
    ensures
        a == b,
    decreases a.len(), b.len(),
{
    if a.len() == 0 && b.len() == 0 {
        assert(a =~= b);
    } else if a.len() == 0 {
        lemma_readings_at_last(b, b.last().timestamp);
        assert(readings_at(b, b.last().timestamp).len() > 0);
        assert(readings_at(a, b.last().timestamp).len() > 0);
        lemma_instant_present(a, b.last().timestamp);
    } else if b.len() == 0 {
        lemma_stable_ordering_unique(b, a);
    } else {
        let at_a = a.last().timestamp;
        let at_b = b.last().timestamp;
        lemma_readings_at_last(a, at_a);
        lemma_readings_at_last(b, at_b);
        assert(readings_at(b, at_a).len() > 0) by {
            assert(readings_at(a, at_a).len() > 0);
        }
        assert(readings_at(a, at_b).len() > 0) by {
            assert(readings_at(b, at_b).len() > 0);
        }
        lemma_last_is_youngest(b, at_a);
        lemma_last_is_youngest(a, at_b);
        assert(at_a == at_b);
        let shorter_a = a.drop_last();
        let shorter_b = b.drop_last();
        let held_a = readings_at(shorter_a, at_a);
        let held_b = readings_at(shorter_b, at_a);
        assert(held_a.push(a.last()) == held_b.push(b.last()));
        assert(a.last() == b.last()) by {
            assert(held_a.push(a.last()).last() == a.last());
            assert(held_b.push(b.last()).last() == b.last());
        }
        assert(held_a == held_b) by {
            assert(held_a.push(a.last()).drop_last() =~= held_a);
            assert(held_b.push(b.last()).drop_last() =~= held_b);
        }
        assert forall|instant: i64| #[trigger]
            readings_at(shorter_a, instant) == readings_at(shorter_b, instant) by {
            lemma_readings_at_last(a, instant);
            lemma_readings_at_last(b, instant);
            assert(readings_at(a, instant) == readings_at(b, instant));
        }
        assert(time_ordered(shorter_a)) by {
            assert forall|i: int, j: int| 0 <= i < j < shorter_a.len() implies shorter_a[i].timestamp
                <= shorter_a[j].timestamp by {
                assert(a[i].timestamp <= a[j].timestamp);
            }
        }
        assert(time_ordered(shorter_b)) by {
            assert forall|i: int, j: int| 0 <= i < j < shorter_b.len() implies shorter_b[i].timestamp
                <= shorter_b[j].timestamp by {
                assert(b[i].timestamp <= b[j].timestamp);
            }
        }
        lemma_stable_ordering_unique(shorter_a, shorter_b);
        assert(a =~= shorter_a.push(a.last()));
        assert(b =~= shorter_b.push(b.last()));
    }
}

/// A series has one prepared form only.
pub proof fn lemma_prepared_unique(
    input: Seq<MeterReading>,
    one: Seq<MeterReading>,
    other: Seq<MeterReading>,
)
    requires
        prepared(input, one),
        prepared(input, other),
    ensures
        one == other,
{
    assert forall|instant: i64| #[trigger]
        readings_at(one, instant) == readings_at(other, instant) by {
        assert(readings_at(one, instant) == readings_at(input, instant));
        assert(readings_at(other, instant) == readings_at(input, instant));
    }
    lemma_stable_ordering_unique(one, other);
}

/// Preparing a prepared series changes nothing: the second ordering is the
/// first.
pub proof fn lemma_prepare_idempotent(
    input: Seq<MeterReading>,
    once: Seq<MeterReading>,
    twice: Seq<MeterReading>,
)
    requires
        prepared(input, once),
        prepared(once, twice),
    ensures
        twice == once,
{
    lemma_stable_ordering_unique(twice, once);
}

/// The time from reading `i` to the one after it, in microseconds.
pub open spec fn spacing(data: Seq<MeterReading>, i: int) -> int {
    data[i + 1].timestamp - data[i].timestamp
}

/// How many of the first `pairs` pairs of consecutive readings lie further
/// apart than the threshold.
pub open spec fn gap_count(data: Seq<MeterReading>, pairs: int) -> nat
    decreases pairs,
{
    if pairs <= 0 {
        0
    } else if spacing(data, pairs - 1) > GAP_THRESHOLD {
        gap_count(data, pairs - 1) + 1
    } else {
        gap_count(data, pairs - 1)
    }
}

/// The widest gap among the first `pairs` pairs of consecutive readings, or
/// zero where none of them is a gap.
pub open spec fn largest_gap(data: Seq<MeterReading>, pairs: int) -> int
    decreases pairs,
{
    if pairs <= 0 {
        0
    } else if spacing(data, pairs - 1) > GAP_THRESHOLD && spacing(data, pairs - 1) > largest_gap(
        data,
        pairs - 1,
    ) {
        spacing(data, pairs - 1)
    } else {
        largest_gap(data, pairs - 1)
    }
}

/// What the scan for gaps found. It is a diagnosis and changes nothing.
#[derive(Clone, Copy, Debug, PartialEq, Eq)]
pub struct GapStatistics {
    /// The number of gaps.
    pub gaps: usize,
    /// The widest gap in microseconds, zero where there is none.
    pub largest_gap: u64,
}

/// Counts the pairs of consecutive readings that lie further apart than the
/// threshold of five seconds and finds the widest such gap.
pub fn gap_statistics(data: &[MeterReading]) -> (stats: GapStatistics)
    ensures
        stats.gaps == gap_count(data@, data@.len() - 1),
        stats.largest_gap == largest_gap(data@, data@.len() - 1),
        forall|i: int|
            0 <= i < data@.len() - 1 && #[trigger] spacing(data@, i) > GAP_THRESHOLD ==> spacing(
                data@,
                i,
            ) <= stats.largest_gap,
        stats.gaps == 0 <==> stats.largest_gap == 0,
        stats.largest_gap != 0 ==> exists|i: int|
            0 <= i < data@.len() - 1 && #[trigger] spacing(data@, i) == stats.largest_gap
                && stats.largest_gap > GAP_THRESHOLD,
{
    let mut stats = GapStatistics { gaps: 0, largest_gap: 0 };
    if data.len() < 2 {
        return stats;
    }
    let mut i: usize = 0;
    while i < data.len() - 1
        invariant
            2 <= data@.len(),
            i <= data@.len() - 1,
            stats.gaps <= i,
            stats.gaps == gap_count(data@, i as int),
            stats.largest_gap == largest_gap(data@, i as int),
            forall|k: int|
                0 <= k < i && #[trigger] spacing(data@, k) > GAP_THRESHOLD ==> spacing(data@, k)
                    <= stats.largest_gap,
            stats.gaps == 0 <==> stats.largest_gap == 0,
            stats.largest_gap != 0 ==> exists|k: int|
                0 <= k < i && #[trigger] spacing(data@, k) == stats.largest_gap
                    && stats.largest_gap > GAP_THRESHOLD,
        decreases data@.len() - i,
    {
        let apart: i128 = data[i + 1].timestamp as i128 - data[i].timestamp as i128;
        assert(apart == spacing(data@, i as int));
        if apart > GAP_THRESHOLD as i128 {
            stats.gaps = stats.gaps + 1;
            if apart > stats.largest_gap as i128 {
                stats.largest_gap = apart as u64;
            }
        }
        i = i + 1;
    }
    stats
}

} // verus!
