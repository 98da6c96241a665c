//! What the statistics of a run are, stated over the measured durations as a
//! sequence of natural numbers (nanoseconds), and what holds of them.

use vstd::multiset::group_multiset_axioms;
use vstd::prelude::*;
use vstd::relations::{sorted_by, total_ordering};
use vstd::seq_lib::{
    group_to_multiset_ensures, lemma_sorted_unique, to_multiset_contains, to_multiset_len,
};

verus! {

/// The number of percentile points, and of histogram buckets.
pub const BUCKETS: usize = 50;

/// The statistics of a run, every duration in nanoseconds.
pub struct SummaryView {
    pub average: nat,
    pub median: nat,
    pub max: nat,
    pub min: nat,
    pub count: nat,
    pub percentiles: Seq<nat>,
    pub latency_histogram: Seq<nat>,
}

/// The sum of the durations.
pub open spec fn total(durations: Seq<nat>) -> nat
    decreases durations.len(),
{
    if durations.len() == 0 {
        0
    } else {
        total(durations.drop_last()) + durations.last()
    }
}

/// The order of durations: shorter first.
pub open spec fn shorter_first() -> spec_fn(nat, nat) -> bool {
    |a: nat, b: nat| a <= b
}

/// The durations in ascending order.
pub open spec fn ascending(durations: Seq<nat>) -> Seq<nat> {
    durations.sort_by(shorter_first())
}

/// Whether each duration is at most the ones after it.
pub open spec fn is_ascending(durations: Seq<nat>) -> bool {
    forall|i: int, j: int| 0 <= i <= j < durations.len() ==> durations[i] <= durations[j]
}

/// The median of durations in ascending order: the middle one of an odd
/// number, the mean of the two middle ones of an even number, rounded down.
pub open spec fn median(sorted: Seq<nat>) -> nat
    recommends
        sorted.len() > 0,
{
    let mid = sorted.len() as int / 2;
    if sorted.len() % 2 == 0 {
        (sorted[mid - 1] + sorted[mid]) / 2
    } else {
        sorted[mid]
    }
}

/// The histogram bucket of a duration, where `max` is the longest duration of
/// the run. The buckets split the range from zero to `max` into `BUCKETS`
/// parts of equal width, `max / BUCKETS`; a duration lies in the bucket whose
/// number is the duration divided by that width, rounded down, and `max`
/// itself in the last one. Where `max` is zero every duration lies in the
/// first bucket.
pub open spec fn bucket(duration: nat, max: nat) -> nat {
    if max == 0 {
        0
    } else if (BUCKETS as nat) * duration / max >= BUCKETS {
        (BUCKETS - 1) as nat
    } else {
        (BUCKETS as nat) * duration / max
    }
}

/// How many of the durations lie in bucket `b`.
pub open spec fn tally(durations: Seq<nat>, max: nat, b: nat) -> nat
    decreases durations.len(),
{
    if durations.len() == 0 {
        0
    } else {
        let rest = tally(durations.drop_last(), max, b);
        if bucket(durations.last(), max) == b {
            rest + 1
        } else {
            rest
        }
    }
}

/// The index, among `count` durations in ascending order, of percentile point
/// `i`, which stands for the `2 * i`-th percentile: `i / BUCKETS` of `count`,
/// rounded down, and at most the last index.
pub open spec fn percentile_index(i: nat, count: nat) -> nat
    recommends
        count > 0,
{
    if i * count / (BUCKETS as nat) >= count {
        (count - 1) as nat
    } else {
        i * count / (BUCKETS as nat)
    }
}

/// The statistics of no measurements at all: nothing counted, every duration
/// zero, every bucket empty.
pub open spec fn empty_summary() -> SummaryView {
    SummaryView {
        average: 0,
        median: 0,
        max: 0,
        min: 0,
        count: 0,
        percentiles: Seq::new(BUCKETS as nat, |i: int| 0nat),
        latency_histogram: Seq::new(BUCKETS as nat, |b: int| 0nat),
    }
}

/// The statistics of a run with the given durations, in any order.
pub open spec fn summarize(durations: Seq<nat>) -> SummaryView {
    if durations.len() == 0 {
        empty_summary()
    } else {
        let sorted = ascending(durations);
        SummaryView {
            average: total(durations) / durations.len(),
            median: median(sorted),
            max: sorted.last(),
            min: sorted.first(),
            count: durations.len(),
            percentiles: Seq::new(
                BUCKETS as nat,
                |i: int| sorted[percentile_index(i as nat, durations.len()) as int],
            ),
            latency_histogram: Seq::new(
                BUCKETS as nat,
                |b: int| tally(durations, sorted.last(), b as nat),
            ),
        }
    }
}

/// A summary always has `BUCKETS` percentile points and `BUCKETS` histogram
/// buckets, whatever was measured.
pub proof fn lemma_summary_shape(durations: Seq<nat>)
    ensures
        summarize(durations).percentiles.len() == BUCKETS,
        summarize(durations).latency_histogram.len() == BUCKETS,
{
}

/// The summary of no measurements counts nothing and holds no duration but
/// zero.
pub proof fn lemma_summary_of_nothing()
    ensures
        summarize(Seq::empty()).count == 0,
        summarize(Seq::empty()).average == 0,
        summarize(Seq::empty()).median == 0,
        summarize(Seq::empty()).max == 0,
        summarize(Seq::empty()).min == 0,
        forall|i: int| 0 <= i < BUCKETS ==> summarize(Seq::empty()).percentiles[i] == 0,
        forall|b: int| 0 <= b < BUCKETS ==> summarize(Seq::empty()).latency_histogram[b] == 0,
{
}

/// The statistics depend on which durations were measured and how often
/// each, not on the order in which they are handed over: two runs that
/// measured the same durations have the same summary.
pub proof fn lemma_summary_ignores_order(a: Seq<nat>, b: Seq<nat>)
    requires
        a.to_multiset() == b.to_multiset(),
    ensures
        summarize(a) == summarize(b),
{
    to_multiset_len(a);
    to_multiset_len(b);
    if a.len() > 0 {
        lemma_ascending(a);
        lemma_ascending(b);
        lemma_ascending_unique(a, ascending(b));
        lemma_total_rearranged(a, b);
        let max = ascending(a).last();
        assert forall|k: nat| #[trigger] tally(a, max, k) == tally(b, max, k) by {
            lemma_tally_rearranged(a, b, max, k);
        }
        assert(summarize(a).percentiles =~= summarize(b).percentiles);
        assert(summarize(a).latency_histogram =~= summarize(b).latency_histogram);
    }
}

/// The shortest duration is at most the median and the average, and these
/// are at most the longest one.
pub proof fn lemma_summary_ordered(durations: Seq<nat>)
    requires
        durations.len() > 0,
    ensures
        summarize(durations).min <= summarize(durations).median <= summarize(durations).max,
        summarize(durations).min <= summarize(durations).average <= summarize(durations).max,
{
    let sorted = ascending(durations);
    let n = durations.len() as int;
    lemma_ascending(durations);
    lemma_total_rearranged(durations, sorted);
    lemma_total_between(sorted, sorted.first(), sorted.last());
    let t = total(durations) as int;
    let lo = sorted.first() as int;
    let hi = sorted.last() as int;
    assert(lo <= t / n <= hi) by (nonlinear_arith)
        requires
            n > 0,
            n * lo <= t <= n * hi,
    ;
}

/// The percentile points rise: a later point is no shorter than an earlier
/// one, the first is the shortest duration, and none exceeds the longest.
pub proof fn lemma_percentiles_rise(durations: Seq<nat>, i: int, j: int)
    requires
        durations.len() > 0,
        0 <= i <= j < BUCKETS,
    ensures
        summarize(durations).percentiles[0] == summarize(durations).min,
        summarize(durations).percentiles[i] <= summarize(durations).percentiles[j],
        summarize(durations).percentiles[j] <= summarize(durations).max,
{
    let n = durations.len();
    lemma_ascending(durations);
    lemma_percentile_index(i as nat, j as nat, n);
    assert(0 * n == 0) by (nonlinear_arith);
}

/// The histogram counts every measurement once: its buckets add up to the
/// number of measurements.
pub proof fn lemma_histogram_counts_all(durations: Seq<nat>)
    ensures
        total(summarize(durations).latency_histogram) == durations.len(),
{
    let histogram = summarize(durations).latency_histogram;
    if durations.len() == 0 {
        lemma_total_of_zeros(histogram);
    } else {
        let max = ascending(durations).last();
        lemma_tallies_add_up(durations, max, BUCKETS as nat);
        assert(histogram =~= tallies(durations, max, BUCKETS as nat));
    }
}

/// Shorter-first is a total order.
pub proof fn lemma_shorter_first_is_total()
    ensures
        total_ordering(shorter_first()),
{
}

/// Sorting rearranges the durations and leaves them in ascending order.
pub proof fn lemma_ascending(durations: Seq<nat>)
    ensures
        ascending(durations).len() == durations.len(),
        ascending(durations).to_multiset() == durations.to_multiset(),
        is_ascending(ascending(durations)),
{
    lemma_shorter_first_is_total();
    durations.lemma_sort_by_ensures(shorter_first());
    let sorted = ascending(durations);
    to_multiset_len(durations);
    to_multiset_len(sorted);
    assert forall|i: int, j: int| 0 <= i <= j < sorted.len() implies sorted[i] <= sorted[j] by {
        if i < j {
            assert(shorter_first()(sorted[i], sorted[j]));
        }
    }
}

/// A sequence in ascending order that rearranges the durations is the
/// durations sorted.
pub proof fn lemma_ascending_unique(durations: Seq<nat>, sorted: Seq<nat>)
    requires
        sorted.to_multiset() == durations.to_multiset(),
        is_ascending(sorted),
    ensures
        sorted == ascending(durations),
{
    lemma_shorter_first_is_total();
    lemma_ascending(durations);
    assert(sorted_by(sorted, shorter_first()));
    assert(sorted_by(ascending(durations), shorter_first())) by {
        durations.lemma_sort_by_ensures(shorter_first());
    }
    lemma_sorted_unique(sorted, ascending(durations), shorter_first());
}

/// The sum of a prefix grows by the next duration.
pub proof fn lemma_total_step(durations: Seq<nat>, i: int)
    requires
        0 <= i < durations.len(),
    ensures
        total(durations.take(i + 1)) == total(durations.take(i)) + durations[i],
{
    assert(durations.take(i + 1).drop_last() =~= durations.take(i));
}

/// The sum of a prefix is at most the sum of all.
pub proof fn lemma_total_prefix(durations: Seq<nat>, i: int)
    requires
        0 <= i <= durations.len(),
    ensures
        total(durations.take(i)) <= total(durations),
    decreases durations.len() - i,
{
    if i < durations.len() {
        lemma_total_step(durations, i);
        lemma_total_prefix(durations, i + 1);
    } else {
        assert(durations.take(i) =~= durations);
    }
}

/// The sum without one of the durations is smaller by that duration.
pub proof fn lemma_total_remove(durations: Seq<nat>, k: int)
    requires
        0 <= k < durations.len(),
    ensures
        total(durations) == total(durations.remove(k)) + durations[k],
    decreases durations.len(),
{
    if k == durations.len() - 1 {
        assert(durations.remove(k) =~= durations.drop_last());
    } else {
        lemma_total_remove(durations.drop_last(), k);
        assert(durations.remove(k).drop_last() =~= durations.drop_last().remove(k));
    }
}

/// The sum does not depend on the order of the durations.
pub proof fn lemma_total_rearranged(a: Seq<nat>, b: Seq<nat>)
    requires
        a.to_multiset() == b.to_multiset(),
    ensures
        total(a) == total(b),
    decreases a.len(),
{
    broadcast use group_to_multiset_ensures;
    broadcast use group_multiset_axioms;

    to_multiset_len(a);
    to_multiset_len(b);
    if a.len() > 0 {
        let x = a.last();
        assert(a =~= a.drop_last().push(x));
        assert(a.contains(x));
        to_multiset_contains(a, x);
        to_multiset_contains(b, x);
        let k = choose|k: int| 0 <= k < b.len() && b[k] == x;
        assert(a.drop_last().to_multiset() =~= a.to_multiset().remove(x));
        assert(b.remove(k).to_multiset() =~= b.to_multiset().remove(x));
        lemma_total_rearranged(a.drop_last(), b.remove(k));
        lemma_total_remove(b, k);
    }
}

/// The sum of durations that all lie between `lo` and `hi` lies between
/// `lo` and `hi` times their number.
pub proof fn lemma_total_between(durations: Seq<nat>, lo: nat, hi: nat)
    requires
        forall|i: int| 0 <= i < durations.len() ==> lo <= #[trigger] durations[i] <= hi,
    ensures
        durations.len() * lo <= total(durations) <= durations.len() * hi,
    decreases durations.len(),
{
    if durations.len() > 0 {
        let rest = durations.drop_last();
        lemma_total_between(rest, lo, hi);
        assert(durations.len() * lo == rest.len() * lo + lo) by (nonlinear_arith)
            requires
                durations.len() == rest.len() + 1,
        ;
        assert(durations.len() * hi == rest.len() * hi + hi) by (nonlinear_arith)
            requires
                durations.len() == rest.len() + 1,
        ;
    }
}

/// The count of a bucket over a prefix grows by one where the next duration
/// lies in the bucket, and else stays.
pub proof fn lemma_tally_step(durations: Seq<nat>, max: nat, b: nat, i: int)
    requires
        0 <= i < durations.len(),
    ensures
        tally(durations.take(i + 1), max, b) == tally(durations.take(i), max, b) + (if bucket(
            durations[i],
            max,
        ) == b {
            1nat
        } else {
            0nat
        }),
{
    assert(durations.take(i + 1).drop_last() =~= durations.take(i));
}

/// A bucket holds no more durations than there are.
pub proof fn lemma_tally_at_most_len(durations: Seq<nat>, max: nat, b: nat)
    ensures
        tally(durations, max, b) <= durations.len(),
    decreases durations.len(),
{
    if durations.len() > 0 {
        lemma_tally_at_most_len(durations.drop_last(), max, b);
    }
}

/// The count of a bucket without one of the durations.
pub proof fn lemma_tally_remove(durations: Seq<nat>, max: nat, b: nat, k: int)
    requires
        0 <= k < durations.len(),
    ensures
        tally(durations, max, b) == tally(durations.remove(k), max, b) + (if bucket(
            durations[k],
            max,
        ) == b {
            1nat
        } else {
            0nat
        }),
    decreases durations.len(),
{
    if k == durations.len() - 1 {
        assert(durations.remove(k) =~= durations.drop_last());
    } else {
        lemma_tally_remove(durations.drop_last(), max, b, k);
        assert(durations.remove(k).drop_last() =~= durations.drop_last().remove(k));
    }
}

/// The count of a bucket does not depend on the order of the durations.
pub proof fn lemma_tally_rearranged(a: Seq<nat>, b: Seq<nat>, max: nat, bucket: nat)
    requires
        a.to_multiset() == b.to_multiset(),
    ensures
        tally(a, max, bucket) == tally(b, max, bucket),
    decreases a.len(),
{
    broadcast use group_to_multiset_ensures;
    broadcast use group_multiset_axioms;

    to_multiset_len(a);
    to_multiset_len(b);
    if a.len() > 0 {
        let x = a.last();
        assert(a =~= a.drop_last().push(x));
        assert(a.contains(x));
        to_multiset_contains(a, x);
        to_multiset_contains(b, x);
        let k = choose|k: int| 0 <= k < b.len() && b[k] == x;
        assert(a.drop_last().to_multiset() =~= a.to_multiset().remove(x));
        assert(b.remove(k).to_multiset() =~= b.to_multiset().remove(x));
        lemma_tally_rearranged(a.drop_last(), b.remove(k), max, bucket);
        lemma_tally_remove(b, max, bucket, k);
    }
}

/// The index of a percentile point lies among the durations and does not
/// fall as the point rises; the limit to the last index never takes effect.
pub proof fn lemma_percentile_index(i: nat, j: nat, count: nat)
    requires
        count > 0,
        i <= j < BUCKETS,
    ensures
        percentile_index(i, count) <= percentile_index(j, count) < count,
        percentile_index(j, count) == j * count / (BUCKETS as nat),
{
    let b = BUCKETS as int;
    let c = count as int;
    assert(i * c <= j * c) by (nonlinear_arith)
        requires
            i <= j,
            c > 0,
    ;
    assert(j * c < b * c) by (nonlinear_arith)
        requires
            j < b,
            c > 0,
    ;
    assert((i * c) / b <= (j * c) / b) by (nonlinear_arith)
        requires
            i * c <= j * c,
            b > 0,
    ;
    assert((j * c) / b < c) by (nonlinear_arith)
        requires
            j * c < b * c,
            b > 0,
    ;
}

/// The counts of the first `n` buckets.
spec fn tallies(durations: Seq<nat>, max: nat, n: nat) -> Seq<nat> {
    Seq::new(n, |b: int| tally(durations, max, b as nat))
}

/// How many of the durations lie in a bucket below `n`.
spec fn tally_below(durations: Seq<nat>, max: nat, n: nat) -> nat
    decreases durations.len(),
{
    if durations.len() == 0 {
        0
    } else {
        let rest = tally_below(durations.drop_last(), max, n);
        if bucket(durations.last(), max) < n {
            rest + 1
        } else {
            rest
        }
    }
}

/// A sequence of zeros adds up to zero.
proof fn lemma_total_of_zeros(zeros: Seq<nat>)
    requires
        forall|i: int| 0 <= i < zeros.len() ==> zeros[i] == 0,
    ensures
        total(zeros) == 0,
    decreases zeros.len(),
{
    if zeros.len() > 0 {
        lemma_total_of_zeros(zeros.drop_last());
    }
}

/// The counts of the first `n` buckets add up to the number of durations in
/// a bucket below `n`; for `n` the number of buckets, that is all of them.
proof fn lemma_tallies_add_up(durations: Seq<nat>, max: nat, n: nat)
    ensures
        total(tallies(durations, max, n)) == tally_below(durations, max, n),
        n >= BUCKETS ==> tally_below(durations, max, n) == durations.len(),
    decreases n,
{
    if n > 0 {
        let m = (n - 1) as nat;
        lemma_tallies_add_up(durations, max, m);
        assert(tallies(durations, max, n).drop_last() =~= tallies(durations, max, m));
        lemma_tally_below_step(durations, max, m);
    } else {
        lemma_tally_below_none(durations, max);
    }
    if n >= BUCKETS {
        lemma_tally_below_all(durations, max, n);
    }
}

/// No duration lies in a bucket below the first.
proof fn lemma_tally_below_none(durations: Seq<nat>, max: nat)
    ensures
        tally_below(durations, max, 0) == 0,
    decreases durations.len(),
{
    if durations.len() > 0 {
        lemma_tally_below_none(durations.drop_last(), max);
    }
}

/// Every duration lies in a bucket below the number of buckets.
proof fn lemma_tally_below_all(durations: Seq<nat>, max: nat, n: nat)
    requires
        n >= BUCKETS,
    ensures
        tally_below(durations, max, n) == durations.len(),
    decreases durations.len(),
{
    if durations.len() > 0 {
        lemma_tally_below_all(durations.drop_last(), max, n);
    }
}

/// The durations in a bucket below `m + 1` are those below `m` and those
/// in bucket `m`.
proof fn lemma_tally_below_step(durations: Seq<nat>, max: nat, m: nat)
    ensures
        tally_below(durations, max, m + 1) == tally_below(durations, max, m) + tally(
            durations,
            max,
            m,
        ),
    decreases durations.len(),
{
    if durations.len() > 0 {
        lemma_tally_below_step(durations.drop_last(), max, m);
    }
}

} // verus!
