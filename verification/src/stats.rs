//! The record of one completed request, and the summary of a run.

use crate::duration::{Duration, MAX_NANOS};
use crate::model::{
    bucket, empty_summary, lemma_ascending, lemma_tally_at_most_len, lemma_tally_rearranged,
    lemma_tally_step, lemma_total_prefix, lemma_total_step, median, percentile_index, summarize,
    tally, total, SummaryView, BUCKETS,
};
use crate::sorting::{lemma_sorted_keeps_bound, lengths, sort_ascending};
use reqwest::blocking::Response;
use vstd::prelude::*;

verus! {

/// `reqwest::blocking::Response`, a response as the HTTP client hands it
/// over. Nothing in it is visible to the proofs.
#[verifier::external_type_specification]
#[verifier::external_body]
pub struct ExResponse(Response);

/// What a [`Fact`] holds: the status code, the duration in nanoseconds and
/// the length of the response body in bytes.
pub struct FactView {
    pub status: u16,
    pub duration: nat,
    pub content_length: nat,
}

/// One measured request: the status the server answered with, how long the
/// answer took, and how many bytes it carried.
#[derive(Debug, Clone, Copy)]
pub struct Fact {
    status: u16,
    duration: Duration,
    content_length: usize,
}

impl View for Fact {
    type V = FactView;

    closed spec fn view(&self) -> FactView {
        FactView {
            status: self.status,
            duration: self.duration@,
            content_length: self.content_length as nat,
        }
    }
}

/// The status code that a response carries. It is a name for what
/// `reqwest::blocking::Response::status` returns, as a number: nothing says
/// which code a given response carries, only that it is the same whenever
/// the same response is asked.
pub uninterp spec fn status_of(response: Response) -> u16;

/// The status code of `response`, read with
/// `reqwest::blocking::Response::status` and turned into a number with
/// `http::StatusCode::as_u16`. Nothing of this is proved here. The contract
/// claims that the result is the code the response carries, and that it
/// lies in `100..=999`, outside of which a `StatusCode` holds no number.
#[verifier::external_body]
fn status_code(response: &Response) -> (code: u16)
    ensures
        code == status_of(*response),
        100 <= code <= 999,
{
    response.status().as_u16()
}

/// The size of the body of `response` in bytes where the client knows it,
/// read with `reqwest::blocking::Response::content_length`. Nothing of this
/// is proved here, and the contract claims nothing: whether the size is
/// known, and what it is, lies with the body that the client holds.
#[verifier::external_body]
fn body_length(response: &Response) -> (length: Option<u64>) {
    response.content_length()
}

/// The byte count that a fact holds for a body of the given size: the size
/// itself, zero where it is not known, and the largest count that `usize`
/// holds where the size is beyond it.
pub open spec fn recorded_length(length: Option<u64>) -> nat {
    match length {
        None => 0,
        Some(bytes) => if bytes <= usize::MAX {
            bytes as nat
        } else {
            usize::MAX as nat
        },
    }
}

/// The byte count that a fact holds for a body of the given size.
pub fn length_to_record(length: Option<u64>) -> (bytes: usize)
    ensures
        bytes == recorded_length(length),
{
    match length {
        None => 0,
        Some(size) => if size <= usize::MAX as u64 {
            size as usize
        } else {
            usize::MAX
        },
    }
}

impl Fact {
    /// The fact with the given parts.
    pub fn new(status: u16, duration: Duration, content_length: usize) -> (fact: Fact)
        ensures
            fact@ == (FactView {
                status,
                duration: duration@,
                content_length: content_length as nat,
            }),
    {
        Fact { status, duration, content_length }
    }

    /// The fact of a request that `response` answered after `duration`. It
    /// takes the status and the size of the body from the response; see
    /// [`length_to_record`] for what it holds for a size.
    pub fn record(response: Response, duration: Duration) -> (fact: Fact)
        ensures
            fact@.status == status_of(response),
            100 <= fact@.status <= 999,
            fact@.duration == duration@,
    {
        let status = status_code(&response);
        let length = body_length(&response);
        Fact::new(status, duration, length_to_record(length))
    }

    /// The status code of the response.
    pub fn status(&self) -> (status: u16)
        ensures
            status == self@.status,
    {
        self.status
    }

    /// How long the request took.
    pub fn duration(&self) -> (duration: Duration)
        ensures
            duration@ == self@.duration,
    {
        self.duration
    }

    /// The length of the response body in bytes.
    pub fn content_length(&self) -> (bytes: usize)
        ensures
            bytes == self@.content_length,
    {
        self.content_length
    }
}

/// The durations of the facts, in nanoseconds and in the facts' order.
pub open spec fn durations(facts: Seq<Fact>) -> Seq<nat> {
    facts.map_values(|fact: Fact| fact@.duration)
}

/// The statistics of a run: how many requests were measured, the average,
/// median, longest and shortest duration, `BUCKETS` percentile points and a
/// histogram of `BUCKETS` buckets.
#[derive(Debug)]
pub struct Summary {
    average: Duration,
    median: Duration,
    max: Duration,
    min: Duration,
    count: usize,
    percentiles: Vec<Duration>,
    latency_histogram: Vec<usize>,
}

impl View for Summary {
    type V = SummaryView;

    closed spec fn view(&self) -> SummaryView {
        SummaryView {
            average: self.average@,
            median: self.median@,
            max: self.max@,
            min: self.min@,
            count: self.count as nat,
            percentiles: self.percentiles@.map_values(|d: Duration| d@),
            latency_histogram: self.latency_histogram@.map_values(|c: usize| c as nat),
        }
    }
}

/// The durations of the facts as nanosecond counts, in the facts' order.
fn nanos_of(facts: &[Fact]) -> (nanos: Vec<u128>)
    ensures
        lengths(nanos@) == durations(facts@),
        forall|i: int| 0 <= i < nanos.len() ==> nanos[i] <= MAX_NANOS,
{
    let mut nanos: Vec<u128> = Vec::new();
    let mut i: usize = 0;
    while i < facts.len()
        invariant
            i <= facts.len(),
            nanos.len() == i,
            forall|j: int| 0 <= j < i ==> nanos[j] == facts[j]@.duration,
            forall|j: int| 0 <= j < i ==> nanos[j] <= MAX_NANOS,
        decreases facts.len() - i,
    {
        nanos.push(facts[i].duration.as_nanos());
        i += 1;
    }
    assert(lengths(nanos@) =~= durations(facts@));
    nanos
}

/// The sum of the nanosecond counts.
fn sum_of(nanos: &Vec<u128>) -> (sum: u128)
    requires
        total(lengths(nanos@)) <= u128::MAX,
    ensures
        sum == total(lengths(nanos@)),
{
    let ghost all = lengths(nanos@);
    let mut sum: u128 = 0;
    let mut i: usize = 0;
    while i < nanos.len()
        invariant
            i <= nanos.len(),
            all == lengths(nanos@),
            sum == total(all.take(i as int)),
            total(all) <= u128::MAX,
        decreases nanos.len() - i,
    {
        proof {
            lemma_total_step(all, i as int);
            lemma_total_prefix(all, i + 1);
        }
        sum = sum + nanos[i];
        i += 1;
    }
    assert(all.take(i as int) =~= all);
    sum
}

/// The median of nanosecond counts in ascending order.
fn median_of(sorted: &Vec<u128>) -> (middle: u128)
    requires
        sorted.len() > 0,
        forall|i: int| 0 <= i < sorted.len() ==> sorted[i] <= MAX_NANOS,
    ensures
        middle == median(lengths(sorted@)),
        middle <= MAX_NANOS,
{
    let mid: usize = sorted.len() / 2;
    if sorted.len() % 2 == 0 {
        (sorted[mid - 1] + sorted[mid]) / 2
    } else {
        sorted[mid]
    }
}

/// The percentile points of nanosecond counts in ascending order.
fn percentiles_of(sorted: &Vec<u128>) -> (points: Vec<Duration>)
    requires
        sorted.len() > 0,
        forall|i: int| 0 <= i < sorted.len() ==> sorted[i] <= MAX_NANOS,
    ensures
        points.len() == BUCKETS,
        forall|i: int|
            0 <= i < BUCKETS ==> points[i]@ == lengths(sorted@)[percentile_index(
                i as nat,
                sorted.len() as nat,
            ) as int],
{
    let count: usize = sorted.len();
    let mut points: Vec<Duration> = Vec::new();
    let mut i: usize = 0;
    while i < BUCKETS
        invariant
            i <= BUCKETS,
            count == sorted.len(),
            count > 0,
            points.len() == i,
            forall|j: int| 0 <= j < sorted.len() ==> sorted[j] <= MAX_NANOS,
            forall|j: int|
                0 <= j < i ==> points[j]@ == lengths(sorted@)[percentile_index(
                    j as nat,
                    count as nat,
                ) as int],
        decreases BUCKETS - i,
    {
        assert(i * count <= BUCKETS * usize::MAX) by (nonlinear_arith)
            requires
                i <= BUCKETS,
                count <= usize::MAX,
        ;
        let scaled: u128 = (i as u128) * (count as u128) / (BUCKETS as u128);
        let index: usize = if scaled >= count as u128 {
            count - 1
        } else {
            scaled as usize
        };
        points.push(Duration::from_nanos(sorted[index]));
        i += 1;
    }
    points
}

/// The bucket of a duration of `nanos` nanoseconds in a run whose longest
/// duration is `max` nanoseconds.
fn bucket_of(nanos: u128, max: u128) -> (b: usize)
    requires
        nanos <= MAX_NANOS,
    ensures
        b == bucket(nanos as nat, max as nat),
        b < BUCKETS,
{
    if max == 0 {
        0
    } else {
        assert(BUCKETS * nanos <= BUCKETS * MAX_NANOS) by (nonlinear_arith)
            requires
                nanos <= MAX_NANOS,
        ;
        let scaled: u128 = (BUCKETS as u128) * nanos / max;
        if scaled >= BUCKETS as u128 {
            BUCKETS - 1
        } else {
            scaled as usize
        }
    }
}

/// The histogram of the nanosecond counts, for a run whose longest duration
/// is `max` nanoseconds.
fn histogram_of(nanos: &Vec<u128>, max: u128) -> (counts: Vec<usize>)
    requires
        forall|i: int| 0 <= i < nanos.len() ==> nanos[i] <= MAX_NANOS,
    ensures
        counts.len() == BUCKETS,
        forall|b: int|
            0 <= b < BUCKETS ==> counts[b] == tally(lengths(nanos@), max as nat, b as nat),
{
    let ghost all = lengths(nanos@);
    let mut counts: Vec<usize> = Vec::new();
    let mut b: usize = 0;
    while b < BUCKETS
        invariant
            b <= BUCKETS,
            counts.len() == b,
            forall|j: int| 0 <= j < b ==> counts[j] == 0,
        decreases BUCKETS - b,
    {
        counts.push(0);
        b += 1;
    }
    let mut i: usize = 0;
    while i < nanos.len()
        invariant
            i <= nanos.len(),
            all == lengths(nanos@),
            counts.len() == BUCKETS,
            forall|j: int| 0 <= j < nanos.len() ==> nanos[j] <= MAX_NANOS,
            forall|b: int|
                0 <= b < BUCKETS ==> counts[b] == tally(all.take(i as int), max as nat, b as nat),
        decreases nanos.len() - i,
    {
        let hit: usize = bucket_of(nanos[i], max);
        proof {
            lemma_tally_at_most_len(all.take(i as int), max as nat, hit as nat);
            assert forall|b: int| 0 <= b < BUCKETS implies tally(
                all.take(i + 1),
                max as nat,
                b as nat,
            ) == counts[b] + (if b == hit {
                1nat
            } else {
                0nat
            }) by {
                lemma_tally_step(all, max as nat, b as nat, i as int);
            }
        }
        let seen: usize = counts[hit];
        counts.set(hit, seen + 1);
        i += 1;
    }
    assert(all.take(i as int) =~= all);
    counts
}

/// Whether the durations of the facts add up to a span that a [`Duration`]
/// holds.
pub fn total_fits(facts: &[Fact]) -> (fits: bool)
    ensures
        fits == (total(durations(facts@)) <= MAX_NANOS),
{
    let ghost all = durations(facts@);
    let mut sum: u128 = 0;
    let mut i: usize = 0;
    while i < facts.len()
        invariant
            i <= facts.len(),
            all == durations(facts@),
            sum == total(all.take(i as int)),
            sum <= MAX_NANOS,
        decreases facts.len() - i,
    {
        proof {
            lemma_total_step(all, i as int);
            lemma_total_prefix(all, i + 1);
        }
        sum = sum + facts[i].duration.as_nanos();
        if sum > MAX_NANOS {
            return false;
        }
        i += 1;
    }
    assert(all.take(i as int) =~= all);
    true
}

impl Summary {
    #[verifier::type_invariant]
    spec fn well_formed(self) -> bool {
        self.percentiles.len() == BUCKETS && self.latency_histogram.len() == BUCKETS
    }

    /// The summary of a run without measurements: nothing counted, every
    /// duration zero.
    pub fn zero() -> (summary: Summary)
        ensures
            summary@ == empty_summary(),
    {
        let mut percentiles: Vec<Duration> = Vec::new();
        let mut latency_histogram: Vec<usize> = Vec::new();
        let mut i: usize = 0;
        while i < BUCKETS
            invariant
                i <= BUCKETS,
                percentiles.len() == i,
                latency_histogram.len() == i,
                forall|j: int| 0 <= j < i ==> percentiles[j]@ == 0,
                forall|j: int| 0 <= j < i ==> latency_histogram[j] == 0,
            decreases BUCKETS - i,
        {
            percentiles.push(Duration::zero());
            latency_histogram.push(0);
            i += 1;
        }
        let summary = Summary {
            average: Duration::zero(),
            median: Duration::zero(),
            max: Duration::zero(),
            min: Duration::zero(),
            count: 0,
            percentiles,
            latency_histogram,
        };
        assert(summary@.percentiles =~= empty_summary().percentiles);
        assert(summary@.latency_histogram =~= empty_summary().latency_histogram);
        summary
    }

    /// The summary of the run that measured `facts`. The durations must add
    /// up to a span that a [`Duration`] holds.
    pub fn from_facts(facts: &[Fact]) -> (summary: Summary)
        requires
            total(durations(facts@)) <= MAX_NANOS,
        ensures
            summary@ == summarize(durations(facts@)),
            summary@.percentiles.len() == BUCKETS,
            summary@.latency_histogram.len() == BUCKETS,
            facts@.len() == 0 ==> summary@ == empty_summary(),
    {
        if facts.len() == 0 {
            return Summary::zero();
        }
        let ghost measured = durations(facts@);
        let count: usize = facts.len();
        let mut sorted: Vec<u128> = nanos_of(facts);
        let sum: u128 = sum_of(&sorted);
        let average: u128 = sum / (count as u128);
        let ghost unsorted = sorted@;
        sort_ascending(&mut sorted);
        proof {
            lemma_ascending(measured);
            assert(lengths(sorted@).len() == sorted.len());
            lemma_sorted_keeps_bound(unsorted, sorted@, MAX_NANOS);
        }
        let median: u128 = median_of(&sorted);
        let min: u128 = sorted[0];
        let max: u128 = sorted[count - 1];
        let percentiles: Vec<Duration> = percentiles_of(&sorted);
        let latency_histogram: Vec<usize> = histogram_of(&sorted, max);
        let summary = Summary {
            average: Duration::from_nanos(average),
            median: Duration::from_nanos(median),
            max: Duration::from_nanos(max),
            min: Duration::from_nanos(min),
            count,
            percentiles,
            latency_histogram,
        };
        proof {
            let expected = summarize(measured);
            assert(summary@.percentiles =~= expected.percentiles);
            assert forall|b: int| 0 <= b < BUCKETS implies summary@.latency_histogram[b]
                == expected.latency_histogram[b] by {
                lemma_tally_rearranged(lengths(sorted@), measured, max as nat, b as nat);
            }
            assert(summary@.latency_histogram =~= expected.latency_histogram);
        }
        summary
    }

    /// The summary of the run that measured `facts`, or `None` where the
    /// durations add up to more than a [`Duration`] holds.
    pub fn try_from_facts(facts: &[Fact]) -> (summary: Option<Summary>)
        ensures
            summary is Some <==> total(durations(facts@)) <= MAX_NANOS,
            summary matches Some(s) ==> s@ == summarize(durations(facts@)),
    {
        if total_fits(facts) {
            Some(Summary::from_facts(facts))
        } else {
            None
        }
    }

    /// The mean of the durations, rounded down to a whole nanosecond.
    pub fn average(&self) -> (average: Duration)
        ensures
            average@ == self@.average,
    {
        self.average
    }

    /// The median of the durations.
    pub fn median(&self) -> (median: Duration)
        ensures
            median@ == self@.median,
    {
        self.median
    }

    /// The longest duration.
    pub fn max(&self) -> (max: Duration)
        ensures
            max@ == self@.max,
    {
        self.max
    }

    /// The shortest duration.
    pub fn min(&self) -> (min: Duration)
        ensures
            min@ == self@.min,
    {
        self.min
    }

    /// The number of requests measured.
    pub fn count(&self) -> (count: usize)
        ensures
            count == self@.count,
    {
        self.count
    }

    /// The percentile points, from the shortest duration up: point `i`
    /// stands for the `2 * i`-th percentile.
    pub fn percentiles(&self) -> (points: &[Duration])
        ensures
            points@.len() == BUCKETS,
            points@.map_values(|d: Duration| d@) == self@.percentiles,
    {
        proof {
            use_type_invariant(self);
        }
        self.percentiles.as_slice()
    }

    /// The histogram: how many durations fell into each of the equal parts
    /// of the range from zero to the longest duration.
    pub fn latency_histogram(&self) -> (counts: &[usize])
        ensures
            counts@.len() == BUCKETS,
            counts@.map_values(|c: usize| c as nat) == self@.latency_histogram,
    {
        proof {
            use_type_invariant(self);
        }
        self.latency_histogram.as_slice()
    }
}

} // verus!
