//! Bounded latency histograms: 1 ns to 60 s at three significant figures.
//!
//! The buckets themselves are `hdrhistogram`'s. This module names what such a histogram holds and
//! states what each call into it does to that.

use hdrhistogram::{AdditionError, CreationError, Histogram};
use vstd::arithmetic::power2::*;
use vstd::prelude::*;

verus! {

/// Lowest latency that is told apart from zero, in nanoseconds.
pub const HIST_LOW_NS: u64 = 1;

/// Upper bound of the tracked latencies: 60 s in nanoseconds.
pub const HIST_HIGH_NS: u64 = 60_000_000_000;

/// Significant decimal figures that are kept of each latency.
pub const HIST_SIGFIGS: u8 = 3;

/// Latencies below this one have a bucket each.
pub const UNIT_BUCKETS: u64 = 2048;

/// Every further doubling of the latency is divided into this many buckets.
pub const HALF_BUCKETS: u64 = 1024;

/// The first latency past the last bucket. Buckets come by whole doublings, so the last one
/// reaches past [`HIST_HIGH_NS`].
pub const COVERED_NS: u64 = 68_719_476_736;

/// How many buckets there are below [`COVERED_NS`].
pub const BUCKETS: u64 = 27_648;

/// `hdrhistogram::CreationError`: nothing is read of it.
#[verifier::external_type_specification]
#[verifier::external_body]
pub struct ExCreationError(CreationError);

/// `hdrhistogram::AdditionError`: nothing is read of it.
#[verifier::external_type_specification]
#[verifier::external_body]
pub struct ExAdditionError(AdditionError);

/// A latency histogram, held in an `hdrhistogram::Histogram` of `u64` counters.
///
/// Nothing is seen of the histogram inside but [`bucket_counts`] and [`made_with`].
#[verifier::external_body]
pub struct LatencyHistogram {
    inner: Histogram<u64>,
}

/// How many samples each bucket of `histogram` holds, from the bucket of latency zero upwards.
pub uninterp spec fn bucket_counts(histogram: LatencyHistogram) -> Seq<u64>;

/// What `histogram` was made with: its lowest discernible value, its highest trackable value and
/// its significant figures.
pub uninterp spec fn made_with(histogram: LatencyHistogram) -> (u64, u64, u8);

/// The histogram tracks 1 ns to 60 s at three figures.
pub open spec fn bounded(histogram: LatencyHistogram) -> bool {
    &&& made_with(histogram) == (HIST_LOW_NS, HIST_HIGH_NS, HIST_SIGFIGS)
    &&& bucket_counts(histogram).len() == BUCKETS
}

/// Buckets that hold nothing.
pub open spec fn no_samples() -> Seq<u64> {
    Seq::new(BUCKETS as nat, |i: int| 0u64)
}

/// The bucket that covers `ns`: one bucket per value below [`UNIT_BUCKETS`], and from there on
/// buckets that are twice as wide for every doubling of the value.
pub open spec fn covering_bucket(ns: int) -> int
    decreases ns,
{
    if ns < UNIT_BUCKETS {
        ns
    } else {
        HALF_BUCKETS + covering_bucket(ns / 2)
    }
}

/// The highest value that `bucket` covers.
pub open spec fn bucket_top(bucket: int) -> int
    decreases bucket,
{
    if bucket < UNIT_BUCKETS {
        bucket
    } else {
        2 * bucket_top(bucket - HALF_BUCKETS) + 1
    }
}

/// `ns` clamped to the upper bound: a tail spike counts as 60 s.
pub open spec fn in_bounds(ns: u64) -> u64 {
    if ns > HIST_HIGH_NS {
        HIST_HIGH_NS
    } else {
        ns
    }
}

/// No bucket of `counts` above that of the upper bound holds a sample.
pub open spec fn within_bound(counts: Seq<u64>) -> bool {
    forall|i: int|
        covering_bucket(HIST_HIGH_NS as int) < i < counts.len() ==> #[trigger] counts[i] == 0
}

/// The bucket in which the histogram counts a sample of `ns`: the one that covers it, or, past the
/// last bucket, the one that covers the upper bound.
pub open spec fn sample_bucket(ns: u64) -> int {
    if ns < COVERED_NS {
        covering_bucket(ns as int)
    } else {
        covering_bucket(HIST_HIGH_NS as int)
    }
}

/// `n` as a counter holds it: counters stop at their largest value.
pub open spec fn saturated(n: int) -> u64 {
    if n > u64::MAX {
        u64::MAX
    } else {
        n as u64
    }
}

/// `counts` after one more sample of `ns`.
pub open spec fn with_sample(counts: Seq<u64>, ns: u64) -> Seq<u64> {
    counts.update(sample_bucket(ns), saturated(counts[sample_bucket(ns)] + 1))
}

/// Two histograms' counts put together, bucket by bucket.
pub open spec fn added(a: Seq<u64>, b: Seq<u64>) -> Seq<u64> {
    Seq::new(a.len(), |i: int| saturated(a[i] + b[i]))
}

/// `pairs` lists the buckets of `counts` that hold samples, in ascending order, each by the
/// highest value it covers and by its count.
pub open spec fn lists_samples(pairs: Seq<(u64, u64)>, counts: Seq<u64>) -> bool {
    &&& forall|j: int|
        0 <= j < pairs.len() ==> {
            let bucket = covering_bucket((#[trigger] pairs[j]).0 as int);
            &&& 0 <= bucket < counts.len()
            &&& pairs[j].0 == bucket_top(bucket)
            &&& pairs[j].1 == counts[bucket]
            &&& pairs[j].1 > 0
        }
    &&& forall|j: int, k: int| 0 <= j < k < pairs.len() ==> pairs[j].0 < pairs[k].0
    &&& forall|i: int|
        0 <= i < counts.len() && #[trigger] counts[i] > 0 ==> exists|j: int|
            0 <= j < pairs.len() && (#[trigger] pairs[j]).0 == bucket_top(i)
}

/// `Histogram::new_with_bounds`, for a lowest discernible value of one: with at most five figures
/// and an upper bound of at least two, it makes a histogram of those bounds whose buckets are all
/// empty. With three figures the buckets are 2048 of width one and then 1024 for each doubling
/// that is needed to cover the upper bound: [`BUCKETS`] of them for 60 s.
#[verifier::external_body]
fn new_with_bounds(low: u64, high: u64, sigfig: u8) -> (made: Result<
    LatencyHistogram,
    CreationError,
>)
    requires
        low == 1,
        high >= 2,
        sigfig <= 5,
    ensures
        made is Ok,
        made_with(made->Ok_0) == (low, high, sigfig),
        forall|i: int|
            0 <= i < bucket_counts(made->Ok_0).len() ==> bucket_counts(made->Ok_0)[i] == 0,
        high == HIST_HIGH_NS && sigfig == HIST_SIGFIGS ==> bucket_counts(made->Ok_0).len()
            == BUCKETS,
{
    Histogram::new_with_bounds(low, high, sigfig).map(|inner| LatencyHistogram { inner })
}

/// `Histogram::saturating_record`: one sample is added to the count of the bucket that covers the
/// value, and a value past the last bucket counts as the upper bound. A full counter stays full.
#[verifier::external_body]
pub(crate) fn saturating_record(histogram: &mut LatencyHistogram, value: u64)
    requires
        bounded(*old(histogram)),
    ensures
        made_with(*final(histogram)) == made_with(*old(histogram)),
        bucket_counts(*final(histogram)) == with_sample(bucket_counts(*old(histogram)), value),
{
    histogram.inner.saturating_record(value)
}

/// `Histogram::add` of a histogram with the same bounds: it succeeds, and every bucket's count
/// grows by the other's count of that bucket, up to the largest counter.
#[verifier::external_body]
pub(crate) fn add_counts(
    histogram: &mut LatencyHistogram,
    source: &LatencyHistogram,
) -> (outcome: Result<(), AdditionError>)
    requires
        bounded(*old(histogram)),
        bounded(*source),
    ensures
        outcome is Ok,
        made_with(*final(histogram)) == made_with(*old(histogram)),
        bucket_counts(*final(histogram)) == added(
            bucket_counts(*old(histogram)),
            bucket_counts(*source),
        ),
{
    histogram.inner.add(&source.inner)
}

/// `Histogram::reset`: every bucket is emptied, the bounds stay.
#[verifier::external_body]
pub(crate) fn reset_counts(histogram: &mut LatencyHistogram)
    requires
        bounded(*old(histogram)),
    ensures
        made_with(*final(histogram)) == made_with(*old(histogram)),
        bucket_counts(*final(histogram)) == no_samples(),
{
    histogram.inner.reset()
}

/// `Histogram::iter_recorded`: it visits the buckets that hold samples in ascending order and
/// hands out the highest value that each covers, with its count.
#[verifier::external_body]
fn recorded_values(histogram: &LatencyHistogram) -> (pairs: Vec<(u64, u64)>)
    requires
        bounded(*histogram),
    ensures
        lists_samples(pairs@, bucket_counts(*histogram)),
{
    histogram.inner.iter_recorded().map(|v| (v.value_iterated_to(), v.count_at_value())).collect()
}

/// An empty histogram for latencies of 1 ns to 60 s.
pub fn new_bounded_histogram() -> (histogram: LatencyHistogram)
    ensures
        bounded(histogram),
        bucket_counts(histogram) == no_samples(),
{
    let made = new_with_bounds(HIST_LOW_NS, HIST_HIGH_NS, HIST_SIGFIGS);
    let histogram = made.expect("fixed bounds 1ns..60s at 3 sigfigs are always valid");
    assert(bucket_counts(histogram) =~= no_samples());
    histogram
}

/// After `doublings` doublings past the unit buckets, that many halves have been used up.
proof fn lemma_covered_range(ns: int, doublings: nat)
    requires
        0 <= ns < UNIT_BUCKETS * pow2(doublings),
    ensures
        0 <= covering_bucket(ns) < UNIT_BUCKETS + HALF_BUCKETS * doublings,
    decreases doublings,
{
    lemma2_to64();
    if ns >= UNIT_BUCKETS {
        assert(doublings > 0);
        lemma_pow2_unfold(doublings);
        lemma_covered_range(ns / 2, (doublings - 1) as nat);
    }
}

impl LatencyHistogram {
    /// The buckets that hold samples, in ascending order: the highest latency that each covers,
    /// in nanoseconds, and how many samples it holds.
    pub fn recorded(&self) -> (pairs: Vec<(u64, u64)>)
        requires
            bounded(*self),
        ensures
            lists_samples(pairs@, bucket_counts(*self)),
    {
        recorded_values(self)
    }
}

/// Every latency below [`COVERED_NS`] is covered by one of the [`BUCKETS`], so every sample is
/// counted somewhere.
pub proof fn law_every_sample_has_a_bucket(ns: u64)
    ensures
        0 <= sample_bucket(ns) < BUCKETS,
{
    lemma2_to64();
    if ns < COVERED_NS {
        lemma_covered_range(ns as int, 25);
    } else {
        lemma_covered_range(HIST_HIGH_NS as int, 25);
    }
}

/// A latency above the upper bound, however large, counts exactly as one of 60 s would.
pub proof fn law_spike_counts_as_the_upper_bound(counts: Seq<u64>, ns: u64)
    requires
        ns > HIST_HIGH_NS,
    ensures
        with_sample(counts, in_bounds(ns)) == with_sample(counts, HIST_HIGH_NS),
{
}

/// Recording stays within the bound: whatever the latency, no bucket above that of 60 s gets a
/// sample.
pub proof fn law_recording_stays_within_bound(counts: Seq<u64>, ns: u64)
    requires
        counts.len() == BUCKETS,
        within_bound(counts),
    ensures
        within_bound(with_sample(counts, in_bounds(ns))),
{
    law_every_sample_has_a_bucket(in_bounds(ns));
    lemma_covering_bucket_ascends(in_bounds(ns) as int, HIST_HIGH_NS as int);
}

proof fn lemma_covering_bucket_ascends(low: int, high: int)
    requires
        0 <= low <= high,
    ensures
        covering_bucket(low) <= covering_bucket(high),
    decreases high,
{
    lemma_bucket_width(low);
    lemma_bucket_width(high);
    if low >= UNIT_BUCKETS {
        lemma_covering_bucket_ascends(low / 2, high / 2);
    }
}

/// Latencies up to the bound keep three significant figures: what a bucket reports of a sample is
/// no smaller than the sample, and larger by at most one part in a thousand.
pub proof fn law_three_figures_are_kept(ns: u64)
    requires
        ns <= HIST_HIGH_NS,
    ensures
        ns <= bucket_top(sample_bucket(in_bounds(ns))),
        1000 * (bucket_top(sample_bucket(in_bounds(ns))) - ns) <= ns,
{
    lemma_bucket_width(ns as int);
}

proof fn lemma_bucket_width(ns: int)
    requires
        0 <= ns,
    ensures
        covering_bucket(ns) >= 0,
        covering_bucket(ns) < UNIT_BUCKETS <==> ns < UNIT_BUCKETS,
        covering_bucket(ns) >= HALF_BUCKETS <==> ns >= HALF_BUCKETS,
        ns <= bucket_top(covering_bucket(ns)),
        ns < UNIT_BUCKETS ==> bucket_top(covering_bucket(ns)) == ns,
        ns >= UNIT_BUCKETS ==> HALF_BUCKETS * (bucket_top(covering_bucket(ns)) - ns + 1) <= ns,
    decreases ns,
{
    if ns >= UNIT_BUCKETS {
        lemma_bucket_width(ns / 2);
    }
}

/// The highest value of a bucket lies in that bucket.
pub proof fn law_bucket_covers_its_top(bucket: int)
    requires
        0 <= bucket,
    ensures
        covering_bucket(bucket_top(bucket)) == bucket,
    decreases bucket,
{
    lemma_bucket_top_range(bucket);
    if bucket >= UNIT_BUCKETS {
        law_bucket_covers_its_top(bucket - HALF_BUCKETS);
        assert(bucket_top(bucket) / 2 == bucket_top(bucket - HALF_BUCKETS));
    }
}

proof fn lemma_bucket_top_range(bucket: int)
    requires
        0 <= bucket,
    ensures
        bucket_top(bucket) >= bucket,
    decreases bucket,
{
    if bucket >= UNIT_BUCKETS {
        lemma_bucket_top_range(bucket - HALF_BUCKETS);
    }
}

/// A latency histogram tracks 1 ns to 60 s at three figures, in 27 648 buckets.
pub proof fn law_histograms_track_up_to_a_minute(histogram: LatencyHistogram)
    ensures
        bounded(histogram) <==> made_with(histogram) == (1u64, 60_000_000_000u64, 3u8)
            && bucket_counts(histogram).len() == 27_648,
{
}

/// An empty histogram has all its buckets, and each of them holds nothing.
pub proof fn law_empty_histogram_holds_nothing(b: int)
    ensures
        no_samples().len() == 27_648,
        0 <= b < 27_648 ==> no_samples()[b] == 0,
{
}

/// Clamping keeps every latency of up to 60 s and brings every other down to 60 s.
pub proof fn law_clamp_keeps_what_is_in_bounds(ns: u64)
    ensures
        ns <= 60_000_000_000 ==> in_bounds(ns) == ns,
        ns > 60_000_000_000 ==> in_bounds(ns) == 60_000_000_000,
{
}

/// A counter holds every number that fits, and stops at the largest one.
pub proof fn law_counters_stop_at_the_largest(n: int)
    requires
        0 <= n,
    ensures
        n <= 0xffff_ffff_ffff_ffff ==> saturated(n) == n,
        n > 0xffff_ffff_ffff_ffff ==> saturated(n) == 0xffff_ffff_ffff_ffff,
{
}

/// Putting two histograms together adds up every bucket, up to the largest counter.
pub proof fn law_histograms_add_up_by_bucket(a: Seq<u64>, b: Seq<u64>, i: int)
    requires
        0 <= i < a.len(),
        a.len() == b.len(),
    ensures
        added(a, b).len() == a.len(),
        a[i] + b[i] <= 0xffff_ffff_ffff_ffff ==> added(a, b)[i] == a[i] + b[i],
        a[i] + b[i] > 0xffff_ffff_ffff_ffff ==> added(a, b)[i] == 0xffff_ffff_ffff_ffff,
{
}

proof fn lemma_bucket_top_ascends(low: int, high: int)
    requires
        0 <= low <= high,
    ensures
        bucket_top(low) <= bucket_top(high),
        low < high ==> bucket_top(low) < bucket_top(high),
    decreases high,
{
    lemma_bucket_top_range(high);
    if low >= UNIT_BUCKETS {
        lemma_bucket_top_ascends(low - HALF_BUCKETS, high - HALF_BUCKETS);
    }
}

/// Buckets divide the latencies up: the bucket of a latency is the one whose highest value is not
/// below it, while that of the bucket before is. Up to 2047 ns every latency has its own bucket.
pub proof fn law_buckets_divide_the_latencies(ns: int, b: int)
    requires
        0 <= ns,
        0 <= b,
    ensures
        covering_bucket(ns) == b <==> ns <= bucket_top(b) && (b == 0 || bucket_top(b - 1) < ns),
        b < 2048 ==> bucket_top(b) == b,
        b >= 2048 ==> bucket_top(b) == 2 * bucket_top(b - 1024) + 1,
        bucket_top(27_647) == 68_719_476_735,
{
    let own = covering_bucket(ns);
    lemma_bucket_width(ns);
    if own > 0 {
        law_bucket_covers_its_top(own - 1);
        lemma_bucket_top_range(own - 1);
        if ns <= bucket_top(own - 1) {
            lemma_covering_bucket_ascends(ns, bucket_top(own - 1));
        }
    }
    if own < b {
        lemma_bucket_top_ascends(own, b - 1);
    } else if b < own {
        lemma_bucket_top_ascends(b, own - 1);
    }
    reveal_with_fuel(bucket_top, 27);
}

/// Recording a latency adds one to the count of exactly one bucket, the one that the latency,
/// clamped to 60 s, belongs to; a full counter stays full, and no other bucket changes.
pub proof fn law_sample_is_counted_in_its_bucket(counts: Seq<u64>, ns: u64, b: int)
    requires
        counts.len() == 27_648,
        0 <= b < 27_648,
    ensures
        ({
            let after = with_sample(counts, in_bounds(ns));
            let latency = if ns > 60_000_000_000 {
                60_000_000_000
            } else {
                ns as int
            };
            let own = latency <= bucket_top(b) && (b == 0 || bucket_top(b - 1) < latency);
            &&& after.len() == 27_648
            &&& own && counts[b] < 0xffff_ffff_ffff_ffff ==> after[b] == counts[b] + 1
            &&& own && counts[b] == 0xffff_ffff_ffff_ffff ==> after[b] == 0xffff_ffff_ffff_ffff
            &&& !own ==> after[b] == counts[b]
        }),
{
    law_every_sample_has_a_bucket(in_bounds(ns));
    law_buckets_divide_the_latencies(in_bounds(ns) as int, b);
}

/// Counts are within the bound where no bucket that lies above 60 s as a whole holds a sample.
pub proof fn law_bound_is_sixty_seconds(counts: Seq<u64>)
    requires
        counts.len() == 27_648,
    ensures
        within_bound(counts) <==> forall|b: int|
            0 < b < 27_648 && bucket_top(b - 1) >= 60_000_000_000 ==> #[trigger] counts[b] == 0,
{
    let own = covering_bucket(60_000_000_000);
    lemma_bucket_width(60_000_000_000);
    law_buckets_divide_the_latencies(60_000_000_000, own);
    assert forall|b: int| 0 < b < 27_648 implies (bucket_top(b - 1) >= 60_000_000_000 <==> own < b)
        && #[trigger] counts[b] == counts[b] by {
        if own < b {
            lemma_bucket_top_ascends(own, b - 1);
        } else {
            lemma_bucket_top_ascends(b - 1, own - 1);
        }
    }
}

/// The list of samples leaves none out and makes none up: every bucket that holds samples is
/// listed once, in ascending order, by its highest value and with its count.
pub proof fn law_list_of_samples_is_complete(pairs: Seq<(u64, u64)>, counts: Seq<u64>)
    requires
        lists_samples(pairs, counts),
        counts.len() == 27_648,
    ensures
        forall|b: int|
            0 <= b < 27_648 && #[trigger] counts[b] > 0 ==> exists|j: int|
                0 <= j < pairs.len() && (#[trigger] pairs[j]).0 == bucket_top(b) && pairs[j].1
                    == counts[b],
        forall|j: int|
            0 <= j < pairs.len() ==> {
                let b = covering_bucket((#[trigger] pairs[j]).0 as int);
                0 <= b < 27_648 && pairs[j].0 == bucket_top(b) && pairs[j].1 == counts[b]
                    && counts[b] > 0
            },
        forall|j: int, k: int|
            0 <= j < k < pairs.len() ==> (#[trigger] pairs[j]).0 < (#[trigger] pairs[k]).0,
{
    assert forall|b: int| 0 <= b < 27_648 && #[trigger] counts[b] > 0 implies exists|j: int|
        0 <= j < pairs.len() && (#[trigger] pairs[j]).0 == bucket_top(b) && pairs[j].1
            == counts[b] by {
        let j = choose|j: int| 0 <= j < pairs.len() && (#[trigger] pairs[j]).0 == bucket_top(b);
        law_bucket_covers_its_top(b);
        assert(pairs[j].1 == counts[b]);
    }
}

/// A histogram without samples lists none, and one with a single sample lists that sample alone,
/// at no less than its latency, clamped to 60 s, and at most one part in a thousand above it.
pub proof fn law_single_sample_is_listed_alone(pairs: Seq<(u64, u64)>, ns: u64)
    ensures
        lists_samples(pairs, no_samples()) ==> pairs.len() == 0,
        lists_samples(pairs, with_sample(no_samples(), in_bounds(ns))) ==> {
            let latency = if ns > 60_000_000_000 {
                60_000_000_000
            } else {
                ns as int
            };
            &&& pairs.len() == 1
            &&& pairs[0].1 == 1
            &&& latency <= pairs[0].0
            &&& 1000 * (pairs[0].0 - latency) <= latency
        },
{
    if lists_samples(pairs, no_samples()) && pairs.len() > 0 {
        assert(pairs[0].1 > 0);
    }
    let counts = with_sample(no_samples(), in_bounds(ns));
    let own = sample_bucket(in_bounds(ns));
    law_every_sample_has_a_bucket(in_bounds(ns));
    law_three_figures_are_kept(in_bounds(ns));
    if lists_samples(pairs, counts) {
        law_list_of_samples_is_complete(pairs, counts);
        assert(counts[own] == 1);
        assert forall|j: int| 0 <= j < pairs.len() implies (#[trigger] pairs[j]).0 == bucket_top(
            own,
        ) && pairs[j].1 == 1 by {
            assert(counts[covering_bucket(pairs[j].0 as int)] > 0);
        }
        if pairs.len() > 1 {
            assert(pairs[0].0 < pairs[1].0);
        }
    }
}

} // verus!
