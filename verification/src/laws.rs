//! What holds of the hot path as a whole, over the views that its functions' contracts use.

use crate::histogram;
use crate::hot_path;
use crate::hot_path::{MetricsGate, RegistryView, ThreadView};
use vstd::arithmetic::div_mod::*;
use vstd::arithmetic::power2::*;
use vstd::bits::*;
use vstd::prelude::*;

verus! {

/// What is drained after a merge is what would have been drained before it, plus what the
/// thread held: no sample and no message is lost or counted twice.
pub proof fn law_merge_then_drain(thread: ThreadView, registry: RegistryView)
    requires
        thread.valid(),
        registry.valid(),
        thread.linked(registry),
    ensures
        ({
            let after = hot_path::handed_off(thread, registry);
            &&& forall|b: int|
                0 <= b < histogram::BUCKETS ==> #[trigger] hot_path::snapshot(after.latencies)[b]
                    == histogram::saturated(
                    hot_path::bucket_total(registry.latencies, b) + thread.latencies[b],
                )
            &&& hot_path::wrapped(hot_path::count_total(after.counts)) == hot_path::wrapped(
                hot_path::count_total(registry.counts) + thread.count,
            )
        }),
{
    let after = hot_path::handed_off(thread, registry);
    assert forall|b: int| 0 <= b < histogram::BUCKETS implies #[trigger] hot_path::snapshot(
        after.latencies,
    )[b] == histogram::saturated(
        hot_path::bucket_total(registry.latencies, b) + thread.latencies[b],
    ) by {
        lemma_samples_handed_off(thread, registry, b, 0);
    }
    lemma_count_handed_off(thread, registry, 0);
}

/// Several threads add up: what is drained after two of them have merged is what would have been
/// drained before, plus what each of them held, whichever merged first.
pub proof fn law_threads_add_up(one: ThreadView, other: ThreadView, registry: RegistryView)
    requires
        one.valid(),
        other.valid(),
        registry.valid(),
        one.linked(registry),
        other.linked(registry),
        apart(one, other),
    ensures
        ({
            let after = hot_path::handed_off(other, hot_path::handed_off(one, registry));
            &&& forall|b: int|
                0 <= b < histogram::BUCKETS ==> #[trigger] hot_path::snapshot(after.latencies)[b]
                    == histogram::saturated(
                    hot_path::bucket_total(registry.latencies, b) + one.latencies[b]
                        + other.latencies[b],
                )
            &&& hot_path::wrapped(hot_path::count_total(after.counts)) == hot_path::wrapped(
                hot_path::count_total(registry.counts) + one.count + other.count,
            )
        }),
{
    let between = hot_path::handed_off(one, registry);
    let after = hot_path::handed_off(other, between);
    law_merge_keeps_other_threads_apart(one, other, registry);
    assert forall|b: int| 0 <= b < histogram::BUCKETS implies #[trigger] hot_path::snapshot(
        after.latencies,
    )[b] == histogram::saturated(
        hot_path::bucket_total(registry.latencies, b) + one.latencies[b] + other.latencies[b],
    ) by {
        lemma_samples_handed_off(other, between, b, 0);
        lemma_samples_handed_off(one, registry, b, other.latencies[b] as int);
    }
    lemma_count_handed_off(other, between, 0);
    lemma_count_handed_off(one, registry, other.count);
}

/// A slot whose counter is full hides how much was handed off to it, but not from a total that
/// is capped in the same way.
proof fn lemma_samples_handed_off(thread: ThreadView, registry: RegistryView, b: int, more: int)
    requires
        thread.valid(),
        registry.valid(),
        thread.linked(registry),
        0 <= b < histogram::BUCKETS,
        0 <= more,
    ensures
        histogram::saturated(
            hot_path::bucket_total(hot_path::handed_off(thread, registry).latencies, b) + more,
        ) == histogram::saturated(
            hot_path::bucket_total(registry.latencies, b) + thread.latencies[b] + more,
        ),
{
    let l = hot_path::slot_or_next(thread.latency_slot, registry.latencies.len());
    let latencies = hot_path::registered(
        registry.latencies,
        thread.latency_slot,
        histogram::no_samples(),
    );
    if thread.latency_slot is None {
        assert(latencies.drop_last() =~= registry.latencies);
    }
    assert(hot_path::bucket_total(latencies, b) == hot_path::bucket_total(registry.latencies, b));
    lemma_bucket_total_update(latencies, l, histogram::added(latencies[l], thread.latencies), b);
    lemma_bucket_total_bounds(latencies, l, b);
}

proof fn lemma_count_handed_off(thread: ThreadView, registry: RegistryView, more: int)
    requires
        thread.valid(),
        thread.linked(registry),
    ensures
        hot_path::wrapped(
            hot_path::count_total(hot_path::handed_off(thread, registry).counts) + more,
        ) == hot_path::wrapped(hot_path::count_total(registry.counts) + thread.count + more),
{
    let c = hot_path::slot_or_next(thread.count_slot, registry.counts.len());
    let counts = hot_path::registered(registry.counts, thread.count_slot, 0u64);
    if thread.count_slot is None {
        assert(counts.drop_last() =~= registry.counts);
    }
    assert(hot_path::count_total(counts) == hot_path::count_total(registry.counts));
    let merged = counts[c] + thread.count;
    lemma_count_total_update(counts, c, hot_path::wrapped(merged) as u64);
    let rest = hot_path::count_total(counts) - counts[c] + more;
    lemma_add_mod_noop(rest, merged, 0x1_0000_0000_0000_0000);
    lemma_add_mod_noop(rest, hot_path::wrapped(merged), 0x1_0000_0000_0000_0000);
    lemma_mod_twice(merged, 0x1_0000_0000_0000_0000);
}

proof fn lemma_bucket_total_update(latencies: Seq<Seq<u64>>, l: int, slot: Seq<u64>, b: int)
    requires
        0 <= l < latencies.len(),
    ensures
        hot_path::bucket_total(latencies.update(l, slot), b) == hot_path::bucket_total(
            latencies,
            b,
        ) - latencies[l][b] + slot[b],
    decreases latencies.len(),
{
    let updated = latencies.update(l, slot);
    if l == latencies.len() - 1 {
        assert(updated.drop_last() =~= latencies.drop_last());
    } else {
        assert(updated.drop_last() =~= latencies.drop_last().update(l, slot));
        lemma_bucket_total_update(latencies.drop_last(), l, slot, b);
    }
}

proof fn lemma_bucket_total_bounds(latencies: Seq<Seq<u64>>, l: int, b: int)
    requires
        0 <= l < latencies.len(),
    ensures
        latencies[l][b] <= hot_path::bucket_total(latencies, b),
    decreases latencies.len(),
{
    if l == latencies.len() - 1 {
        hot_path::lemma_bucket_total_nonnegative(latencies.drop_last(), b);
    } else {
        lemma_bucket_total_bounds(latencies.drop_last(), l, b);
    }
}

proof fn lemma_count_total_update(counts: Seq<u64>, c: int, count: u64)
    requires
        0 <= c < counts.len(),
    ensures
        hot_path::count_total(counts.update(c, count)) == hot_path::count_total(counts) - counts[c]
            + count,
    decreases counts.len(),
{
    let updated = counts.update(c, count);
    if c == counts.len() - 1 {
        assert(updated.drop_last() =~= counts.drop_last());
    } else {
        assert(updated.drop_last() =~= counts.drop_last().update(c, count));
        lemma_count_total_update(counts.drop_last(), c, count);
    }
}

/// A drain leaves nothing behind: drained again at once, there are no samples and no messages.
pub proof fn law_drained_registry_is_empty(slots: nat)
    ensures
        hot_path::snapshot(Seq::new(slots, |i: int| histogram::no_samples()))
            == histogram::no_samples(),
        hot_path::count_total(Seq::new(slots, |i: int| 0u64)) == 0,
    decreases slots,
{
    let latencies = Seq::new(slots, |i: int| histogram::no_samples());
    let counts = Seq::new(slots, |i: int| 0u64);
    if slots > 0 {
        let fewer = (slots - 1) as nat;
        law_drained_registry_is_empty(fewer);
        assert(latencies.drop_last() =~= Seq::new(fewer, |i: int| histogram::no_samples()));
        assert(counts.drop_last() =~= Seq::new(fewer, |i: int| 0u64));
        assert forall|b: int| 0 <= b < histogram::BUCKETS implies #[trigger] hot_path::snapshot(
            latencies,
        )[b] == 0 by {
            hot_path::lemma_bucket_total_nonnegative(latencies.drop_last(), b);
            assert(hot_path::snapshot(latencies.drop_last())[b] == 0);
        }
    }
    assert(hot_path::snapshot(latencies) =~= histogram::no_samples());
}

/// Merging again before anything new was recorded changes nothing.
pub proof fn law_second_merge_adds_nothing(thread: ThreadView, registry: RegistryView)
    requires
        thread.valid(),
        registry.valid(),
        thread.linked(registry),
    ensures
        ({
            let once = hot_path::handed_off(thread, registry);
            let idle = hot_path::emptied(thread, registry);
            &&& hot_path::handed_off(idle, once) == once
            &&& hot_path::emptied(idle, once) == idle
        }),
{
    let once = hot_path::handed_off(thread, registry);
    let idle = hot_path::emptied(thread, registry);
    let twice = hot_path::handed_off(idle, once);
    let l = idle.latency_slot->0;
    assert(histogram::added(once.latencies[l], histogram::no_samples()) =~= once.latencies[l]);
    assert(twice.latencies =~= once.latencies);
    assert(twice.counts =~= once.counts);
}

/// Two threads have no slot in common.
pub open spec fn apart(a: ThreadView, b: ThreadView) -> bool {
    &&& a.latency_slot is Some && b.latency_slot is Some ==> a.latency_slot != b.latency_slot
    &&& a.count_slot is Some && b.count_slot is Some ==> a.count_slot != b.count_slot
}

/// Each thread has slots of its own: a merge leaves every other thread's slots as they were, and
/// the slots that it registers belong to nobody else.
pub proof fn law_merge_keeps_other_threads_apart(
    thread: ThreadView,
    other: ThreadView,
    registry: RegistryView,
)
    requires
        thread.linked(registry),
        other.linked(registry),
        apart(thread, other),
    ensures
        ({
            let after = hot_path::handed_off(thread, registry);
            &&& other.linked(after)
            &&& apart(hot_path::emptied(thread, registry), other)
            &&& other.latency_slot matches Some(l) ==> after.latencies[l] == registry.latencies[l]
            &&& other.count_slot matches Some(c) ==> after.counts[c] == registry.counts[c]
        }),
{
}

/// One slot per thread: a thread's first merge registers one slot for its samples and one for its
/// count, and later merges register none.
pub proof fn law_first_merge_registers_one_slot(thread: ThreadView, registry: RegistryView)
    requires
        thread.linked(registry),
    ensures
        ({
            let after = hot_path::handed_off(thread, registry);
            let idle = hot_path::emptied(thread, registry);
            &&& thread.latency_slot is None ==> after.latencies.len() == registry.latencies.len()
                + 1
            &&& thread.latency_slot is Some ==> after.latencies.len() == registry.latencies.len()
            &&& thread.count_slot is None ==> after.counts.len() == registry.counts.len() + 1
            &&& thread.count_slot is Some ==> after.counts.len() == registry.counts.len()
            &&& idle.latency_slot is Some
            &&& idle.count_slot is Some
            &&& idle.linked(after)
        }),
{
}

/// A thread that has just refreshed sees the metrics gate as it was then, whatever the flag reads
/// now.
pub proof fn law_refreshed_thread_sees_the_gate<F: FnOnce() -> bool>(
    thread: ThreadView,
    gate: MetricsGate,
    shared: F,
    on: bool,
)
    ensures
        hot_path::sees_gate(
            ThreadView { gate_mirror: Some(gate.on), ..thread },
            shared,
            on,
        ) <==> on == gate.on,
        hot_path::may_read(ThreadView { gate_mirror: Some(gate.on), ..thread }, shared),
{
}

/// `mask` selects the lowest `n` bits.
pub open spec fn low_bits(mask: u64, n: nat) -> bool {
    n <= 64 && mask == pow2(n) - 1
}

/// A thread's first call of the sampler fires, whatever the mask.
pub proof fn law_first_call_samples(mask: u64)
    ensures
        hot_path::samples(ThreadView::fresh().sample_counter, mask),
{
    assert(0u64 & mask == 0) by (bit_vector);
}

/// With a mask of `2^n - 1`, the sampler fires on every `2^n`-th value of its counter.
pub proof fn law_samples_on_multiples(counter: u64, mask: u64, n: nat)
    requires
        low_bits(mask, n),
    ensures
        hot_path::samples(counter, mask) <==> counter as int % (mask + 1) == 0,
{
    lemma2_to64();
    if n < 64 {
        lemma_u64_low_bits_mask_is_mod(counter, n);
        lemma_u64_pow2_no_overflow(n);
    } else {
        assert(mask == u64::MAX);
        assert(counter & u64::MAX == counter) by (bit_vector);
        lemma_small_mod(counter as nat, (mask + 1) as nat);
    }
}

/// The counter that the sampler finds `k` calls after it found `counter`.
pub open spec fn later(counter: u64, k: int) -> u64 {
    hot_path::wrapped(counter + k) as u64
}

/// With a mask of `2^n - 1`, any `mask + 1` consecutive calls of the sampler fire exactly once,
/// also where the counter wraps around.
pub proof fn law_one_sample_per_period(counter: u64, mask: u64, n: nat)
    requires
        low_bits(mask, n),
    ensures
        exists|k: int|
            #![trigger later(counter, k)]
            0 <= k <= mask && hot_path::samples(later(counter, k), mask) && (forall|j: int|
                #![trigger later(counter, j)]
                0 <= j <= mask && j != k ==> !hot_path::samples(later(counter, j), mask)),
{
    let period = mask + 1;
    let k = (period - counter as int % period) % period;
    assert forall|j: int| #![trigger later(counter, j)] 0 <= j <= mask implies (
    hot_path::samples(later(counter, j), mask) <==> j == k) by {
        lemma_samples_later(counter, j, mask, n);
        let r = counter as int % period;
        lemma_add_mod_noop_right(j, counter as int, period);
        if r + j < period {
            lemma_small_mod((r + j) as nat, period as nat);
        } else {
            lemma_mod_sub_multiples_vanish(r + j, period);
            lemma_small_mod((r + j - period) as nat, period as nat);
        }
        if r > 0 {
            lemma_small_mod((period - r) as nat, period as nat);
        } else {
            lemma_mod_self_0(period);
        }
    }
    assert(0 <= k <= mask && hot_path::samples(later(counter, k), mask));
}

/// After a call that fires, the next one to fire is exactly `mask + 1` calls later.
pub proof fn law_samples_again_one_period_later(counter: u64, mask: u64, n: nat)
    requires
        low_bits(mask, n),
        hot_path::samples(counter, mask),
    ensures
        hot_path::samples(later(counter, mask + 1), mask),
        forall|j: int|
            #![trigger later(counter, j)]
            0 < j <= mask ==> !hot_path::samples(later(counter, j), mask),
{
    let period = mask + 1;
    law_samples_on_multiples(counter, mask, n);
    lemma_samples_later(counter, period, mask, n);
    lemma_mod_add_multiples_vanish(counter as int, period);
    assert forall|j: int| #![trigger later(counter, j)] 0 < j <= mask implies !hot_path::samples(
        later(counter, j),
        mask,
    ) by {
        lemma_samples_later(counter, j, mask, n);
        lemma_add_mod_noop_right(j, counter as int, period);
        lemma_small_mod(j as nat, period as nat);
    }
}

/// Wrapping around does not disturb the sampler: its period divides the range of its counter.
proof fn lemma_samples_later(counter: u64, k: int, mask: u64, n: nat)
    requires
        low_bits(mask, n),
        0 <= k,
    ensures
        hot_path::samples(later(counter, k), mask) <==> (counter + k) % (mask + 1) == 0,
{
    let rest = (64 - n) as nat;
    lemma2_to64();
    lemma_pow2_adds(n, rest);
    lemma_pow2_pos(n);
    lemma_pow2_pos(rest);
    lemma_mod_mod(counter + k, pow2(n) as int, pow2(rest) as int);
    lemma_mod_bound(counter + k, 0x1_0000_0000_0000_0000);
    law_samples_on_multiples(later(counter, k), mask, n);
}

/// What a thread's message counter holds after `messages` calls of `count_msg`.
pub open spec fn counted(count: int, messages: nat) -> int
    decreases messages,
{
    if messages == 0 {
        count
    } else {
        hot_path::wrapped(counted(count, (messages - 1) as nat) + 1)
    }
}

/// Every message counts once: `messages` calls add that many, modulo 2^64.
pub proof fn law_every_message_counts_once(count: int, messages: nat)
    requires
        0 <= count <= u64::MAX,
    ensures
        counted(count, messages) == hot_path::wrapped(count + messages),
    decreases messages,
{
    if messages == 0 {
        lemma_small_mod(count as nat, 0x1_0000_0000_0000_0000);
    } else {
        law_every_message_counts_once(count, (messages - 1) as nat);
        lemma_add_mod_noop(count + messages - 1, 1, 0x1_0000_0000_0000_0000);
        lemma_small_mod(1, 0x1_0000_0000_0000_0000);
    }
}

/// All samples that `counts` holds.
pub open spec fn sample_total(counts: Seq<u64>) -> int {
    hot_path::count_total(counts)
}

/// Recording adds exactly one sample, in the bucket of the latency clamped to the bound, unless
/// that bucket's counter is full.
pub proof fn law_recording_adds_one_sample(counts: Seq<u64>, ns: u64)
    requires
        counts.len() == histogram::BUCKETS,
        counts[histogram::sample_bucket(histogram::in_bounds(ns))] < u64::MAX,
    ensures
        sample_total(histogram::with_sample(counts, histogram::in_bounds(ns))) == sample_total(
            counts,
        ) + 1,
{
    let bucket = histogram::sample_bucket(histogram::in_bounds(ns));
    histogram::law_every_sample_has_a_bucket(histogram::in_bounds(ns));
    lemma_count_total_update(counts, bucket, (counts[bucket] + 1) as u64);
}

/// All slots of the registry are within the bound.
pub open spec fn slots_within_bound(latencies: Seq<Seq<u64>>) -> bool {
    forall|i: int| 0 <= i < latencies.len() ==> histogram::within_bound(#[trigger] latencies[i])
}

/// Handing samples off and draining them stays within the bound: while no thread and no slot holds
/// a sample above 60 s, neither does a slot after a merge, nor a snapshot.
pub proof fn law_hand_off_stays_within_bound(thread: ThreadView, registry: RegistryView)
    requires
        thread.valid(),
        registry.valid(),
        thread.linked(registry),
        histogram::within_bound(thread.latencies),
        slots_within_bound(registry.latencies),
    ensures
        slots_within_bound(hot_path::handed_off(thread, registry).latencies),
        histogram::within_bound(hot_path::snapshot(registry.latencies)),
{
    assert forall|b: int|
        histogram::covering_bucket(histogram::HIST_HIGH_NS as int) < b
            < histogram::BUCKETS implies #[trigger] hot_path::snapshot(
        registry.latencies,
    )[b] == 0 by {
        histogram::law_every_sample_has_a_bucket(histogram::HIST_HIGH_NS);
        lemma_bucket_total_of_empty(registry.latencies, b);
    }
    let after = hot_path::handed_off(thread, registry).latencies;
    assert forall|i: int| 0 <= i < after.len() implies histogram::within_bound(
        #[trigger] after[i],
    ) by {
        if i < registry.latencies.len() {
            assert(histogram::within_bound(registry.latencies[i]));
            assert(registry.latencies[i].len() == histogram::BUCKETS);
        }
        assert forall|b: int|
            histogram::covering_bucket(histogram::HIST_HIGH_NS as int) < b
                < after[i].len() implies #[trigger] after[i][b] == 0 by {
            histogram::law_every_sample_has_a_bucket(histogram::HIST_HIGH_NS);
            assert(thread.latencies[b] == 0);
            if i < registry.latencies.len() {
                assert(registry.latencies[i][b] == 0);
            }
        }
    }
}

proof fn lemma_bucket_total_of_empty(latencies: Seq<Seq<u64>>, b: int)
    requires
        forall|i: int| 0 <= i < latencies.len() ==> (#[trigger] latencies[i])[b] == 0,
    ensures
        hot_path::bucket_total(latencies, b) == 0,
    decreases latencies.len(),
{
    if latencies.len() > 0 {
        lemma_bucket_total_of_empty(latencies.drop_last(), b);
    }
}

/// A thread whose mirror has never been primed goes by the process-wide flag, whatever it has
/// counted, recorded or merged: it sees exactly what the flag reads, and so it records and times
/// exactly where the flag is on.
pub proof fn law_unprimed_thread_follows_the_flag<F: FnOnce() -> bool>(
    thread: ThreadView,
    shared: F,
    on: bool,
)
    requires
        thread.gate_mirror is None,
    ensures
        hot_path::sees_gate(thread, shared, on) <==> call_ensures(shared, (), on),
        hot_path::may_read(thread, shared) <==> call_requires(shared, ()),
{
}

/// A thread whose mirror is primed goes by its mirror alone, whatever the flag reads and whatever
/// the thread has counted, recorded or merged, and it has no need to read the flag.
pub proof fn law_primed_thread_keeps_to_its_mirror<F: FnOnce() -> bool>(
    thread: ThreadView,
    shared: F,
    on: bool,
    mirror: bool,
)
    requires
        thread.gate_mirror == Some(mirror),
    ensures
        hot_path::sees_gate(thread, shared, on) <==> on == mirror,
        hot_path::may_read(thread, shared),
{
}

/// Nothing but the mirror decides what a thread sees: two threads with the same mirror see the
/// metrics gate alike.
pub proof fn law_only_the_mirror_decides<F: FnOnce() -> bool>(
    one: ThreadView,
    other: ThreadView,
    shared: F,
    on: bool,
)
    requires
        one.gate_mirror == other.gate_mirror,
    ensures
        hot_path::sees_gate(one, shared, on) <==> hot_path::sees_gate(other, shared, on),
        hot_path::may_read(one, shared) <==> hot_path::may_read(other, shared),
{
}

/// A thread starts with an unprimed mirror, no samples, no messages, no slots and a sampler that
/// has not been called.
pub proof fn law_thread_starts_from_nothing(b: int)
    ensures
        ThreadView::fresh().gate_mirror is None,
        ThreadView::fresh().latencies.len() == 27_648,
        0 <= b < 27_648 ==> ThreadView::fresh().latencies[b] == 0,
        ThreadView::fresh().latency_slot is None,
        ThreadView::fresh().count == 0,
        ThreadView::fresh().count_slot is None,
        ThreadView::fresh().sample_counter == 0,
        ThreadView::fresh().valid(),
{
}

/// A thread is linked to a registry where each slot that it has is one of the registry's.
pub proof fn law_links_are_slots(thread: ThreadView, registry: RegistryView)
    ensures
        thread.linked(registry) <==> (thread.latency_slot is Some ==> 0 <= thread.latency_slot->0
            < registry.latencies.len()) && (thread.count_slot is Some ==> 0
            <= thread.count_slot->0 < registry.counts.len()),
        thread.latency_slot is None && thread.count_slot is None ==> thread.linked(registry),
{
}

/// Views are valid where every histogram has all its buckets and the count fits its counter.
pub proof fn law_valid_views(thread: ThreadView, registry: RegistryView)
    ensures
        thread.valid() <==> 0 <= thread.count <= 0xffff_ffff_ffff_ffff && thread.latencies.len()
            == 27_648,
        registry.valid() <==> forall|i: int|
            0 <= i < registry.latencies.len() ==> (#[trigger] registry.latencies[i]).len()
                == 27_648,
{
}

/// A wrapping counter holds what is left of a number modulo 2^64.
pub proof fn law_wrapping_counter(n: int)
    ensures
        0 <= hot_path::wrapped(n) <= 0xffff_ffff_ffff_ffff,
        0 <= n <= 0xffff_ffff_ffff_ffff ==> hot_path::wrapped(n) == n,
        hot_path::wrapped(n + 0x1_0000_0000_0000_0000) == hot_path::wrapped(n),
{
    if 0 <= n <= 0xffff_ffff_ffff_ffff {
        lemma_small_mod(n as nat, 0x1_0000_0000_0000_0000);
    }
    lemma_mod_add_multiples_vanish(n, 0x1_0000_0000_0000_0000);
}

/// Totals take every slot in, once: without slots they are zero, and one slot more adds what it
/// holds.
pub proof fn law_totals_take_every_slot_in(
    latencies: Seq<Seq<u64>>,
    slot: Seq<u64>,
    counts: Seq<u64>,
    count: u64,
    b: int,
)
    ensures
        hot_path::bucket_total(Seq::empty(), b) == 0,
        hot_path::bucket_total(latencies.push(slot), b) == hot_path::bucket_total(latencies, b)
            + slot[b],
        hot_path::count_total(Seq::empty()) == 0,
        hot_path::count_total(counts.push(count)) == hot_path::count_total(counts) + count,
{
    assert(latencies.push(slot).drop_last() =~= latencies);
    assert(counts.push(count).drop_last() =~= counts);
}

/// A snapshot holds the total of every bucket, up to the largest counter. That of a single slot
/// is what the slot holds.
pub proof fn law_snapshot_holds_the_totals(latencies: Seq<Seq<u64>>, slot: Seq<u64>, b: int)
    requires
        0 <= b < 27_648,
    ensures
        hot_path::snapshot(latencies).len() == 27_648,
        hot_path::bucket_total(latencies, b) <= 0xffff_ffff_ffff_ffff ==> hot_path::snapshot(
            latencies,
        )[b] == hot_path::bucket_total(latencies, b),
        hot_path::bucket_total(latencies, b) > 0xffff_ffff_ffff_ffff ==> hot_path::snapshot(
            latencies,
        )[b] == 0xffff_ffff_ffff_ffff,
        hot_path::snapshot(seq![slot])[b] == slot[b],
{
    hot_path::lemma_bucket_total_nonnegative(latencies, b);
    law_totals_take_every_slot_in(Seq::empty(), slot, Seq::empty(), 0, b);
    assert(Seq::empty().push(slot) =~= seq![slot]);
}

/// A merge moves everything that the thread holds into the thread's own slots, adding to what is
/// there, and touches no other slot. Nothing is left in the thread, which keeps its mirror and its
/// sampler.
pub proof fn law_merge_moves_everything(
    thread: ThreadView,
    registry: RegistryView,
    i: int,
    b: int,
)
    requires
        thread.valid(),
        registry.valid(),
        thread.linked(registry),
        0 <= b < 27_648,
    ensures
        ({
            let after = hot_path::handed_off(thread, registry);
            let left = hot_path::emptied(thread, registry);
            let l = left.latency_slot->0;
            let c = left.count_slot->0;
            let held = if thread.latency_slot is Some {
                registry.latencies[l][b] as int
            } else {
                0
            };
            let counted = if thread.count_slot is Some {
                registry.counts[c] as int
            } else {
                0
            };
            let total = held + thread.latencies[b];
            &&& left.latency_slot is Some && left.count_slot is Some
            &&& thread.latency_slot is Some ==> left.latency_slot == thread.latency_slot
            &&& thread.latency_slot is None ==> l == registry.latencies.len()
            &&& thread.count_slot is Some ==> left.count_slot == thread.count_slot
            &&& thread.count_slot is None ==> c == registry.counts.len()
            &&& after.latencies[l].len() == 27_648
            &&& total <= 0xffff_ffff_ffff_ffff ==> after.latencies[l][b] == total
            &&& total > 0xffff_ffff_ffff_ffff ==> after.latencies[l][b] == 0xffff_ffff_ffff_ffff
            &&& after.counts[c] == (counted + thread.count) % 0x1_0000_0000_0000_0000
            &&& 0 <= i < registry.latencies.len() && i != l ==> after.latencies[i]
                == registry.latencies[i]
            &&& 0 <= i < registry.counts.len() && i != c ==> after.counts[i] == registry.counts[i]
            &&& left.latencies.len() == 27_648 && left.latencies[b] == 0
            &&& left.count == 0
            &&& left.gate_mirror == thread.gate_mirror
            &&& left.sample_counter == thread.sample_counter
        }),
{
    let c = hot_path::slot_or_next(thread.count_slot, registry.counts.len());
    let counts = hot_path::registered(registry.counts, thread.count_slot, 0u64);
    lemma_mod_bound(counts[c] + thread.count, 0x1_0000_0000_0000_0000);
}

/// The sampler fires exactly on the calls that find none of the mask's bits in its counter.
pub proof fn law_sampler_goes_by_the_mask(counter: u64, mask: u64)
    ensures
        hot_path::samples(counter, mask) <==> counter & mask == 0,
        hot_path::samples(counter, 0),
        hot_path::SAMPLE_1_IN_8192 == 8191,
        hot_path::samples(counter, hot_path::SAMPLE_1_IN_8192) <==> counter % 8192 == 0,
{
    assert(counter & 0 == 0) by (bit_vector);
    assert(counter & 8191 == counter % 8192) by (bit_vector);
}

/// From the latency to the list: one sample on a thread that has just started, merged and drained,
/// is all that comes out, counted once, at its latency clamped to 60 s and at most one part in a
/// thousand above it.
pub proof fn law_recorded_sample_is_drained(
    ns: u64,
    registry: RegistryView,
    pairs: Seq<(u64, u64)>,
)
    requires
        registry.latencies.len() == 0,
        registry.counts.len() == 0,
        histogram::lists_samples(
            pairs,
            hot_path::snapshot(
                hot_path::handed_off(
                    ThreadView {
                        latencies: histogram::with_sample(
                            ThreadView::fresh().latencies,
                            histogram::in_bounds(ns),
                        ),
                        ..ThreadView::fresh()
                    },
                    registry,
                ).latencies,
            ),
        ),
    ensures
        ({
            let latency = if ns > 60_000_000_000 {
                60_000_000_000
            } else {
                ns as int
            };
            &&& pairs.len() == 1
            &&& pairs[0].1 == 1
            &&& latency <= pairs[0].0
            &&& 1000 * (pairs[0].0 - latency) <= latency
        }),
{
    let recorded = histogram::with_sample(histogram::no_samples(), histogram::in_bounds(ns));
    let thread = ThreadView { latencies: recorded, ..ThreadView::fresh() };
    let after = hot_path::handed_off(thread, registry).latencies;
    histogram::law_every_sample_has_a_bucket(histogram::in_bounds(ns));
    assert(after =~= seq![after[0]]);
    assert(hot_path::snapshot(after) =~= recorded) by {
        assert forall|b: int| 0 <= b < 27_648 implies #[trigger] hot_path::snapshot(after)[b]
            == recorded[b] by {
            law_snapshot_holds_the_totals(after, after[0], b);
        }
    }
    histogram::law_single_sample_is_listed_alone(pairs, ns);
}

} // verus!
