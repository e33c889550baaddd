//! Runtime metrics gate plus hot-path telemetry: latency samples, message counts, sampling.
//!
//! What a thread touches per message is its own [`ThreadState`]. Samples and counts reach the
//! shared [`Registry`] only through [`merge_local`], and leave it through [`drain_all`] and
//! [`drain_count`], so a drain never sees what a thread has not handed off. The process-wide
//! gate is mirrored into each thread; a thread whose mirror is primed does not read it again.

use crate::histogram;
use crate::histogram::{new_bounded_histogram, LatencyHistogram, HIST_HIGH_NS};
use vstd::prelude::*;

verus! {

/// Mask for 1-in-8192 sampling: pass to [`should_sample`].
pub const SAMPLE_1_IN_8192: u64 = 8191;

/// The process-wide metrics gate. Starts off; flip with [`set_metrics_enabled`].
#[derive(Clone, Copy, Debug, PartialEq, Eq, Structural)]
pub struct MetricsGate {
    /// Whether metrics are on.
    pub on: bool,
}

/// What one thread holds: its copy of the metrics gate, its samples and counts since its last
/// merge, and the slots of the registry that belong to it once it has merged.
pub struct ThreadState {
    gate_mirror: Option<bool>,
    latencies: LatencyHistogram,
    latency_slot: Option<usize>,
    count: u64,
    count_slot: Option<usize>,
    sample_counter: u64,
}

/// What threads have handed off: one histogram and one message count for each thread that has
/// merged at least once.
pub struct Registry {
    latencies: Vec<LatencyHistogram>,
    counts: Vec<u64>,
}

/// What a [`ThreadState`] stands for.
#[verifier::ext_equal]
pub struct ThreadView {
    /// The metrics gate as this thread last saw it, if it ever looked.
    pub gate_mirror: Option<bool>,
    /// Samples since the last merge, per bucket.
    pub latencies: Seq<u64>,
    /// The thread's slot among the registry's latencies.
    pub latency_slot: Option<int>,
    /// Messages since the last merge, modulo 2^64.
    pub count: int,
    /// The thread's slot among the registry's counts.
    pub count_slot: Option<int>,
    /// Calls of the sampler, modulo 2^64.
    pub sample_counter: u64,
}

/// What a [`Registry`] stands for.
#[verifier::ext_equal]
pub struct RegistryView {
    /// Samples handed off, per slot and bucket.
    pub latencies: Seq<Seq<u64>>,
    /// Messages handed off, per slot.
    pub counts: Seq<u64>,
}

/// `n` as a counter that wraps around holds it.
pub open spec fn wrapped(n: int) -> int {
    n % 0x1_0000_0000_0000_0000
}

impl View for ThreadState {
    type V = ThreadView;

    closed spec fn view(&self) -> ThreadView {
        ThreadView {
            gate_mirror: self.gate_mirror,
            latencies: histogram::bucket_counts(self.latencies),
            latency_slot: match self.latency_slot {
                Some(slot) => Some(slot as int),
                None => None,
            },
            count: self.count as int,
            count_slot: match self.count_slot {
                Some(slot) => Some(slot as int),
                None => None,
            },
            sample_counter: self.sample_counter,
        }
    }
}

impl View for Registry {
    type V = RegistryView;

    closed spec fn view(&self) -> RegistryView {
        RegistryView {
            latencies: self.latencies@.map_values(
                |h: LatencyHistogram| histogram::bucket_counts(h),
            ),
            counts: self.counts@,
        }
    }
}

impl ThreadView {
    /// A thread that has recorded nothing, merged nothing and never looked at the metrics gate.
    pub open spec fn fresh() -> ThreadView {
        ThreadView {
            gate_mirror: None,
            latencies: histogram::no_samples(),
            latency_slot: None,
            count: 0,
            count_slot: None,
            sample_counter: 0,
        }
    }

    /// The count is what a counter can hold, and there is a sample count for each bucket.
    pub open spec fn valid(self) -> bool {
        &&& 0 <= self.count <= u64::MAX
        &&& self.latencies.len() == histogram::BUCKETS
    }

    /// The thread's slots, where it has any, are slots of `registry`.
    pub open spec fn linked(self, registry: RegistryView) -> bool {
        &&& self.latency_slot matches Some(slot) ==> 0 <= slot < registry.latencies.len()
        &&& self.count_slot matches Some(slot) ==> 0 <= slot < registry.counts.len()
    }
}

impl RegistryView {
    /// There is a sample count for each bucket of each slot.
    pub open spec fn valid(self) -> bool {
        forall|i: int|
            0 <= i < self.latencies.len() ==> (#[trigger] self.latencies[i]).len()
                == histogram::BUCKETS
    }
}

impl ThreadState {
    /// The thread's histogram has the bounds of all latency histograms.
    pub closed spec fn wf(self) -> bool {
        histogram::bounded(self.latencies)
    }

    /// The state of a thread that has just started.
    pub fn new() -> (thread: ThreadState)
        ensures
            thread.wf(),
            thread@ == ThreadView::fresh(),
    {
        ThreadState {
            gate_mirror: None,
            latencies: new_bounded_histogram(),
            latency_slot: None,
            count: 0,
            count_slot: None,
            sample_counter: 0,
        }
    }
}

impl MetricsGate {
    /// A gate that is off.
    pub fn new() -> (gate: MetricsGate)
        ensures
            !gate.on,
    {
        MetricsGate { on: false }
    }
}

impl Registry {
    /// Every slot's histogram has the bounds of all latency histograms.
    pub closed spec fn wf(self) -> bool {
        forall|i: int|
            0 <= i < self.latencies@.len() ==> histogram::bounded(#[trigger] self.latencies@[i])
    }

    /// A registry that no thread has merged into.
    pub fn new() -> (registry: Registry)
        ensures
            registry.wf(),
            registry@.latencies.len() == 0,
            registry@.counts.len() == 0,
    {
        Registry { latencies: Vec::new(), counts: Vec::new() }
    }

    /// Whether the slots of `thread`, where it has any, are slots of this registry.
    pub fn links(&self, thread: &ThreadState) -> (linked: bool)
        ensures
            linked == thread@.linked(self@),
    {
        let latencies_linked = match thread.latency_slot {
            Some(slot) => slot < self.latencies.len(),
            None => true,
        };
        let counts_linked = match thread.count_slot {
            Some(slot) => slot < self.counts.len(),
            None => true,
        };
        latencies_linked && counts_linked
    }
}

/// What holds of valid views holds of every well-formed thread and registry.
pub proof fn law_well_formed_states_are_valid(thread: ThreadState, registry: Registry)
    ensures
        thread.wf() ==> thread@.valid(),
        registry.wf() ==> registry@.valid(),
{
}

/// What a lock guards, whether or not an earlier holder panicked: telemetry must survive one.
///
/// `lock` is the guard of a healthy lock, or the guard inside the error of a poisoned one.
pub fn lock_recover<G>(lock: Result<G, G>) -> (guard: G)
    ensures
        lock matches Ok(held) ==> guard == held,
        lock matches Err(held) ==> guard == held,
{
    match lock {
        Ok(held) => held,
        Err(held) => held,
    }
}

/// Flip the process-wide gate.
pub fn set_metrics_enabled(gate: &mut MetricsGate, on: bool)
    ensures
        final(gate).on == on,
{
    gate.on = on;
}

/// Sync this thread's mirror of the metrics gate from the process-wide flag.
///
/// Call once per thread at startup, and again after any toggle that the thread cares about.
pub fn refresh_thread_gate(thread: &mut ThreadState, gate: &MetricsGate)
    requires
        old(thread).wf(),
    ensures
        final(thread).wf(),
        final(thread)@ == (ThreadView { gate_mirror: Some(gate.on), ..old(thread)@ }),
{
    thread.gate_mirror = Some(gate.on);
}

/// `on` is what a thread sees as the metrics gate: its mirror, or what `shared` reads of the
/// process-wide flag while the mirror has never been primed.
pub open spec fn sees_gate<F: FnOnce() -> bool>(thread: ThreadView, shared: F, on: bool) -> bool {
    match thread.gate_mirror {
        Some(mirror) => on == mirror,
        None => call_ensures(shared, (), on),
    }
}

/// `shared` can be called wherever the thread needs it: only while its mirror is unprimed. A
/// thread with a primed mirror never reads the process-wide flag.
pub open spec fn may_read<F: FnOnce() -> bool>(thread: ThreadView, shared: F) -> bool {
    thread.gate_mirror is None ==> call_requires(shared, ())
}

/// Gate check for the hot path: the primed mirror, else what `shared` reads of the process-wide
/// flag.
pub fn metrics_enabled<F: FnOnce() -> bool>(thread: &ThreadState, shared: F) -> (on: bool)
    requires
        may_read(thread@, shared),
    ensures
        sees_gate(thread@, shared, on),
{
    match thread.gate_mirror {
        Some(mirror) => mirror,
        None => shared(),
    }
}

/// Record one latency sample, in nanoseconds, into this thread's histogram. A sample above 60 s is
/// clamped, not dropped. Does nothing while the metrics gate is off.
pub fn record_latency_ns<F: FnOnce() -> bool>(thread: &mut ThreadState, shared: F, ns: u64)
    requires
        old(thread).wf(),
        may_read(old(thread)@, shared),
    ensures
        final(thread).wf(),
        exists|on: bool| #[trigger]
            sees_gate(old(thread)@, shared, on) && final(thread)@ == if on {
                ThreadView {
                    latencies: histogram::with_sample(
                        old(thread)@.latencies,
                        histogram::in_bounds(ns),
                    ),
                    ..old(thread)@
                }
            } else {
                old(thread)@
            },
{
    let on = metrics_enabled(thread, shared);
    if !on {
        return;
    }
    let clamped: u64 = if ns > HIST_HIGH_NS {
        HIST_HIGH_NS
    } else {
        ns
    };
    proof {
        histogram::law_every_sample_has_a_bucket(clamped);
    }
    histogram::saturating_record(&mut thread.latencies, clamped);
}

/// The slot of a thread in a registry of `len` slots: the one it has, or else the next one.
pub open spec fn slot_or_next(slot: Option<int>, len: nat) -> int {
    match slot {
        Some(slot) => slot,
        None => len as int,
    }
}

/// `slots` with one more slot that holds `empty`, if the thread has none yet.
pub open spec fn registered<T>(slots: Seq<T>, slot: Option<int>, empty: T) -> Seq<T> {
    if slot is Some {
        slots
    } else {
        slots.push(empty)
    }
}

/// The registry after `thread` has handed its samples and its count off.
pub open spec fn handed_off(thread: ThreadView, registry: RegistryView) -> RegistryView {
    let l = slot_or_next(thread.latency_slot, registry.latencies.len());
    let c = slot_or_next(thread.count_slot, registry.counts.len());
    let latencies = registered(registry.latencies, thread.latency_slot, histogram::no_samples());
    let counts = registered(registry.counts, thread.count_slot, 0u64);
    RegistryView {
        latencies: latencies.update(l, histogram::added(latencies[l], thread.latencies)),
        counts: counts.update(c, wrapped(counts[c] + thread.count) as u64),
    }
}

/// A thread that has just handed off: nothing is left in it, and it has its slots.
pub open spec fn emptied(thread: ThreadView, registry: RegistryView) -> ThreadView {
    ThreadView {
        latencies: histogram::no_samples(),
        latency_slot: Some(slot_or_next(thread.latency_slot, registry.latencies.len())),
        count: 0,
        count_slot: Some(slot_or_next(thread.count_slot, registry.counts.len())),
        ..thread
    }
}

/// Hand this thread's samples and its message count off to its slots of the registry, and clear
/// both here. A thread's first merge registers fresh slots for it.
pub fn merge_local(thread: &mut ThreadState, registry: &mut Registry)
    requires
        old(thread).wf(),
        old(registry).wf(),
        old(thread)@.linked(old(registry)@),
    ensures
        final(thread).wf(),
        final(registry).wf(),
        final(thread)@.linked(final(registry)@),
        final(registry)@ == handed_off(old(thread)@, old(registry)@),
        final(thread)@ == emptied(old(thread)@, old(registry)@),
{
    let slot: usize = match thread.latency_slot {
        Some(slot) => slot,
        None => {
            let fresh: usize = registry.latencies.len();
            registry.latencies.push(new_bounded_histogram());
            thread.latency_slot = Some(fresh);
            fresh
        },
    };
    let _ = histogram::add_counts(&mut registry.latencies[slot], &thread.latencies);
    histogram::reset_counts(&mut thread.latencies);

    let count: u64 = take_count(thread);
    let count_slot: usize = match thread.count_slot {
        Some(slot) => slot,
        None => {
            let fresh: usize = registry.counts.len();
            registry.counts.push(0);
            thread.count_slot = Some(fresh);
            fresh
        },
    };
    let total: u64 = registry.counts[count_slot].wrapping_add(count);
    registry.counts.set(count_slot, total);
}

/// How many samples the slots hold together in `bucket`.
pub open spec fn bucket_total(latencies: Seq<Seq<u64>>, bucket: int) -> int
    decreases latencies.len(),
{
    if latencies.len() == 0 {
        0
    } else {
        bucket_total(latencies.drop_last(), bucket) + latencies.last()[bucket]
    }
}

/// All slots' samples in one histogram.
pub open spec fn snapshot(latencies: Seq<Seq<u64>>) -> Seq<u64> {
    Seq::new(
        histogram::BUCKETS as nat,
        |bucket: int| histogram::saturated(bucket_total(latencies, bucket)),
    )
}

/// A snapshot of one slot more is the snapshot so far with that slot's samples added.
proof fn lemma_snapshot_step(latencies: Seq<Seq<u64>>, i: int)
    requires
        0 <= i < latencies.len(),
    ensures
        snapshot(latencies.take(i + 1)) == histogram::added(
            snapshot(latencies.take(i)),
            latencies[i],
        ),
{
    let upto = latencies.take(i + 1);
    assert(upto.drop_last() =~= latencies.take(i));
    assert forall|b: int| 0 <= b < histogram::BUCKETS implies #[trigger] snapshot(upto)[b]
        == histogram::added(snapshot(latencies.take(i)), latencies[i])[b] by {
        lemma_bucket_total_nonnegative(latencies.take(i), b);
    }
    assert(snapshot(upto) =~= histogram::added(snapshot(latencies.take(i)), latencies[i]));
}

pub(crate) proof fn lemma_bucket_total_nonnegative(latencies: Seq<Seq<u64>>, bucket: int)
    ensures
        bucket_total(latencies, bucket) >= 0,
    decreases latencies.len(),
{
    if latencies.len() > 0 {
        lemma_bucket_total_nonnegative(latencies.drop_last(), bucket);
    }
}

/// Drain every slot's histogram into one snapshot, clearing each in place.
///
/// Only samples that were handed off by [`merge_local`] are seen: a thread that never merges
/// never contributes.
pub fn drain_all(registry: &mut Registry) -> (merged: LatencyHistogram)
    requires
        old(registry).wf(),
    ensures
        final(registry).wf(),
        histogram::bounded(merged),
        histogram::bucket_counts(merged) == snapshot(old(registry)@.latencies),
        final(registry)@.latencies == Seq::new(
            old(registry)@.latencies.len(),
            |i: int| histogram::no_samples(),
        ),
        final(registry)@.counts == old(registry)@.counts,
{
    let mut merged = new_bounded_histogram();
    let len: usize = registry.latencies.len();
    let ghost before = registry@.latencies;
    let mut i: usize = 0;
    while i < len
        invariant
            i <= len,
            len == registry.latencies@.len(),
            len == before.len(),
            registry.wf(),
            registry@.counts == old(registry)@.counts,
            histogram::bounded(merged),
            histogram::bucket_counts(merged) == snapshot(before.take(i as int)),
            forall|k: int| 0 <= k < len ==> #[trigger] registry@.latencies[k] == if k < i {
                histogram::no_samples()
            } else {
                before[k]
            },
        decreases len - i,
    {
        let ghost earlier = registry@.latencies;
        proof {
            assert(earlier[i as int] == before[i as int]);
            lemma_snapshot_step(before, i as int);
        }
        let _ = histogram::add_counts(&mut merged, &registry.latencies[i]);
        histogram::reset_counts(&mut registry.latencies[i]);
        assert(registry@.latencies =~= earlier.update(i as int, histogram::no_samples()));
        i += 1;
    }
    assert(before.take(len as int) =~= before);
    merged
}

/// How many messages the slots hold together.
pub open spec fn count_total(counts: Seq<u64>) -> int
    decreases counts.len(),
{
    if counts.len() == 0 {
        0
    } else {
        count_total(counts.drop_last()) + counts.last()
    }
}

/// Drain every slot's message count into one sum, modulo 2^64, zeroing each slot.
///
/// Only counts that were handed off by [`merge_local`] are seen, never a thread's live count.
pub fn drain_count(registry: &mut Registry) -> (total: u64)
    requires
        old(registry).wf(),
    ensures
        final(registry).wf(),
        total == wrapped(count_total(old(registry)@.counts)),
        final(registry)@.counts == Seq::new(old(registry)@.counts.len(), |i: int| 0u64),
        final(registry)@.latencies == old(registry)@.latencies,
{
    let len: usize = registry.counts.len();
    let ghost before = registry@.counts;
    let mut total: u64 = 0;
    let mut i: usize = 0;
    while i < len
        invariant
            i <= len,
            len == registry.counts@.len(),
            len == before.len(),
            registry.wf(),
            registry@.latencies == old(registry)@.latencies,
            total == wrapped(count_total(before.take(i as int))),
            forall|k: int| 0 <= k < len ==> #[trigger] registry.counts@[k] == if k < i {
                0u64
            } else {
                before[k]
            },
        decreases len - i,
    {
        total = total.wrapping_add(registry.counts[i]);
        registry.counts.set(i, 0);
        proof {
            assert(before.take(i + 1).drop_last() =~= before.take(i as int));
        }
        i += 1;
    }
    proof {
        assert(before.take(len as int) =~= before);
    }
    total
}

/// Count one message on this thread. The counter wraps around.
pub fn count_msg(thread: &mut ThreadState)
    requires
        old(thread).wf(),
    ensures
        final(thread).wf(),
        final(thread)@ == (ThreadView { count: wrapped(old(thread)@.count + 1), ..old(thread)@ }),
{
    thread.count = thread.count.wrapping_add(1);
}

/// Read this thread's message counter, then reset it to zero.
pub fn take_count(thread: &mut ThreadState) -> (count: u64)
    requires
        old(thread).wf(),
    ensures
        final(thread).wf(),
        count == old(thread)@.count,
        final(thread)@ == (ThreadView { count: 0, ..old(thread)@ }),
{
    let count: u64 = thread.count;
    thread.count = 0;
    count
}

/// True exactly once per `mask + 1` calls, where `mask` is `2^n - 1` (such as
/// [`SAMPLE_1_IN_8192`]). The first call on a thread always samples.
pub fn should_sample(thread: &mut ThreadState, mask: u64) -> (sample: bool)
    requires
        old(thread).wf(),
    ensures
        final(thread).wf(),
        sample == samples(old(thread)@.sample_counter, mask),
        final(thread)@ == (ThreadView {
            sample_counter: wrapped(old(thread)@.sample_counter + 1) as u64,
            ..old(thread)@
        }),
{
    let v: u64 = thread.sample_counter;
    thread.sample_counter = v.wrapping_add(1);
    v & mask == 0
}

/// The sampler fires on the call that finds its counter at `counter`.
pub open spec fn samples(counter: u64, mask: u64) -> bool {
    counter & mask == 0
}

} // verus!
