//! The worker pool, the two parallel scan phases, core pinning, and the
//! wall-clock used to time them.
//!
//! Everything here that crosses into the rayon or core_affinity crates, or
//! into the platform clock, stands behind a trusted item. The per-span work
//! the pool executes is verified code from this crate: the closures handed to
//! rayon only call `count_span` and `scan_span_atomic`.

use vstd::prelude::*;
use core::sync::atomic::{AtomicU64, AtomicUsize, Ordering};
use rayon::iter::{IntoParallelRefIterator, ParallelIterator};
use crate::BINS;
use crate::histogram::{count_range, count_span, spans_count};
use crate::partition::{Partition, total_size};

verus! {

#[verifier::external_type_specification]
#[verifier::external_body]
pub struct ExThreadPool(rayon::ThreadPool);

#[verifier::external_type_specification]
#[verifier::external_body]
pub struct ExCoreId(core_affinity::CoreId);

#[verifier::external_type_specification]
#[verifier::external_body]
pub struct ExInstant(std::time::Instant);

/// Relies on core_affinity::get_core_ids: the list of cores the current
/// thread may run on, or None where the platform cannot provide one.
#[verifier::external_body]
pub(crate) fn available_cores() -> (r: Option<Vec<core_affinity::CoreId>>) {
    core_affinity::get_core_ids()
}

/// Relies on core_affinity::set_for_current: tries to pin the calling thread
/// to the chosen core and reports whether the platform accepted.
#[verifier::external_body]
fn pin_current_thread(cores: &Vec<core_affinity::CoreId>, idx: usize) -> (r: bool)
    requires
        idx < cores@.len(),
{
    core_affinity::set_for_current(cores[idx])
}

/// One worker's start-up step: take the next worker number from the shared
/// counter and, where a core list is present and holds a core for that
/// number, pin the worker to it. Workers started later draw higher numbers,
/// so cores are handed out in worker-creation order.
fn pin_worker(counter: &AtomicUsize, cores: &Option<Vec<core_affinity::CoreId>>) {
    let id = counter.fetch_add(1, Ordering::SeqCst);
    match cores {
        Option::Some(list) => {
            if id < list.len() {
                let _ = pin_current_thread(list, id);
            }
        },
        Option::None => {},
    }
}

/// Relies on rayon::ThreadPoolBuilder: builds a pool of exactly `threads`
/// workers, each of which runs `pin_worker` once as it starts. Returns None
/// where the platform refuses to create the workers.
#[verifier::external_body]
pub(crate) fn build_pool(threads: usize, cores: Option<Vec<core_affinity::CoreId>>) -> (r: Option<
    rayon::ThreadPool,
>)
    requires
        1 <= threads,
{
    let counter = std::sync::Arc::new(AtomicUsize::new(0));
    let shared = std::sync::Arc::new(cores);
    rayon::ThreadPoolBuilder::new()
        .num_threads(threads)
        .start_handler(move |_| pin_worker(&counter, &shared))
        .build()
        .ok()
}

/// One worker's whole work under the shared-atomic strategy: scan the span
/// and, for each sample, add one to the sample's slot with a single relaxed
/// atomic increment, leaving no read-modify-write gap another worker could
/// fall into.
fn scan_span_atomic(slots: &Vec<AtomicU64>, data: &Vec<u8>, p: &Partition, stride: usize)
    requires
        1 <= stride,
        slots@.len() == BINS * stride,
        p.start <= p.end <= data@.len(),
{
    let mut i: usize = p.start;
    while i < p.end
        invariant
            p.start <= i <= p.end <= data@.len(),
            slots@.len() == BINS * stride,
            1 <= stride,
        decreases p.end - i,
    {
        let v = data[i];
        let cap: usize = slots.len();
        proof {
            assert((v as int) * (stride as int) < 256 * (stride as int)) by (nonlinear_arith)
                requires
                    v < 256,
                    1 <= stride,
            ;
            assert((v as int) * (stride as int) < cap as int);
        }
        let idx: usize = (v as usize) * stride;
        slots[idx].fetch_add(1, Ordering::Relaxed);
        i = i + 1;
    }
}

/// The shared-atomic scan phase. Relies on rayon's ThreadPool::install and
/// par_iter().for_each(): every partition is handed once to the verified
/// `scan_span_atomic`, and install returns only after all of them have
/// finished, the join publishing every increment to this thread. Relies on
/// AtomicU64::new, fetch_add and load for the slots: each sample causes
/// exactly one atomic increment of its slot, and atomic increments are never
/// lost however the workers interleave, so each bin slot ends at its
/// starting value plus the number of matching samples over all spans.
#[verifier::external_body]
pub(crate) fn atomic_scan(
    init: &Vec<u64>,
    data: &Vec<u8>,
    parts: &Vec<Partition>,
    pool: &rayon::ThreadPool,
    stride: usize,
) -> (r: Vec<u64>)
    requires
        1 <= stride,
        init@.len() == BINS * stride,
        forall|i: int| 0 <= i < parts@.len() ==> (#[trigger] parts@[i]).start <= parts@[i].end
            <= data@.len(),
        forall|j: int| 0 <= j < init@.len() ==> #[trigger] init@[j] + total_size(parts@)
            <= u64::MAX,
    ensures
        r@.len() == init@.len(),
        forall|b: int| 0 <= b < BINS ==> r@[b * (stride as int)] == init@[b * (stride as int)]
            + #[trigger] spans_count(data@, parts@, b as u8),
{
    let slots: Vec<AtomicU64> = init.iter().map(|v| AtomicU64::new(*v)).collect();
    pool.install(|| {
        parts.par_iter().for_each(|p| scan_span_atomic(&slots, data, p, stride))
    });
    slots.iter().map(|s| s.load(Ordering::Relaxed)).collect()
}

/// The private scan phase of the private-reduce strategy. Relies on rayon's
/// ThreadPool::install and par_iter().map().collect(): the verified
/// `count_span` runs once per partition, the private histograms are collected
/// in partition order, and install returns only after every worker has
/// finished its span.
#[verifier::external_body]
pub(crate) fn local_scan(data: &Vec<u8>, parts: &Vec<Partition>, pool: &rayon::ThreadPool) -> (r: Vec<
    Vec<u64>,
>)
    requires
        forall|i: int| 0 <= i < parts@.len() ==> (#[trigger] parts@[i]).start <= parts@[i].end
            <= data@.len(),
    ensures
        r@.len() == parts@.len(),
        forall|i: int| 0 <= i < parts@.len() ==> (#[trigger] r@[i])@.len() == BINS,
        forall|i: int, b: int|
            0 <= i < parts@.len() && 0 <= b < BINS ==> #[trigger] r@[i]@[b] == count_range(
                data@,
                parts@[i].start as int,
                parts@[i].end as int,
                b as u8,
            ),
{
    pool.install(|| parts.par_iter().map(|p| count_span(data, p)).collect())
}

/// Relies on std::time::Instant::now: a point on the platform's monotonic
/// clock.
#[verifier::external_body]
pub(crate) fn now_instant() -> (r: std::time::Instant) {
    std::time::Instant::now()
}

/// Relies on std::time::Instant::elapsed: the time the monotonic clock
/// advanced since the given point.
#[verifier::external_body]
fn elapsed_since(since: &std::time::Instant) -> (r: std::time::Duration) {
    since.elapsed()
}

/// Relies on std::time::Duration::as_nanos: the duration in whole
/// nanoseconds.
#[verifier::external_body]
fn duration_nanos(d: &std::time::Duration) -> (r: u128) {
    d.as_nanos()
}

/// The nanoseconds the monotonic clock advanced since the given point,
/// clamped to u64.
pub(crate) fn elapsed_ns(since: &std::time::Instant) -> (r: u64) {
    let d = elapsed_since(since);
    let nanos = duration_nanos(&d);
    if nanos > 0xFFFF_FFFF_FFFF_FFFFu128 {
        u64::MAX
    } else {
        nanos as u64
    }
}

} // verus!
