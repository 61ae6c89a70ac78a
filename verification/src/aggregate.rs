//! The two aggregation strategies, behind one shared contract.
//!
//! Both strategies turn a sample sequence and a partition list into a
//! histogram whose bins hold the per-span counts. Over a partitioning of the
//! whole input the bins therefore sum to the input length (conservation),
//! and the two strategies agree bin for bin: only their timing differs.

use vstd::prelude::*;
use crate::BINS;
use crate::histogram::{
    count_range, hist_add, lemma_spans_count_le_total,
    lemma_spans_count_partitioning, lemma_sum_hist_of_counts, lemma_total_below_full, spans_count,
    sum_hist, zero_hist,
};
use crate::parallel::{atomic_scan, build_pool, elapsed_ns, local_scan, now_instant};
use crate::partition::{
    Partition, is_partitioning, parts_wf, total_size,
};

verus! {

/// Counter slots per bin in padded mode: eight 8-byte slots place each used
/// counter on its own 64-byte cache line, so concurrent increments of
/// different bins never contend for a line.
pub const PAD_STRIDE: usize = 8;

/// A slot array of the given length with every slot zero.
fn zero_slots(len: usize) -> (r: Vec<u64>)
    ensures
        r@.len() == len,
        forall|j: int| 0 <= j < len ==> r@[j] == 0,
{
    let mut r: Vec<u64> = Vec::new();
    let mut i: usize = 0;
    while i < len
        invariant
            i <= len,
            r@.len() == i,
            forall|j: int| 0 <= j < i ==> r@[j] == 0,
        decreases len - i,
    {
        r.push(0);
        i = i + 1;
    }
    r
}

/// The values of one bin over a list of private histograms, added up.
pub open spec fn sum_at(hists: Seq<Vec<u64>>, b: int) -> int
    decreases hists.len(),
{
    if hists.len() == 0 {
        0
    } else {
        sum_at(hists.drop_last(), b) + hists.last()@[b]
    }
}

/// A bin's sum over private histograms is never negative.
proof fn lemma_sum_at_nonneg(hists: Seq<Vec<u64>>, b: int)
    ensures
        sum_at(hists, b) >= 0,
    decreases hists.len(),
{
    if hists.len() > 0 {
        lemma_sum_at_nonneg(hists.drop_last(), b);
    }
}

/// A bin's sum over a prefix never exceeds its sum over the whole list.
proof fn lemma_sum_at_take_le(hists: Seq<Vec<u64>>, k: int, b: int)
    requires
        0 <= k <= hists.len(),
    ensures
        sum_at(hists.take(k), b) <= sum_at(hists, b),
    decreases hists.len() - k,
{
    if k == hists.len() {
        assert(hists.take(k) =~= hists);
    } else {
        lemma_sum_at_take_le(hists, k + 1, b);
        assert(hists.take(k + 1).drop_last() =~= hists.take(k));
        assert(hists.take(k + 1).last() == hists[k]);
    }
}

/// Private histograms that hold the per-bin counts of their spans sum, bin
/// by bin, to the per-span counts over all spans.
proof fn lemma_sum_at_counts(
    data: Seq<u8>,
    parts: Seq<Partition>,
    locals: Seq<Vec<u64>>,
    b: int,
)
    requires
        locals.len() == parts.len(),
        0 <= b < BINS,
        forall|k: int, bb: int|
            0 <= k < parts.len() && 0 <= bb < BINS ==> #[trigger] locals[k]@[bb] == count_range(
                data,
                parts[k].start as int,
                parts[k].end as int,
                bb as u8,
            ),
    ensures
        sum_at(locals, b) == spans_count(data, parts, b as u8),
    decreases parts.len(),
{
    if parts.len() > 0 {
        assert forall|k: int, bb: int|
            0 <= k < parts.drop_last().len() && 0 <= bb < BINS implies #[trigger] locals.drop_last()[
            k]@[bb] == count_range(
            data,
            parts.drop_last()[k].start as int,
            parts.drop_last()[k].end as int,
            bb as u8,
        ) by {
            assert(locals.drop_last()[k] == locals[k]);
            assert(parts.drop_last()[k] == parts[k]);
        }
        lemma_sum_at_counts(data, parts.drop_last(), locals.drop_last(), b);
        assert(locals.last()@[b] == count_range(
            data,
            parts[parts.len() - 1].start as int,
            parts[parts.len() - 1].end as int,
            b as u8,
        ));
        assert(parts.last() == parts[parts.len() - 1]);
    }
}

/// Combine private histograms by a sequential fold over the workers.
pub fn reduce_sequential(hists: &Vec<Vec<u64>>) -> (r: Vec<u64>)
    requires
        forall|k: int| 0 <= k < hists@.len() ==> (#[trigger] hists@[k])@.len() == BINS,
        forall|b: int| 0 <= b < BINS ==> sum_at(hists@, b) <= u64::MAX,
    ensures
        r@.len() == BINS,
        forall|b: int| 0 <= b < BINS ==> #[trigger] r@[b] == sum_at(hists@, b),
{
    let mut acc = zero_hist();
    let mut i: usize = 0;
    let count = hists.len();
    while i < count
        invariant
            i <= count,
            count == hists@.len(),
            acc@.len() == BINS,
            forall|k: int| 0 <= k < hists@.len() ==> (#[trigger] hists@[k])@.len() == BINS,
            forall|b: int| 0 <= b < BINS ==> sum_at(hists@, b) <= u64::MAX,
            forall|b: int| 0 <= b < BINS ==> #[trigger] acc@[b] == sum_at(
                hists@.take(i as int),
                b,
            ),
        decreases count - i,
    {
        proof {
            assert(hists@.take(i + 1).drop_last() =~= hists@.take(i as int));
            assert(hists@.take(i + 1).last() == hists@[i as int]);
            assert forall|b: int| 0 <= b < BINS implies acc@[b] + hists@[i as int]@[b]
                <= u64::MAX by {
                lemma_sum_at_take_le(hists@, i + 1, b);
                lemma_sum_at_nonneg(hists@.take(i as int), b);
            }
        }
        acc = hist_add(acc, &hists[i]);
        i = i + 1;
    }
    proof {
        assert(hists@.take(count as int) =~= hists@);
    }
    acc
}

/// Combine private histograms by a balanced pairwise tree: neighbors are
/// added two at a time until a single histogram is left. Bin counts add
/// associatively and commutatively, so the contract — and hence the result —
/// is the same as the sequential fold's.
pub fn reduce_pairwise(hists: Vec<Vec<u64>>) -> (r: Vec<u64>)
    requires
        forall|k: int| 0 <= k < hists@.len() ==> (#[trigger] hists@[k])@.len() == BINS,
        forall|b: int| 0 <= b < BINS ==> sum_at(hists@, b) <= u64::MAX,
    ensures
        r@.len() == BINS,
        forall|b: int| 0 <= b < BINS ==> #[trigger] r@[b] == sum_at(hists@, b),
{
    let ghost orig = hists@;
    let mut cur = hists;
    if cur.len() == 0 {
        return zero_hist();
    }
    while cur.len() > 1
        invariant
            1 <= cur@.len(),
            forall|k: int| 0 <= k < cur@.len() ==> (#[trigger] cur@[k])@.len() == BINS,
            forall|b: int| 0 <= b < BINS ==> #[trigger] sum_at(cur@, b) == sum_at(orig, b),
            forall|b: int| 0 <= b < BINS ==> sum_at(orig, b) <= u64::MAX,
        decreases cur@.len(),
    {
        let ghost round = cur@;
        let mut next: Vec<Vec<u64>> = Vec::new();
        while cur.len() >= 2
            invariant
                forall|k: int| 0 <= k < cur@.len() ==> (#[trigger] cur@[k])@.len() == BINS,
                forall|k: int| 0 <= k < next@.len() ==> (#[trigger] next@[k])@.len() == BINS,
                forall|b: int| 0 <= b < BINS ==> #[trigger] sum_at(cur@, b) + sum_at(next@, b)
                    == sum_at(round, b),
                forall|b: int| 0 <= b < BINS ==> #[trigger] sum_at(round, b) == sum_at(orig, b),
                forall|b: int| 0 <= b < BINS ==> sum_at(orig, b) <= u64::MAX,
                2 * next@.len() + cur@.len() == round.len(),
            decreases cur@.len(),
        {
            let ghost cur0 = cur@;
            let ghost next0 = next@;
            let a = cur.pop().unwrap();
            let ghost cur1 = cur@;
            let second = cur.pop().unwrap();
            proof {
                assert(cur0.drop_last() =~= cur1);
                assert(cur1.drop_last() =~= cur@);
                assert(a == cur0.last());
                assert(second == cur1.last());
                assert forall|b: int| 0 <= b < BINS implies a@[b] + second@[b] <= u64::MAX by {
                    assert(sum_at(cur0, b) == sum_at(cur1, b) + a@[b]);
                    assert(sum_at(cur1, b) == sum_at(cur@, b) + second@[b]);
                    lemma_sum_at_nonneg(cur@, b);
                    lemma_sum_at_nonneg(next0, b);
                }
            }
            let merged = hist_add(a, &second);
            next.push(merged);
            proof {
                assert(next@.drop_last() =~= next0);
                assert(next@.last() == merged);
                assert forall|b: int| 0 <= b < BINS implies #[trigger] sum_at(cur@, b) + sum_at(
                    next@,
                    b,
                ) == sum_at(round, b) by {
                    assert(sum_at(cur0, b) == sum_at(cur1, b) + a@[b]);
                    assert(sum_at(cur1, b) == sum_at(cur@, b) + second@[b]);
                    assert(sum_at(next@, b) == sum_at(next0, b) + merged@[b]);
                    assert(merged@[b] == a@[b] + second@[b]);
                }
            }
        }
        if cur.len() == 1 {
            let ghost cur0 = cur@;
            let ghost next0 = next@;
            let leftover = cur.pop().unwrap();
            proof {
                assert(cur0.drop_last() =~= cur@);
                assert(leftover == cur0.last());
            }
            next.push(leftover);
            proof {
                assert(next@.drop_last() =~= next0);
                assert(next@.last() == leftover);
                assert forall|b: int| 0 <= b < BINS implies #[trigger] sum_at(cur@, b) + sum_at(
                    next@,
                    b,
                ) == sum_at(round, b) by {
                    assert(sum_at(cur0, b) == sum_at(cur@, b) + leftover@[b]);
                    assert(sum_at(next@, b) == sum_at(next0, b) + leftover@[b]);
                }
            }
        }
        proof {
            assert(cur@.len() == 0);
            assert forall|b: int| 0 <= b < BINS implies #[trigger] sum_at(next@, b) == sum_at(
                orig,
                b,
            ) by {
                assert(sum_at(cur@, b) == 0);
            }
        }
        cur = next;
    }
    let ghost last_round = cur@;
    let r = cur.pop().unwrap();
    proof {
        assert(last_round.drop_last() =~= cur@);
        assert(cur@.len() == 0);
        assert forall|b: int| 0 <= b < BINS implies r@[b] == sum_at(orig, b) by {
            assert(sum_at(last_round, b) == sum_at(cur@, b) + r@[b]);
        }
    }
    r
}

/// Two reductions that both meet the shared reduction contract for the same
/// private histograms produce the same final histogram: any reduction order
/// is valid.
pub proof fn lemma_reduction_agreement(hists: Seq<Vec<u64>>, ra: Seq<u64>, rb: Seq<u64>)
    requires
        ra.len() == BINS,
        rb.len() == BINS,
        forall|b: int| 0 <= b < BINS ==> #[trigger] ra[b] == sum_at(hists, b),
        forall|b: int| 0 <= b < BINS ==> #[trigger] rb[b] == sum_at(hists, b),
    ensures
        ra == rb,
{
    assert(ra =~= rb);
}

/// Conservation: a histogram whose bins hold the per-span counts of a
/// partitioning of the input sums to exactly the input length. No sample is
/// lost or double-counted, whatever the worker count, grain or padding that
/// produced the partitions.
pub proof fn lemma_conservation(data: Seq<u8>, parts: Seq<Partition>, h: Seq<u64>)
    requires
        h.len() == BINS,
        forall|b: int| 0 <= b < BINS ==> #[trigger] h[b] == spans_count(data, parts, b as u8),
        is_partitioning(parts, data.len()),
    ensures
        sum_hist(h) == data.len(),
{
    assert forall|b: int| 0 <= b < 256 implies #[trigger] h[b] == count_range(
        data,
        0,
        data.len() as int,
        b as u8,
    ) by {
        lemma_spans_count_partitioning(data, parts, b as u8);
    }
    lemma_sum_hist_of_counts(data, 0, data.len() as int, h, 256);
    assert(h.take(256) =~= h);
    lemma_total_below_full(data, 0, data.len() as int);
}

/// Cross-strategy equivalence: any two histograms that meet the shared
/// contract of the two aggregation strategies, for the same sequence and the
/// same partitions, are equal bin for bin.
pub proof fn lemma_strategy_equivalence(
    data: Seq<u8>,
    parts: Seq<Partition>,
    ha: Seq<u64>,
    hl: Seq<u64>,
)
    requires
        ha.len() == BINS,
        hl.len() == BINS,
        forall|b: int| 0 <= b < BINS ==> #[trigger] ha[b] == spans_count(data, parts, b as u8),
        forall|b: int| 0 <= b < BINS ==> #[trigger] hl[b] == spans_count(data, parts, b as u8),
    ensures
        ha == hl,
{
    assert(ha =~= hl);
}

/// The shared-atomic strategy: all workers increment one shared slot array
/// through relaxed atomic operations, optionally padded so that each counter
/// owns a full cache line.
///
/// The result holds the per-span count of every bin; over a partitioning of
/// the whole input it sums to the input length, with or without padding.
pub fn aggregate_atomic(
    data: &Vec<u8>,
    parts: &Vec<Partition>,
    pool: &rayon::ThreadPool,
    pad: bool,
) -> (r: Vec<u64>)
    requires
        parts_wf(parts@, data@.len()),
        total_size(parts@) <= u64::MAX,
    ensures
        r@.len() == BINS,
        forall|b: int| 0 <= b < BINS ==> #[trigger] r@[b] == spans_count(data@, parts@, b as u8),
        is_partitioning(parts@, data@.len()) ==> sum_hist(r@) == data@.len(),
{
    let stride: usize = if pad {
        PAD_STRIDE
    } else {
        1
    };
    let init = zero_slots(BINS * stride);
    let slots = atomic_scan(&init, data, parts, pool, stride);
    let mut r: Vec<u64> = Vec::new();
    let mut b: usize = 0;
    while b < BINS
        invariant
            b <= BINS,
            r@.len() == b,
            1 <= stride,
            slots@.len() == BINS * stride,
            forall|k: int| 0 <= k < BINS ==> slots@[k * (stride as int)] == #[trigger] spans_count(
                data@,
                parts@,
                k as u8,
            ),
            forall|k: int| 0 <= k < b ==> #[trigger] r@[k] == spans_count(data@, parts@, k as u8),
        decreases BINS - b,
    {
        let cap: usize = slots.len();
        proof {
            assert((b as int) * (stride as int) < 256 * (stride as int)) by (nonlinear_arith)
                requires
                    b < 256,
                    1 <= stride,
            ;
            assert((b as int) * (stride as int) < cap as int);
        }
        r.push(slots[b * stride]);
        b = b + 1;
    }
    proof {
        if is_partitioning(parts@, data@.len()) {
            lemma_conservation(data@, parts@, r@);
        }
    }
    r
}

/// The private-reduce strategy: every worker fills a private histogram
/// without synchronization, and after the join the private histograms are
/// folded bin by bin into the result.
///
/// The result holds the per-span count of every bin; over a partitioning of
/// the whole input it sums to the input length, whatever the grain.
pub fn aggregate_local(data: &Vec<u8>, parts: &Vec<Partition>, pool: &rayon::ThreadPool) -> (r:
    Vec<u64>)
    requires
        parts_wf(parts@, data@.len()),
        total_size(parts@) <= u64::MAX,
    ensures
        r@.len() == BINS,
        forall|b: int| 0 <= b < BINS ==> #[trigger] r@[b] == spans_count(data@, parts@, b as u8),
        is_partitioning(parts@, data@.len()) ==> sum_hist(r@) == data@.len(),
{
    let locals = local_scan(data, parts, pool);
    proof {
        assert forall|b: int| 0 <= b < BINS implies #[trigger] sum_at(locals@, b) == spans_count(
            data@,
            parts@,
            b as u8,
        ) by {
            lemma_sum_at_counts(data@, parts@, locals@, b);
        }
        assert forall|b: int| 0 <= b < BINS implies sum_at(locals@, b) <= u64::MAX by {
            lemma_spans_count_le_total(data@, parts@, b as u8);
        }
    }
    let acc = reduce_sequential(&locals);
    proof {
        if is_partitioning(parts@, data@.len()) {
            lemma_conservation(data@, parts@, acc@);
        }
    }
    acc
}

/// Run the shared-atomic strategy end to end: build a pool of `threads`
/// workers (each pinned through the core list, where one is given), then
/// time the aggregation alone — the clock starts after the pool stands and
/// stops before verification. Returns None where the platform refuses to
/// create the workers.
pub fn hist_atomic(
    data: &Vec<u8>,
    parts: &Vec<Partition>,
    threads: usize,
    pad: bool,
    cores: Option<Vec<core_affinity::CoreId>>,
) -> (r: Option<(u64, Vec<u64>)>)
    requires
        1 <= threads,
        parts_wf(parts@, data@.len()),
        total_size(parts@) <= u64::MAX,
    ensures
        r matches Some(out) ==> {
            &&& out.1@.len() == BINS
            &&& forall|b: int|
                0 <= b < BINS ==> #[trigger] out.1@[b] == spans_count(data@, parts@, b as u8)
            &&& is_partitioning(parts@, data@.len()) ==> sum_hist(out.1@) == data@.len()
        },
{
    match build_pool(threads, cores) {
        Option::None => Option::None,
        Option::Some(pool) => {
            let t0 = now_instant();
            let hist = aggregate_atomic(data, parts, &pool, pad);
            let elapsed = elapsed_ns(&t0);
            Option::Some((elapsed, hist))
        },
    }
}

/// Run the private-reduce strategy end to end: build a pool of `threads`
/// workers (each pinned through the core list, where one is given), then
/// time the aggregation alone — the clock starts after the pool stands and
/// stops before verification. Returns None where the platform refuses to
/// create the workers.
pub fn hist_local(
    data: &Vec<u8>,
    parts: &Vec<Partition>,
    threads: usize,
    cores: Option<Vec<core_affinity::CoreId>>,
) -> (r: Option<(u64, Vec<u64>)>)
    requires
        1 <= threads,
        parts_wf(parts@, data@.len()),
        total_size(parts@) <= u64::MAX,
    ensures
        r matches Some(out) ==> {
            &&& out.1@.len() == BINS
            &&& forall|b: int|
                0 <= b < BINS ==> #[trigger] out.1@[b] == spans_count(data@, parts@, b as u8)
            &&& is_partitioning(parts@, data@.len()) ==> sum_hist(out.1@) == data@.len()
        },
{
    match build_pool(threads, cores) {
        Option::None => Option::None,
        Option::Some(pool) => {
            let t0 = now_instant();
            let hist = aggregate_local(data, parts, &pool);
            let elapsed = elapsed_ns(&t0);
            Option::Some((elapsed, hist))
        },
    }
}

} // verus!
