//! Histogram counting: specifications, sequential building blocks, and the
//! conservation argument.
//!
//! The central spec function counts how often a byte occurs in an index range
//! of the input. From it follow the two facts the benchmark rests on: counts
//! over a chain of contiguous spans add up to the count over the whole input,
//! and the counts of all 256 bins add up to the number of samples scanned.

use vstd::prelude::*;
use crate::BINS;
use crate::partition::{
    Partition, is_partitioning, lemma_partitioning_drop_last, total_size,
};

verus! {

/// How often byte `b` occurs in `data[start..end]`.
pub open spec fn count_range(data: Seq<u8>, start: int, end: int, b: u8) -> int
    decreases end - start,
{
    if start >= end {
        0
    } else {
        count_range(data, start, end - 1, b) + if data[end - 1] == b {
            1int
        } else {
            0int
        }
    }
}

/// A count over a range is at least zero and at most the range length.
pub proof fn lemma_count_range_le(data: Seq<u8>, start: int, end: int, b: u8)
    requires
        start <= end,
    ensures
        0 <= count_range(data, start, end, b) <= end - start,
    decreases end - start,
{
    if start < end {
        lemma_count_range_le(data, start, end - 1, b);
    }
}

/// Counts over adjacent ranges add up.
pub proof fn lemma_count_range_split(data: Seq<u8>, start: int, mid: int, end: int, b: u8)
    requires
        start <= mid <= end,
    ensures
        count_range(data, start, end, b) == count_range(data, start, mid, b) + count_range(
            data,
            mid,
            end,
            b,
        ),
    decreases end - mid,
{
    if mid < end {
        lemma_count_range_split(data, start, mid, end - 1, b);
    }
}

/// The counts of the first `bins` bins over `data[start..end]`, added up.
pub open spec fn total_below(data: Seq<u8>, start: int, end: int, bins: int) -> int
    decreases bins,
{
    if bins <= 0 {
        0
    } else {
        total_below(data, start, end, bins - 1) + count_range(data, start, end, (bins - 1) as u8)
    }
}

/// Extending a range by one sample raises the summed counts by one exactly
/// when the new sample's value lies below `bins`.
proof fn lemma_total_below_step(data: Seq<u8>, start: int, end: int, bins: int)
    requires
        start < end,
        0 <= bins <= 256,
    ensures
        total_below(data, start, end, bins) == total_below(data, start, end - 1, bins) + if (
        data[end - 1] as int) < bins {
            1int
        } else {
            0int
        },
    decreases bins,
{
    if bins > 0 {
        lemma_total_below_step(data, start, end, bins - 1);
        assert(data[end - 1] == (bins - 1) as u8 <==> data[end - 1] as int == bins - 1);
    }
}

/// Over an empty range every bin counts zero, so the summed counts are zero.
proof fn lemma_total_below_empty(data: Seq<u8>, start: int, end: int, bins: int)
    requires
        start >= end,
    ensures
        total_below(data, start, end, bins) == 0,
    decreases bins,
{
    if bins > 0 {
        lemma_total_below_empty(data, start, end, bins - 1);
    }
}

/// Every sample falls in exactly one of the 256 bins, so the summed counts
/// over all bins equal the range length.
pub proof fn lemma_total_below_full(data: Seq<u8>, start: int, end: int)
    requires
        start <= end,
    ensures
        total_below(data, start, end, 256) == end - start,
    decreases end - start,
{
    if start < end {
        lemma_total_below_full(data, start, end - 1);
        lemma_total_below_step(data, start, end, 256);
        assert((data[end - 1] as int) < 256);
    } else {
        lemma_total_below_empty(data, start, end, 256);
    }
}

/// The values of a histogram, added up.
pub open spec fn sum_hist(h: Seq<u64>) -> int
    decreases h.len(),
{
    if h.len() == 0 {
        0
    } else {
        sum_hist(h.drop_last()) + h.last()
    }
}

/// A histogram whose bins hold the per-bin counts of a range sums to the
/// summed counts of that range.
pub proof fn lemma_sum_hist_of_counts(data: Seq<u8>, start: int, end: int, h: Seq<u64>, k: int)
    requires
        0 <= k <= 256,
        h.len() == 256,
        forall|b: int| 0 <= b < 256 ==> #[trigger] h[b] == count_range(data, start, end, b as u8),
    ensures
        sum_hist(h.take(k)) == total_below(data, start, end, k),
    decreases k,
{
    if k > 0 {
        lemma_sum_hist_of_counts(data, start, end, h, k - 1);
        assert(h.take(k).drop_last() =~= h.take(k - 1));
        assert(h.take(k).last() == h[k - 1]);
    }
}

/// How often byte `b` occurs over a sequence of spans, each counted
/// separately (overlaps, if any, counted as often as they occur).
pub open spec fn spans_count(data: Seq<u8>, parts: Seq<Partition>, b: u8) -> int
    decreases parts.len(),
{
    if parts.len() == 0 {
        0
    } else {
        spans_count(data, parts.drop_last(), b) + count_range(
            data,
            parts.last().start as int,
            parts.last().end as int,
            b,
        )
    }
}

/// A per-span count never exceeds the total size of the spans.
pub proof fn lemma_spans_count_le_total(data: Seq<u8>, parts: Seq<Partition>, b: u8)
    requires
        forall|i: int| 0 <= i < parts.len() ==> (#[trigger] parts[i]).start <= parts[i].end,
    ensures
        0 <= spans_count(data, parts, b) <= total_size(parts),
    decreases parts.len(),
{
    if parts.len() > 0 {
        lemma_spans_count_le_total(data, parts.drop_last(), b);
        lemma_count_range_le(data, parts.last().start as int, parts.last().end as int, b);
        assert(forall|i: int| 0 <= i < parts.drop_last().len() ==> (#[trigger] parts.drop_last()[
            i]).start <= parts.drop_last()[i].end);
    }
}

/// Over a partitioning of the whole input, the per-span counts add up to the
/// count over the whole input: no sample is lost or double-counted.
pub proof fn lemma_spans_count_partitioning(data: Seq<u8>, parts: Seq<Partition>, b: u8)
    requires
        is_partitioning(parts, data.len()),
    ensures
        spans_count(data, parts, b) == count_range(data, 0, data.len() as int, b),
{
    lemma_spans_count_partitioning_prefix(data, parts, data.len(), b);
}

/// Over a partitioning of a prefix `[0, m)`, the per-span counts add up to
/// the count over that prefix.
proof fn lemma_spans_count_partitioning_prefix(
    data: Seq<u8>,
    parts: Seq<Partition>,
    m: nat,
    b: u8,
)
    requires
        is_partitioning(parts, m),
        m <= data.len(),
    ensures
        spans_count(data, parts, b) == count_range(data, 0, m as int, b),
    decreases parts.len(),
{
    if parts.len() == 0 {
    } else if parts.len() == 1 {
        assert(parts.drop_last().len() == 0);
        assert(spans_count(data, parts.drop_last(), b) == 0);
        assert(parts.last() == parts[0]);
    } else {
        let p = parts[parts.len() - 2].end;
        lemma_partitioning_drop_last(parts, m);
        lemma_spans_count_partitioning_prefix(data, parts.drop_last(), p as nat, b);
        assert(parts.last() == parts[parts.len() - 1]);
        assert(parts[parts.len() - 2].end == parts[parts.len() - 1].start);
        lemma_count_range_split(data, 0, p as int, m as int, b);
    }
}

/// A histogram with every bin zero.
pub fn zero_hist() -> (r: Vec<u64>)
    ensures
        r@.len() == BINS,
        forall|b: int| 0 <= b < BINS ==> r@[b] == 0,
{
    let mut r: Vec<u64> = Vec::new();
    let mut i: usize = 0;
    while i < BINS
        invariant
            i <= BINS,
            r@.len() == i,
            forall|b: int| 0 <= b < i ==> r@[b] == 0,
        decreases BINS - i,
    {
        r.push(0);
        i = i + 1;
    }
    r
}

/// Scan one span of the input sequentially into a fresh private histogram.
///
/// This is the whole work of one worker under the private-reduce strategy:
/// the resulting histogram holds, for every bin, exactly the number of
/// samples of that value in the span.
pub fn count_span(data: &Vec<u8>, p: &Partition) -> (r: Vec<u64>)
    requires
        p.start <= p.end,
        p.end <= data@.len(),
    ensures
        r@.len() == BINS,
        forall|b: int| 0 <= b < BINS ==> #[trigger] r@[b] == count_range(
            data@,
            p.start as int,
            p.end as int,
            b as u8,
        ),
{
    let mut r = zero_hist();
    let mut i: usize = p.start;
    while i < p.end
        invariant
            p.start <= i <= p.end <= data@.len(),
            r@.len() == BINS,
            forall|b: int| 0 <= b < BINS ==> #[trigger] r@[b] == count_range(
                data@,
                p.start as int,
                i as int,
                b as u8,
            ),
        decreases p.end - i,
    {
        let v = data[i];
        proof {
            lemma_count_range_le(data@, p.start as int, i as int, v);
        }
        let idx: usize = v as usize;
        r[idx] = r[idx] + 1;
        i = i + 1;
        proof {
            assert forall|b: int| 0 <= b < BINS implies #[trigger] r@[b] == count_range(
                data@,
                p.start as int,
                i as int,
                b as u8,
            ) by {
                assert(data@[i - 1] == v);
            }
        }
    }
    r
}

/// Add a histogram into an accumulator, bin by bin.
pub fn hist_add(acc: Vec<u64>, h: &Vec<u64>) -> (r: Vec<u64>)
    requires
        acc@.len() == BINS,
        h@.len() == BINS,
        forall|b: int| 0 <= b < BINS ==> acc@[b] + h@[b] <= u64::MAX,
    ensures
        r@.len() == BINS,
        forall|b: int| 0 <= b < BINS ==> #[trigger] r@[b] == acc@[b] + h@[b],
{
    let mut r = acc;
    let ghost orig = r@;
    let mut i: usize = 0;
    while i < BINS
        invariant
            i <= BINS,
            r@.len() == BINS,
            h@.len() == BINS,
            forall|b: int| 0 <= b < BINS ==> orig[b] + h@[b] <= u64::MAX,
            forall|b: int| 0 <= b < i ==> #[trigger] r@[b] == orig[b] + h@[b],
            forall|b: int| i <= b < BINS ==> #[trigger] r@[b] == orig[b],
        decreases BINS - i,
    {
        r[i] = r[i] + h[i];
        i = i + 1;
    }
    r
}

/// The correctness verifier: does the histogram's total equal the expected
/// number of samples?
///
/// A `false` answer signals a synchronization bug or a partition gap or
/// overlap; it is the invariant the benchmark exists to protect.
pub fn check_correct(hist: &Vec<u64>, n: usize) -> (r: bool)
    requires
        hist@.len() == BINS,
    ensures
        r == (sum_hist(hist@) == n as int),
{
    let mut total: u128 = 0;
    let mut i: usize = 0;
    while i < BINS
        invariant
            i <= BINS,
            hist@.len() == BINS,
            total == sum_hist(hist@.take(i as int)),
            total <= (i as int) * 0xFFFF_FFFF_FFFF_FFFFu128,
        decreases BINS - i,
    {
        proof {
            assert(hist@.take(i + 1).drop_last() =~= hist@.take(i as int));
            assert(hist@.take(i + 1).last() == hist@[i as int]);
            assert(((i + 1) as int) * 0xFFFF_FFFF_FFFF_FFFFu128 == (i as int)
                * 0xFFFF_FFFF_FFFF_FFFFu128 + 0xFFFF_FFFF_FFFF_FFFFu128) by (nonlinear_arith);
        }
        total = total + (hist[i] as u128);
        i = i + 1;
    }
    proof {
        assert(hist@.take(BINS as int) =~= hist@);
    }
    total == (n as u128)
}

} // verus!
