//! Work partitioning.
//!
//! A partition is a contiguous half-open index range of the sample sequence
//! assigned to one worker. The partitioner slices `[0, n)` either into
//! exactly `t` near-equal spans (automatic mode) or into spans of a given
//! grain size, the last possibly shorter. In both modes the spans are
//! contiguous, so together they cover the input exactly once.

use vstd::prelude::*;
use vstd::arithmetic::div_mod::lemma_fundamental_div_mod;

verus! {

/// A contiguous half-open index range `[start, end)` of the sample sequence.
#[derive(Clone, Copy, PartialEq, Eq, Structural, Debug)]
pub struct Partition {
    pub start: usize,
    pub end: usize,
}

impl Partition {
    /// Number of samples the partition holds.
    pub open spec fn size(self) -> int {
        self.end - self.start
    }

    /// A valid range within an input of length `n`.
    pub open spec fn wf(self, n: nat) -> bool {
        self.start <= self.end <= n
    }
}

/// Every partition is a valid range within an input of length `n`.
pub open spec fn parts_wf(parts: Seq<Partition>, n: nat) -> bool {
    forall|i: int| 0 <= i < parts.len() ==> (#[trigger] parts[i]).wf(n)
}

/// Each partition begins where the previous one ends.
pub open spec fn contiguous(parts: Seq<Partition>) -> bool {
    forall|i: int, j: int|
        #![trigger parts[i], parts[j]]
        0 <= i && i + 1 == j && j < parts.len() ==> parts[i].end == parts[j].start
}

/// The partitions tile `[0, n)` exactly: valid, contiguous, starting at 0
/// and ending at `n`.
pub open spec fn is_partitioning(parts: Seq<Partition>, n: nat) -> bool {
    &&& parts_wf(parts, n)
    &&& contiguous(parts)
    &&& (parts.len() == 0 ==> n == 0)
    &&& (parts.len() > 0 ==> parts[0].start == 0 && parts[parts.len() - 1].end == n)
}

/// Total number of samples over all partitions.
pub open spec fn total_size(parts: Seq<Partition>) -> int
    decreases parts.len(),
{
    if parts.len() == 0 {
        0
    } else {
        total_size(parts.drop_last()) + parts.last().size()
    }
}

/// Where a span of `chunk` samples from `start` ends, clamped to `n`.
pub open spec fn spec_clamped_end(start: int, chunk: int, n: int) -> int {
    if start + chunk <= n {
        start + chunk
    } else {
        n
    }
}

/// The ceiling of `n / t`.
pub open spec fn spec_ceil_div(n: int, t: int) -> int {
    if n % t == 0 {
        n / t
    } else {
        n / t + 1
    }
}

/// Compute the ceiling of `n / t`.
fn ceil_div(n: usize, t: usize) -> (r: usize)
    requires
        1 <= t,
    ensures
        r == spec_ceil_div(n as int, t as int),
        n <= r * t,
        r <= n,
{
    proof {
        lemma_fundamental_div_mod(n as int, t as int);
        assert(n as int <= spec_ceil_div(n as int, t as int) * (t as int)) by (nonlinear_arith)
            requires
                1 <= t,
                0 <= n,
                n as int == (t as int) * ((n as int) / (t as int)) + (n as int) % (t as int),
                0 <= (n as int) % (t as int) < t as int,
                spec_ceil_div(n as int, t as int) == if (n as int) % (t as int) == 0 {
                    (n as int) / (t as int)
                } else {
                    (n as int) / (t as int) + 1
                },
        ;
        assert((n as int) / (t as int) <= n as int) by (nonlinear_arith)
            requires
                1 <= t,
                0 <= n,
        ;
    }
    if n % t == 0 {
        n / t
    } else {
        proof {
            if t == 1 {
                lemma_fundamental_div_mod(n as int, 1);
                assert(false);
            }
            assert((n as int) / (t as int) < n as int) by (nonlinear_arith)
                requires
                    2 <= t,
                    1 <= n,
            ;
            if n == 0 {
                assert(false);
            }
        }
        n / t + 1
    }
}

/// In any contiguous, size-valid chain, earlier partitions end no later than
/// later ones begin: the spans never overlap.
pub proof fn lemma_chain_ordered(parts: Seq<Partition>, i: int, j: int)
    requires
        contiguous(parts),
        forall|k: int| 0 <= k < parts.len() ==> (#[trigger] parts[k]).start <= parts[k].end,
        0 <= i < j < parts.len(),
    ensures
        parts[i].end <= parts[j].start,
    decreases j - i,
{
    if i + 1 == j {
        assert(parts[i].end == parts[j].start);
    } else {
        lemma_chain_ordered(parts, i, j - 1);
        assert(parts[j - 1].end == parts[j].start);
    }
}

/// Dropping the last partition of a partitioning leaves a partitioning of the
/// prefix that ends where the dropped partition begins.
pub proof fn lemma_partitioning_drop_last(parts: Seq<Partition>, n: nat)
    requires
        is_partitioning(parts, n),
        parts.len() > 1,
    ensures
        is_partitioning(parts.drop_last(), parts[parts.len() - 2].end as nat),
{
    let rest = parts.drop_last();
    let m = parts[parts.len() - 2].end as nat;
    assert forall|i: int| 0 <= i < rest.len() implies (#[trigger] rest[i]).wf(m) by {
        assert(rest[i] == parts[i]);
        if i < parts.len() - 2 {
            lemma_chain_ordered(parts, i, parts.len() - 2);
        }
    }
    assert forall|i: int, j: int|
        0 <= i && i + 1 == j && j < rest.len() implies (#[trigger] rest[i]).end
        == (#[trigger] rest[j]).start by {
        assert(rest[i] == parts[i] && rest[j] == parts[j]);
    }
}

/// The partitions of a partitioning are pairwise disjoint: an earlier one
/// ends before a later one begins.
pub proof fn lemma_partitioning_disjoint(parts: Seq<Partition>, n: nat, i: int, j: int)
    requires
        is_partitioning(parts, n),
        0 <= i < j < parts.len(),
    ensures
        parts[i].end <= parts[j].start,
{
    lemma_chain_ordered(parts, i, j);
}

/// The sizes of a partitioning sum to the full input length.
pub proof fn lemma_partitioning_total_size(parts: Seq<Partition>, n: nat)
    requires
        is_partitioning(parts, n),
    ensures
        total_size(parts) == n,
    decreases parts.len(),
{
    if parts.len() == 0 {
    } else if parts.len() == 1 {
        assert(parts.drop_last().len() == 0);
        assert(total_size(parts) == total_size(parts.drop_last()) + parts.last().size());
        assert(parts.last() == parts[0]);
    } else {
        lemma_partitioning_drop_last(parts, n);
        lemma_partitioning_total_size(parts.drop_last(), parts[parts.len() - 2].end as nat);
        assert(parts[parts.len() - 2].end == parts[parts.len() - 1].start);
        assert(parts.last() == parts[parts.len() - 1]);
    }
}

/// Every index below `n` falls inside some partition of a partitioning:
/// there are no gaps.
pub proof fn lemma_partitioning_covers(parts: Seq<Partition>, n: nat, k: int)
    requires
        is_partitioning(parts, n),
        0 <= k < n,
    ensures
        exists|i: int|
            0 <= i < parts.len() && (#[trigger] parts[i]).start <= k < parts[i].end,
    decreases parts.len(),
{
    let last = parts.len() - 1;
    if parts[last].start <= k {
        assert(parts[last].start <= k < parts[last].end);
    } else {
        lemma_partitioning_drop_last(parts, n);
        lemma_partitioning_covers(parts.drop_last(), parts[last - 1].end as nat, k);
        let i = choose|i: int|
            0 <= i < parts.drop_last().len() && (#[trigger] parts.drop_last()[i]).start <= k
                < parts.drop_last()[i].end;
        assert(parts[i].start <= k < parts[i].end);
    }
}

/// Slice `[0, n)` into contiguous spans for `t` workers.
///
/// With `grain == 0` the result is exactly `t` spans of the ceiling of
/// `n / t` samples each, the trailing ones clamped to `n` (and so possibly
/// empty when `t` exceeds `n`). With `grain > 0` every span holds exactly
/// `grain` samples except the last, which holds the remainder.
pub fn make_partitions(n: usize, t: usize, grain: usize) -> (r: Vec<Partition>)
    requires
        1 <= t,
    ensures
        is_partitioning(r@, n as nat),
        grain == 0 ==> r@.len() == t,
        grain == 0 ==> forall|i: int|
            0 <= i < r@.len() ==> (#[trigger] r@[i]).end == spec_clamped_end(
                r@[i].start as int,
                spec_ceil_div(n as int, t as int),
                n as int,
            ),
        grain > 0 ==> forall|i: int|
            0 <= i < r@.len() ==> (#[trigger] r@[i]).size() <= grain && (i < r@.len() - 1
                ==> r@[i].size() == grain) && (n > 0 ==> r@[i].size() > 0),
{
    let mut parts: Vec<Partition> = Vec::new();
    if grain == 0 {
        let chunk = ceil_div(n, t);
        let ghost c = chunk as int;
        proof {
            assert(c * (t as int) == (t as int) * c) by (nonlinear_arith);
        }
        let mut start: usize = 0;
        let mut i: usize = 0;
        while i < t
            invariant
                i <= t,
                start <= n,
                c == chunk,
                c == spec_ceil_div(n as int, t as int),
                parts@.len() == i,
                n - start <= (t - i) * c,
                i == 0 ==> start == 0,
                i > 0 ==> parts@[0].start == 0 && parts@[i - 1].end == start,
                forall|j: int| 0 <= j < i ==> (#[trigger] parts@[j]).start <= parts@[j].end
                    <= n,
                forall|j: int| 0 <= j < i ==> (#[trigger] parts@[j]).end == spec_clamped_end(
                    parts@[j].start as int,
                    c,
                    n as int,
                ),
                contiguous(parts@),
            decreases t - i,
        {
            let len = if n - start < chunk {
                n - start
            } else {
                chunk
            };
            let end = start + len;
            parts.push(Partition { start, end });
            proof {
                assert((t - i) * c - c == (t - (i + 1)) * c) by (nonlinear_arith);
                assert((t - (i + 1)) * c >= 0) by (nonlinear_arith)
                    requires
                        i + 1 <= t,
                        c >= 0,
                ;
            }
            start = end;
            i = i + 1;
        }
        proof {
            assert((t - t) * c == 0) by (nonlinear_arith);
            assert(start == n);
        }
    } else {
        let mut start: usize = 0;
        while start < n
            invariant
                start <= n,
                1 <= grain,
                parts@.len() == 0 ==> start == 0,
                parts@.len() > 0 ==> parts@[0].start == 0 && parts@[parts@.len() - 1].end
                    == start,
                forall|j: int| 0 <= j < parts@.len() ==> (#[trigger] parts@[j]).start
                    <= parts@[j].end <= n,
                forall|j: int| 0 <= j < parts@.len() ==> 0 < (#[trigger] parts@[j]).size()
                    <= grain,
                forall|j: int| 0 <= j < parts@.len() ==> ((#[trigger] parts@[j]).size() == grain
                    || parts@[j].end == n),
                contiguous(parts@),
            decreases n - start,
        {
            let len = if n - start < grain {
                n - start
            } else {
                grain
            };
            let end = start + len;
            parts.push(Partition { start, end });
            start = end;
        }
        proof {
            assert forall|i: int| 0 <= i < parts@.len() - 1 implies (#[trigger] parts@[i]).size()
                == grain by {
                assert(parts@[i].end == parts@[i + 1].start);
                assert(parts@[i + 1].start < parts@[i + 1].end);
                assert(parts@[i + 1].end <= n);
            }
        }
    }
    parts
}

} // verus!
