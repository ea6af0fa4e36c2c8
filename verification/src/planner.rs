//! Range planner: partitions a resource of known length into contiguous,
//! non-overlapping byte ranges, one per worker.

use vstd::prelude::*;

verus! {

/// One contiguous byte subrange of the resource, fetched independently.
/// `end` is inclusive, matching an HTTP `Range: bytes=start-end` header.
/// `index` is the 0-based position of the range in the plan and defines
/// the output ordering during assembly.
#[derive(Debug, Clone, Copy, PartialEq, Eq, Structural)]
pub struct ByteRange {
    pub index: usize,
    pub start: u64,
    pub end: u64,
}

impl ByteRange {
    /// A well-formed range is non-empty and leaves room for the inclusive
    /// `end` bound: `end` stays below `u64::MAX` because it is at most
    /// `total_size - 1`.
    pub open spec fn wf(self) -> bool {
        self.start <= self.end < u64::MAX
    }

    /// Number of bytes the range spans.
    pub open spec fn byte_len(self) -> int {
        self.end - self.start + 1
    }
}

/// Chunk size used by the planner: `ceil(total / workers)`.
pub open spec fn chunk_size_spec(total: int, workers: int) -> int
    recommends
        workers >= 1,
{
    if total % workers == 0 {
        total / workers
    } else {
        total / workers + 1
    }
}

/// The plan, described from an intermediate state: ranges are emitted
/// starting at byte `start` with worker index `i`, each spanning at most
/// `c` bytes, until the resource of `total` bytes is covered or all
/// `workers` workers have a range.
pub open spec fn plan_suffix(total: int, c: int, start: int, i: int, workers: int) -> Seq<ByteRange>
    decreases workers - i,
{
    if i >= workers || start >= total {
        Seq::empty()
    } else {
        let end = if total - start > c {
            start + c - 1
        } else {
            total - 1
        };
        seq![
            ByteRange { index: i as usize, start: start as u64, end: end as u64 },
        ] + plan_suffix(total, c, start + c, i + 1, workers)
    }
}

/// The full plan for a resource of `total` bytes split over `workers`
/// workers.
pub open spec fn plan_spec(total: int, workers: int) -> Seq<ByteRange> {
    plan_suffix(total, chunk_size_spec(total, workers), 0, 0, workers)
}

/// The ranges tile the interval `[lo, hi)` exactly: the first starts at
/// `lo`, the last ends at `hi - 1`, every range is non-empty, and each
/// range begins right after its predecessor ends. An empty sequence
/// tiles only the empty interval.
pub open spec fn covers_interval(ranges: Seq<ByteRange>, lo: int, hi: int) -> bool {
    if ranges.len() == 0 {
        lo == hi
    } else {
        &&& ranges[0].start == lo
        &&& ranges[ranges.len() - 1].end == hi - 1
        &&& forall|k: int| 0 <= k < ranges.len() ==> (#[trigger] ranges[k]).start <= ranges[k].end
        &&& forall|k: int|
            0 <= k < ranges.len() - 1 ==> (#[trigger] ranges[k]).end + 1 == ranges[k + 1].start
    }
}

/// The ranges tile `[0, total)` exactly, with no gaps and no overlaps.
pub open spec fn plan_covers(ranges: Seq<ByteRange>, total: int) -> bool {
    covers_interval(ranges, 0, total)
}

/// `off` lies inside the range `r`.
pub open spec fn range_contains(r: ByteRange, off: int) -> bool {
    r.start <= off <= r.end
}

/// Total number of bytes the ranges span.
pub open spec fn total_planned(ranges: Seq<ByteRange>) -> int
    decreases ranges.len(),
{
    if ranges.len() == 0 {
        0
    } else {
        ranges[0].byte_len() + total_planned(ranges.drop_first())
    }
}

/// Ranges that tile `[lo, hi)` all lie inside it.
pub proof fn lemma_covering_bounds(ranges: Seq<ByteRange>, lo: int, hi: int)
    requires
        covers_interval(ranges, lo, hi),
        ranges.len() > 0,
    ensures
        forall|k: int|
            0 <= k < ranges.len() ==> lo <= (#[trigger] ranges[k]).start <= ranges[k].end < hi,
    decreases ranges.len(),
{
    if ranges.len() == 1 {
    } else {
        let rest = ranges.drop_first();
        assert(forall|k: int| 0 <= k < rest.len() ==> rest[k] == ranges[k + 1]);
        assert(covers_interval(rest, ranges[0].end + 1, hi));
        lemma_covering_bounds(rest, ranges[0].end + 1, hi);
        assert(ranges[0].end < rest[0].start <= hi);
        assert forall|k: int| 0 <= k < ranges.len() implies lo <= (#[trigger] ranges[k]).start
            <= ranges[k].end < hi by {
            if k > 0 {
                assert(ranges[k] == rest[k - 1]);
            }
        }
    }
}

proof fn lemma_interval_lengths_sum(ranges: Seq<ByteRange>, lo: int, hi: int)
    requires
        covers_interval(ranges, lo, hi),
        lo <= hi,
    ensures
        total_planned(ranges) == hi - lo,
    decreases ranges.len(),
{
    if ranges.len() == 0 {
    } else if ranges.len() == 1 {
        assert(ranges.drop_first().len() == 0);
        assert(total_planned(ranges.drop_first()) == 0);
        assert(total_planned(ranges) == ranges[0].byte_len());
    } else {
        lemma_covering_bounds(ranges, lo, hi);
        let rest = ranges.drop_first();
        assert(forall|k: int| 0 <= k < rest.len() ==> rest[k] == ranges[k + 1]);
        assert(covers_interval(rest, ranges[0].end + 1, hi));
        lemma_interval_lengths_sum(rest, ranges[0].end + 1, hi);
        assert(total_planned(ranges) == ranges[0].byte_len() + total_planned(rest));
    }
}

/// The planned ranges account for every byte exactly once: their
/// lengths sum to the resource size.
pub proof fn lemma_plan_lengths_sum(total: int, workers: int)
    requires
        1 <= workers <= usize::MAX,
        0 <= total <= u64::MAX,
    ensures
        total_planned(plan_spec(total, workers)) == total,
{
    lemma_plan_spec_covers(total, workers);
    lemma_interval_lengths_sum(plan_spec(total, workers), 0, total);
}

proof fn lemma_chunk_size_covers(total: int, workers: int)
    requires
        workers >= 1,
        total >= 0,
    ensures
        total > 0 ==> chunk_size_spec(total, workers) >= 1,
        total <= workers * chunk_size_spec(total, workers),
{
    let q = total / workers;
    let r = total % workers;
    vstd::arithmetic::div_mod::lemma_fundamental_div_mod(total, workers);
    vstd::arithmetic::div_mod::lemma_mod_bound(total, workers);
    assert(total == workers * q + r);
    assert(q >= 0) by (nonlinear_arith)
        requires
            workers >= 1,
            workers * q + r == total,
            total >= 0,
            0 <= r < workers,
    ;
    if r == 0 {
        assert(total <= workers * q);
        if total > 0 {
            assert(q >= 1) by (nonlinear_arith)
                requires
                    workers >= 1,
                    q >= 0,
                    workers * q == total,
                    total > 0,
            ;
        }
    } else {
        assert(workers * (q + 1) == workers * q + workers) by (nonlinear_arith);
    }
}

proof fn lemma_plan_suffix_props(total: int, c: int, start: int, i: int, workers: int)
    requires
        c >= 1,
        0 <= start,
        0 <= i <= workers <= usize::MAX,
        total <= u64::MAX,
        total - start <= (workers - i) * c,
    ensures
        start < total ==> covers_interval(plan_suffix(total, c, start, i, workers), start, total),
        start >= total ==> plan_suffix(total, c, start, i, workers).len() == 0,
        plan_suffix(total, c, start, i, workers).len() <= workers - i,
        plan_suffix(total, c, start, i, workers).len() <= total - start
            || plan_suffix(total, c, start, i, workers).len() == 0,
        forall|k: int|
            0 <= k < plan_suffix(total, c, start, i, workers).len()
                ==> {
                &&& (#[trigger] plan_suffix(total, c, start, i, workers)[k]).index == i + k
                &&& plan_suffix(total, c, start, i, workers)[k].start <= plan_suffix(
                    total,
                    c,
                    start,
                    i,
                    workers,
                )[k].end < total
                &&& plan_suffix(total, c, start, i, workers)[k].byte_len() <= c
            },
    decreases workers - i,
{
    if i >= workers || start >= total {
        if start < total {
            assert(i >= workers);
            assert((workers - i) * c <= 0) by (nonlinear_arith)
                requires
                    workers - i <= 0,
                    c >= 1,
            ;
            assert(false);
        }
    } else {
        let end = if total - start > c {
            start + c - 1
        } else {
            total - 1
        };
        let head = ByteRange { index: i as usize, start: start as u64, end: end as u64 };
        let tail = plan_suffix(total, c, start + c, i + 1, workers);
        let s = plan_suffix(total, c, start, i, workers);
        assert(s == seq![head] + tail);
        assert((workers - i) * c - c == (workers - (i + 1)) * c) by (nonlinear_arith);
        lemma_plan_suffix_props(total, c, start + c, i + 1, workers);
        assert(s[0] == head);
        assert(forall|k: int| 1 <= k < s.len() ==> s[k] == tail[k - 1]);
        if start + c >= total {
            assert(tail.len() == 0);
            assert(s.len() == 1);
        } else {
            assert(covers_interval(tail, start + c, total));
            assert(tail.len() >= 1);
            assert(s[s.len() - 1] == tail[tail.len() - 1]);
            assert(head.end + 1 == start + c == tail[0].start);
        }
        assert forall|k: int| 0 <= k < s.len() implies {
            &&& (#[trigger] s[k]).index == i + k
            &&& s[k].start <= s[k].end < total
            &&& s[k].byte_len() <= c
        } by {
            if k == 0 {
                assert(s[k] == head);
            } else {
                assert(s[k] == tail[k - 1]);
                assert(tail[k - 1].index == (i + 1) + (k - 1));
            }
        }
    }
}

/// Everything the planner promises of the emitted plan: it tiles the
/// resource exactly, uses at most one range per worker and never more
/// ranges than there are bytes, every range is non-empty, carries its
/// position as `index`, and spans at most one chunk.
pub proof fn lemma_plan_spec_covers(total: int, workers: int)
    requires
        1 <= workers <= usize::MAX,
        0 <= total <= u64::MAX,
    ensures
        plan_covers(plan_spec(total, workers), total),
        plan_spec(total, workers).len() <= workers,
        plan_spec(total, workers).len() <= total,
        total > 0 ==> plan_spec(total, workers).len() >= 1,
        total == 0 ==> plan_spec(total, workers).len() == 0,
        forall|k: int|
            0 <= k < plan_spec(total, workers).len()
                ==> {
                &&& (#[trigger] plan_spec(total, workers)[k]).index == k
                &&& plan_spec(total, workers)[k].wf()
                &&& plan_spec(total, workers)[k].start <= plan_spec(total, workers)[k].end < total
                &&& plan_spec(total, workers)[k].byte_len() <= chunk_size_spec(total, workers)
            },
{
    lemma_chunk_size_covers(total, workers);
    if total == 0 {
        assert(plan_spec(total, workers).len() == 0);
    } else {
        lemma_plan_suffix_props(total, chunk_size_spec(total, workers), 0, 0, workers);
    }
}

proof fn lemma_ranges_ordered(ranges: Seq<ByteRange>, lo: int, hi: int, i: int, j: int)
    requires
        covers_interval(ranges, lo, hi),
        0 <= i < j < ranges.len(),
    ensures
        ranges[i].end < ranges[j].start,
    decreases j - i,
{
    if j == i + 1 {
    } else {
        lemma_ranges_ordered(ranges, lo, hi, i, j - 1);
    }
}

proof fn lemma_covering_reaches(ranges: Seq<ByteRange>, lo: int, hi: int, off: int)
    requires
        covers_interval(ranges, lo, hi),
        lo <= off < hi,
    ensures
        exists|k: int| 0 <= k < ranges.len() && range_contains(#[trigger] ranges[k], off),
    decreases ranges.len(),
{
    assert(ranges.len() > 0);
    if off <= ranges[0].end {
        assert(range_contains(ranges[0], off));
    } else {
        let rest = ranges.drop_first();
        assert(ranges.len() >= 2);
        assert(forall|k: int| 0 <= k < rest.len() ==> rest[k] == ranges[k + 1]);
        assert(covers_interval(rest, ranges[0].end + 1, hi));
        lemma_covering_reaches(rest, ranges[0].end + 1, hi, off);
        let k = choose|k: int| 0 <= k < rest.len() && range_contains(#[trigger] rest[k], off);
        assert(range_contains(ranges[k + 1], off));
    }
}

/// Coverage law: for every worker count of at least one, each byte
/// offset of the resource lies in exactly one planned range, and no
/// planned range reaches outside the resource.
pub proof fn lemma_plan_coverage(total: int, workers: int, off: int)
    requires
        1 <= workers <= usize::MAX,
        0 <= total <= u64::MAX,
        0 <= off < total,
    ensures
        exists|k: int|
            0 <= k < plan_spec(total, workers).len() && range_contains(
                #[trigger] plan_spec(total, workers)[k],
                off,
            ),
        forall|k1: int, k2: int|
            (0 <= k1 < plan_spec(total, workers).len() && 0 <= k2 < plan_spec(
                total,
                workers,
            ).len() && range_contains(#[trigger] plan_spec(total, workers)[k1], off)
                && range_contains(#[trigger] plan_spec(total, workers)[k2], off)) ==> k1 == k2,
        forall|k: int|
            0 <= k < plan_spec(total, workers).len() ==> 0 <= (
            #[trigger] plan_spec(total, workers)[k]).start <= plan_spec(total, workers)[k].end
                < total,
{
    lemma_plan_spec_covers(total, workers);
    let s = plan_spec(total, workers);
    lemma_covering_reaches(s, 0, total, off);
    assert forall|k1: int, k2: int|
        (0 <= k1 < s.len() && 0 <= k2 < s.len() && range_contains(#[trigger] s[k1], off)
            && range_contains(#[trigger] s[k2], off)) implies k1 == k2 by {
        if k1 < k2 {
            lemma_ranges_ordered(s, 0, total, k1, k2);
        }
        if k2 < k1 {
            lemma_ranges_ordered(s, 0, total, k2, k1);
        }
    }
}

/// Computes the byte ranges that split a resource of `total_size` bytes
/// over `worker_count` workers: chunk size `ceil(total_size /
/// worker_count)`, one range per worker starting at `i * chunk_size`,
/// the last range absorbing the remainder, and ranges that would start
/// at or past the end of the resource dropped. A zero-length resource
/// yields an empty plan.
pub fn plan(total_size: u64, worker_count: usize) -> (ranges: Vec<ByteRange>)
    requires
        worker_count >= 1,
    ensures
        ranges@ == plan_spec(total_size as int, worker_count as int),
        plan_covers(ranges@, total_size as int),
        ranges@.len() <= worker_count,
        ranges@.len() <= total_size,
        total_size > 0 ==> ranges@.len() >= 1,
        total_size == 0 ==> ranges@.len() == 0,
        forall|k: int|
            0 <= k < ranges@.len()
                ==> {
                &&& (#[trigger] ranges@[k]).index == k
                &&& ranges@[k].wf()
                &&& ranges@[k].start <= ranges@[k].end < total_size
                &&& ranges@[k].byte_len() <= chunk_size_spec(
                    total_size as int,
                    worker_count as int,
                )
            },
{
    let ghost total = total_size as int;
    let ghost workers = worker_count as int;
    proof {
        lemma_chunk_size_covers(total, workers);
    }
    let divisor: u64 = worker_count as u64;
    let q: u64 = total_size / divisor;
    let rem: u64 = total_size % divisor;
    let chunk: u64 = if rem == 0 {
        q
    } else {
        proof {
            assert(q < u64::MAX) by (nonlinear_arith)
                requires
                    divisor >= 2 || (total_size % divisor == 0),
                    total_size % divisor != 0,
                    q == total_size / divisor,
                    total_size <= u64::MAX,
            ;
        }
        q + 1
    };
    assert(chunk == chunk_size_spec(total, workers));

    let mut ranges: Vec<ByteRange> = Vec::new();
    let mut i: usize = 0;
    let mut start: u64 = 0;
    while i < worker_count && start < total_size
        invariant
            worker_count >= 1,
            i <= worker_count,
            total == total_size as int,
            workers == worker_count as int,
            chunk == chunk_size_spec(total, workers),
            total_size > 0 ==> chunk >= 1,
            ranges@ + plan_suffix(total, chunk as int, start as int, i as int, workers)
                == plan_spec(total, workers),
        decreases worker_count - i,
    {
        let ghost before = ranges@;
        let ghost c = chunk as int;
        let ghost start0 = start as int;
        let ghost i0 = i as int;
        let ghost spec_end: int = if total - start0 > c {
            start0 + c - 1
        } else {
            total - 1
        };
        let ghost head = ByteRange {
            index: i0 as usize,
            start: start0 as u64,
            end: spec_end as u64,
        };
        proof {
            assert(plan_suffix(total, c, start0, i0, workers) == seq![head] + plan_suffix(
                total,
                c,
                start0 + c,
                i0 + 1,
                workers,
            ));
        }
        if total_size - start > chunk {
            let end: u64 = start + chunk - 1;
            ranges.push(ByteRange { index: i, start, end });
            start = start + chunk;
        } else {
            let end: u64 = total_size - 1;
            ranges.push(ByteRange { index: i, start, end });
            start = total_size;
            proof {
                assert(plan_suffix(total, c, start0 + c, i0 + 1, workers)
                    =~= Seq::<ByteRange>::empty());
                assert(plan_suffix(total, c, start as int, i0 + 1, workers)
                    =~= Seq::<ByteRange>::empty());
            }
        }
        i = i + 1;
        proof {
            assert(ranges@ =~= before + seq![head]);
            assert(ranges@ + plan_suffix(total, c, start as int, i as int, workers) =~= before
                + plan_suffix(total, c, start0, i0, workers));
        }
    }
    proof {
        assert(plan_suffix(total, chunk as int, start as int, i as int, workers)
            =~= Seq::<ByteRange>::empty());
        assert(ranges@ =~= plan_spec(total, workers));
        lemma_plan_spec_covers(total, workers);
    }
    ranges
}

} // verus!
