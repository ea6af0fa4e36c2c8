//! Download coordinator: collects per-range results as the workers
//! finish, in whatever order they finish, and reassembles the payloads
//! strictly in range-index order. A run is all-or-nothing: if any chunk
//! fails, the first observed failure is reported and no bytes are
//! produced.
//!
//! The caller drives the run: it obtains the plan with
//! [`Coordinator::start`], performs one fetch per range concurrently,
//! reports every outcome with [`Coordinator::on_chunk_done`] or
//! [`Coordinator::on_chunk_failed`], and closes the run with
//! [`Coordinator::finish`] once every worker is accounted for.

use vstd::prelude::*;
use crate::error::DownloadError;
use crate::error::FetchError;
use crate::planner::ByteRange;
use crate::planner::covers_interval;
use crate::planner::lemma_covering_bounds;
use crate::planner::lemma_plan_spec_covers;
use crate::planner::plan;
use crate::planner::plan_covers;
use crate::planner::plan_spec;

verus! {

/// Everything one download run needs: where to fetch from, where to
/// write, how many bytes the resource has (known in advance from a
/// prior metadata probe), and how many workers to split it over.
#[derive(Debug, Clone)]
pub struct DownloadTask {
    pub source_url: String,
    pub destination_path: String,
    pub total_size: u64,
    pub worker_count: usize,
}

impl DownloadTask {
    /// Task invariant: at least one worker.
    pub open spec fn wf(self) -> bool {
        self.worker_count >= 1
    }
}

/// The first failure a run observed: which chunk, and why.
#[derive(Debug, Clone, Copy, PartialEq, Eq, Structural)]
pub struct FailedChunk {
    pub index: usize,
    pub cause: FetchError,
}

/// The slice of the resource `data` that the range `r` selects.
pub open spec fn chunk_of(data: Seq<u8>, r: ByteRange) -> Seq<u8> {
    data.subrange(r.start as int, r.end as int + 1)
}

/// Concatenation of the chunk payloads in slot order.
pub open spec fn concat_chunks(chunks: Seq<Seq<u8>>) -> Seq<u8>
    decreases chunks.len(),
{
    if chunks.len() == 0 {
        Seq::empty()
    } else {
        chunks[0] + concat_chunks(chunks.drop_first())
    }
}

/// The payloads held in a slot sequence, in index order.
pub open spec fn slot_payloads(slots: Seq<Option<Vec<u8>>>) -> Seq<Seq<u8>> {
    slots.map_values(|s: Option<Vec<u8>>| s->0@)
}

/// Every slot is filled.
pub open spec fn all_filled(slots: Seq<Option<Vec<u8>>>) -> bool {
    forall|k: int| 0 <= k < slots.len() ==> (#[trigger] slots[k]) is Some
}

/// Slot `k` holds exactly the resource's bytes for range `k`: what a
/// correct fetch of each planned range leaves behind, whatever order
/// the fetches completed in.
pub open spec fn faithful_slots(
    data: Seq<u8>,
    ranges: Seq<ByteRange>,
    slots: Seq<Option<Vec<u8>>>,
) -> bool {
    &&& slots.len() == ranges.len()
    &&& forall|k: int|
        0 <= k < slots.len() ==> (#[trigger] slots[k]) is Some && slots[k]->0@ == chunk_of(
            data,
            ranges[k],
        )
}

/// Collects per-range results, keyed by range index, together with the
/// first failure observed.
#[derive(Debug)]
pub struct Coordinator {
    pub slots: Vec<Option<Vec<u8>>>,
    pub first_error: Option<FailedChunk>,
}

impl Coordinator {
    /// All workers have reported: every slot is filled, or some chunk
    /// already failed (a failed run never looks at the payloads).
    pub open spec fn complete(self) -> bool {
        self.first_error is Some || all_filled(self.slots@)
    }

    /// Planning step: computes the range plan and a fresh collector for
    /// it. The planner provably never yields an empty plan for a
    /// non-empty resource, so this step always succeeds; the guard is
    /// kept because a run must not proceed on an invalid plan.
    pub fn start(task: &DownloadTask) -> (r: Result<(Coordinator, Vec<ByteRange>), DownloadError>)
        requires
            task.wf(),
        ensures
            r matches Ok(p) && {
                &&& p.1@ == plan_spec(task.total_size as int, task.worker_count as int)
                &&& plan_covers(p.1@, task.total_size as int)
                &&& forall|k: int|
                    0 <= k < p.1@.len() ==> (#[trigger] p.1@[k]).wf() && p.1@[k].index == k
                &&& p.0.slots@.len() == p.1@.len()
                &&& forall|k: int| 0 <= k < p.0.slots@.len() ==> p.0.slots@[k] is None
                &&& p.0.first_error is None
            },
    {
        let ranges = plan(task.total_size, task.worker_count);
        if ranges.len() == 0 && task.total_size > 0 {
            return Err(DownloadError::InvalidPlan);
        }
        let mut slots: Vec<Option<Vec<u8>>> = Vec::new();
        let mut k: usize = 0;
        while k < ranges.len()
            invariant
                k <= ranges@.len(),
                slots@.len() == k,
                forall|j: int| 0 <= j < k ==> slots@[j] is None,
            decreases ranges@.len() - k,
        {
            slots.push(None);
            k = k + 1;
        }
        Ok((Coordinator { slots, first_error: None }, ranges))
    }

    /// Records the payload of a finished chunk. Completion order does
    /// not matter: the payload lands in the slot named by the chunk's
    /// own index, never in the next free one.
    pub fn on_chunk_done(&mut self, index: usize, bytes: Vec<u8>)
        requires
            index < old(self).slots@.len(),
        ensures
            final(self).slots@ == old(self).slots@.update(index as int, Some(bytes)),
            final(self).first_error == old(self).first_error,
    {
        self.slots.set(index, Some(bytes));
    }

    /// Records a chunk failure. The first observed failure wins; later
    /// ones are drained and discarded.
    pub fn on_chunk_failed(&mut self, index: usize, cause: FetchError)
        ensures
            final(self).slots == old(self).slots,
            old(self).first_error is Some ==> final(self).first_error == old(self).first_error,
            old(self).first_error is None ==> final(self).first_error == Some(
                FailedChunk { index, cause },
            ),
    {
        if self.first_error.is_none() {
            self.first_error = Some(FailedChunk { index, cause });
        }
    }

    /// Assembling step, once every worker is accounted for: on success
    /// the payloads concatenated strictly in range-index order, never by
    /// completion time; if any chunk failed, the first observed failure
    /// with its chunk index, and no bytes at all.
    pub fn finish(self) -> (r: Result<Vec<u8>, DownloadError>)
        requires
            self.complete(),
        ensures
            match self.first_error {
                Some(f) => r == Err::<Vec<u8>, DownloadError>(
                    DownloadError::ChunkFailed { index: f.index, cause: f.cause },
                ),
                None => r matches Ok(out) && out@ == concat_chunks(slot_payloads(self.slots@)),
            },
    {
        if let Some(f) = self.first_error {
            return Err(DownloadError::ChunkFailed { index: f.index, cause: f.cause });
        }
        let mut slots = self.slots;
        let ghost orig = slots@;
        let mut out: Vec<u8> = Vec::new();
        while slots.len() > 0
            invariant
                all_filled(slots@),
                out@ + concat_chunks(slot_payloads(slots@)) == concat_chunks(slot_payloads(orig)),
            decreases slots@.len(),
        {
            let ghost slots_before = slots@;
            let slot = slots.remove(0);
            let mut bytes = match slot {
                Some(b) => b,
                None => unreached(),
            };
            let ghost payload = bytes@;
            proof {
                assert(slots@ =~= slots_before.drop_first());
                assert(slot_payloads(slots@) =~= slot_payloads(slots_before).drop_first());
                assert(slot_payloads(slots_before)[0] == payload);
                assert(concat_chunks(slot_payloads(slots_before)) == payload + concat_chunks(
                    slot_payloads(slots@),
                ));
            }
            let ghost out_before = out@;
            out.append(&mut bytes);
            proof {
                assert(out@ == out_before + payload);
                assert((out_before + payload) + concat_chunks(slot_payloads(slots@))
                    =~= out_before + (payload + concat_chunks(slot_payloads(slots@))));
            }
        }
        proof {
            assert(slot_payloads(slots@) =~= Seq::<Seq<u8>>::empty());
            assert(out@ =~= concat_chunks(slot_payloads(orig)));
        }
        Ok(out)
    }
}

proof fn lemma_concat_covering(
    data: Seq<u8>,
    ranges: Seq<ByteRange>,
    chunks: Seq<Seq<u8>>,
    lo: int,
    hi: int,
)
    requires
        covers_interval(ranges, lo, hi),
        0 <= lo <= hi <= data.len(),
        chunks.len() == ranges.len(),
        forall|k: int| 0 <= k < ranges.len() ==> chunks[k] == chunk_of(data, #[trigger] ranges[k]),
    ensures
        concat_chunks(chunks) == data.subrange(lo, hi),
    decreases ranges.len(),
{
    if ranges.len() == 0 {
        assert(data.subrange(lo, lo) =~= Seq::<u8>::empty());
    } else {
        lemma_covering_bounds(ranges, lo, hi);
        let mid = ranges[0].end + 1;
        let rest_r = ranges.drop_first();
        let rest_c = chunks.drop_first();
        assert(forall|k: int| 0 <= k < rest_r.len() ==> rest_r[k] == ranges[k + 1]);
        assert(forall|k: int| 0 <= k < rest_c.len() ==> rest_c[k] == chunks[k + 1]);
        if ranges.len() == 1 {
            assert(mid == hi);
            assert(rest_r.len() == 0);
        } else {
            assert(covers_interval(rest_r, mid, hi));
        }
        assert(forall|k: int|
            0 <= k < rest_r.len() ==> rest_c[k] == chunk_of(data, #[trigger] rest_r[k]));
        lemma_concat_covering(data, rest_r, rest_c, mid, hi);
        assert(chunks[0] == data.subrange(lo, mid));
        assert(concat_chunks(chunks) == chunks[0] + concat_chunks(rest_c));
        assert(data.subrange(lo, hi) =~= data.subrange(lo, mid) + data.subrange(mid, hi));
    }
}

/// Assembly law: when every planned range's slot holds exactly the
/// resource's bytes for that range — the fetches may have completed in
/// any order — concatenating the payloads in range-index order
/// reproduces the resource byte for byte.
pub proof fn lemma_assembly_reconstructs(
    data: Seq<u8>,
    ranges: Seq<ByteRange>,
    slots: Seq<Option<Vec<u8>>>,
)
    requires
        plan_covers(ranges, data.len() as int),
        faithful_slots(data, ranges, slots),
    ensures
        concat_chunks(slot_payloads(slots)) == data,
{
    lemma_concat_covering(data, ranges, slot_payloads(slots), 0, data.len() as int);
    assert(data.subrange(0, data.len() as int) =~= data);
}

/// Completion-order law: recording two finished chunks in either order
/// leaves the collector in the same state, so the assembled output does
/// not depend on the order in which workers complete.
pub proof fn lemma_completion_order_immaterial(
    slots: Seq<Option<Vec<u8>>>,
    i: int,
    bi: Vec<u8>,
    j: int,
    bj: Vec<u8>,
)
    requires
        0 <= i < slots.len(),
        0 <= j < slots.len(),
        i != j,
    ensures
        slots.update(i, Some(bi)).update(j, Some(bj)) == slots.update(j, Some(bj)).update(
            i,
            Some(bi),
        ),
{
    assert(slots.update(i, Some(bi)).update(j, Some(bj)) =~= slots.update(j, Some(bj)).update(
        i,
        Some(bi),
    ));
}

/// Worker-count law: two runs over the same resource with any two worker
/// counts — in particular one worker against many — assemble byte-identical
/// output, namely the resource itself.
pub proof fn lemma_worker_count_immaterial(
    data: Seq<u8>,
    w1: int,
    w2: int,
    slots1: Seq<Option<Vec<u8>>>,
    slots2: Seq<Option<Vec<u8>>>,
)
    requires
        1 <= w1 <= usize::MAX,
        1 <= w2 <= usize::MAX,
        data.len() <= u64::MAX,
        faithful_slots(data, plan_spec(data.len() as int, w1), slots1),
        faithful_slots(data, plan_spec(data.len() as int, w2), slots2),
    ensures
        concat_chunks(slot_payloads(slots1)) == concat_chunks(slot_payloads(slots2)),
        concat_chunks(slot_payloads(slots1)) == data,
{
    lemma_plan_spec_covers(data.len() as int, w1);
    lemma_plan_spec_covers(data.len() as int, w2);
    lemma_assembly_reconstructs(data, plan_spec(data.len() as int, w1), slots1);
    lemma_assembly_reconstructs(data, plan_spec(data.len() as int, w2), slots2);
}

} // verus!
