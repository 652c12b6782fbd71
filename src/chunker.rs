use vstd::prelude::*;
use crate::packet::CHUNK_SIZE;

verus! {

/// Frames read per step when no resampler dictates the input size.
pub const PASSTHROUGH_QUANTUM: usize = 1024;

/// Input frames consumed per call by the worker's streaming resampler.
pub const RESAMPLER_QUANTUM: usize = 1024;

/// The `i`-th analysis chunk of a sample sequence.
pub open spec fn chunk_at<S>(all: Seq<S>, i: int) -> Seq<S> {
    all.subrange(i * CHUNK_SIZE as int, i * CHUNK_SIZE as int + CHUNK_SIZE as int)
}

/// Number of whole chunks in a sample sequence.
pub open spec fn whole_chunks<S>(all: Seq<S>) -> nat {
    all.len() / CHUNK_SIZE as nat
}

/// What is left over once every whole chunk has been taken from the front.
pub open spec fn remainder<S>(all: Seq<S>) -> Seq<S> {
    all.subrange(whole_chunks(all) * CHUNK_SIZE as int, all.len() as int)
}

/// Accumulates resampled audio and cuts it into analysis chunks, oldest first.
pub struct ChunkAccumulator<S> {
    pending: Vec<S>,
}

impl<S> ChunkAccumulator<S> {
    /// The samples waiting for a chunk to fill.
    pub closed spec fn pending_view(&self) -> Seq<S> {
        self.pending@
    }

    /// Never a whole chunk waits.
    pub open spec fn wf(&self) -> bool {
        self.pending_view().len() < CHUNK_SIZE
    }

    pub fn new() -> (r: Self)
        ensures
            r.wf(),
            r.pending_view() == Seq::<S>::empty(),
    {
        ChunkAccumulator { pending: Vec::new() }
    }

    /// Number of samples waiting.
    pub fn pending_len(&self) -> (r: usize)
        ensures
            r == self.pending_view().len(),
    {
        self.pending.len()
    }

    /// Appends `frames` and removes every whole chunk from the front, in order.
    pub fn push_frames(&mut self, frames: Vec<S>) -> (chunks: Vec<Vec<S>>)
        requires
            old(self).pending_view().len() + frames@.len() <= usize::MAX,
        ensures
            chunks@.len() == whole_chunks(old(self).pending_view() + frames@),
            forall|i: int|
                0 <= i < chunks@.len() ==> (#[trigger] chunks@[i])@ == chunk_at(
                    old(self).pending_view() + frames@,
                    i,
                ),
            final(self).pending_view() == remainder(old(self).pending_view() + frames@),
            final(self).wf(),
    {
        let ghost all = self.pending@ + frames@;
        let mut frames = frames;
        self.pending.append(&mut frames);
        let mut chunks: Vec<Vec<S>> = Vec::new();
        while self.pending.len() >= CHUNK_SIZE
            invariant
                all.len() <= usize::MAX,
                chunks@.len() * CHUNK_SIZE <= all.len(),
                self.pending@ == all.subrange(chunks@.len() * CHUNK_SIZE as int, all.len() as int),
                forall|i: int| 0 <= i < chunks@.len() ==> (#[trigger] chunks@[i])@ == chunk_at(all, i),
            decreases self.pending@.len(),
        {
            let mut chunk = self.pending.split_off(CHUNK_SIZE);
            std::mem::swap(&mut chunk, &mut self.pending);
            proof {
                let k = chunks@.len() as int;
                assert(chunk@ =~= chunk_at(all, k));
                assert(self.pending@ =~= all.subrange((k + 1) * CHUNK_SIZE as int, all.len() as int)) by {
                    assert((k + 1) * CHUNK_SIZE as int == k * CHUNK_SIZE as int + CHUNK_SIZE as int) by (nonlinear_arith);
                }
                assert((k + 1) * CHUNK_SIZE as int == k * CHUNK_SIZE as int + CHUNK_SIZE as int) by (nonlinear_arith);
            }
            chunks.push(chunk);
        }
        proof {
            let k = chunks@.len() as int;
            let n = all.len() as int;
            assert(k == n / 480) by (nonlinear_arith)
                requires
                    k * 480 <= n,
                    n - k * 480 < 480,
            ;
        }
        chunks
    }
}

/// Feeding a sample stream in two pieces cuts the same chunks as feeding it
/// whole: the chunks cut after the second piece continue those cut after the
/// first, and the same remainder is left waiting. Applied piece by piece, any
/// run of pushes totalling `N` samples yields `N / CHUNK_SIZE` chunks of
/// exactly `CHUNK_SIZE` samples, in stream order, with the rest kept waiting.
pub proof fn lemma_chunking_in_pieces<S>(a: Seq<S>, b: Seq<S>)
    ensures
        whole_chunks(a) + whole_chunks(remainder(a) + b) == whole_chunks(a + b),
        forall|i: int|
            0 <= i < whole_chunks(a) ==> #[trigger] chunk_at(a, i) == chunk_at(a + b, i),
        forall|i: int|
            0 <= i < whole_chunks(remainder(a) + b) ==> #[trigger] chunk_at(remainder(a) + b, i)
                == chunk_at(a + b, whole_chunks(a) + i),
        remainder(remainder(a) + b) == remainder(a + b),
{
    let q = whole_chunks(a) as int;
    let na = a.len() as int;
    let n = (a + b).len() as int;
    let x = remainder(a) + b;
    assert(q * 480 <= na < q * 480 + 480);
    assert(x =~= (a + b).subrange(q * 480, n));
    let m = n / 480;
    assert(x.len() == n - q * 480);
    assert((n - q * 480) / 480 == m - q) by (nonlinear_arith)
        requires
            m == n / 480,
            0 <= q * 480 <= n,
    ;
    assert forall|i: int| 0 <= i < q implies #[trigger] chunk_at(a, i) == chunk_at(a + b, i) by {
        assert(i * 480 + 480 <= q * 480) by (nonlinear_arith)
            requires
                i < q,
        ;
        assert(chunk_at(a, i) =~= chunk_at(a + b, i));
    }
    assert forall|i: int| 0 <= i < whole_chunks(x) implies #[trigger] chunk_at(x, i) == chunk_at(a + b, q + i) by {
        assert((q + i) * 480 == q * 480 + i * 480) by (nonlinear_arith);
        assert(i * 480 + 480 <= x.len()) by (nonlinear_arith)
            requires
                i < x.len() / 480,
                x.len() >= 0,
        ;
        assert(chunk_at(x, i) =~= chunk_at(a + b, q + i));
    }
    assert((m - q) * 480 == m * 480 - q * 480) by (nonlinear_arith);
    assert(remainder(x) =~= remainder(a + b));
}

/// What the worker does next with the samples waiting in the ring buffer.
#[derive(PartialEq, Eq, Structural, Clone, Copy, Debug)]
pub enum ReadPlan {
    /// Too little is waiting: pause briefly and look again.
    Wait,
    /// Take exactly this many samples.
    Read(usize),
}

/// The read plan for `available` waiting samples. With a resampler, `required`
/// is the exact input size it asks for: a short frame is never read.
/// Without one, up to a fixed quantum is read.
pub open spec fn plan_read_spec(available: nat, required: Option<usize>) -> ReadPlan {
    if available == 0 {
        ReadPlan::Wait
    } else {
        match required {
            Some(q) => if available >= q { ReadPlan::Read(q) } else { ReadPlan::Wait },
            None => ReadPlan::Read(
                if available < PASSTHROUGH_QUANTUM { available as usize } else { PASSTHROUGH_QUANTUM },
            ),
        }
    }
}

pub fn plan_read(available: usize, required: Option<usize>) -> (r: ReadPlan)
    ensures
        r == plan_read_spec(available as nat, required),
{
    if available == 0 {
        return ReadPlan::Wait;
    }
    match required {
        Some(q) => if available >= q {
            ReadPlan::Read(q)
        } else {
            ReadPlan::Wait
        },
        None => ReadPlan::Read(if available < PASSTHROUGH_QUANTUM { available } else { PASSTHROUGH_QUANTUM }),
    }
}

/// Whether audio at `rate` must be resampled to reach the canonical rate.
pub fn needs_resampling(rate: u32) -> (r: bool)
    ensures
        r == (rate != crate::packet::TARGET_SAMPLE_RATE),
{
    rate != crate::packet::TARGET_SAMPLE_RATE
}

} // verus!
