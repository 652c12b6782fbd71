use vstd::prelude::*;

verus! {

/// The canonical sample rate that all audio is normalised to.
pub const TARGET_SAMPLE_RATE: u32 = 16000;

/// Length of one analysis chunk: 30 ms at the canonical rate.
pub const CHUNK_SIZE: usize = 480;

/// Events carried from the capture side to the dispatch loop.
///
/// `S` is the sample type; a level is expressed in the same type as a sample.
pub enum AudioPacket<S> {
    Format(u32),
    Samples(Vec<S>),
    Level(S),
    Flush,
}

/// The contents of each chunk of a run.
pub open spec fn chunk_views<S>(chunks: Seq<Vec<S>>) -> Seq<Seq<S>> {
    chunks.map_values(|c: Vec<S>| c@)
}

/// The packets announcing the chunks: for each chunk, its level and then its samples.
pub open spec fn chunk_packets_spec<S>(chunks: Seq<Seq<S>>, levels: Seq<S>, i: int, p: AudioPacket<S>) -> bool {
    if i % 2 == 0 {
        p matches AudioPacket::Level(l) && l == levels[i / 2]
    } else {
        p matches AudioPacket::Samples(c) && c@ == chunks[i / 2]
    }
}

/// Packets for a run of chunks, `levels[i]` being the level of `chunks[i]`:
/// each chunk's `Level` comes immediately before its `Samples`.
pub fn chunk_packets<S>(chunks: Vec<Vec<S>>, levels: Vec<S>) -> (r: Vec<AudioPacket<S>>)
    requires
        chunks@.len() == levels@.len(),
        2 * chunks@.len() <= usize::MAX,
    ensures
        r@.len() == 2 * chunks@.len(),
        forall|i: int|
            0 <= i < r@.len() ==> #[trigger] chunk_packets_spec(
                chunk_views(chunks@),
                levels@,
                i,
                r@[i],
            ),
{
    let ghost cs = chunk_views(chunks@);
    let ghost ls = levels@;
    let n = chunks.len();
    let mut out: Vec<AudioPacket<S>> = Vec::new();
    let mut chunks = chunks;
    let mut levels = levels;
    let mut k: usize = 0;
    while k < n
        invariant
            0 <= k <= n,
            n == cs.len(),
            n == ls.len(),
            chunks@.len() == n - k,
            levels@.len() == n - k,
            forall|j: int| 0 <= j < n - k ==> (#[trigger] chunks@[j])@ == cs[k + j],
            forall|j: int| 0 <= j < n - k ==> #[trigger] levels@[j] == ls[k + j],
            out@.len() == 2 * k,
            forall|i: int| 0 <= i < out@.len() ==> #[trigger] chunk_packets_spec(cs, ls, i, out@[i]),
        decreases n - k,
    {
        let c = chunks.remove(0);
        let l = levels.remove(0);
        out.push(AudioPacket::Level(l));
        out.push(AudioPacket::Samples(c));
        assert(chunk_packets_spec(cs, ls, 2 * k as int, out@[2 * k as int]));
        assert(chunk_packets_spec(cs, ls, 2 * k + 1, out@[2 * k + 1]));
        k = k + 1;
    }
    out
}

} // verus!
