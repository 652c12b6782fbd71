use vstd::prelude::*;
use crate::packet::AudioPacket;

verus! {

/// Sample rate assumed until a `Format` packet says otherwise.
pub const DEFAULT_SAMPLE_RATE: u32 = 48000;

/// Whether audio reaches the listener chunk by chunk or once per utterance.
#[derive(PartialEq, Eq, Structural, Clone, Copy, Debug)]
pub enum DeliveryMode {
    Batch,
    Streaming,
}

/// What the dispatch loop hands to the listener for one packet.
pub enum Delivery<S> {
    /// A level reading, forwarded at once in both modes.
    Level(S),
    /// A chunk of audio, forwarded as it came (streaming mode).
    Audio(Vec<S>),
    /// A whole utterance recorded at `rate`; it is resampled to the canonical
    /// rate when `rate` differs from it, then forwarded (batch mode).
    Batch { rate: u32, samples: Vec<S> },
}

/// The content of a delivery.
pub enum DeliveryView<S> {
    Level(S),
    Audio(Seq<S>),
    Batch(u32, Seq<S>),
}

impl<S> Delivery<S> {
    pub open spec fn view(&self) -> DeliveryView<S> {
        match self {
            Delivery::Level(l) => DeliveryView::Level(*l),
            Delivery::Audio(a) => DeliveryView::Audio(a@),
            Delivery::Batch { rate, samples } => DeliveryView::Batch(*rate, samples@),
        }
    }
}

/// The state that the dispatch loop keeps between packets.
pub struct DispatchState<S> {
    pub rate: u32,
    pub buffer: Seq<S>,
}

/// One step of the dispatch loop: the next state and what, if anything, is delivered.
pub open spec fn dispatch_step<S>(mode: DeliveryMode, st: DispatchState<S>, p: AudioPacket<S>) -> (DispatchState<S>, Option<DeliveryView<S>>) {
    match p {
        AudioPacket::Format(rate) => (DispatchState { rate, buffer: st.buffer }, None),
        AudioPacket::Samples(data) => match mode {
            DeliveryMode::Batch => (DispatchState { rate: st.rate, buffer: st.buffer + data@ }, None),
            DeliveryMode::Streaming => (st, Some(DeliveryView::Audio(data@))),
        },
        AudioPacket::Level(l) => (st, Some(DeliveryView::Level(l))),
        AudioPacket::Flush => match mode {
            DeliveryMode::Batch => if st.buffer.len() > 0 {
                (
                    DispatchState { rate: st.rate, buffer: Seq::empty() },
                    Some(DeliveryView::Batch(st.rate, st.buffer)),
                )
            } else {
                (st, None)
            },
            DeliveryMode::Streaming => (st, None),
        },
    }
}

/// The dispatch loop run over a whole packet sequence: the final state and
/// every delivery, in order.
pub open spec fn dispatch_run<S>(mode: DeliveryMode, st: DispatchState<S>, ps: Seq<AudioPacket<S>>) -> (DispatchState<S>, Seq<DeliveryView<S>>)
    decreases ps.len(),
{
    if ps.len() == 0 {
        (st, Seq::empty())
    } else {
        let (mid, out) = dispatch_run(mode, st, ps.drop_last());
        let (next, d) = dispatch_step(mode, mid, ps.last());
        match d {
            Some(v) => (next, out.push(v)),
            None => (next, out),
        }
    }
}

/// Every packet of the sequence carries samples.
pub open spec fn all_samples<S>(ps: Seq<AudioPacket<S>>) -> bool {
    forall|i: int| 0 <= i < ps.len() ==> (#[trigger] ps[i]) matches AudioPacket::Samples(_)
}

/// The samples of a sequence of packets, concatenated in order.
pub open spec fn samples_concat<S>(ps: Seq<AudioPacket<S>>) -> Seq<S>
    decreases ps.len(),
{
    if ps.len() == 0 {
        Seq::empty()
    } else {
        samples_concat(ps.drop_last()) + match ps.last() {
            AudioPacket::Samples(d) => d@,
            _ => Seq::empty(),
        }
    }
}

/// One audio delivery per samples packet, in order.
pub open spec fn audio_deliveries<S>(ps: Seq<AudioPacket<S>>) -> Seq<DeliveryView<S>>
    decreases ps.len(),
{
    if ps.len() == 0 {
        Seq::empty()
    } else {
        audio_deliveries(ps.drop_last()).push(
            match ps.last() {
                AudioPacket::Samples(d) => DeliveryView::Audio(d@),
                AudioPacket::Level(l) => DeliveryView::Level(l),
                _ => DeliveryView::Audio(Seq::empty()),
            },
        )
    }
}

proof fn lemma_batch_accumulates<S>(st: DispatchState<S>, ps: Seq<AudioPacket<S>>)
    requires
        all_samples(ps),
    ensures
        dispatch_run(DeliveryMode::Batch, st, ps) == (
        DispatchState { rate: st.rate, buffer: st.buffer + samples_concat(ps) },
        Seq::<DeliveryView<S>>::empty(),
        ),
    decreases ps.len(),
{
    if ps.len() == 0 {
        assert(st.buffer + samples_concat(ps) =~= st.buffer);
    } else {
        let init = ps.drop_last();
        assert forall|i: int| 0 <= i < init.len() implies (#[trigger] init[i]) matches AudioPacket::Samples(_) by {
            assert(init[i] == ps[i]);
        }
        lemma_batch_accumulates(st, init);
        assert(ps[ps.len() - 1] matches AudioPacket::Samples(_));
        if let AudioPacket::Samples(d) = ps.last() {
            assert(samples_concat(ps) == samples_concat(init) + d@);
            assert(st.buffer + samples_concat(init) + d@ =~= st.buffer + (samples_concat(init) + d@));
        }
    }
}

proof fn lemma_streaming_forwards<S>(st: DispatchState<S>, ps: Seq<AudioPacket<S>>)
    requires
        all_samples(ps),
    ensures
        dispatch_run(DeliveryMode::Streaming, st, ps) == (st, audio_deliveries(ps)),
    decreases ps.len(),
{
    if ps.len() > 0 {
        let init = ps.drop_last();
        assert forall|i: int| 0 <= i < init.len() implies (#[trigger] init[i]) matches AudioPacket::Samples(_) by {
            assert(init[i] == ps[i]);
        }
        lemma_streaming_forwards(st, init);
        assert(ps[ps.len() - 1] matches AudioPacket::Samples(_));
    }
}

/// Batch mode: a run of samples packets followed by a flush, from an empty
/// buffer, delivers exactly once, the concatenation of all the batches in
/// order at the announced rate, and leaves the buffer empty. With no samples
/// at all the flush delivers nothing.
pub proof fn lemma_batch_single_delivery<S>(st: DispatchState<S>, ps: Seq<AudioPacket<S>>)
    requires
        all_samples(ps),
        st.buffer.len() == 0,
    ensures
        samples_concat(ps).len() > 0 ==> dispatch_run(DeliveryMode::Batch, st, ps.push(AudioPacket::Flush)) == (
        DispatchState { rate: st.rate, buffer: Seq::<S>::empty() },
        seq![DeliveryView::Batch(st.rate, samples_concat(ps))],
        ),
        samples_concat(ps).len() == 0 ==> dispatch_run(DeliveryMode::Batch, st, ps.push(AudioPacket::Flush)).1
            == Seq::<DeliveryView<S>>::empty(),
{
    lemma_batch_accumulates(st, ps);
    let full = ps.push(AudioPacket::Flush);
    assert(full.drop_last() =~= ps);
    assert(st.buffer + samples_concat(ps) =~= samples_concat(ps));
}

/// Streaming mode: a run of samples packets followed by a flush delivers one
/// audio chunk per packet, in order, and the flush delivers nothing more.
pub proof fn lemma_streaming_per_packet<S>(st: DispatchState<S>, ps: Seq<AudioPacket<S>>)
    requires
        all_samples(ps),
    ensures
        dispatch_run(DeliveryMode::Streaming, st, ps.push(AudioPacket::Flush)) == (st, audio_deliveries(ps)),
        audio_deliveries(ps).len() == ps.len(),
        forall|i: int| 0 <= i < ps.len() ==> (#[trigger] audio_deliveries(ps)[i]) == match ps[i] {
            AudioPacket::Samples(d) => DeliveryView::Audio(d@),
            _ => DeliveryView::Audio(Seq::empty()),
        },
{
    lemma_streaming_forwards(st, ps);
    let full = ps.push(AudioPacket::Flush);
    assert(full.drop_last() =~= ps);
    lemma_audio_deliveries_index(ps);
}

proof fn lemma_audio_deliveries_index<S>(ps: Seq<AudioPacket<S>>)
    requires
        all_samples(ps),
    ensures
        audio_deliveries(ps).len() == ps.len(),
        forall|i: int| 0 <= i < ps.len() ==> (#[trigger] audio_deliveries(ps)[i]) == match ps[i] {
            AudioPacket::Samples(d) => DeliveryView::Audio(d@),
            _ => DeliveryView::Audio(Seq::empty()),
        },
    decreases ps.len(),
{
    if ps.len() > 0 {
        let init = ps.drop_last();
        assert forall|i: int| 0 <= i < init.len() implies (#[trigger] init[i]) matches AudioPacket::Samples(_) by {
            assert(init[i] == ps[i]);
        }
        lemma_audio_deliveries_index(init);
        assert forall|i: int| 0 <= i < ps.len() implies (#[trigger] audio_deliveries(ps)[i]) == match ps[i] {
            AudioPacket::Samples(d) => DeliveryView::Audio(d@),
            _ => DeliveryView::Audio(Seq::empty()),
        } by {
            if i < init.len() {
                assert(init[i] == ps[i]);
            }
        }
    }
}

/// The single consumer of the packet channel.
pub struct Dispatcher<S> {
    mode: DeliveryMode,
    sample_rate: u32,
    buffer: Vec<S>,
}

impl<S> Dispatcher<S> {
    pub closed spec fn mode(&self) -> DeliveryMode {
        self.mode
    }

    pub closed spec fn state(&self) -> DispatchState<S> {
        DispatchState { rate: self.sample_rate, buffer: self.buffer@ }
    }

    pub fn new(mode: DeliveryMode) -> (r: Self)
        ensures
            r.mode() == mode,
            r.state() == (DispatchState::<S> { rate: DEFAULT_SAMPLE_RATE, buffer: Seq::empty() }),
    {
        Dispatcher { mode, sample_rate: DEFAULT_SAMPLE_RATE, buffer: Vec::new() }
    }

    pub fn mode_of(&self) -> (r: DeliveryMode)
        ensures
            r == self.mode(),
    {
        self.mode
    }

    /// The last sample rate announced.
    pub fn sample_rate(&self) -> (r: u32)
        ensures
            r == self.state().rate,
    {
        self.sample_rate
    }

    /// Number of samples held for the next flush.
    pub fn buffered_len(&self) -> (r: usize)
        ensures
            r == self.state().buffer.len(),
    {
        self.buffer.len()
    }

    /// Takes one packet and returns what is to be delivered for it.
    pub fn handle(&mut self, packet: AudioPacket<S>) -> (r: Option<Delivery<S>>)
        requires
            old(self).state().buffer.len() + (match packet {
                AudioPacket::Samples(d) => d@.len(),
                _ => 0,
            }) <= usize::MAX,
        ensures
            final(self).mode() == old(self).mode(),
            final(self).state() == dispatch_step(old(self).mode(), old(self).state(), packet).0,
            match r {
                Some(d) => dispatch_step(old(self).mode(), old(self).state(), packet).1 == Some(d.view()),
                None => dispatch_step(old(self).mode(), old(self).state(), packet).1 == None::<DeliveryView<S>>,
            },
    {
        match packet {
            AudioPacket::Format(rate) => {
                self.sample_rate = rate;
                None
            },
            AudioPacket::Samples(data) => match self.mode {
                DeliveryMode::Batch => {
                    let mut data = data;
                    self.buffer.append(&mut data);
                    None
                },
                DeliveryMode::Streaming => Some(Delivery::Audio(data)),
            },
            AudioPacket::Level(l) => Some(Delivery::Level(l)),
            AudioPacket::Flush => match self.mode {
                DeliveryMode::Batch => if self.buffer.len() > 0 {
                    let mut samples: Vec<S> = Vec::new();
                    std::mem::swap(&mut samples, &mut self.buffer);
                    Some(Delivery::Batch { rate: self.sample_rate, samples })
                } else {
                    None
                },
                DeliveryMode::Streaming => None,
            },
        }
    }
}

} // verus!
