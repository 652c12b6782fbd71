use vstd::prelude::*;
use ringbuf::HeapRb;
use crate::chunker::{plan_read, plan_read_spec, ReadPlan};
use ringbuf::traits::{Consumer, Observer, Producer};

verus! {

/// A fixed-capacity ring buffer of samples, kept in `ringbuf::HeapRb`.
/// Samples travel as their 32-bit patterns.
#[verifier::external_body]
pub struct SampleStore {
    rb: HeapRb<u32>,
}

/// What the store holds, oldest first.
pub uninterp spec fn store_contents(s: SampleStore) -> Seq<u32>;

/// The fixed number of samples the store can hold.
pub uninterp spec fn store_capacity(s: SampleStore) -> nat;

/// Relies on `HeapRb::new`: an empty buffer of exactly `capacity` places
/// (it panics on a zero capacity).
#[verifier::external_body]
fn store_new(capacity: usize) -> (r: SampleStore)
    requires
        capacity > 0,
    ensures
        store_contents(r) == Seq::<u32>::empty(),
        store_capacity(r) == capacity,
{
    SampleStore { rb: HeapRb::<u32>::new(capacity) }
}

/// Relies on `Observer::occupied_len` of `HeapRb`: the number of items held.
#[verifier::external_body]
fn store_occupied_len(s: &SampleStore) -> (r: usize)
    ensures
        r == store_contents(*s).len(),
{
    s.rb.occupied_len()
}

/// Relies on `Producer::push_slice` of `HeapRb`: it appends the longest prefix
/// of `elems` that fits in the vacant places and returns its length.
#[verifier::external_body]
fn store_push_slice(s: &mut SampleStore, elems: &[u32]) -> (n: usize)
    requires
        store_contents(*old(s)).len() <= store_capacity(*old(s)),
    ensures
        n == if elems@.len() <= store_capacity(*old(s)) - store_contents(*old(s)).len() {
            elems@.len() as int
        } else {
            store_capacity(*old(s)) - store_contents(*old(s)).len()
        },
        store_contents(*final(s)) == store_contents(*old(s)) + elems@.take(n as int),
        store_capacity(*final(s)) == store_capacity(*old(s)),
{
    s.rb.push_slice(elems)
}

/// Relies on `Consumer::pop_slice` of `HeapRb`: it moves the oldest
/// `min(buf.len(), held)` items to the front of `buf`, in order, and returns
/// how many; the rest of `buf` is left as it was.
#[verifier::external_body]
fn store_pop_slice(s: &mut SampleStore, buf: &mut Vec<u32>) -> (n: usize)
    ensures
        n == if old(buf)@.len() <= store_contents(*old(s)).len() {
            old(buf)@.len()
        } else {
            store_contents(*old(s)).len()
        },
        final(buf)@ == store_contents(*old(s)).take(n as int) + old(buf)@.skip(n as int),
        store_contents(*final(s)) == store_contents(*old(s)).skip(n as int),
        store_capacity(*final(s)) == store_capacity(*old(s)),
{
    s.rb.pop_slice(buf.as_mut_slice())
}

/// The ring buffer between the capture callback and the worker.
///
/// Pushing never blocks: what does not fit is dropped. Beside the store it
/// keeps, as ghost state, every sample it ever accepted and the totals read
/// and offered, so that its contract can speak of the whole history.
pub struct SampleRing {
    store: SampleStore,
    accepted: Ghost<Seq<u32>>,
    read: Ghost<nat>,
    written: Ghost<nat>,
}

impl SampleRing {
    /// The samples waiting to be read, oldest first.
    pub closed spec fn contents(&self) -> Seq<u32> {
        store_contents(self.store)
    }

    pub closed spec fn capacity(&self) -> nat {
        store_capacity(self.store)
    }

    /// Every sample the ring ever accepted, in write order.
    pub closed spec fn accepted(&self) -> Seq<u32> {
        self.accepted@
    }

    /// How many samples have been read out.
    pub closed spec fn read_total(&self) -> nat {
        self.read@
    }

    /// How many samples have been offered to `push`.
    pub closed spec fn written_total(&self) -> nat {
        self.written@
    }

    /// How many offered samples were dropped for want of room.
    pub open spec fn dropped_total(&self) -> int {
        self.written_total() - self.accepted().len()
    }

    pub closed spec fn wf(&self) -> bool {
        &&& 0 < self.capacity()
        &&& self.contents().len() <= self.capacity()
        &&& self.read@ <= self.accepted@.len()
        &&& self.contents() == self.accepted@.skip(self.read@ as int)
        &&& self.accepted@.len() <= self.written@
    }

    /// An empty ring of `capacity` samples.
    pub fn new(capacity: usize) -> (r: Self)
        requires
            capacity > 0,
        ensures
            r.wf(),
            r.capacity() == capacity,
            r.contents() == Seq::<u32>::empty(),
            r.accepted() == Seq::<u32>::empty(),
            r.read_total() == 0,
            r.written_total() == 0,
    {
        let r = SampleRing {
            store: store_new(capacity),
            accepted: Ghost(Seq::empty()),
            read: Ghost(0),
            written: Ghost(0),
        };
        assert(r.contents() =~= r.accepted@.skip(0));
        r
    }

    /// The number of samples waiting.
    pub fn occupied_len(&self) -> (r: usize)
        requires
            self.wf(),
        ensures
            r == self.contents().len(),
    {
        store_occupied_len(&self.store)
    }

    /// Appends as many of `samples` as there is room for, oldest first, and
    /// drops the rest. Returns how many were taken.
    pub fn push(&mut self, samples: &[u32]) -> (n: usize)
        requires
            old(self).wf(),
        ensures
            final(self).wf(),
            n == if samples@.len() <= old(self).capacity() - old(self).contents().len() {
                samples@.len() as int
            } else {
                old(self).capacity() - old(self).contents().len()
            },
            final(self).contents() == old(self).contents() + samples@.take(n as int),
            final(self).accepted() == old(self).accepted() + samples@.take(n as int),
            final(self).read_total() == old(self).read_total(),
            final(self).written_total() == old(self).written_total() + samples@.len(),
            final(self).capacity() == old(self).capacity(),
    {
        let n = store_push_slice(&mut self.store, samples);
        proof {
            let taken = samples@.take(n as int);
            let old_acc = self.accepted@;
            self.accepted@ = old_acc + taken;
            self.written@ = (self.written@ + samples@.len()) as nat;
            assert(self.accepted@.skip(self.read@ as int) =~= old_acc.skip(self.read@ as int) + taken);
        }
        n
    }

    /// Removes and returns up to `count` of the oldest samples, in write order.
    pub fn pop(&mut self, count: usize) -> (r: Vec<u32>)
        requires
            old(self).wf(),
        ensures
            final(self).wf(),
            r@.len() == if count <= old(self).contents().len() {
                count as int
            } else {
                old(self).contents().len() as int
            },
            r@ == old(self).contents().take(r@.len() as int),
            r@ == old(self).accepted().subrange(
                old(self).read_total() as int,
                (old(self).read_total() + r@.len()) as int,
            ),
            final(self).contents() == old(self).contents().skip(r@.len() as int),
            final(self).accepted() == old(self).accepted(),
            final(self).read_total() == old(self).read_total() + r@.len(),
            final(self).written_total() == old(self).written_total(),
            final(self).capacity() == old(self).capacity(),
    {
        let mut buf: Vec<u32> = Vec::new();
        buf.resize(count, 0);
        let n = store_pop_slice(&mut self.store, &mut buf);
        buf.truncate(n);
        proof {
            let old_read = self.read@;
            self.read@ = (old_read + n) as nat;
            assert(buf@ =~= old(self).contents().take(n as int));
            assert(self.accepted@.skip(self.read@ as int) =~= self.accepted@.skip(old_read as int).skip(n as int));
            assert(buf@ =~= self.accepted@.subrange(old_read as int, old_read + n));
        }
        buf
    }
}

/// The worker's read: following `plan_read`, either nothing (wait and look
/// again) or a frame of exactly the planned size, taken from the front of the ring.
pub fn next_frame(ring: &mut SampleRing, required: Option<usize>) -> (r: Option<Vec<u32>>)
    requires
        old(ring).wf(),
    ensures
        final(ring).wf(),
        final(ring).written_total() == old(ring).written_total(),
        final(ring).accepted() == old(ring).accepted(),
        match plan_read_spec(old(ring).contents().len(), required) {
            ReadPlan::Wait => r == None::<Vec<u32>> && final(ring).contents() == old(ring).contents()
                && final(ring).read_total() == old(ring).read_total(),
            ReadPlan::Read(n) => match r {
                Some(frame) => frame@ == old(ring).contents().take(n as int)
                    && final(ring).contents() == old(ring).contents().skip(n as int)
                    && final(ring).read_total() == old(ring).read_total() + n,
                None => false,
            },
        },
{
    let available = ring.occupied_len();
    match plan_read(available, required) {
        ReadPlan::Wait => None,
        ReadPlan::Read(n) => Some(ring.pop(n)),
    }
}

/// Whatever sequence of pushes and pops a ring has seen, the samples waiting
/// in it are exactly the accepted samples not yet read, in write order, and
/// every offered sample has been read, dropped or is still waiting:
/// read + dropped + waiting == written.
pub proof fn lemma_ring_accounting(r: &SampleRing)
    requires
        r.wf(),
    ensures
        r.contents() == r.accepted().skip(r.read_total() as int),
        r.read_total() + r.dropped_total() + r.contents().len() == r.written_total(),
        r.dropped_total() >= 0,
{
}

} // verus!
