use vstd::prelude::*;
use ringbuffer::AllocRingBuffer;
use ringbuffer::RingBuffer;
use crate::sample::Sample;

verus! {

#[verifier::external_type_specification]
#[verifier::external_body]
#[verifier::reject_recursive_types(T)]
pub struct ExAllocRingBuffer<T>(AllocRingBuffer<T>);

/// What a ring of samples holds, oldest first.
pub uninterp spec fn ring_items(r: AllocRingBuffer<Sample>) -> Seq<Sample>;

/// The capacity a ring of samples was created with.
pub uninterp spec fn ring_capacity(r: AllocRingBuffer<Sample>) -> nat;

/// Relies on `AllocRingBuffer::new`: an empty ring that holds at most
/// `capacity` items (it panics on zero, which `requires` leaves out).
#[verifier::external_body]
fn ring_new(capacity: usize) -> (r: AllocRingBuffer<Sample>)
    requires
        0 < capacity <= MAX_CAPACITY,
    ensures
        ring_items(r) == Seq::<Sample>::empty(),
        ring_capacity(r) == capacity,
{
    AllocRingBuffer::new(capacity)
}

/// Relies on `RingBuffer::push` of `AllocRingBuffer`: the item goes in at the
/// back; when the ring is full the oldest item is dropped first.
#[verifier::external_body]
fn ring_push(r: &mut AllocRingBuffer<Sample>, s: Sample)
    requires
        ring_items(*old(r)).len() <= ring_capacity(*old(r)),
    ensures
        ring_capacity(*final(r)) == ring_capacity(*old(r)),
        ring_items(*final(r)) == if ring_items(*old(r)).len() == ring_capacity(*old(r)) {
            ring_items(*old(r)).drop_first().push(s)
        } else {
            ring_items(*old(r)).push(s)
        },
{
    r.push(s)
}

/// Relies on `RingBuffer::dequeue` of `AllocRingBuffer`: removes and returns
/// the oldest item, or `None` when the ring is empty.
#[verifier::external_body]
fn ring_dequeue(r: &mut AllocRingBuffer<Sample>) -> (out: Option<Sample>)
    ensures
        ring_capacity(*final(r)) == ring_capacity(*old(r)),
        ring_items(*old(r)).len() == 0 ==> out is None && ring_items(*final(r)) == ring_items(*old(r)),
        ring_items(*old(r)).len() > 0 ==> out == Some(ring_items(*old(r)).first())
            && ring_items(*final(r)) == ring_items(*old(r)).drop_first(),
{
    r.dequeue()
}

/// Relies on `RingBuffer::len` of `AllocRingBuffer`: the number of items held.
#[verifier::external_body]
fn ring_len(r: &AllocRingBuffer<Sample>) -> (n: usize)
    ensures
        n == ring_items(*r).len(),
{
    r.len()
}

/// Relies on `RingBuffer::capacity` of `AllocRingBuffer`: the capacity given
/// at creation.
#[verifier::external_body]
fn ring_cap(r: &AllocRingBuffer<Sample>) -> (n: usize)
    ensures
        n == ring_capacity(*r),
{
    r.capacity()
}

/// Largest capacity a sample buffer may be created with.
pub const MAX_CAPACITY: usize = 65536;

/// `s` cut down to its `c` newest items, order kept.
pub open spec fn keep_newest(s: Seq<Sample>, c: nat) -> Seq<Sample> {
    if s.len() > c {
        s.subrange(s.len() - c, s.len() as int)
    } else {
        s
    }
}

/// What a buffer of capacity `c` holding `start` holds after `xs` was pushed
/// into it one item after another.
pub open spec fn after_pushes(c: nat, start: Seq<Sample>, xs: Seq<Sample>) -> Seq<Sample>
    decreases xs.len(),
{
    if xs.len() == 0 {
        start
    } else {
        after_pushes(c, keep_newest(start.push(xs[0]), c), xs.drop_first())
    }
}

/// Fixed-capacity store of samples, oldest first. When it is full, a push
/// drops the oldest sample to make room.
pub struct SampleBuffer {
    ring: AllocRingBuffer<Sample>,
}

impl View for SampleBuffer {
    type V = Seq<Sample>;

    closed spec fn view(&self) -> Seq<Sample> {
        ring_items(self.ring)
    }
}

impl SampleBuffer {
    /// The capacity the buffer was created with.
    pub closed spec fn cap(&self) -> nat {
        ring_capacity(self.ring)
    }

    pub open spec fn wf(&self) -> bool {
        0 < self.cap() <= MAX_CAPACITY && self@.len() <= self.cap()
    }

    /// An empty buffer that holds at most `capacity` samples.
    pub fn new(capacity: usize) -> (b: SampleBuffer)
        requires
            0 < capacity <= MAX_CAPACITY,
        ensures
            b.wf(),
            b@ == Seq::<Sample>::empty(),
            b.cap() == capacity,
    {
        SampleBuffer { ring: ring_new(capacity) }
    }

    /// Appends `sample`; when the buffer is full the oldest sample is dropped.
    pub fn push(&mut self, sample: Sample)
        requires
            old(self).wf(),
        ensures
            final(self).wf(),
            final(self).cap() == old(self).cap(),
            final(self)@ == keep_newest(old(self)@.push(sample), old(self).cap()),
    {
        ring_push(&mut self.ring, sample);
    }

    /// Removes and returns the `n` oldest samples, oldest first, or all of
    /// them when the buffer holds fewer; never waits for more.
    pub fn drain_up_to(&mut self, n: usize) -> (out: Vec<Sample>)
        requires
            old(self).wf(),
        ensures
            final(self).wf(),
            final(self).cap() == old(self).cap(),
            out@.len() == if old(self)@.len() <= n { old(self)@.len() } else { n as nat },
            out@ == old(self)@.take(out@.len() as int),
            final(self)@ == old(self)@.skip(out@.len() as int),
    {
        let ghost start = self@;
        let mut out: Vec<Sample> = Vec::new();
        while out.len() < n
            invariant
                self.wf(),
                self.cap() == old(self).cap(),
                start == old(self)@,
                out@ + self@ == start,
                out@.len() <= n,
            ensures
                self.wf(),
                self.cap() == old(self).cap(),
                out@ + self@ == start,
                out@.len() == n || self@.len() == 0,
            decreases n - out@.len(),
        {
            match ring_dequeue(&mut self.ring) {
                Some(s) => {
                    out.push(s);
                    assert(out@ + self@ =~= start);
                }
                None => {
                    break;
                }
            }
        }
        assert(out@ =~= start.take(out@.len() as int));
        assert(self@ =~= start.skip(out@.len() as int));
        out
    }

    /// Number of samples held.
    pub fn len(&self) -> (n: usize)
        requires
            self.wf(),
        ensures
            n == self@.len(),
    {
        ring_len(&self.ring)
    }

    /// The most samples the buffer holds at once.
    pub fn capacity(&self) -> (n: usize)
        ensures
            n == self.cap(),
    {
        ring_cap(&self.ring)
    }
}

/// Pushing any sequence of samples, one by one, into a buffer of capacity `c`
/// leaves exactly the `c` newest of the old contents followed by the pushed
/// samples, in insertion order.
pub proof fn lemma_pushes_keep_newest(c: nat, start: Seq<Sample>, xs: Seq<Sample>)
    requires
        0 < c,
        start.len() <= c,
    ensures
        after_pushes(c, start, xs) == keep_newest(start + xs, c),
    decreases xs.len(),
{
    if xs.len() > 0 {
        let next = keep_newest(start.push(xs[0]), c);
        lemma_pushes_keep_newest(c, next, xs.drop_first());
        let all = start + xs;
        let rest = next + xs.drop_first();
        assert(start.push(xs[0]) + xs.drop_first() =~= all);
        if start.push(xs[0]).len() > c {
            assert(rest =~= all.subrange(1, all.len() as int));
            assert(keep_newest(rest, c) =~= keep_newest(all, c));
        } else {
            assert(rest =~= all);
        }
    } else {
        assert(start + xs =~= start);
    }
}

/// Once more samples than the capacity were pushed into a buffer, it holds
/// exactly the `c` most recently pushed ones, in insertion order.
pub proof fn lemma_overflow_keeps_last(c: nat, start: Seq<Sample>, xs: Seq<Sample>)
    requires
        0 < c,
        start.len() <= c,
        xs.len() >= c,
    ensures
        after_pushes(c, start, xs) == xs.subrange(xs.len() - c, xs.len() as int),
{
    lemma_pushes_keep_newest(c, start, xs);
    let all = start + xs;
    assert(all.subrange(all.len() - c, all.len() as int) =~= xs.subrange(xs.len() - c, xs.len() as int));
}

} // verus!
