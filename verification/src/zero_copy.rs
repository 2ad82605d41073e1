//! Zero-copy publish/subscribe over a single-producer single-consumer ring,
//! in its reserve / write-in-place / commit form.
//!
//! A producer reserves the next slot, fills the value in place through the
//! slot handle, and commits it; the consumer peeks at the oldest message with
//! `try_read` and advances past it with `consume`. A handle does not lock its
//! slot: reserving twice before a commit yields the same slot twice. Handles are
//! plain tokens, and `commit` names the ring it publishes into.
use vstd::prelude::*;
use crate::ring::{is_power_of_two, lemma_mask_is_mod};

verus! {

pub struct RingBuffer<T> {
    slots: Vec<Option<T>>,
    capacity: usize,
    write_idx: u64,
    read_idx: u64,
}

impl<T> RingBuffer<T> {
    /// Well-formedness: indices, slot count and occupancy agree.
    pub closed spec fn wf(&self) -> bool {
        &&& is_power_of_two(self.capacity as u64)
        &&& self.slots@.len() == self.capacity
        &&& self.read_idx <= self.write_idx
        &&& self.write_idx - self.read_idx <= self.capacity
        &&& forall|i: int|
            self.read_idx <= i < self.write_idx ==> (#[trigger] self.slots@[i % (self.capacity as int)]) is Some
    }

    /// Number of slots.
    pub closed spec fn cap(&self) -> nat {
        self.capacity as nat
    }

    /// Index of the next slot to publish.
    pub closed spec fn write_index(&self) -> u64 {
        self.write_idx
    }

    /// Index of the oldest unconsumed message.
    pub closed spec fn read_index(&self) -> u64 {
        self.read_idx
    }

    /// The published, unconsumed messages, oldest first.
    pub closed spec fn messages(&self) -> Seq<T> {
        Seq::new(
            (self.write_idx - self.read_idx) as nat,
            |i: int|
                match self.slots@[(self.read_idx + i) % (self.capacity as int)] {
                    Some(v) => v,
                    None => arbitrary(),
                },
        )
    }

    /// Facts every ring satisfies, for callers that reason about its state.
    pub proof fn lemma_bounds(&self)
        requires
            self.wf(),
        ensures
            self.cap() > 0,
            self.messages().len() <= self.cap(),
            self.messages().len() == self.write_index() - self.read_index(),
    {
        lemma_mask_is_mod(0, self.capacity as u64);
    }

    /// Creates an empty ring with `capacity` slots; `capacity` must be a power
    /// of two.
    pub fn new(capacity: usize) -> (r: Self)
        requires
            is_power_of_two(capacity as u64),
        ensures
            r.wf(),
            r.cap() == capacity,
            r.messages() == Seq::<T>::empty(),
            r.write_index() == 0,
            r.read_index() == 0,
    {
        let mut slots: Vec<Option<T>> = Vec::new();
        let mut i: usize = 0;
        while i < capacity
            invariant
                i <= capacity,
                slots@.len() == i,
            decreases capacity - i,
        {
            slots.push(None);
            i = i + 1;
        }
        let r = RingBuffer { slots, capacity, write_idx: 0, read_idx: 0 };
        assert(r.messages() =~= Seq::<T>::empty());
        r
    }

    fn slot_index(&self, idx: u64) -> (s: usize)
        requires
            self.wf(),
        ensures
            s == (idx as int) % (self.cap() as int),
            s < self.cap(),
    {
        proof {
            lemma_mask_is_mod(idx, self.capacity as u64);
        }
        (idx & ((self.capacity as u64) - 1)) as usize
    }

    /// A handle on the next slot to write, holding `T::default()` until the
    /// producer fills it in; `None` when every slot holds an unconsumed message.
    pub fn try_reserve(&self) -> (s: Option<ReservedSlot<T>>)
        where T: Default,
        requires
            self.wf(),
        ensures
            s is None <==> self.messages().len() == self.cap(),
            s matches Some(slot) ==> slot.index() == self.write_index(),
    {
        proof {
            self.lemma_bounds();
        }
        if self.write_idx - self.read_idx >= self.capacity as u64 {
            return None;
        }
        Some(ReservedSlot { value: T::default(), write_idx: self.write_idx })
    }

    /// Publishes the slot at `write_idx`, whose value is already stored.
    fn commit_write(&mut self, write_idx: u64)
        requires
            old(self).wf(),
            write_idx == old(self).write_idx,
            old(self).write_idx - old(self).read_idx < old(self).capacity,
            old(self).write_idx < u64::MAX,
            old(self).slots@[(write_idx as int) % (old(self).capacity as int)] is Some,
        ensures
            final(self).wf(),
            final(self).write_idx == write_idx + 1,
            final(self).read_idx == old(self).read_idx,
            final(self).slots == old(self).slots,
            final(self).capacity == old(self).capacity,
    {
        self.write_idx = write_idx + 1;
        assert forall|i: int| self.read_idx <= i < self.write_idx implies (#[trigger] self.slots@[i % (self.capacity as int)]) is Some by {
            if i < write_idx {
                assert(old(self).slots@[i % (old(self).capacity as int)] is Some);
            }
        }
    }

    /// The oldest unconsumed message, left in place; `None` when there is none.
    pub fn try_read(&self) -> (r: Option<&T>)
        requires
            self.wf(),
        ensures
            r is None <==> self.messages().len() == 0,
            r matches Some(v) ==> *v == self.messages()[0],
    {
        if self.read_idx >= self.write_idx {
            return None;
        }
        let idx = self.slot_index(self.read_idx);
        assert(self.slots@[(self.read_idx as int) % (self.capacity as int)] is Some);
        match &self.slots[idx] {
            Some(v) => Some(v),
            None => None,
        }
    }

    /// Advances past the oldest message; there must be one.
    pub fn consume(&mut self)
        requires
            old(self).wf(),
            old(self).messages().len() > 0,
        ensures
            final(self).wf(),
            final(self).messages() == old(self).messages().drop_first(),
            final(self).cap() == old(self).cap(),
            final(self).write_index() == old(self).write_index(),
            final(self).read_index() == old(self).read_index() + 1,
    {
        self.read_idx = self.read_idx + 1;
        assert(self.messages() =~= old(self).messages().drop_first());
    }

    /// Number of unconsumed messages.
    pub fn len(&self) -> (n: usize)
        requires
            self.wf(),
        ensures
            n == self.messages().len(),
    {
        ((self.write_idx - self.read_idx) as usize)
    }

    /// Whether there is no unconsumed message.
    pub fn is_empty(&self) -> (b: bool)
        requires
            self.wf(),
        ensures
            b == (self.messages().len() == 0),
    {
        self.write_idx == self.read_idx
    }

    /// Number of slots.
    pub fn capacity(&self) -> (c: usize)
        ensures
            c == self.cap(),
    {
        self.capacity
    }
}

/// A reserved slot: the value being written and the position it will take.
pub struct ReservedSlot<T> {
    value: T,
    write_idx: u64,
}

impl<T> ReservedSlot<T> {
    /// The value that a commit will publish.
    pub closed spec fn value(&self) -> T {
        self.value
    }

    /// The ring position this slot was reserved at.
    pub closed spec fn index(&self) -> u64 {
        self.write_idx
    }

    /// Write access to the value in the slot.
    pub fn as_mut(&mut self) -> (v: &mut T)
        ensures
            *v == old(self).value(),
            final(self).value() == *final(v),
            final(self).index() == old(self).index(),
    {
        &mut self.value
    }

    /// Publishes the value: it becomes the newest message. The slot must be
    /// the ring's next position, with room left, and the position must not be
    /// the last `u64`.
    pub fn commit(self, ring: &mut RingBuffer<T>)
        requires
            old(ring).wf(),
            self.index() == old(ring).write_index(),
            old(ring).messages().len() < old(ring).cap(),
            old(ring).write_index() < u64::MAX,
        ensures
            final(ring).wf(),
            final(ring).messages() == old(ring).messages().push(self.value()),
            final(ring).cap() == old(ring).cap(),
            final(ring).read_index() == old(ring).read_index(),
            final(ring).write_index() == old(ring).write_index() + 1,
    {
        let ghost v = self.value;
        let idx = ring.slot_index(self.write_idx);
        let ghost before = ring.slots@;
        ring.slots.set(idx, Some(self.value));
        proof {
            assert forall|i: int| ring.read_idx <= i < ring.write_idx implies (#[trigger] ring.slots@[i % (ring.capacity as int)]) is Some by {
                assert(before[i % (ring.capacity as int)] is Some);
            }
        }
        ring.commit_write(self.write_idx);
        proof {
            let old_msgs = old(ring).messages();
            let new_msgs = ring.messages();
            assert forall|i: int| 0 <= i < old_msgs.len() implies new_msgs[i] == old_msgs[i] by {
                crate::ring::lemma_mod_distinct(ring.read_idx + i, old(ring).write_idx as int, ring.capacity as int);
            }
            assert(new_msgs =~= old_msgs.push(v));
        }
    }
}

/// Producing end of a topic: owns the ring that its subscribers read.
pub struct Publisher<T> {
    ring: RingBuffer<T>,
    topic: String,
}

impl<T> Publisher<T> {
    /// The ring this publisher writes into.
    pub closed spec fn ring_view(&self) -> RingBuffer<T> {
        self.ring
    }

    /// The topic name.
    pub closed spec fn topic_view(&self) -> Seq<char> {
        self.topic@
    }

    /// A publisher on `topic` over an empty ring of `capacity` slots
    /// (a power of two).
    pub fn new(topic: &str, capacity: usize) -> (p: Self)
        requires
            is_power_of_two(capacity as u64),
        ensures
            p.ring_view().wf(),
            p.ring_view().cap() == capacity,
            p.ring_view().messages() == Seq::<T>::empty(),
            p.ring_view().write_index() == 0,
            p.topic_view() == topic@,
    {
        Publisher { ring: RingBuffer::new(capacity), topic: topic.to_string() }
    }

    /// A handle for writing the next message in place; `None` when the ring
    /// is full.
    pub fn allocate(&self) -> (h: Option<MessageHandle<T>>)
        where T: Default,
        requires
            self.ring_view().wf(),
        ensures
            h is None <==> self.ring_view().messages().len() == self.ring_view().cap(),
            h matches Some(m) ==> m.index() == self.ring_view().write_index(),
    {
        match self.ring.try_reserve() {
            Some(slot) => Some(MessageHandle { slot }),
            None => None,
        }
    }

    /// Publishes `msg` by value; `Err("Buffer full")` when no slot is free.
    pub fn publish_copy(&mut self, msg: T) -> (r: Result<(), &'static str>)
        requires
            old(self).ring_view().wf(),
            old(self).ring_view().write_index() < u64::MAX,
        ensures
            final(self).ring_view().wf(),
            final(self).topic_view() == old(self).topic_view(),
            final(self).ring_view().cap() == old(self).ring_view().cap(),
            final(self).ring_view().read_index() == old(self).ring_view().read_index(),
            old(self).ring_view().messages().len() == old(self).ring_view().cap() ==> {
                &&& r == Err::<(), &'static str>("Buffer full")
                &&& final(self).ring_view() == old(self).ring_view()
            },
            old(self).ring_view().messages().len() < old(self).ring_view().cap() ==> {
                &&& r is Ok
                &&& final(self).ring_view().messages() == old(self).ring_view().messages().push(msg)
                &&& final(self).ring_view().write_index() == old(self).ring_view().write_index() + 1
            },
    {
        proof {
            self.ring.lemma_bounds();
        }
        if self.ring.len() >= self.ring.capacity() {
            return Err("Buffer full");
        }
        let slot = ReservedSlot { value: msg, write_idx: self.ring.write_idx };
        slot.commit(&mut self.ring);
        Ok(())
    }

    /// The topic name.
    pub fn topic(&self) -> (t: &str)
        ensures
            t@ == self.topic_view(),
    {
        self.topic.as_str()
    }

    /// The ring, for subscribers to read.
    pub fn ring(&self) -> (r: &RingBuffer<T>)
        ensures
            *r == self.ring_view(),
    {
        &self.ring
    }

    /// The ring, for a subscriber to consume from or a handle to commit into.
    pub fn ring_mut(&mut self) -> (r: &mut RingBuffer<T>)
        ensures
            *r == old(self).ring_view(),
            final(self).ring_view() == *final(r),
            final(self).topic_view() == old(self).topic_view(),
    {
        &mut self.ring
    }
}

/// A message being written in place, before it is published.
pub struct MessageHandle<T> {
    slot: ReservedSlot<T>,
}

impl<T> MessageHandle<T> {
    /// The message as it stands.
    pub closed spec fn value(&self) -> T {
        self.slot.value()
    }

    /// The ring position the message will take.
    pub closed spec fn index(&self) -> u64 {
        self.slot.index()
    }

    /// Write access to the message.
    pub fn as_mut(&mut self) -> (v: &mut T)
        ensures
            *v == old(self).value(),
            final(self).value() == *final(v),
            final(self).index() == old(self).index(),
    {
        self.slot.as_mut()
    }

    /// Publishes the message into `ring` (see `ReservedSlot::commit`).
    pub fn commit(self, ring: &mut RingBuffer<T>)
        requires
            old(ring).wf(),
            self.index() == old(ring).write_index(),
            old(ring).messages().len() < old(ring).cap(),
            old(ring).write_index() < u64::MAX,
        ensures
            final(ring).wf(),
            final(ring).messages() == old(ring).messages().push(self.value()),
            final(ring).cap() == old(ring).cap(),
            final(ring).read_index() == old(ring).read_index(),
            final(ring).write_index() == old(ring).write_index() + 1,
    {
        self.slot.commit(ring)
    }
}

/// Consuming end of a topic; it reads the ring that its publisher owns.
pub struct Subscriber<T> {
    topic: String,
    _marker: core::marker::PhantomData<T>,
}

impl<T> Subscriber<T> {
    /// The topic name.
    pub closed spec fn topic_view(&self) -> Seq<char> {
        self.topic@
    }

    pub fn new(topic: &str) -> (s: Self)
        ensures
            s.topic_view() == topic@,
    {
        Subscriber { topic: topic.to_string(), _marker: core::marker::PhantomData }
    }

    /// The oldest unconsumed message, if any (see `RingBuffer::try_read`).
    pub fn try_recv<'a>(&self, ring: &'a RingBuffer<T>) -> (r: Option<&'a T>)
        requires
            ring.wf(),
        ensures
            r is None <==> ring.messages().len() == 0,
            r matches Some(v) ==> *v == ring.messages()[0],
    {
        ring.try_read()
    }

    /// Marks the oldest message consumed; there must be one.
    pub fn consume(&self, ring: &mut RingBuffer<T>)
        requires
            old(ring).wf(),
            old(ring).messages().len() > 0,
        ensures
            final(ring).wf(),
            final(ring).messages() == old(ring).messages().drop_first(),
            final(ring).cap() == old(ring).cap(),
            final(ring).write_index() == old(ring).write_index(),
            final(ring).read_index() == old(ring).read_index() + 1,
    {
        ring.consume()
    }

    /// Number of unconsumed messages.
    pub fn pending(&self, ring: &RingBuffer<T>) -> (n: usize)
        requires
            ring.wf(),
        ensures
            n == ring.messages().len(),
    {
        ring.len()
    }
}

} // verus!
