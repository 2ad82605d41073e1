//! Single-producer single-consumer ring buffer with type-state write guards.
//!
//! A slot is reserved with `try_reserve`, initialized with `write_value`, and
//! published with `commit`; a reader claims the oldest message with `try_read`
//! and frees it with `release`. Guards are plain tokens: every guard operation
//! names the ring it belongs to, and its `requires` ties the guard to that ring's
//! outstanding reservation.
use vstd::prelude::*;
use core::marker::PhantomData;
use std::time::Duration;
use vstd::arithmetic::power2::{pow2, lemma_pow2_pos};
use vstd::arithmetic::div_mod::lemma_fundamental_div_mod;
use vstd::bits::{low_bits_mask, lemma_u64_low_bits_mask_is_mod};

verus! {

/// `c` is a power of two that fits in 64 bits.
pub open spec fn is_power_of_two(c: u64) -> bool {
    exists|k: nat| k < 64 && pow2(k) == c
}

pub(crate) proof fn lemma_mask_is_mod(x: u64, c: u64)
    requires
        is_power_of_two(c),
    ensures
        c > 0,
        x & ((c - 1) as u64) == x % c,
        x % c < c,
{
    let k = choose|k: nat| k < 64 && pow2(k) == c;
    lemma_pow2_pos(k);
    lemma_u64_low_bits_mask_is_mod(x, k);
    assert(low_bits_mask(k) == pow2(k) - 1);
}

/// Two positions less than `c` apart never share a slot.
pub(crate) proof fn lemma_mod_distinct(a: int, b: int, c: int)
    requires
        0 <= a < b,
        b - a < c,
    ensures
        a % c != b % c,
{
    lemma_fundamental_div_mod(a, c);
    lemma_fundamental_div_mod(b, c);
    if a % c == b % c {
        let k = b / c - a / c;
        assert(b - a == c * k) by (nonlinear_arith)
            requires
                a == c * (a / c) + a % c,
                b == c * (b / c) + b % c,
                a % c == b % c,
                k == b / c - a / c,
        ;
        assert(false) by (nonlinear_arith)
            requires
                b - a == c * k,
                0 < b - a < c,
        ;
    }
}

/// First in, first out: on a ring that already holds messages, publishing `v`
/// (the step `InitializedWriteGuard::commit` takes from `before` to
/// `published`) leaves the oldest message in front, so the next read
/// (`ReadGuard::get`) returns it, and releasing it (the step
/// `ReadGuard::release` takes to `released`) leaves the rest followed by `v`.
pub proof fn law_fifo<T>(before: RingBuffer<T>, published: RingBuffer<T>, released: RingBuffer<T>, v: T)
    requires
        before.messages().len() > 0,
        published.messages() == before.messages().push(v),
        released.messages() == published.messages().drop_first(),
    ensures
        published.messages()[0] == before.messages()[0],
        released.messages() == before.messages().drop_first().push(v),
{
    assert(before.messages().push(v).drop_first() =~= before.messages().drop_first().push(v));
}

/// A read gives back what was written: a message `v` published into an empty
/// ring (`before` to `published`) is the one the next read returns, and
/// releasing it (`published` to `released`) empties the ring again.
pub proof fn law_read_returns_write<T>(before: RingBuffer<T>, published: RingBuffer<T>, released: RingBuffer<T>, v: T)
    requires
        before.messages().len() == 0,
        published.messages() == before.messages().push(v),
        released.messages() == published.messages().drop_first(),
    ensures
        published.messages().len() == 1,
        published.messages()[0] == v,
        released.messages() == Seq::<T>::empty(),
{
    assert(before.messages().push(v).drop_first() =~= Seq::<T>::empty());
}

pub struct RingBuffer<T> {
    slots: Vec<Option<T>>,
    capacity: usize,
    write_idx: u64,
    read_idx: u64,
    write_reserved: bool,
    read_reserved: bool,
}

impl<T> RingBuffer<T> {
    /// Well-formedness: indices, slot count and occupancy agree.
    pub closed spec fn wf(&self) -> bool {
        &&& is_power_of_two(self.capacity as u64)
        &&& self.slots@.len() == self.capacity
        &&& self.read_idx <= self.write_idx
        &&& self.write_idx - self.read_idx <= self.capacity
        &&& self.write_reserved ==> self.write_idx - self.read_idx < self.capacity
        &&& self.read_reserved ==> self.read_idx < self.write_idx
        &&& forall|i: int|
            self.read_idx <= i < self.write_idx ==> (#[trigger] self.slots@[i % (self.capacity as int)]) is Some
    }

    /// Number of slots.
    pub closed spec fn cap(&self) -> nat {
        self.capacity as nat
    }

    /// Index of the next slot to publish.
    pub closed spec fn write_index(&self) -> u64 {
        self.write_idx
    }

    /// Index of the oldest unreleased message.
    pub closed spec fn read_index(&self) -> u64 {
        self.read_idx
    }

    /// A producer reservation is outstanding.
    pub closed spec fn write_reserved(&self) -> bool {
        self.write_reserved
    }

    /// A consumer holds the oldest message.
    pub closed spec fn read_reserved(&self) -> bool {
        self.read_reserved
    }

    /// The value written into the reserved slot, if any.
    pub closed spec fn staged(&self) -> Option<T> {
        self.slots@[(self.write_idx as int) % (self.capacity as int)]
    }

    /// The published messages not yet released, oldest first.
    pub closed spec fn messages(&self) -> Seq<T> {
        Seq::new(
            (self.write_idx - self.read_idx) as nat,
            |i: int|
                match self.slots@[(self.read_idx + i) % (self.capacity as int)] {
                    Some(v) => v,
                    None => arbitrary(),
                },
        )
    }

    /// Facts every ring satisfies, for callers that reason about its state.
    pub proof fn lemma_bounds(&self)
        requires
            self.wf(),
        ensures
            self.cap() > 0,
            self.messages().len() <= self.cap(),
            self.messages().len() == self.write_index() - self.read_index(),
            self.write_reserved() ==> self.messages().len() < self.cap(),
            self.read_reserved() ==> self.messages().len() > 0,
    {
        let k = choose|k: nat| k < 64 && pow2(k) == self.capacity as u64;
        lemma_pow2_pos(k);
    }

    /// Creates an empty ring with `capacity` slots; `capacity` must be a power of two.
    pub fn new(capacity: usize) -> (r: Self)
        requires
            is_power_of_two(capacity as u64),
        ensures
            r.wf(),
            r.cap() == capacity,
            r.messages() == Seq::<T>::empty(),
            !r.write_reserved(),
            !r.read_reserved(),
            r.write_index() == 0,
            r.read_index() == 0,
    {
        let mut slots: Vec<Option<T>> = Vec::new();
        let mut i: usize = 0;
        while i < capacity
            invariant
                i <= capacity,
                slots@.len() == i,
            decreases capacity - i,
        {
            slots.push(None);
            i = i + 1;
        }
        let r = RingBuffer {
            slots,
            capacity,
            write_idx: 0,
            read_idx: 0,
            write_reserved: false,
            read_reserved: false,
        };
        assert(r.messages() =~= Seq::<T>::empty());
        r
    }

    fn slot_index(&self, idx: u64) -> (s: usize)
        requires
            self.wf(),
        ensures
            s == (idx as int) % (self.cap() as int),
            s < self.cap(),
    {
        proof {
                lemma_mask_is_mod(idx, self.capacity as u64);
        }
        (idx & ((self.capacity as u64) - 1)) as usize
    }

    /// Reserves the next slot for writing. Fails while another reservation is
    /// outstanding or when every slot holds an unreleased message.
    pub fn try_reserve(&mut self) -> (g: Option<WriteGuard<T>>)
        requires
            old(self).wf(),
        ensures
            final(self).wf(),
            g is None <==> (old(self).write_reserved() || old(self).messages().len() == old(self).cap()),
            final(self).messages() == old(self).messages(),
            final(self).cap() == old(self).cap(),
            final(self).read_reserved() == old(self).read_reserved(),
            final(self).read_index() == old(self).read_index(),
            final(self).write_index() == old(self).write_index(),
            final(self).staged() == old(self).staged(),
            g is None ==> *final(self) == *old(self),
            g is Some ==> final(self).write_reserved(),
            g matches Some(w) ==> w.matches(final(self)) && w.write_index() == final(self).write_index(),
    {
        if self.write_reserved {
            return None;
        }
        let write = self.write_idx;
        let read = self.read_idx;
        if write.wrapping_sub(read) >= self.capacity as u64 {
            return None;
        }
        let slot = self.slot_index(write);
        self.write_reserved = true;
        Some(WriteGuard { slot, write_idx: write, _marker: PhantomData })
    }

    /// Claims the oldest published message for reading. Fails while another
    /// read is outstanding or when no message is published.
    pub fn try_read(&mut self) -> (g: Option<ReadGuard<T>>)
        requires
            old(self).wf(),
        ensures
            final(self).wf(),
            g is None <==> (old(self).read_reserved() || old(self).messages().len() == 0),
            final(self).messages() == old(self).messages(),
            final(self).cap() == old(self).cap(),
            final(self).write_reserved() == old(self).write_reserved(),
            final(self).read_index() == old(self).read_index(),
            final(self).write_index() == old(self).write_index(),
            final(self).staged() == old(self).staged(),
            g is None ==> *final(self) == *old(self),
            g is Some ==> final(self).read_reserved(),
            g matches Some(r) ==> r.matches(final(self)) && r.read_index() == final(self).read_index(),
    {
        if self.read_reserved {
            return None;
        }
        let read = self.read_idx;
        let write = self.write_idx;
        if read >= write {
            return None;
        }
        let slot = self.slot_index(read);
        self.read_reserved = true;
        Some(ReadGuard { slot, read_idx: read, _marker: PhantomData })
    }

    /// Number of published, unreleased messages.
    pub fn len(&self) -> (n: usize)
        requires
            self.wf(),
        ensures
            n == self.messages().len(),
    {
        self.write_idx.wrapping_sub(self.read_idx) as usize
    }

    pub fn is_empty(&self) -> (b: bool)
        requires
            self.wf(),
        ensures
            b == (self.messages().len() == 0),
    {
        self.len() == 0
    }

    pub fn capacity(&self) -> (c: usize)
        ensures
            c == self.cap(),
    {
        self.capacity
    }

    /// Position of the oldest unreleased message in publication order.
    pub fn read_position(&self) -> (p: u64)
        ensures
            p == self.read_index(),
    {
        self.read_idx
    }

    /// Position the next published message will take.
    pub fn write_position(&self) -> (p: u64)
        ensures
            p == self.write_index(),
    {
        self.write_idx
    }

    pub fn is_full(&self) -> (b: bool)
        requires
            self.wf(),
        ensures
            b == (self.messages().len() >= self.cap()),
    {
        self.len() >= self.capacity
    }
}

/// An outstanding reservation of an uninitialized slot.
pub struct WriteGuard<T> {
    slot: usize,
    write_idx: u64,
    _marker: PhantomData<T>,
}

impl<T> WriteGuard<T> {
    /// Index of the reserved slot in publication order.
    pub closed spec fn write_index(&self) -> u64 {
        self.write_idx
    }

    /// The guard belongs to the reservation outstanding on `ring`.
    pub closed spec fn matches(&self, ring: &RingBuffer<T>) -> bool {
        &&& ring.write_reserved()
        &&& ring.write_index() == self.write_idx
        &&& self.slot == (self.write_idx as int) % (ring.cap() as int)
    }

    /// What a matching guard records of its ring: the reservation is outstanding
    /// at the guard's index.
    pub proof fn lemma_matches(&self, ring: &RingBuffer<T>)
        requires
            self.matches(ring),
        ensures
            ring.write_reserved(),
            ring.write_index() == self.write_index(),
    {
    }

    /// Writes `value` into the reserved slot, turning the reservation into an
    /// initialized one that can be committed.
    pub fn write_value(self, ring: &mut RingBuffer<T>, value: T) -> (g: InitializedWriteGuard<T>)
        requires
            old(ring).wf(),
            self.matches(old(ring)),
        ensures
            final(ring).wf(),
            g.matches(final(ring)),
            final(ring).staged() == Some(value),
            final(ring).messages() == old(ring).messages(),
            final(ring).cap() == old(ring).cap(),
            final(ring).write_reserved() == old(ring).write_reserved(),
            final(ring).read_reserved() == old(ring).read_reserved(),
            final(ring).write_index() == old(ring).write_index(),
            final(ring).read_index() == old(ring).read_index(),
    {
        let ghost before = ring.messages();
        let ghost old_slots = ring.slots@;
        ring.slots.set(self.slot, Some(value));
        proof {
            let c = ring.capacity as int;
            assert forall|i: int| ring.read_idx <= i < ring.write_idx implies
                #[trigger] ring.slots@[i % c] == old_slots[i % c] by {
                lemma_mod_distinct(i, ring.write_idx as int, c);
            }
            assert(ring.messages() =~= before);
        }
        InitializedWriteGuard { slot: self.slot, write_idx: self.write_idx, _marker: PhantomData }
    }

    /// Abandons the reservation: nothing is published and the slot stays free.
    pub fn abort(self, ring: &mut RingBuffer<T>)
        requires
            old(ring).wf(),
            self.matches(old(ring)),
        ensures
            final(ring).wf(),
            !final(ring).write_reserved(),
            final(ring).messages() == old(ring).messages(),
            final(ring).cap() == old(ring).cap(),
            final(ring).read_reserved() == old(ring).read_reserved(),
            final(ring).write_index() == old(ring).write_index(),
            final(ring).read_index() == old(ring).read_index(),
    {
        ring.write_reserved = false;
    }
}

/// A reservation whose slot holds an initialized value; only this state can commit.
pub struct InitializedWriteGuard<T> {
    slot: usize,
    write_idx: u64,
    _marker: PhantomData<T>,
}

impl<T> InitializedWriteGuard<T> {
    pub closed spec fn write_index(&self) -> u64 {
        self.write_idx
    }

    /// The guard belongs to the initialized reservation outstanding on `ring`.
    pub closed spec fn matches(&self, ring: &RingBuffer<T>) -> bool {
        &&& ring.write_reserved()
        &&& ring.write_index() == self.write_idx
        &&& self.slot == (self.write_idx as int) % (ring.cap() as int)
        &&& ring.staged() is Some
    }

    /// What a matching guard records of its ring: the reservation is outstanding
    /// at the guard's index and its slot holds a value.
    pub proof fn lemma_matches(&self, ring: &RingBuffer<T>)
        requires
            self.matches(ring),
        ensures
            ring.write_reserved(),
            ring.write_index() == self.write_index(),
            ring.staged() is Some,
    {
    }

    /// The initialized value.
    pub fn as_ref<'a>(&self, ring: &'a RingBuffer<T>) -> (v: &'a T)
        requires
            ring.wf(),
            self.matches(ring),
        ensures
            Some(*v) == ring.staged(),
    {
        ring.slots[self.slot].as_ref().unwrap()
    }

    /// Publishes the value: it becomes the newest message and the reservation ends.
    pub fn commit(self, ring: &mut RingBuffer<T>)
        requires
            old(ring).wf(),
            self.matches(old(ring)),
            old(ring).write_index() < u64::MAX,
        ensures
            final(ring).wf(),
            old(ring).staged() matches Some(v) && final(ring).messages() == old(ring).messages().push(v),
            !final(ring).write_reserved(),
            final(ring).cap() == old(ring).cap(),
            final(ring).read_reserved() == old(ring).read_reserved(),
            final(ring).write_index() == old(ring).write_index() + 1,
            final(ring).read_index() == old(ring).read_index(),
    {
        let ghost before = ring.messages();
        ring.write_idx = self.write_idx.wrapping_add(1);
        ring.write_reserved = false;
        proof {
            let v = old(ring).staged()->0;
            assert(ring.messages() =~= before.push(v));
        }
    }

    /// Discards the initialized value and ends the reservation without publishing.
    pub fn abort_initialized(self, ring: &mut RingBuffer<T>)
        requires
            old(ring).wf(),
            self.matches(old(ring)),
        ensures
            final(ring).wf(),
            !final(ring).write_reserved(),
            final(ring).staged() is None,
            final(ring).messages() == old(ring).messages(),
            final(ring).cap() == old(ring).cap(),
            final(ring).read_reserved() == old(ring).read_reserved(),
            final(ring).write_index() == old(ring).write_index(),
            final(ring).read_index() == old(ring).read_index(),
    {
        let ghost before = ring.messages();
        let ghost old_slots = ring.slots@;
        ring.slots.set(self.slot, None);
        ring.write_reserved = false;
        proof {
            let c = ring.capacity as int;
            assert forall|i: int| ring.read_idx <= i < ring.write_idx implies
                #[trigger] ring.slots@[i % c] == old_slots[i % c] by {
                lemma_mod_distinct(i, ring.write_idx as int, c);
            }
            assert(ring.messages() =~= before);
        }
    }
}

/// Shared access to the oldest published message until it is released.
pub struct ReadGuard<T> {
    slot: usize,
    read_idx: u64,
    _marker: PhantomData<T>,
}

impl<T> ReadGuard<T> {
    pub closed spec fn read_index(&self) -> u64 {
        self.read_idx
    }

    /// The guard belongs to the read outstanding on `ring`.
    pub closed spec fn matches(&self, ring: &RingBuffer<T>) -> bool {
        &&& ring.read_reserved()
        &&& ring.read_index() == self.read_idx
        &&& self.slot == (self.read_idx as int) % (ring.cap() as int)
    }

    /// What a matching guard records of its ring: a read is outstanding at the
    /// guard's index.
    pub proof fn lemma_matches(&self, ring: &RingBuffer<T>)
        requires
            self.matches(ring),
        ensures
            ring.read_reserved(),
            ring.read_index() == self.read_index(),
    {
    }

    /// The message this guard holds: the oldest unreleased one.
    pub fn get<'a>(&self, ring: &'a RingBuffer<T>) -> (v: &'a T)
        requires
            ring.wf(),
            self.matches(ring),
        ensures
            ring.messages().len() > 0,
            *v == ring.messages()[0],
    {
        let ghost i = self.read_idx as int;
        assert(ring.slots@[i % (ring.capacity as int)] is Some);
        ring.slots[self.slot].as_ref().unwrap()
    }

    /// Drops the message and frees its slot; the next message becomes the oldest.
    pub fn release(self, ring: &mut RingBuffer<T>)
        requires
            old(ring).wf(),
            self.matches(old(ring)),
        ensures
            final(ring).wf(),
            old(ring).messages().len() > 0,
            final(ring).messages() == old(ring).messages().drop_first(),
            !final(ring).read_reserved(),
            final(ring).cap() == old(ring).cap(),
            final(ring).write_reserved() == old(ring).write_reserved(),
            old(ring).write_reserved() ==> final(ring).staged() == old(ring).staged(),
            final(ring).write_index() == old(ring).write_index(),
            final(ring).read_index() == old(ring).read_index() + 1,
    {
        let ghost before = ring.messages();
        let ghost old_slots = ring.slots@;
        ring.read_idx = self.read_idx.wrapping_add(1);
        ring.slots.set(self.slot, None);
        ring.read_reserved = false;
        proof {
            let c = ring.capacity as int;
            assert forall|i: int| self.read_idx < i < ring.write_idx implies
                #[trigger] ring.slots@[i % c] == old_slots[i % c] by {
                lemma_mod_distinct(self.read_idx as int, i, c);
            }
            if ring.write_reserved {
                lemma_mod_distinct(self.read_idx as int, ring.write_idx as int, c);
            }
            assert(ring.messages() =~= before.drop_first());
        }
    }
}

/// The sending endpoint of a channel. Endpoints are not `Clone`, so a channel has
/// exactly one producer; the ring it writes to is named on each call.
pub struct Producer<T> {
    _marker: PhantomData<T>,
}

/// The receiving endpoint of a channel.
pub struct Consumer<T> {
    _marker: PhantomData<T>,
}

impl<T> Producer<T> {
    fn new() -> (p: Self) {
        Producer { _marker: PhantomData }
    }

    /// Reserves the next slot of `ring` (see `RingBuffer::try_reserve`).
    pub fn allocate(&self, ring: &mut RingBuffer<T>) -> (g: Option<WriteGuard<T>>)
        requires
            old(ring).wf(),
        ensures
            final(ring).wf(),
            g is None <==> (old(ring).write_reserved() || old(ring).messages().len() == old(ring).cap()),
            final(ring).messages() == old(ring).messages(),
            final(ring).cap() == old(ring).cap(),
            final(ring).read_reserved() == old(ring).read_reserved(),
            final(ring).write_index() == old(ring).write_index(),
            final(ring).read_index() == old(ring).read_index(),
            final(ring).staged() == old(ring).staged(),
            g is None ==> *final(ring) == *old(ring),
            g is Some ==> final(ring).write_reserved(),
            g matches Some(w) ==> w.matches(final(ring)) && w.write_index() == final(ring).write_index(),
    {
        let g = ring.try_reserve();
        g
    }

    /// Copies `msg` into the next slot and publishes it in one step.
    pub fn publish_copy(&self, ring: &mut RingBuffer<T>, msg: T) -> (r: Result<(), &'static str>)
        requires
            old(ring).wf(),
            old(ring).write_index() < u64::MAX,
        ensures
            final(ring).wf(),
            r is Err <==> (old(ring).write_reserved() || old(ring).messages().len() == old(ring).cap()),
            r is Ok ==> final(ring).messages() == old(ring).messages().push(msg),
            r is Err ==> r == Err::<(), &'static str>("Buffer full or already reserved"),
            r is Err ==> *final(ring) == *old(ring),
            final(ring).messages() == if r is Ok { old(ring).messages().push(msg) } else { old(ring).messages() },
            final(ring).write_reserved() == old(ring).write_reserved(),
            final(ring).read_reserved() == old(ring).read_reserved(),
            final(ring).cap() == old(ring).cap(),
            r is Ok ==> final(ring).write_index() == old(ring).write_index() + 1,
            final(ring).read_index() == old(ring).read_index(),
    {
        publish_into(ring, msg)
    }

    pub fn len(&self, ring: &RingBuffer<T>) -> (n: usize)
        requires
            ring.wf(),
        ensures
            n == ring.messages().len(),
    {
        ring.len()
    }

    pub fn is_empty(&self, ring: &RingBuffer<T>) -> (b: bool)
        requires
            ring.wf(),
        ensures
            b == (ring.messages().len() == 0),
    {
        ring.is_empty()
    }

    pub fn capacity(&self, ring: &RingBuffer<T>) -> (c: usize)
        ensures
            c == ring.cap(),
    {
        ring.capacity()
    }
}

impl<T> Consumer<T> {
    fn new() -> (c: Self) {
        Consumer { _marker: PhantomData }
    }

    /// Claims the oldest message of `ring` (see `RingBuffer::try_read`).
    pub fn try_recv(&self, ring: &mut RingBuffer<T>) -> (g: Option<ReadGuard<T>>)
        requires
            old(ring).wf(),
        ensures
            final(ring).wf(),
            g is None <==> (old(ring).read_reserved() || old(ring).messages().len() == 0),
            final(ring).messages() == old(ring).messages(),
            final(ring).cap() == old(ring).cap(),
            final(ring).write_reserved() == old(ring).write_reserved(),
            final(ring).read_index() == old(ring).read_index(),
            final(ring).write_index() == old(ring).write_index(),
            final(ring).staged() == old(ring).staged(),
            g is None ==> *final(ring) == *old(ring),
            g is Some ==> final(ring).read_reserved(),
            g matches Some(r) ==> r.matches(final(ring)) && r.read_index() == final(ring).read_index(),
    {
        let g = ring.try_read();
        g
    }

    pub fn pending(&self, ring: &RingBuffer<T>) -> (n: usize)
        requires
            ring.wf(),
        ensures
            n == ring.messages().len(),
    {
        ring.len()
    }

    pub fn is_empty(&self, ring: &RingBuffer<T>) -> (b: bool)
        requires
            ring.wf(),
        ensures
            b == (ring.messages().len() == 0),
    {
        ring.is_empty()
    }
}

/// Creates a single-producer single-consumer channel: its two endpoints and the
/// ring of `capacity` slots that they share.
pub fn channel<T>(capacity: usize) -> (r: (Producer<T>, Consumer<T>, RingBuffer<T>))
    requires
        is_power_of_two(capacity as u64),
    ensures
        r.2.wf(),
        r.2.cap() == capacity,
        r.2.messages() == Seq::<T>::empty(),
        !r.2.write_reserved(),
        !r.2.read_reserved(),
        r.2.write_index() == 0,
{
    let ring = RingBuffer::new(capacity);
    (Producer::new(), Consumer::new(), ring)
}

/// Reserve, write and commit `msg` on `ring`, or report why no slot was free.
fn publish_into<T>(ring: &mut RingBuffer<T>, msg: T) -> (r: Result<(), &'static str>)
    requires
        old(ring).wf(),
        old(ring).write_index() < u64::MAX,
    ensures
        final(ring).wf(),
        r is Err <==> (old(ring).write_reserved() || old(ring).messages().len() == old(ring).cap()),
        r is Ok ==> final(ring).messages() == old(ring).messages().push(msg),
        r is Err ==> final(ring).messages() == old(ring).messages(),
        r is Err ==> r == Err::<(), &'static str>("Buffer full or already reserved"),
        r is Err ==> *final(ring) == *old(ring),
        final(ring).write_reserved() == old(ring).write_reserved(),
        final(ring).read_reserved() == old(ring).read_reserved(),
        final(ring).cap() == old(ring).cap(),
        r is Ok ==> final(ring).write_index() == old(ring).write_index() + 1,
        r is Err ==> final(ring).write_index() == old(ring).write_index(),
        final(ring).read_index() == old(ring).read_index(),
{
    match ring.try_reserve() {
        None => Err("Buffer full or already reserved"),
        Some(guard) => {
            let init = guard.write_value(ring, msg);
            init.commit(ring);
            Ok(())
        },
    }
}

/// A topic-labelled publishing endpoint that owns its ring.
pub struct Publisher<T> {
    ring: RingBuffer<T>,
    topic: String,
}

impl<T> Publisher<T> {
    pub closed spec fn ring_view(&self) -> RingBuffer<T> {
        self.ring
    }

    pub closed spec fn topic_view(&self) -> Seq<char> {
        self.topic@
    }

    pub open spec fn wf(&self) -> bool {
        self.ring_view().wf()
    }

    /// A publisher on `topic` with a fresh ring of `capacity` slots.
    pub fn new(topic: &str, capacity: usize) -> (p: Self)
        requires
            is_power_of_two(capacity as u64),
        ensures
            p.wf(),
            p.topic_view() == topic@,
            p.ring_view().cap() == capacity,
            p.ring_view().messages() == Seq::<T>::empty(),
            !p.ring_view().write_reserved(),
            !p.ring_view().read_reserved(),
            p.ring_view().write_index() == 0,
    {
        Publisher { ring: RingBuffer::new(capacity), topic: topic.to_owned() }
    }

    /// A publisher on `topic` over an existing ring.
    pub fn from_ring(topic: &str, ring: RingBuffer<T>) -> (p: Self)
        ensures
            p.topic_view() == topic@,
            p.ring_view() == ring,
    {
        Publisher { ring, topic: topic.to_owned() }
    }

    pub fn allocate(&mut self) -> (g: Option<WriteGuard<T>>)
        requires
            old(self).wf(),
        ensures
            final(self).wf(),
            final(self).topic_view() == old(self).topic_view(),
            g is None <==> (old(self).ring_view().write_reserved()
                || old(self).ring_view().messages().len() == old(self).ring_view().cap()),
            final(self).ring_view().messages() == old(self).ring_view().messages(),
            final(self).ring_view().cap() == old(self).ring_view().cap(),
            final(self).ring_view().read_reserved() == old(self).ring_view().read_reserved(),
            final(self).ring_view().write_index() == old(self).ring_view().write_index(),
            final(self).ring_view().read_index() == old(self).ring_view().read_index(),
            g is None ==> final(self).ring_view() == old(self).ring_view(),
            g is Some ==> final(self).ring_view().write_reserved(),
            g matches Some(w) ==> w.matches(&final(self).ring_view()) && w.write_index() == final(self).ring_view().write_index(),
    {
        self.ring.try_reserve()
    }

    pub fn publish_copy(&mut self, msg: T) -> (r: Result<(), &'static str>)
        requires
            old(self).wf(),
            old(self).ring_view().write_index() < u64::MAX,
        ensures
            final(self).wf(),
            final(self).topic_view() == old(self).topic_view(),
            r is Err <==> (old(self).ring_view().write_reserved()
                || old(self).ring_view().messages().len() == old(self).ring_view().cap()),
            r is Ok ==> final(self).ring_view().messages() == old(self).ring_view().messages().push(msg),
            r is Err ==> r == Err::<(), &'static str>("Buffer full or already reserved"),
            r is Err ==> final(self).ring_view() == old(self).ring_view(),
            final(self).ring_view().messages() == if r is Ok {
                old(self).ring_view().messages().push(msg)
            } else {
                old(self).ring_view().messages()
            },
            final(self).ring_view().cap() == old(self).ring_view().cap(),
            final(self).ring_view().write_reserved() == old(self).ring_view().write_reserved(),
            final(self).ring_view().read_reserved() == old(self).ring_view().read_reserved(),
            r is Ok ==> final(self).ring_view().write_index() == old(self).ring_view().write_index() + 1,
            final(self).ring_view().read_index() == old(self).ring_view().read_index(),
    {
        publish_into(&mut self.ring, msg)
    }

    pub fn topic(&self) -> (t: &str)
        ensures
            t@ == self.topic_view(),
    {
        self.topic.as_str()
    }

    /// The ring this publisher writes to.
    pub fn ring(&self) -> (r: &RingBuffer<T>)
        ensures
            *r == self.ring_view(),
    {
        &self.ring
    }

    /// Mutable access to the ring, for the subscriber and guard calls that name it.
    pub fn ring_mut(&mut self) -> (r: &mut RingBuffer<T>)
        ensures
            *r == old(self).ring_view(),
            final(self).ring_view() == *final(r),
            final(self).topic_view() == old(self).topic_view(),
    {
        &mut self.ring
    }

    pub fn len(&self) -> (n: usize)
        requires
            self.wf(),
        ensures
            n == self.ring_view().messages().len(),
    {
        self.ring.len()
    }

    pub fn is_empty(&self) -> (b: bool)
        requires
            self.wf(),
        ensures
            b == (self.ring_view().messages().len() == 0),
    {
        self.ring.is_empty()
    }
}

/// A topic-labelled receiving endpoint; the ring it reads is named on each call.
pub struct Subscriber<T> {
    topic: String,
    _marker: PhantomData<T>,
}

impl<T> Subscriber<T> {
    pub closed spec fn topic_view(&self) -> Seq<char> {
        self.topic@
    }

    pub fn new(topic: &str) -> (s: Self)
        ensures
            s.topic_view() == topic@,
    {
        Subscriber { topic: topic.to_owned(), _marker: PhantomData }
    }

    pub fn try_recv(&self, ring: &mut RingBuffer<T>) -> (g: Option<ReadGuard<T>>)
        requires
            old(ring).wf(),
        ensures
            final(ring).wf(),
            g is None <==> (old(ring).read_reserved() || old(ring).messages().len() == 0),
            final(ring).messages() == old(ring).messages(),
            final(ring).cap() == old(ring).cap(),
            final(ring).write_reserved() == old(ring).write_reserved(),
            final(ring).read_index() == old(ring).read_index(),
            final(ring).write_index() == old(ring).write_index(),
            final(ring).staged() == old(ring).staged(),
            g is None ==> *final(ring) == *old(ring),
            g is Some ==> final(ring).read_reserved(),
            g matches Some(r) ==> r.matches(final(ring)) && r.read_index() == final(ring).read_index(),
    {
        ring.try_read()
    }

    pub fn pending(&self, ring: &RingBuffer<T>) -> (n: usize)
        requires
            ring.wf(),
        ensures
            n == ring.messages().len(),
    {
        ring.len()
    }

    pub fn topic(&self) -> (t: &str)
        ensures
            t@ == self.topic_view(),
    {
        self.topic.as_str()
    }

    pub fn is_empty(&self, ring: &RingBuffer<T>) -> (b: bool)
        requires
            ring.wf(),
        ensures
            b == (ring.messages().len() == 0),
    {
        ring.is_empty()
    }
}

/// Message and latency counters. Counters wrap on overflow, as atomic
/// `fetch_add` does.
pub struct PerformanceStats {
    pub messages_sent: usize,
    pub messages_received: usize,
    pub total_latency_ns: u64,
    pub max_latency_ns: u64,
    pub min_latency_ns: u64,
}

impl PerformanceStats {
    pub fn new() -> (s: Self)
        ensures
            s.messages_sent == 0,
            s.messages_received == 0,
            s.total_latency_ns == 0,
            s.max_latency_ns == 0,
            s.min_latency_ns == u64::MAX,
    {
        PerformanceStats {
            messages_sent: 0,
            messages_received: 0,
            total_latency_ns: 0,
            max_latency_ns: 0,
            min_latency_ns: u64::MAX,
        }
    }

    pub fn record_send(&mut self)
        ensures
            final(self).messages_sent == old(self).messages_sent.wrapping_add(1),
            final(self).messages_received == old(self).messages_received,
            final(self).total_latency_ns == old(self).total_latency_ns,
            final(self).max_latency_ns == old(self).max_latency_ns,
            final(self).min_latency_ns == old(self).min_latency_ns,
    {
        self.messages_sent = self.messages_sent.wrapping_add(1);
    }

    /// Counts one received message with the given latency and folds it into
    /// the total, the maximum and the minimum.
    pub fn record_receive(&mut self, latency_ns: u64)
        ensures
            final(self).messages_sent == old(self).messages_sent,
            final(self).messages_received == old(self).messages_received.wrapping_add(1),
            final(self).total_latency_ns == old(self).total_latency_ns.wrapping_add(latency_ns),
            final(self).max_latency_ns == if latency_ns > old(self).max_latency_ns { latency_ns } else { old(self).max_latency_ns },
            final(self).min_latency_ns == if latency_ns < old(self).min_latency_ns { latency_ns } else { old(self).min_latency_ns },
            receive_recorded(*old(self), *final(self), latency_ns),
    {
        self.messages_received = self.messages_received.wrapping_add(1);
        self.total_latency_ns = self.total_latency_ns.wrapping_add(latency_ns);
        if latency_ns > self.max_latency_ns {
            self.max_latency_ns = latency_ns;
        }
        if latency_ns < self.min_latency_ns {
            self.min_latency_ns = latency_ns;
        }
    }
}

/// Sum of a sequence of samples.
pub open spec fn total_of(s: Seq<u64>) -> int
    decreases s.len(),
{
    if s.len() == 0 {
        0
    } else {
        total_of(s.drop_last()) + s.last()
    }
}

/// Largest sample of a sequence; 0 for none.
pub open spec fn max_of(s: Seq<u64>) -> u64
    decreases s.len(),
{
    if s.len() == 0 {
        0
    } else if s.last() > max_of(s.drop_last()) {
        s.last()
    } else {
        max_of(s.drop_last())
    }
}

/// Smallest sample of a sequence; `u64::MAX` for none.
pub open spec fn min_of(s: Seq<u64>) -> u64
    decreases s.len(),
{
    if s.len() == 0 {
        u64::MAX
    } else if s.last() < min_of(s.drop_last()) {
        s.last()
    } else {
        min_of(s.drop_last())
    }
}

/// A prefix sums to no more than the whole sequence.
pub proof fn lemma_total_of_prefix(s: Seq<u64>, k: int)
    requires
        0 <= k <= s.len(),
    ensures
        total_of(s.take(k)) <= total_of(s),
    decreases s.len() - k,
{
    if k < s.len() {
        assert(s.take(k + 1).drop_last() =~= s.take(k));
        lemma_total_of_prefix(s, k + 1);
    } else {
        assert(s.take(k) =~= s);
    }
}

/// The step `PerformanceStats::record_receive` takes for a message received
/// with latency `latency_ns`.
pub open spec fn receive_recorded(before: PerformanceStats, after: PerformanceStats, latency_ns: u64) -> bool {
    &&& after.messages_sent == before.messages_sent
    &&& after.messages_received == before.messages_received.wrapping_add(1)
    &&& after.total_latency_ns == before.total_latency_ns.wrapping_add(latency_ns)
    &&& after.max_latency_ns == if latency_ns > before.max_latency_ns { latency_ns } else { before.max_latency_ns }
    &&& after.min_latency_ns == if latency_ns < before.min_latency_ns { latency_ns } else { before.min_latency_ns }
}

proof fn lemma_receive_prefix(states: Seq<PerformanceStats>, lat: Seq<u64>, k: int)
    requires
        states.len() == lat.len() + 1,
        lat.len() <= usize::MAX,
        total_of(lat) <= u64::MAX,
        states[0].messages_sent == 0 && states[0].messages_received == 0,
        states[0].total_latency_ns == 0 && states[0].max_latency_ns == 0,
        states[0].min_latency_ns == u64::MAX,
        forall|i: int| 1 <= i <= lat.len() ==> #[trigger] receive_recorded(states[i - 1], states[i], lat[i - 1]),
        0 <= k <= lat.len(),
    ensures
        states[k].messages_sent == 0,
        states[k].messages_received == k,
        states[k].total_latency_ns == total_of(lat.take(k)),
        states[k].max_latency_ns == max_of(lat.take(k)),
        states[k].min_latency_ns == min_of(lat.take(k)),
    decreases k,
{
    if k == 0 {
        assert(lat.take(0) =~= Seq::<u64>::empty());
    } else {
        lemma_receive_prefix(states, lat, k - 1);
        assert(receive_recorded(states[k - 1], states[k], lat[k - 1]));
        let t = lat.take(k);
        assert(t.drop_last() =~= lat.take(k - 1));
        assert(t.last() == lat[k - 1]);
        lemma_total_of_prefix(lat, k);
    }
}

/// Statistics of a run: starting from `new()` and recording, one after the
/// other, messages received with latencies `lat`, the count is the number of
/// messages, the total is their sum and the maximum and minimum are those of
/// the latencies, while no send is counted. `states[i]` is the statistics after
/// `i` calls of `record_receive`; the sum is taken to fit in 64 bits.
pub proof fn law_receive_totals(states: Seq<PerformanceStats>, lat: Seq<u64>)
    requires
        states.len() == lat.len() + 1,
        lat.len() <= usize::MAX,
        total_of(lat) <= u64::MAX,
        states[0].messages_sent == 0 && states[0].messages_received == 0,
        states[0].total_latency_ns == 0 && states[0].max_latency_ns == 0,
        states[0].min_latency_ns == u64::MAX,
        forall|i: int| 1 <= i <= lat.len() ==> #[trigger] receive_recorded(states[i - 1], states[i], lat[i - 1]),
    ensures
        states.last().messages_sent == 0,
        states.last().messages_received == lat.len(),
        states.last().total_latency_ns == total_of(lat),
        states.last().max_latency_ns == max_of(lat),
        states.last().min_latency_ns == min_of(lat),
{
    lemma_receive_prefix(states, lat, lat.len() as int);
    assert(lat.take(lat.len() as int) =~= lat);
}

impl Default for PerformanceStats {
    fn default() -> (s: Self)
        ensures
            s.messages_sent == 0,
            s.messages_received == 0,
            s.total_latency_ns == 0,
            s.max_latency_ns == 0,
            s.min_latency_ns == u64::MAX,
    {
        Self::new()
    }
}

/// What a full channel does with a new message.
#[derive(Debug, Clone, Copy, PartialEq, Eq, Structural)]
pub enum BackpressurePolicy {
    Block,
    DropOldest,
    DropNewest,
    ReturnNone,
}

/// How a channel hands messages to its reader.
#[derive(Debug, Clone, Copy, PartialEq, Eq, Structural)]
pub enum DeliveryPolicy {
    Fifo,
    LatestValue,
    Sampling { max_rate_hz: u32 },
}

/// Capacity, overflow, delivery and deadline of a channel.
#[derive(Debug, Clone, Copy)]
pub struct ChannelConfig {
    pub capacity: usize,
    pub overflow_policy: BackpressurePolicy,
    pub delivery: DeliveryPolicy,
    pub deadline: Option<Duration>,
}

impl Default for ChannelConfig {
    fn default() -> (c: Self)
        ensures
            c.capacity == 16,
            c.overflow_policy == BackpressurePolicy::ReturnNone,
            c.delivery == DeliveryPolicy::Fifo,
            c.deadline is None,
    {
        ChannelConfig {
            capacity: 16,
            overflow_policy: BackpressurePolicy::ReturnNone,
            delivery: DeliveryPolicy::Fifo,
            deadline: None,
        }
    }
}

impl ChannelConfig {
    pub fn with_capacity(self, cap: usize) -> (c: Self)
        ensures
            c.capacity == cap,
            c.overflow_policy == self.overflow_policy,
            c.delivery == self.delivery,
            c.deadline == self.deadline,
    {
        let mut c = self;
        c.capacity = cap;
        c
    }

    pub fn with_overflow_policy(self, policy: BackpressurePolicy) -> (c: Self)
        ensures
            c.capacity == self.capacity,
            c.overflow_policy == policy,
            c.delivery == self.delivery,
            c.deadline == self.deadline,
    {
        let mut c = self;
        c.overflow_policy = policy;
        c
    }

    pub fn with_delivery(self, delivery: DeliveryPolicy) -> (c: Self)
        ensures
            c.capacity == self.capacity,
            c.overflow_policy == self.overflow_policy,
            c.delivery == delivery,
            c.deadline == self.deadline,
    {
        let mut c = self;
        c.delivery = delivery;
        c
    }

    pub fn with_deadline(self, deadline: Duration) -> (c: Self)
        ensures
            c.capacity == self.capacity,
            c.overflow_policy == self.overflow_policy,
            c.delivery == self.delivery,
            c.deadline == Some(deadline),
    {
        let mut c = self;
        c.deadline = Some(deadline);
        c
    }

    /// Latest-value semantics: one slot, the oldest message gives way.
    pub fn latest_value() -> (c: Self)
        ensures
            c.capacity == 1,
            c.overflow_policy == BackpressurePolicy::DropOldest,
            c.delivery == DeliveryPolicy::LatestValue,
            c.deadline is None,
    {
        ChannelConfig {
            capacity: 1,
            overflow_policy: BackpressurePolicy::DropOldest,
            delivery: DeliveryPolicy::LatestValue,
            deadline: None,
        }
    }
}

/// Real-time class of a callback; each class has its own rules.
#[derive(Debug, Clone, Copy, PartialEq, Eq, Hash, Structural)]
pub enum ExecutionClass {
    HardRealtime,
    SoftRealtime,
    Normal,
    Background,
}

impl ExecutionClass {
    /// Every class but hard real time may allocate.
    pub fn allows_allocation(&self) -> (b: bool)
        ensures
            b == !(*self is HardRealtime),
    {
        match self {
            ExecutionClass::HardRealtime => false,
            ExecutionClass::SoftRealtime => true,
            ExecutionClass::Normal => true,
            ExecutionClass::Background => true,
        }
    }

    /// Only normal and background callbacks may block.
    pub fn allows_blocking(&self) -> (b: bool)
        ensures
            b == (*self is Normal || *self is Background),
    {
        match self {
            ExecutionClass::HardRealtime => false,
            ExecutionClass::SoftRealtime => false,
            ExecutionClass::Normal => true,
            ExecutionClass::Background => true,
        }
    }
}

} // verus!
