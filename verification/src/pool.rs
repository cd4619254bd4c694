//! Reusable fixed-capacity byte buffers.
//!
//! Two shapes are offered. [`BufferPool`] is an unordered collection of
//! interchangeable buffers backed by a lock-free queue: acquire pops a buffer
//! or allocates a fresh zeroed one, release pushes it back. [`CheckoutSlot`]
//! is a single lazily-created buffer meant to be confined to one execution
//! context; checking it out while a previous checkout is still outstanding
//! fails loudly instead of aliasing the buffer.

use vstd::prelude::*;
use vstd::multiset::Multiset;

verus! {

broadcast use {vstd::multiset::group_multiset_axioms, vstd::multiset::group_multiset_properties};

#[verifier::external_type_specification]
#[verifier::external_body]
#[verifier::reject_recursive_types(T)]
pub struct ExSegQueue<T>(crossbeam_queue::SegQueue<T>);

/// The multiset of buffers a queue holds, each as its byte sequence.
pub uninterp spec fn queue_contents(q: crossbeam_queue::SegQueue<Vec<u8>>) -> Multiset<Seq<u8>>;

/// Relies on crossbeam_queue::SegQueue::new: creates an empty queue.
#[verifier::external_body]
fn queue_new() -> (q: crossbeam_queue::SegQueue<Vec<u8>>)
    ensures
        queue_contents(q) == Multiset::<Seq<u8>>::empty(),
{
    crossbeam_queue::SegQueue::new()
}

/// Relies on crossbeam_queue::SegQueue::push: appends the element to the
/// queue and never fails.
#[verifier::external_body]
fn queue_push(q: &mut crossbeam_queue::SegQueue<Vec<u8>>, buf: Vec<u8>)
    ensures
        queue_contents(*final(q)) == queue_contents(*old(q)).insert(buf@),
{
    q.push(buf);
}

/// Relies on crossbeam_queue::SegQueue::pop: under exclusive access, removes
/// and returns one element, or returns None exactly when the queue is empty.
#[verifier::external_body]
fn queue_pop(q: &mut crossbeam_queue::SegQueue<Vec<u8>>) -> (r: Option<Vec<u8>>)
    ensures
        match r {
            Some(buf) => queue_contents(*old(q)).contains(buf@)
                && queue_contents(*final(q)) == queue_contents(*old(q)).remove(buf@),
            None => queue_contents(*old(q)) == Multiset::<Seq<u8>>::empty()
                && queue_contents(*final(q)) == queue_contents(*old(q)),
        },
{
    q.pop()
}

/// Relies on crossbeam_queue::SegQueue::len: the number of elements held.
#[verifier::external_body]
fn queue_len(q: &crossbeam_queue::SegQueue<Vec<u8>>) -> (r: usize)
    ensures
        r == queue_contents(*q).len(),
{
    q.len()
}

/// A shared, unordered pool of interchangeable fixed-capacity buffers.
///
/// Acquiring pops an idle buffer, or allocates a fresh zeroed one when the
/// pool is empty; releasing pushes the buffer back for reuse. Buffers are
/// neither shrunk nor zeroed on release: their content is overwritten before
/// it is next exposed.
pub struct BufferPool {
    bufs: crossbeam_queue::SegQueue<Vec<u8>>,
    capacity: usize,
}

impl BufferPool {
    /// The multiset of idle buffers, each as its byte sequence.
    pub closed spec fn contents(self) -> Multiset<Seq<u8>> {
        queue_contents(self.bufs)
    }

    /// The fixed capacity every buffer of this pool has.
    pub closed spec fn capacity(self) -> int {
        self.capacity as int
    }

    /// Every idle buffer has exactly the pool's capacity.
    pub open spec fn wf(self) -> bool {
        0 < self.capacity()
        && forall|b: Seq<u8>| #[trigger] self.contents().contains(b) ==> b.len() == self.capacity()
    }

    /// An empty pool whose buffers will all have the given capacity.
    pub fn new(capacity: usize) -> (pool: BufferPool)
        requires
            0 < capacity,
        ensures
            pool.wf(),
            pool.capacity() == capacity,
            pool.contents() == Multiset::<Seq<u8>>::empty(),
    {
        BufferPool { bufs: queue_new(), capacity }
    }

    /// The fixed capacity every buffer of this pool has.
    pub fn buffer_capacity(&self) -> (r: usize)
        ensures
            r == self.capacity(),
    {
        self.capacity
    }

    /// How many buffers are idle in the pool right now.
    pub fn idle_count(&self) -> (r: usize)
        ensures
            r == self.contents().len(),
    {
        queue_len(&self.bufs)
    }

    /// Check a buffer out: pop an idle one, or allocate a zeroed one when the
    /// pool is empty. There is no upper bound on how many buffers may be
    /// checked out at once.
    pub fn acquire(&mut self) -> (buf: Vec<u8>)
        requires
            old(self).wf(),
        ensures
            final(self).wf(),
            final(self).capacity() == old(self).capacity(),
            buf@.len() == old(self).capacity(),
            old(self).contents().len() == 0 ==> final(self).contents() == old(self).contents()
                && buf@ == Seq::new(old(self).capacity() as nat, |i: int| 0u8),
            old(self).contents().len() != 0 ==> old(self).contents().contains(buf@)
                && final(self).contents() == old(self).contents().remove(buf@),
    {
        let r = match queue_pop(&mut self.bufs) {
            Some(buf) => {
                proof {
                    assert(old(self).contents().contains(buf@));
                }
                buf
            },
            None => {
                let buf = vec![0u8; self.capacity];
                proof {
                    assert(buf@ =~= Seq::new(old(self).capacity() as nat, |i: int| 0u8));
                }
                buf
            },
        };
        proof {
            assert forall|b: Seq<u8>| #[trigger] self.contents().contains(b) implies b.len()
                == self.capacity() by {
                if old(self).contents().len() != 0 {
                    assert(old(self).contents().remove(r@).count(b) <= old(
                        self,
                    ).contents().count(b));
                    assert(old(self).contents().contains(b));
                }
            }
        }
        r
    }

    /// Return a checked-out buffer to the pool. Must be called exactly once
    /// per successful acquire, on every path the surrounding operation takes.
    pub fn release(&mut self, buf: Vec<u8>)
        requires
            old(self).wf(),
            buf@.len() == old(self).capacity(),
        ensures
            final(self).wf(),
            final(self).capacity() == old(self).capacity(),
            final(self).contents() == old(self).contents().insert(buf@),
    {
        queue_push(&mut self.bufs, buf);
        proof {
            assert forall|b: Seq<u8>| #[trigger] self.contents().contains(b) implies b.len()
                == self.capacity() by {
                assert(old(self).contents().insert(buf@).count(b) == old(
                    self,
                ).contents().count(b) + Multiset::singleton(buf@).count(b));
                if b != buf@ {
                    assert(old(self).contents().contains(b));
                }
            }
        }
    }
}

/// Law: a buffer taken from the pool and later returned leaves the pool's
/// contents exactly as they were — repeated fully-completed checkouts cannot
/// make the pool grow or shrink.
pub proof fn lemma_checkout_roundtrip(m: Multiset<Seq<u8>>, b: Seq<u8>)
    requires
        m.contains(b),
    ensures
        m.remove(b).insert(b) == m,
{
    assert(m.remove(b).insert(b) =~= m);
}

/// A single lazily-created buffer confined to one execution context.
///
/// At most one checkout may be live at a time: checking out while a previous
/// checkout is still outstanding is a usage violation and is refused, never
/// silently aliased.
pub struct CheckoutSlot {
    stored: Option<Vec<u8>>,
    outstanding: bool,
    capacity: usize,
}

impl CheckoutSlot {
    /// The fixed capacity of this slot's buffer.
    pub closed spec fn capacity(self) -> int {
        self.capacity as int
    }

    /// Whether a checkout is currently live.
    pub closed spec fn is_outstanding(self) -> bool {
        self.outstanding
    }

    /// Whether the slot's buffer has been created and is idle in the slot.
    pub closed spec fn holds_buffer(self) -> bool {
        self.stored is Some
    }

    pub closed spec fn wf(self) -> bool {
        0 < self.capacity
        && (self.outstanding ==> self.stored is None)
        && (self.stored matches Some(b) ==> b@.len() == self.capacity)
    }

    /// A fresh slot; its buffer is allocated on first checkout.
    pub fn new(capacity: usize) -> (slot: CheckoutSlot)
        requires
            0 < capacity,
        ensures
            slot.wf(),
            slot.capacity() == capacity,
            !slot.is_outstanding(),
            !slot.holds_buffer(),
    {
        CheckoutSlot { stored: None, outstanding: false, capacity }
    }

    /// The fixed capacity of this slot's buffer.
    pub fn buffer_capacity(&self) -> (r: usize)
        ensures
            r == self.capacity(),
    {
        self.capacity
    }

    /// Check the slot's buffer out, creating it zero-initialized the first
    /// time. Returns None — fails loudly, with the slot unchanged — when a
    /// previous checkout is still outstanding.
    pub fn checkout(&mut self) -> (r: Option<Vec<u8>>)
        requires
            old(self).wf(),
        ensures
            final(self).wf(),
            final(self).capacity() == old(self).capacity(),
            old(self).is_outstanding() ==> r is None && *final(self) == *old(self),
            !old(self).is_outstanding() ==> final(self).is_outstanding()
                && (r matches Some(buf) && buf@.len() == old(self).capacity()),
            !old(self).is_outstanding() && !old(self).holds_buffer()
                ==> (r matches Some(buf)
                    && buf@ == Seq::new(old(self).capacity() as nat, |i: int| 0u8)),
    {
        if self.outstanding {
            None
        } else {
            self.outstanding = true;
            match self.stored.take() {
                Some(buf) => Some(buf),
                None => Some(vec![0u8; self.capacity]),
            }
        }
    }

    /// Return the buffer after a checkout. Must be called exactly once per
    /// successful checkout, on every path the surrounding operation takes.
    pub fn checkin(&mut self, buf: Vec<u8>)
        requires
            old(self).wf(),
            old(self).is_outstanding(),
            buf@.len() == old(self).capacity(),
        ensures
            final(self).wf(),
            final(self).capacity() == old(self).capacity(),
            !final(self).is_outstanding(),
            final(self).holds_buffer(),
    {
        self.stored = Some(buf);
        self.outstanding = false;
    }
}

} // verus!
