//! A fixed-capacity first-in first-out queue on a circular array of slots.
//!
//! The queue never reorders: entries leave in the order in which they came.
//! Its view is the sequence of queued entries, oldest first.

use vstd::prelude::*;

verus! {

/// The slot that lies `i` places after slot `start` on a circle of `n` slots.
pub open spec fn slot_after(start: int, i: int, n: int) -> int {
    if start + i < n {
        start + i
    } else {
        start + i - n
    }
}

/// A bounded queue of at most `N` entries.
///
/// Every slot is initialised: an unused slot holds `None`, a used one `Some`.
/// `read_loc` is the slot of the oldest entry and `entries` the number of
/// entries queued; the next entry goes to the slot `entries` places after
/// `read_loc`.
#[derive(Debug)]
pub struct RingBuffer<T, const N: usize> {
    data: Vec<Option<T>>,
    read_loc: usize,
    entries: usize,
}

impl<T, const N: usize> View for RingBuffer<T, N> {
    type V = Seq<T>;

    /// The queued entries, oldest first.
    closed spec fn view(&self) -> Seq<T> {
        Seq::new(
            self.entries as nat,
            |i: int| self.data@[slot_after(self.read_loc as int, i, N as int)]->0,
        )
    }
}

impl<T, const N: usize> RingBuffer<T, N> {
    /// The representation is consistent: `N` slots, the read cursor on the
    /// circle, and the queued entries in the `entries` slots from `read_loc`
    /// on.
    pub closed spec fn wf(&self) -> bool {
        &&& self.data@.len() == N
        &&& self.entries <= N
        &&& N == 0 ==> self.read_loc == 0
        &&& N > 0 ==> self.read_loc < N
        &&& forall|i: int|
            0 <= i < self.entries ==> (#[trigger] self.data@[slot_after(
                self.read_loc as int,
                i,
                N as int,
            )]) is Some
    }

    /// The largest number of entries that the queue holds at once.
    pub open spec fn capacity() -> nat {
        N as nat
    }

    /// A consistent queue holds at most `N` entries.
    pub proof fn lemma_len_within_capacity(&self)
        requires
            self.wf(),
        ensures
            self@.len() <= Self::capacity(),
    {
    }

    /// An empty queue of capacity `N`.
    pub fn new() -> (buffer: Self)
        ensures
            buffer.wf(),
            buffer@ == Seq::<T>::empty(),
    {
        let mut data: Vec<Option<T>> = Vec::new();
        let mut i: usize = 0;
        while i < N
            invariant
                i <= N,
                data@.len() == i,
            decreases N - i,
        {
            data.push(None);
            i += 1;
        }
        RingBuffer { data, read_loc: 0, entries: 0 }
    }

    /// The number of queued entries.
    pub fn len(&self) -> (n: usize)
        requires
            self.wf(),
        ensures
            n == self@.len(),
            n <= N,
    {
        self.entries
    }

    /// The number of entries that can still be pushed.
    pub fn space_left(&self) -> (n: usize)
        requires
            self.wf(),
        ensures
            n == N - self@.len(),
    {
        N - self.entries
    }

    /// Appends `entry` behind the queued entries. The queue must have room:
    /// to push to a full queue is an error of the caller, who asks
    /// [`RingBuffer::space_left`] first.
    pub fn push(&mut self, entry: T)
        requires
            old(self).wf(),
            old(self)@.len() < N,
        ensures
            final(self).wf(),
            final(self)@ == old(self)@.push(entry),
    {
        if self.entries >= N {
            // Not reached by a caller that keeps the precondition. Nothing
            // that is queued is overwritten.
            return;
        }
        let at: usize = self.slot_at(self.entries);
        self.data[at] = Some(entry);
        self.entries += 1;
    }

    /// Takes the oldest entry out. The queue must hold an entry: to pop from
    /// an empty queue is an error of the caller, who asks [`RingBuffer::len`]
    /// first.
    pub fn pop(&mut self) -> (entry: Option<T>)
        requires
            old(self).wf(),
            old(self)@.len() > 0,
        ensures
            final(self).wf(),
            entry == Some(old(self)@[0]),
            final(self)@ == old(self)@.drop_first(),
    {
        if self.entries == 0 {
            // Not reached by a caller that keeps the precondition.
            return None;
        }
        let at: usize = self.read_loc;
        let entry = self.data[at].take();
        self.read_loc = if at + 1 == N {
            0
        } else {
            at + 1
        };
        self.entries -= 1;
        proof {
            let read: int = self.read_loc as int;
            let n: int = N as int;
            assert forall|i: int| 0 <= i < self.entries implies (#[trigger] self.data@[slot_after(
                read,
                i,
                n,
            )]) is Some && self.data@[slot_after(read, i, n)] == old(self).data@[slot_after(
                at as int,
                i + 1,
                n,
            )] by {
                assert(old(self).data@[slot_after(at as int, i + 1, n)] is Some);
            }
        }
        entry
    }

    /// The next entry in queue order, taken out: the same as
    /// [`RingBuffer::pop`]. The queue must hold an entry.
    pub fn next(&mut self) -> (entry: Option<T>)
        requires
            old(self).wf(),
            old(self)@.len() > 0,
        ensures
            final(self).wf(),
            entry == Some(old(self)@[0]),
            final(self)@ == old(self)@.drop_first(),
    {
        self.pop()
    }

    /// Takes every entry out.
    pub fn empty(&mut self)
        requires
            old(self).wf(),
        ensures
            final(self).wf(),
            final(self)@ == Seq::<T>::empty(),
    {
        while self.len() >= 1
            invariant
                self.wf(),
            decreases self@.len(),
        {
            self.pop();
        }
    }

    /// The oldest entry, left in place, or `None` when nothing is queued.
    pub fn peek_front(&self) -> (entry: Option<&T>)
        requires
            self.wf(),
        ensures
            self@.len() == 0 ==> entry is None,
            self@.len() > 0 ==> entry == Some(&self@[0]),
    {
        if self.entries == 0 {
            return None;
        }
        self.data[self.read_loc].as_ref()
    }

    /// The entry `offset` places behind the oldest one, left in place, or
    /// `None` when fewer entries are queued.
    pub fn peek(&self, offset: usize) -> (entry: Option<&T>)
        requires
            self.wf(),
        ensures
            offset >= self@.len() ==> entry is None,
            offset < self@.len() ==> entry == Some(&self@[offset as int]),
    {
        if offset >= self.entries {
            return None;
        }
        let at: usize = self.slot_at(offset);
        self.data[at].as_ref()
    }

    /// Puts `entry` in the place `offset` places behind the oldest entry and
    /// returns the entry that was there.
    pub fn replace(&mut self, offset: usize, entry: T) -> (previous: T)
        requires
            old(self).wf(),
            offset < old(self)@.len(),
        ensures
            final(self).wf(),
            previous == old(self)@[offset as int],
            final(self)@ == old(self)@.update(offset as int, entry),
    {
        let at: usize = self.slot_at(offset);
        let mut held: Option<T> = Some(entry);
        core::mem::swap(&mut self.data[at], &mut held);
        held.unwrap()
    }

    /// The slot `offset` places after the slot of the oldest entry.
    fn slot_at(&self, offset: usize) -> (at: usize)
        requires
            self.wf(),
            offset < N,
        ensures
            at == slot_after(self.read_loc as int, offset as int, N as int),
            at < N,
    {
        if offset < N - self.read_loc {
            self.read_loc + offset
        } else {
            offset - (N - self.read_loc)
        }
    }
}

/// One step of a queue's history: an entry pushed, or the oldest entry popped.
pub enum QueueOp<T> {
    Push(T),
    Pop,
}

/// The queue's contents after the steps `ops`, starting from an empty queue.
pub open spec fn queue_after<T>(ops: Seq<QueueOp<T>>) -> Seq<T>
    decreases ops.len(),
{
    if ops.len() == 0 {
        Seq::empty()
    } else {
        let before = queue_after(ops.drop_last());
        match ops.last() {
            QueueOp::Push(entry) => before.push(entry),
            QueueOp::Pop => before.drop_first(),
        }
    }
}

/// The entries pushed by the steps `ops`, in the order of the pushes.
pub open spec fn pushed_by<T>(ops: Seq<QueueOp<T>>) -> Seq<T>
    decreases ops.len(),
{
    if ops.len() == 0 {
        Seq::empty()
    } else {
        let before = pushed_by(ops.drop_last());
        match ops.last() {
            QueueOp::Push(entry) => before.push(entry),
            QueueOp::Pop => before,
        }
    }
}

/// The entries that the pops among the steps `ops` return, in the order of
/// the pops.
pub open spec fn popped_by<T>(ops: Seq<QueueOp<T>>) -> Seq<T>
    decreases ops.len(),
{
    if ops.len() == 0 {
        Seq::empty()
    } else {
        let before = popped_by(ops.drop_last());
        match ops.last() {
            QueueOp::Push(_) => before,
            QueueOp::Pop => before.push(queue_after(ops.drop_last())[0]),
        }
    }
}

/// No step of `ops` pops from an empty queue or pushes to a queue that
/// already holds `capacity` entries.
pub open spec fn admissible<T>(ops: Seq<QueueOp<T>>, capacity: nat) -> bool
    decreases ops.len(),
{
    ops.len() > 0 ==> {
        &&& admissible(ops.drop_last(), capacity)
        &&& match ops.last() {
            QueueOp::Push(_) => queue_after(ops.drop_last()).len() < capacity,
            QueueOp::Pop => queue_after(ops.drop_last()).len() > 0,
        }
    }
}

/// First in, first out: after any admissible history, the entries popped so
/// far followed by the entries still queued are exactly the entries pushed,
/// in the order of the pushes. So the pops return the pushed entries in the
/// same order, and once the queue is drained they have returned all of them.
pub proof fn lemma_fifo<T>(ops: Seq<QueueOp<T>>, capacity: nat)
    requires
        admissible(ops, capacity),
    ensures
        popped_by(ops) + queue_after(ops) == pushed_by(ops),
        popped_by(ops).is_prefix_of(pushed_by(ops)),
        queue_after(ops).len() == 0 ==> popped_by(ops) == pushed_by(ops),
    decreases ops.len(),
{
    if ops.len() > 0 {
        lemma_fifo(ops.drop_last(), capacity);
    }
}

/// After any admissible history the queue holds at most `capacity` entries.
pub proof fn lemma_capacity<T>(ops: Seq<QueueOp<T>>, capacity: nat)
    requires
        admissible(ops, capacity),
    ensures
        queue_after(ops).len() <= capacity,
    decreases ops.len(),
{
    if ops.len() > 0 {
        lemma_capacity(ops.drop_last(), capacity);
    }
}

} // verus!
