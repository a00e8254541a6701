//! A fixed-capacity circular FIFO indexed by a head position and a length.
use vstd::prelude::*;

verus! {

/// The storage position of the element `i` places after `head`, in a ring of
/// `cap` slots (`head < cap`, `i < cap`).
pub open spec fn wrap(head: int, i: int, cap: int) -> int {
    if head + i < cap {
        head + i
    } else {
        head + i - cap
    }
}

/// A first-in first-out queue of at most `capacity()` elements, stored in a
/// fixed array of slots that the queue walks around.
pub struct RingBuffer<T> {
    slots: Vec<T>,
    head: usize,
    len: usize,
}

impl<T: Copy> View for RingBuffer<T> {
    type V = Seq<T>;

    /// The queued elements, oldest first.
    closed spec fn view(&self) -> Seq<T> {
        Seq::new(self.len as nat, |i: int| self.slots@[wrap(self.head as int, i, self.slots@.len() as int)])
    }
}

impl<T: Copy> RingBuffer<T> {
    /// The number of slots, fixed when the buffer is made.
    pub closed spec fn spec_capacity(&self) -> nat {
        self.slots@.len()
    }

    pub closed spec fn wf(&self) -> bool {
        &&& 0 < self.slots@.len() <= usize::MAX
        &&& self.head < self.slots@.len()
        &&& self.len <= self.slots@.len()
    }

    /// An empty buffer with `capacity` slots, each first holding `blank`.
    pub fn new(capacity: usize, blank: T) -> (r: Self)
        requires
            capacity > 0,
        ensures
            r.wf(),
            r@ == Seq::<T>::empty(),
            r.spec_capacity() == capacity,
    {
        let mut slots: Vec<T> = Vec::with_capacity(capacity);
        let mut k: usize = 0;
        while k < capacity
            invariant
                k <= capacity,
                slots@.len() == k,
            decreases capacity - k,
        {
            slots.push(blank);
            k = k + 1;
        }
        let r = RingBuffer { slots, head: 0, len: 0 };
        assert(r@ =~= Seq::<T>::empty());
        r
    }

    pub fn len(&self) -> (r: usize)
        requires
            self.wf(),
        ensures
            r == self@.len(),
    {
        self.len
    }

    pub fn capacity(&self) -> (r: usize)
        requires
            self.wf(),
        ensures
            r == self.spec_capacity(),
    {
        self.slots.len()
    }

    pub fn is_empty(&self) -> (r: bool)
        requires
            self.wf(),
        ensures
            r == (self@.len() == 0),
    {
        self.len == 0
    }

    pub fn is_full(&self) -> (r: bool)
        requires
            self.wf(),
        ensures
            r == (self@.len() == self.spec_capacity()),
    {
        self.len == self.slots.len()
    }

    /// Storage position of the element `i` places after the head.
    fn slot_of(&self, i: usize) -> (r: usize)
        requires
            self.wf(),
            i < self.slots@.len(),
        ensures
            r == wrap(self.head as int, i as int, self.slots@.len() as int),
            r < self.slots@.len(),
    {
        let cap = self.slots.len();
        if self.head < cap - i {
            self.head + i
        } else {
            self.head - (cap - i)
        }
    }

    /// Appends `x` behind the newest element.
    pub fn push_back(&mut self, x: T)
        requires
            old(self).wf(),
            old(self)@.len() < old(self).spec_capacity(),
        ensures
            final(self).wf(),
            final(self)@ == old(self)@.push(x),
            final(self).spec_capacity() == old(self).spec_capacity(),
    {
        let ghost before = self@;
        let idx = self.slot_of(self.len);
        self.slots.set(idx, x);
        self.len = self.len + 1;
        assert forall|i: int| 0 <= i < before.len() implies wrap(self.head as int, i, self.slots@.len() as int) != idx by {}
        assert(self@ =~= before.push(x));
    }

    /// Removes and returns the oldest element.
    pub fn pop_front(&mut self) -> (r: T)
        requires
            old(self).wf(),
            old(self)@.len() > 0,
        ensures
            final(self).wf(),
            r == old(self)@[0],
            final(self)@ == old(self)@.drop_first(),
            final(self).spec_capacity() == old(self).spec_capacity(),
    {
        let ghost before = self@;
        let r = self.slots[self.head];
        if self.head + 1 == self.slots.len() {
            self.head = 0;
        } else {
            self.head = self.head + 1;
        }
        self.len = self.len - 1;
        assert(self@ =~= before.drop_first());
        r
    }

    /// The oldest element.
    pub fn front(&self) -> (r: T)
        requires
            self.wf(),
            self@.len() > 0,
        ensures
            r == self@[0],
    {
        self.slots[self.head]
    }

    /// The newest element.
    pub fn back(&self) -> (r: T)
        requires
            self.wf(),
            self@.len() > 0,
        ensures
            r == self@.last(),
    {
        let idx = self.slot_of(self.len - 1);
        self.slots[idx]
    }

    /// An independent copy: same capacity, same elements in the same order.
    pub fn duplicate(&self) -> (r: Self)
        requires
            self.wf(),
        ensures
            r.wf(),
            r@ == self@,
            r.spec_capacity() == self.spec_capacity(),
    {
        let mut slots: Vec<T> = Vec::with_capacity(self.slots.len());
        let mut k: usize = 0;
        while k < self.slots.len()
            invariant
                k <= self.slots@.len(),
                slots@ == self.slots@.subrange(0, k as int),
            decreases self.slots@.len() - k,
        {
            slots.push(self.slots[k]);
            k = k + 1;
            assert(slots@ =~= self.slots@.subrange(0, k as int));
        }
        assert(slots@ =~= self.slots@);
        RingBuffer { slots, head: self.head, len: self.len }
    }
}

} // verus!
