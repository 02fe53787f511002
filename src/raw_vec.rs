use vstd::prelude::*;

verus! {

/// The capacity that one growth step produces from `cap`: one slot for an
/// empty buffer, twice as many slots otherwise.
pub open spec fn grown(cap: nat) -> nat {
    if cap == 0 {
        1
    } else {
        2 * cap
    }
}

/// A growth step from `cap` stays within the largest allocation the platform
/// can describe.
pub open spec fn can_grow(cap: nat) -> bool {
    grown(cap) <= isize::MAX
}

/// Storage for `cap` element slots. A slot is either initialized (`Some`) or
/// raw, uninitialized storage (`None`). The buffer knows its capacity, never
/// how many of its slots are in use.
pub struct RawVec<T> {
    slots: Vec<Option<T>>,
    cap: usize,
}

impl<T> View for RawVec<T> {
    type V = Seq<Option<T>>;

    closed spec fn view(&self) -> Seq<Option<T>> {
        self.slots@
    }
}

impl<T> RawVec<T> {
    /// Number of slots of the buffer.
    pub open spec fn capacity(&self) -> nat {
        self@.len()
    }

    /// The recorded capacity counts the slots.
    pub closed spec fn wf(&self) -> bool {
        self.slots@.len() == self.cap
    }

    /// An empty buffer: no slots and no allocation. Zero-sized elements are
    /// rejected.
    pub fn new() -> (r: Self)
        requires
            vstd::layout::size_of::<T>() > 0,
        ensures
            r.wf(),
            r.capacity() == 0,
            r@ == Seq::<Option<T>>::empty(),
    {
        RawVec { slots: Vec::new(), cap: 0 }
    }

    pub fn cap(&self) -> (r: usize)
        requires
            self.wf(),
        ensures
            r == self.capacity(),
            r == self@.len(),
    {
        self.cap
    }

    /// Replaces the buffer by one of `grown(capacity)` slots. Every slot keeps
    /// its content; the new slots are uninitialized.
    pub fn grow(&mut self)
        requires
            old(self).wf(),
            can_grow(old(self).capacity()),
        ensures
            final(self).wf(),
            final(self).capacity() == grown(old(self).capacity()),
            final(self)@ == old(self)@ + Seq::new(
                (grown(old(self).capacity()) - old(self).capacity()) as nat,
                |i: int| None::<T>,
            ),
    {
        let new_cap: usize = if self.cap == 0 {
            1
        } else {
            2 * self.cap
        };
        let ghost start = self.slots@;
        while self.slots.len() < new_cap
            invariant
                start.len() <= self.slots@.len() <= new_cap,
                new_cap == grown(start.len()),
                self.slots@.subrange(0, start.len() as int) == start,
                forall|i: int| start.len() <= i < self.slots@.len() ==> self.slots@[i] is None,
            decreases new_cap - self.slots.len(),
        {
            self.slots.push(None);
        }
        assert(self.slots@ =~= start + Seq::new(
            (new_cap - start.len()) as nat,
            |i: int| None::<T>,
        ));
        self.cap = new_cap;
    }

    /// Moves the element out of slot `i`, which becomes uninitialized.
    pub fn read(&mut self, i: usize) -> (r: T)
        requires
            old(self).wf(),
            i < old(self).capacity(),
            old(self)@[i as int] is Some,
        ensures
            final(self).wf(),
            final(self).capacity() == old(self).capacity(),
            Some(r) == old(self)@[i as int],
            final(self)@ == old(self)@.update(i as int, None),
    {
        let mut slot: Option<T> = None;
        self.slots.set_and_swap(i, &mut slot);
        slot.unwrap()
    }

    /// Moves `item` into the uninitialized slot `i`.
    pub fn write(&mut self, i: usize, item: T)
        requires
            old(self).wf(),
            i < old(self).capacity(),
            old(self)@[i as int] is None,
        ensures
            final(self).wf(),
            final(self).capacity() == old(self).capacity(),
            final(self)@ == old(self)@.update(i as int, Some(item)),
    {
        self.slots.set(i, Some(item));
    }

    /// Borrows the element in the initialized slot `i`.
    pub fn slot(&self, i: usize) -> (r: &T)
        requires
            self.wf(),
            i < self.capacity(),
            self@[i as int] is Some,
        ensures
            Some(*r) == self@[i as int],
    {
        self.slots[i].as_ref().unwrap()
    }
    /// Borrows, for change in place, the element in the initialized slot `i`.
    pub fn slot_mut(&mut self, i: usize) -> (r: &mut T)
        requires
            old(self).wf(),
            i < old(self).capacity(),
            old(self)@[i as int] is Some,
        ensures
            Some(*r) == old(self)@[i as int],
            final(self).wf(),
            final(self)@ == old(self)@.update(i as int, Some(*final(r))),
    {
        self.slots[i].as_mut().unwrap()
    }
}

} // verus!
