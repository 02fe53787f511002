use vstd::prelude::*;

verus! {

/// Extractor that hands out, by value and from either end, the elements a
/// container held when it was drained. It owns those elements, not the
/// container's buffer: the container keeps its buffer and capacity. Elements
/// not yet handed out are dropped with it.
pub struct Drain<T> {
    slots: Vec<Option<T>>,
    start: usize,
    end: usize,
    original: Ghost<Seq<T>>,
    front: Ghost<Seq<T>>,
    back: Ghost<Seq<T>>,
}

impl<T> View for Drain<T> {
    type V = Seq<T>;

    /// The elements not yet handed out, in index order.
    closed spec fn view(&self) -> Seq<T> {
        Seq::new((self.end - self.start) as nat, |i: int| self.slots@[self.start + i]->Some_0)
    }
}

impl<T> Drain<T> {
    /// The elements the extractor started with.
    pub closed spec fn original(&self) -> Seq<T> {
        self.original@
    }

    /// The elements handed out from the front, in the order they came.
    pub closed spec fn yielded_front(&self) -> Seq<T> {
        self.front@
    }

    /// The elements handed out from the back, in index order.
    pub closed spec fn yielded_back(&self) -> Seq<T> {
        self.back@
    }

    /// Exactly the slots between the two cursors hold elements, and they,
    /// between the elements handed out at either end, make up the original
    /// elements.
    pub closed spec fn wf(&self) -> bool {
        &&& self.start <= self.end <= self.slots@.len()
        &&& forall|k: int| self.start <= k < self.end ==> (#[trigger] self.slots@[k]) is Some
        &&& forall|k: int|
            0 <= k < self.slots@.len() && !(self.start <= k < self.end) ==> (
            #[trigger] self.slots@[k]) is None
        &&& self.original@ == self.front@ + self@ + self.back@
    }

    /// Takes over `slots`, each of which holds an element.
    pub(crate) fn from_slots(slots: Vec<Option<T>>) -> (r: Self)
        requires
            forall|k: int| 0 <= k < slots@.len() ==> (#[trigger] slots@[k]) is Some,
        ensures
            r.wf(),
            r@ == Seq::new(slots@.len(), |i: int| slots@[i]->Some_0),
            r.original() == r@,
            r.yielded_front() == Seq::<T>::empty(),
            r.yielded_back() == Seq::<T>::empty(),
    {
        let ghost elems = Seq::new(slots@.len(), |i: int| slots@[i]->Some_0);
        let end = slots.len();
        let r = Drain {
            slots,
            start: 0,
            end,
            original: Ghost(elems),
            front: Ghost(Seq::empty()),
            back: Ghost(Seq::empty()),
        };
        assert(r@ =~= elems);
        assert(r.original@ =~= r.front@ + r@ + r.back@);
        r
    }

    fn take_slot(&mut self, i: usize) -> (r: T)
        requires
            i < old(self).slots@.len(),
            old(self).slots@[i as int] is Some,
        ensures
            Some(r) == old(self).slots@[i as int],
            final(self).slots@ == old(self).slots@.update(i as int, None),
            final(self).start == old(self).start,
            final(self).end == old(self).end,
            final(self).original == old(self).original,
            final(self).front == old(self).front,
            final(self).back == old(self).back,
    {
        let mut slot: Option<T> = None;
        self.slots.set_and_swap(i, &mut slot);
        slot.unwrap()
    }

    /// Hands out the first remaining element, or `None` when none is left.
    pub fn next(&mut self) -> (r: Option<T>)
        requires
            old(self).wf(),
        ensures
            final(self).wf(),
            final(self).original() == old(self).original(),
            final(self).yielded_back() == old(self).yielded_back(),
            old(self)@.len() == 0 ==> r is None && final(self)@ == old(self)@
                && final(self).yielded_front() == old(self).yielded_front(),
            old(self)@.len() > 0 ==> r == Some(old(self)@[0]) && final(self)@ == old(self)@.drop_first()
                && final(self).yielded_front() == old(self).yielded_front().push(old(self)@[0]),
    {
        if self.start == self.end {
            return None;
        }
        let item = self.take_slot(self.start);
        self.start = self.start + 1;
        self.front = Ghost(self.front@.push(item));
        assert(self@ =~= old(self)@.drop_first());
        assert(self.original@ =~= self.front@ + self@ + self.back@);
        Some(item)
    }

    /// Hands out the last remaining element, or `None` when none is left.
    pub fn next_back(&mut self) -> (r: Option<T>)
        requires
            old(self).wf(),
        ensures
            final(self).wf(),
            final(self).original() == old(self).original(),
            final(self).yielded_front() == old(self).yielded_front(),
            old(self)@.len() == 0 ==> r is None && final(self)@ == old(self)@
                && final(self).yielded_back() == old(self).yielded_back(),
            old(self)@.len() > 0 ==> r == Some(old(self)@.last()) && final(self)@
                == old(self)@.drop_last() && final(self).yielded_back() == seq![old(self)@.last()]
                + old(self).yielded_back(),
    {
        if self.start == self.end {
            return None;
        }
        self.end = self.end - 1;
        let item = self.take_slot(self.end);
        self.back = Ghost(seq![item] + self.back@);
        assert(self@ =~= old(self)@.drop_last());
        assert(self.original@ =~= self.front@ + self@ + self.back@);
        Some(item)
    }

    /// The exact number of elements left, as lower and upper bound.
    pub fn size_hint(&self) -> (r: (usize, Option<usize>))
        requires
            self.wf(),
        ensures
            r == (self@.len() as usize, Some(self@.len() as usize)),
    {
        let len = self.end - self.start;
        (len, Some(len))
    }

    /// Whatever mix of front and back pulls came before, the elements handed
    /// out at the front, those left, and those handed out at the back make up
    /// the original elements in order; once none is left, the elements handed
    /// out are each original element exactly once, in original order.
    pub proof fn lemma_consumption(&self)
        requires
            self.wf(),
        ensures
            self.original() == self.yielded_front() + self@ + self.yielded_back(),
            self@.len() == 0 ==> self.original() == self.yielded_front() + self.yielded_back(),
    {
        if self@.len() == 0 {
            assert(self.yielded_front() + self@ =~= self.yielded_front());
        }
    }
}

} // verus!
