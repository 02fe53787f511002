use vstd::prelude::*;

use crate::raw_vec::RawVec;

verus! {

/// Iterator that owns a container's buffer and hands its elements out by
/// value, from either end. Elements not yet handed out are dropped with it.
pub struct IntoIter<T> {
    buf: RawVec<T>,
    start: usize,
    end: usize,
    original: Ghost<Seq<T>>,
    front: Ghost<Seq<T>>,
    back: Ghost<Seq<T>>,
}

impl<T> View for IntoIter<T> {
    type V = Seq<T>;

    /// The elements not yet handed out, in index order.
    closed spec fn view(&self) -> Seq<T> {
        Seq::new((self.end - self.start) as nat, |i: int| self.buf@[self.start + i]->Some_0)
    }
}

impl<T> IntoIter<T> {
    /// The elements the iterator started with.
    pub closed spec fn original(&self) -> Seq<T> {
        self.original@
    }

    /// The elements handed out from the front, in the order they came.
    pub closed spec fn yielded_front(&self) -> Seq<T> {
        self.front@
    }

    /// The elements handed out from the back, in index order.
    pub closed spec fn yielded_back(&self) -> Seq<T> {
        self.back@
    }

    /// Exactly the slots between the two cursors are initialized, and they,
    /// between the elements handed out at either end, make up the original
    /// elements.
    pub closed spec fn wf(&self) -> bool {
        &&& self.buf.wf()
        &&& self.start <= self.end <= self.buf.capacity()
        &&& forall|k: int| self.start <= k < self.end ==> (#[trigger] self.buf@[k]) is Some
        &&& forall|k: int|
            0 <= k < self.buf.capacity() && !(self.start <= k < self.end) ==> (
            #[trigger] self.buf@[k]) is None
        &&& self.original@ == self.front@ + self@ + self.back@
    }

    /// Takes over `buf`, whose first `len` slots hold the elements.
    pub(crate) fn from_buffer(buf: RawVec<T>, len: usize) -> (r: Self)
        requires
            buf.wf(),
            len <= buf.capacity(),
            forall|k: int| 0 <= k < len ==> (#[trigger] buf@[k]) is Some,
            forall|k: int| len <= k < buf.capacity() ==> (#[trigger] buf@[k]) is None,
        ensures
            r.wf(),
            r@ == Seq::new(len as nat, |i: int| buf@[i]->Some_0),
            r.original() == r@,
            r.yielded_front() == Seq::<T>::empty(),
            r.yielded_back() == Seq::<T>::empty(),
    {
        let ghost elems = Seq::new(len as nat, |i: int| buf@[i]->Some_0);
        let r = IntoIter {
            buf,
            start: 0,
            end: len,
            original: Ghost(elems),
            front: Ghost(Seq::empty()),
            back: Ghost(Seq::empty()),
        };
        assert(r@ =~= elems);
        assert(r.original@ =~= r.front@ + r@ + r.back@);
        r
    }

    /// Hands out the first remaining element, or `None` when none is left.
    pub fn next(&mut self) -> (r: Option<T>)
        requires
            old(self).wf(),
        ensures
            final(self).wf(),
            final(self).original() == old(self).original(),
            final(self).yielded_back() == old(self).yielded_back(),
            old(self)@.len() == 0 ==> r is None && final(self)@ == old(self)@
                && final(self).yielded_front() == old(self).yielded_front(),
            old(self)@.len() > 0 ==> r == Some(old(self)@[0]) && final(self)@ == old(self)@.drop_first()
                && final(self).yielded_front() == old(self).yielded_front().push(old(self)@[0]),
    {
        if self.start == self.end {
            return None;
        }
        let item = self.buf.read(self.start);
        self.start = self.start + 1;
        self.front = Ghost(self.front@.push(item));
        assert(self@ =~= old(self)@.drop_first());
        assert(self.original@ =~= self.front@ + self@ + self.back@);
        Some(item)
    }

    /// Hands out the last remaining element, or `None` when none is left.
    pub fn next_back(&mut self) -> (r: Option<T>)
        requires
            old(self).wf(),
        ensures
            final(self).wf(),
            final(self).original() == old(self).original(),
            final(self).yielded_front() == old(self).yielded_front(),
            old(self)@.len() == 0 ==> r is None && final(self)@ == old(self)@
                && final(self).yielded_back() == old(self).yielded_back(),
            old(self)@.len() > 0 ==> r == Some(old(self)@.last()) && final(self)@
                == old(self)@.drop_last() && final(self).yielded_back() == seq![old(self)@.last()]
                + old(self).yielded_back(),
    {
        if self.start == self.end {
            return None;
        }
        self.end = self.end - 1;
        let item = self.buf.read(self.end);
        self.back = Ghost(seq![item] + self.back@);
        assert(self@ =~= old(self)@.drop_last());
        assert(self.original@ =~= self.front@ + self@ + self.back@);
        Some(item)
    }

    /// The exact number of elements left, as lower and upper bound.
    pub fn size_hint(&self) -> (r: (usize, Option<usize>))
        requires
            self.wf(),
        ensures
            r == (self@.len() as usize, Some(self@.len() as usize)),
    {
        let len = self.end - self.start;
        (len, Some(len))
    }

    /// Whatever mix of front and back pulls came before, the elements handed
    /// out at the front, those left, and those handed out at the back make up
    /// the original elements in order; once none is left, the elements handed
    /// out are each original element exactly once, in original order.
    pub proof fn lemma_consumption(&self)
        requires
            self.wf(),
        ensures
            self.original() == self.yielded_front() + self@ + self.yielded_back(),
            self@.len() == 0 ==> self.original() == self.yielded_front() + self.yielded_back(),
    {
        if self@.len() == 0 {
            assert(self.yielded_front() + self@ =~= self.yielded_front());
        }
    }
}

} // verus!
