use vstd::prelude::*;

mod drain;
mod into_iter;
pub mod laws;
mod raw_vec;

pub use drain::Drain;
pub use into_iter::IntoIter;
pub use raw_vec::{can_grow, grown, RawVec};

verus! {

/// Capacity of a container of length `len` and capacity `cap` once one more
/// element has been added: the buffer grows only when it is full.
pub open spec fn capacity_after_push(len: nat, cap: nat) -> nat {
    if len == cap {
        grown(cap)
    } else {
        cap
    }
}

/// A growable container. Slots `[0, len)` of its buffer hold the elements,
/// the slots from `len` up to the capacity are uninitialized.
pub struct MyVec<T> {
    buf: RawVec<T>,
    len: usize,
}

impl<T> View for MyVec<T> {
    type V = Seq<T>;

    /// The elements, in index order.
    closed spec fn view(&self) -> Seq<T> {
        Seq::new(self.len as nat, |i: int| self.buf@[i]->Some_0)
    }
}

impl<T> MyVec<T> {
    /// Number of element slots of the buffer.
    pub closed spec fn capacity(&self) -> nat {
        self.buf.capacity()
    }

    /// The live elements fill exactly the first `len` slots.
    pub closed spec fn wf(&self) -> bool {
        &&& self.buf.wf()
        &&& self.len <= self.buf.capacity()
        &&& forall|i: int| 0 <= i < self.len ==> (#[trigger] self.buf@[i]) is Some
        &&& forall|i: int| self.len <= i < self.buf.capacity() ==> (#[trigger] self.buf@[i]) is None
    }

    /// One more element can be added without the buffer growing past the
    /// largest allocation the platform can describe.
    pub open spec fn can_push(&self) -> bool {
        self@.len() < self.capacity() || can_grow(self.capacity())
    }

    /// A well-formed container never holds more elements than its capacity.
    pub proof fn lemma_len_within_capacity(&self)
        requires
            self.wf(),
        ensures
            self@.len() <= self.capacity(),
    {
    }

    /// An empty container. Zero-sized elements are rejected.
    pub fn new() -> (r: Self)
        requires
            vstd::layout::size_of::<T>() > 0,
        ensures
            r.wf(),
            r@ == Seq::<T>::empty(),
            r.capacity() == 0,
    {
        let r = MyVec { buf: RawVec::new(), len: 0 };
        assert(r@ =~= Seq::<T>::empty());
        r
    }

    pub fn cap(&self) -> (r: usize)
        requires
            self.wf(),
        ensures
            r == self.capacity(),
    {
        self.buf.cap()
    }

    /// Number of elements.
    pub fn len(&self) -> (r: usize)
        requires
            self.wf(),
        ensures
            r == self@.len(),
    {
        self.len
    }

    pub fn is_empty(&self) -> (r: bool)
        requires
            self.wf(),
        ensures
            r == (self@.len() == 0),
    {
        self.len == 0
    }

    fn grow(&mut self)
        requires
            old(self).wf(),
            can_grow(old(self).capacity()),
        ensures
            final(self).wf(),
            final(self)@ == old(self)@,
            final(self).capacity() == grown(old(self).capacity()),
    {
        self.buf.grow();
        assert(self@ =~= old(self)@);
    }

    /// Appends `item`, growing the buffer first when it is full.
    pub fn push(&mut self, item: T)
        requires
            old(self).wf(),
            old(self).can_push(),
        ensures
            final(self).wf(),
            final(self)@ == old(self)@.push(item),
            final(self).capacity() == capacity_after_push(old(self)@.len(), old(self).capacity()),
    {
        if self.buf.cap() == self.len {
            self.grow();
        }
        self.buf.write(self.len, item);
        self.len = self.len + 1;
        assert(self@ =~= old(self)@.push(item));
    }

    /// Removes and returns the last element, or `None` when there is none.
    pub fn pop(&mut self) -> (r: Option<T>)
        requires
            old(self).wf(),
        ensures
            final(self).wf(),
            final(self).capacity() == old(self).capacity(),
            old(self)@.len() == 0 ==> r is None && final(self)@ == old(self)@,
            old(self)@.len() > 0 ==> r == Some(old(self)@.last()) && final(self)@
                == old(self)@.drop_last(),
    {
        if self.len == 0 {
            return None;
        }
        self.len = self.len - 1;
        let item = self.buf.read(self.len);
        assert(self@ =~= old(self)@.drop_last());
        Some(item)
    }

    /// Borrows the element at `index`, or `None` when `index` is past the end.
    pub fn get(&self, index: usize) -> (r: Option<&T>)
        requires
            self.wf(),
        ensures
            index < self@.len() ==> r == Some(&self@[index as int]),
            index >= self@.len() ==> r is None,
    {
        if index >= self.len {
            return None;
        }
        Some(self.buf.slot(index))
    }
    /// Borrows, for change in place, the element at `index`, or gives `None`
    /// when `index` is past the end.
    pub fn get_mut(&mut self, index: usize) -> (r: Option<&mut T>)
        requires
            old(self).wf(),
        ensures
            final(self).wf(),
            final(self).capacity() == old(self).capacity(),
            index < old(self)@.len() ==> (r matches Some(x) && *x == old(self)@[index as int]
                && final(self)@ == old(self)@.update(index as int, *final(x))),
            index >= old(self)@.len() ==> r is None && final(self)@ == old(self)@,
    {
        if index >= self.len {
            return None;
        }
        Some(self.buf.slot_mut(index))
    }

    /// Places `item` at `index`, moving the elements from `index` on one slot
    /// to the right. Growing happens first when the buffer is full.
    pub fn insert(&mut self, index: usize, item: T)
        requires
            old(self).wf(),
            index <= old(self)@.len(),
            old(self).can_push(),
        ensures
            final(self).wf(),
            final(self)@ == old(self)@.insert(index as int, item),
            final(self).capacity() == capacity_after_push(old(self)@.len(), old(self).capacity()),
    {
        if self.buf.cap() == self.len {
            self.grow();
        }
        let ghost s = self@;
        let ghost c = self.buf.capacity();
        let n = self.len;
        let mut j = n;
        while j > index
            invariant
                self.buf.wf(),
                self.buf.capacity() == c,
                n == s.len(),
                n < self.buf.capacity(),
                index <= j <= n,
                forall|k: int| 0 <= k < j ==> #[trigger] self.buf@[k] == Some(s[k]),
                self.buf@[j as int] is None,
                forall|k: int| j < k <= n ==> #[trigger] self.buf@[k] == Some(s[k - 1]),
                forall|k: int| n < k < self.buf.capacity() ==> (#[trigger] self.buf@[k]) is None,
            decreases j,
        {
            let moved = self.buf.read(j - 1);
            self.buf.write(j, moved);
            j = j - 1;
        }
        self.buf.write(index, item);
        self.len = n + 1;
        assert(self@ =~= s.insert(index as int, item));
    }

    /// Takes out the element at `index`, moving the elements after it one
    /// slot to the left.
    pub fn remove(&mut self, index: usize) -> (r: T)
        requires
            old(self).wf(),
            index < old(self)@.len(),
        ensures
            final(self).wf(),
            final(self).capacity() == old(self).capacity(),
            r == old(self)@[index as int],
            final(self)@ == old(self)@.remove(index as int),
    {
        let ghost s = self@;
        let n = self.len;
        let r = self.buf.read(index);
        let mut j = index + 1;
        while j < n
            invariant
                self.buf.wf(),
                self.buf.capacity() == old(self).capacity(),
                n == s.len(),
                n <= self.buf.capacity(),
                index < j <= n,
                forall|k: int| 0 <= k < index ==> #[trigger] self.buf@[k] == Some(s[k]),
                forall|k: int| index <= k < j - 1 ==> #[trigger] self.buf@[k] == Some(s[k + 1]),
                self.buf@[j - 1] is None,
                forall|k: int| j <= k < n ==> #[trigger] self.buf@[k] == Some(s[k]),
                forall|k: int| n <= k < self.buf.capacity() ==> (#[trigger] self.buf@[k]) is None,
            decreases n - j,
        {
            let moved = self.buf.read(j);
            self.buf.write(j - 1, moved);
            j = j + 1;
        }
        self.len = n - 1;
        assert(self@ =~= s.remove(index as int));
        r
    }
    /// Gives up the container for an iterator that owns its buffer and hands
    /// out its elements by value.
    pub fn into_iter(self) -> (r: IntoIter<T>)
        requires
            self.wf(),
        ensures
            r.wf(),
            r@ == self@,
            r.original() == self@,
            r.yielded_front() == Seq::<T>::empty(),
            r.yielded_back() == Seq::<T>::empty(),
    {
        let r = IntoIter::from_buffer(self.buf, self.len);
        assert(r@ =~= self@);
        r
    }

    /// Takes every element out into an extractor. The container is empty
    /// as soon as this returns and keeps its buffer and capacity.
    pub fn drain(&mut self) -> (r: Drain<T>)
        requires
            old(self).wf(),
        ensures
            final(self).wf(),
            final(self)@ == Seq::<T>::empty(),
            final(self).capacity() == old(self).capacity(),
            r.wf(),
            r@ == old(self)@,
            r.original() == old(self)@,
            r.yielded_front() == Seq::<T>::empty(),
            r.yielded_back() == Seq::<T>::empty(),
    {
        let ghost s = self@;
        let n = self.len;
        self.len = 0;
        let mut taken: Vec<Option<T>> = Vec::new();
        let mut i: usize = 0;
        while i < n
            invariant
                self.buf.wf(),
                self.buf.capacity() == old(self).capacity(),
                self.len == 0,
                n == s.len(),
                n <= self.buf.capacity(),
                i <= n,
                taken@.len() == i,
                forall|k: int| 0 <= k < i ==> #[trigger] taken@[k] == Some(s[k]),
                forall|k: int| 0 <= k < i ==> (#[trigger] self.buf@[k]) is None,
                forall|k: int| i <= k < n ==> #[trigger] self.buf@[k] == Some(s[k]),
                forall|k: int| n <= k < self.buf.capacity() ==> (#[trigger] self.buf@[k]) is None,
            decreases n - i,
        {
            let item = self.buf.read(i);
            taken.push(Some(item));
            i = i + 1;
        }
        assert(self@ =~= Seq::<T>::empty());
        let r = Drain::from_slots(taken);
        assert(r@ =~= s);
        r
    }
}

} // verus!
