use vstd::prelude::*;

use crate::raw_vec::{can_grow, grown};
use crate::{capacity_after_push, MyVec};

verus! {

/// `c` is a power of two.
pub open spec fn is_pow2(c: nat) -> bool
    decreases c,
{
    if c <= 1 {
        c == 1
    } else {
        c % 2 == 0 && is_pow2(c / 2)
    }
}

/// Capacity of a new container after `n` pushes.
pub open spec fn capacity_after_pushes(n: nat) -> nat
    decreases n,
{
    if n == 0 {
        0
    } else {
        capacity_after_push((n - 1) as nat, capacity_after_pushes((n - 1) as nat))
    }
}

/// Popping right after pushing `x` gives back `x` and the elements from
/// before the push.
pub proof fn lemma_push_then_pop<T>(s: Seq<T>, x: T)
    ensures
        s.push(x).len() > 0,
        s.push(x).last() == x,
        s.push(x).drop_last() == s,
        s.push(x).drop_last().len() == s.len(),
{
    assert(s.push(x).drop_last() =~= s);
}

/// Pushing keeps every element that was there before at its index.
pub proof fn lemma_push_keeps_indices<T>(s: Seq<T>, x: T)
    ensures
        forall|i: int| 0 <= i < s.len() ==> #[trigger] s.push(x)[i] == s[i],
{
}

/// Removing at `i` right after inserting `x` at `i` gives back `x` and the
/// elements from before the insertion.
pub proof fn lemma_insert_then_remove<T>(s: Seq<T>, i: int, x: T)
    requires
        0 <= i <= s.len(),
    ensures
        s.insert(i, x)[i] == x,
        s.insert(i, x).remove(i) == s,
{
    assert(s.insert(i, x).remove(i) =~= s);
}

/// An empty container, such as one that was just drained, takes a push.
pub proof fn lemma_empty_accepts_push<T>(v: &MyVec<T>)
    requires
        v.wf(),
        v@.len() == 0,
    ensures
        v.can_push(),
{
    if v.capacity() == 0 {
        assert(can_grow(0));
    }
}

/// From an empty container, each push that finds the buffer full doubles the
/// capacity (from nothing to one slot at first), so after `n` pushes the
/// capacity is the least power of two that holds the `n` elements.
pub proof fn lemma_growth_doubling(n: nat)
    ensures
        n == 0 ==> capacity_after_pushes(n) == 0,
        n > 0 ==> is_pow2(capacity_after_pushes(n)),
        n > 0 ==> n <= capacity_after_pushes(n) < 2 * n,
    decreases n,
{
    if n == 1 {
        assert(capacity_after_pushes(0) == 0);
        assert(capacity_after_pushes(1) == grown(0));
        assert(is_pow2(1));
    } else if n > 1 {
        let m = (n - 1) as nat;
        lemma_growth_doubling(m);
        let c = capacity_after_pushes(m);
        if m == c {
            assert(capacity_after_pushes(n) == 2 * c);
            assert((2 * c) % 2 == 0 && (2 * c) / 2 == c);
        }
    }
}

} // verus!
