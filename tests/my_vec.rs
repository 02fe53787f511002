use std::cell::Cell;
use std::rc::Rc;

use my_vec::MyVec;

#[test]
fn test_push_pop_insert_remove() {
    let mut vec: MyVec<i32> = MyVec::<i32>::new();
    vec.push(1i32);
    vec.push(2i32);
    vec.push(3i32);
    vec.push(4i32);
    vec.push(5i32);
    vec.push(6i32);

    vec.pop();
    vec.pop();
    assert_eq!(vec.len(), 4);
    assert_eq!(*(vec.get(0).unwrap()), 1i32);

    vec.insert(1, 1i32);
    assert_eq!(vec.len(), 5);
    assert_eq!(*(vec.get(1).unwrap()), 1i32);

    let elem = vec.remove(1);
    assert_eq!(vec.len(), 4);
    assert_eq!(elem, 1i32);
    assert_eq!(*(vec.get(1).unwrap()), 2i32);
}

#[test]
fn test_iter() {
    let mut vec: MyVec<usize> = MyVec::new();
    vec.push(1);
    vec.push(2);
    vec.push(3);

    let mut iterator = vec.into_iter();
    assert_eq!(iterator.next(), Some(1));
    assert_eq!(iterator.next(), Some(2));
    assert_eq!(iterator.next_back(), Some(3));
    assert_eq!(iterator.next_back(), None);
}

#[test]
fn test_drain() {
    let mut vec: MyVec<usize> = MyVec::new();
    vec.push(1);
    vec.push(2);
    vec.push(3);

    let mut drain = vec.drain();
    while drain.next().is_some() {}
    drop(drain);
    assert_eq!(vec.len(), 0);
}

/// Counts how often values of it are dropped.
struct Counted {
    drops: Rc<Cell<usize>>,
    value: u32,
}

impl Drop for Counted {
    fn drop(&mut self) {
        self.drops.set(self.drops.get() + 1);
    }
}

fn counted_vec(drops: &Rc<Cell<usize>>, n: u32) -> MyVec<Counted> {
    let mut v = MyVec::new();
    for value in 0..n {
        v.push(Counted { drops: drops.clone(), value });
    }
    v
}

#[test]
fn growth_doubles_capacity() {
    let mut v: MyVec<u8> = MyVec::new();
    assert_eq!(v.cap(), 0);
    let mut caps = Vec::new();
    for n in 1..=17u32 {
        v.push(n as u8);
        caps.push(v.cap());
    }
    assert_eq!(caps[0], 1);
    assert_eq!(caps[1], 2);
    assert_eq!(caps[2], 4);
    assert_eq!(caps[4], 8);
    assert_eq!(caps[8], 16);
    assert_eq!(caps[16], 32);
    assert_eq!(caps[3], 4);
    assert_eq!(caps[15], 16);
}

#[test]
fn push_then_pop_restores() {
    let mut v: MyVec<i64> = MyVec::new();
    v.push(10);
    v.push(20);
    v.push(-7);
    assert_eq!(v.pop(), Some(-7));
    assert_eq!(v.len(), 2);
    assert_eq!(v.get(0), Some(&10));
    assert_eq!(v.get(1), Some(&20));
}

#[test]
fn pop_and_get_on_empty() {
    let mut v: MyVec<i32> = MyVec::new();
    assert!(v.is_empty());
    assert_eq!(v.pop(), None);
    assert_eq!(v.get(0), None);
    v.push(5);
    assert_eq!(v.get(1), None);
    assert_eq!(v.get(usize::MAX), None);
}

#[test]
fn push_keeps_earlier_elements() {
    let mut v: MyVec<u32> = MyVec::new();
    for x in 0..9u32 {
        v.push(x * 3);
    }
    for i in 0..9usize {
        assert_eq!(v.get(i), Some(&(i as u32 * 3)));
    }
}

#[test]
fn insert_then_remove_restores() {
    let mut v: MyVec<u32> = MyVec::new();
    for x in [4u32, 5, 6, 7] {
        v.push(x);
    }
    v.insert(2, 99);
    assert_eq!(v.len(), 5);
    assert_eq!(v.get(2), Some(&99));
    assert_eq!(v.get(3), Some(&6));
    assert_eq!(v.remove(2), 99);
    for (i, x) in [4u32, 5, 6, 7].iter().enumerate() {
        assert_eq!(v.get(i), Some(x));
    }
    v.insert(4, 8);
    assert_eq!(v.get(4), Some(&8));
    v.insert(0, 3);
    assert_eq!(v.get(0), Some(&3));
    assert_eq!(v.get(1), Some(&4));
    assert_eq!(v.remove(0), 3);
    assert_eq!(v.remove(3), 7);
    assert_eq!(v.len(), 4);
}

#[test]
fn insert_into_full_buffer_grows() {
    let mut v: MyVec<u32> = MyVec::new();
    v.push(1);
    v.push(2);
    assert_eq!(v.cap(), 2);
    v.insert(1, 7);
    assert_eq!(v.cap(), 4);
    assert_eq!(v.get(0), Some(&1));
    assert_eq!(v.get(1), Some(&7));
    assert_eq!(v.get(2), Some(&2));
}

#[test]
fn mixed_pulls_yield_every_element_once() {
    let mut v: MyVec<u32> = MyVec::new();
    for x in 1..=5u32 {
        v.push(x);
    }
    let mut it = v.into_iter();
    assert_eq!(it.size_hint(), (5, Some(5)));
    assert_eq!(it.next_back(), Some(5));
    assert_eq!(it.next(), Some(1));
    assert_eq!(it.next_back(), Some(4));
    assert_eq!(it.size_hint(), (2, Some(2)));
    assert_eq!(it.next(), Some(2));
    assert_eq!(it.next(), Some(3));
    assert_eq!(it.next(), None);
    assert_eq!(it.next_back(), None);
    assert_eq!(it.size_hint(), (0, Some(0)));
}

#[test]
fn drain_yields_from_both_ends() {
    let mut v: MyVec<u32> = MyVec::new();
    for x in 1..=4u32 {
        v.push(x);
    }
    let mut d = v.drain();
    assert_eq!(d.size_hint(), (4, Some(4)));
    assert_eq!(d.next_back(), Some(4));
    assert_eq!(d.next(), Some(1));
    assert_eq!(d.next(), Some(2));
    assert_eq!(d.next_back(), Some(3));
    assert_eq!(d.next(), None);
}

#[test]
fn drain_keeps_capacity_and_accepts_pushes() {
    let mut v: MyVec<u32> = MyVec::new();
    for x in 0..5u32 {
        v.push(x);
    }
    let cap = v.cap();
    drop(v.drain());
    assert_eq!(v.len(), 0);
    assert_eq!(v.cap(), cap);
    v.push(42);
    assert_eq!(v.len(), 1);
    assert_eq!(v.get(0), Some(&42));
    assert_eq!(v.cap(), cap);
}

#[test]
fn dropping_partly_consumed_iterator_drops_rest_once() {
    let drops = Rc::new(Cell::new(0));
    let v = counted_vec(&drops, 5);
    let mut it = v.into_iter();
    let first = it.next().unwrap();
    let last = it.next_back().unwrap();
    assert_eq!(first.value, 0);
    assert_eq!(last.value, 4);
    assert_eq!(drops.get(), 0);
    drop(it);
    assert_eq!(drops.get(), 3);
    drop(first);
    drop(last);
    assert_eq!(drops.get(), 5);
}

#[test]
fn dropping_partly_consumed_drain_drops_rest_once() {
    let drops = Rc::new(Cell::new(0));
    let mut v = counted_vec(&drops, 4);
    let mut d = v.drain();
    let first = d.next().unwrap();
    assert_eq!(first.value, 0);
    drop(d);
    assert_eq!(drops.get(), 3);
    assert_eq!(v.len(), 0);
    drop(first);
    drop(v);
    assert_eq!(drops.get(), 4);
}

#[test]
fn dropping_container_drops_each_element_once() {
    let drops = Rc::new(Cell::new(0));
    let mut v = counted_vec(&drops, 6);
    let popped = v.pop().unwrap();
    let removed = v.remove(0);
    assert_eq!(popped.value, 5);
    assert_eq!(removed.value, 0);
    assert_eq!(drops.get(), 0);
    drop(v);
    assert_eq!(drops.get(), 4);
    drop(popped);
    drop(removed);
    assert_eq!(drops.get(), 6);
}

#[test]
fn get_mut_changes_in_place() {
    let mut v: MyVec<u32> = MyVec::new();
    v.push(1);
    v.push(2);
    *v.get_mut(1).unwrap() += 40;
    assert_eq!(v.get(0), Some(&1));
    assert_eq!(v.get(1), Some(&42));
    assert!(v.get_mut(2).is_none());
    assert_eq!(v.len(), 2);
}
