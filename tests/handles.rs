use shared_cell::{DropEffect, SharedHeap};
use std::cell::Cell;
use std::rc::Rc;

struct DropCounter {
    drops: Rc<Cell<u32>>,
    label: u32,
}

impl Drop for DropCounter {
    fn drop(&mut self) {
        self.drops.set(self.drops.get() + 1);
    }
}

fn counter(label: u32) -> (DropCounter, Rc<Cell<u32>>) {
    let drops = Rc::new(Cell::new(0));
    (DropCounter { drops: drops.clone(), label }, drops)
}

#[test]
fn new_cell_has_one_strong_and_no_weak() {
    let mut heap = SharedHeap::new();
    let s = heap.new_shared(5u32);
    assert_eq!(heap.strong_count(&s), 1);
    assert_eq!(heap.weak_count(&s), 0);
    assert_eq!(*heap.get(&s), 5);
}

#[test]
fn downgrade_twice_then_release() {
    let (value, drops) = counter(20);
    let mut heap = SharedHeap::new();
    let s = heap.new_shared(value);
    assert_eq!(heap.strong_count(&s), 1);
    assert_eq!(heap.weak_count(&s), 0);

    let w1 = heap.downgrade(&s);
    let w2 = heap.downgrade(&s);
    assert_eq!(heap.strong_count(&s), 1);
    assert_eq!(heap.weak_count(&s), 2);
    assert_eq!(heap.strong_count(&w2), 1);
    assert_eq!(heap.weak_count(&w2), 2);

    assert_eq!(heap.drop_weak(w1), DropEffect::Retained);
    assert_eq!(heap.weak_count(&s), 1);
    assert_eq!(heap.strong_count(&s), 1);
    assert_eq!(heap.get(&s).label, 20);
    assert_eq!(drops.get(), 0);

    assert_eq!(heap.drop_strong(s), DropEffect::ValueDestroyed);
    assert_eq!(heap.strong_count(&w2), 0);
    assert_eq!(drops.get(), 1);

    assert!(heap.upgrade(&w2).is_none());
    assert_eq!(heap.strong_count(&w2), 0);
    assert_eq!(heap.weak_count(&w2), 1);

    assert_eq!(heap.drop_weak(w2), DropEffect::Released);
    assert_eq!(drops.get(), 1);
}

#[test]
fn clone_before_drop_keeps_value_alive() {
    let (value, drops) = counter(3);
    let mut heap = SharedHeap::new();
    let s = heap.new_shared(value);
    let t = heap.clone_strong(&s);
    assert_eq!(heap.strong_count(&t), 2);
    assert_eq!(heap.drop_strong(s), DropEffect::Retained);
    assert_eq!(heap.strong_count(&t), 1);
    assert_eq!(heap.get(&t).label, 3);
    assert_eq!(drops.get(), 0);
    assert_eq!(heap.drop_strong(t), DropEffect::Released);
    assert_eq!(drops.get(), 1);
}

#[test]
fn upgrade_of_live_cell_adds_strong_handle() {
    let mut heap = SharedHeap::new();
    let s = heap.new_shared(String::from("kept"));
    let w = heap.downgrade(&s);
    let u = heap.upgrade(&w).expect("value is alive");
    assert_eq!(heap.strong_count(&w), 2);
    assert_eq!(heap.weak_count(&w), 1);
    assert_eq!(heap.get(&u), "kept");
    assert_eq!(heap.drop_strong(s), DropEffect::Retained);
    assert_eq!(heap.get(&u), "kept");
    assert_eq!(heap.drop_strong(u), DropEffect::ValueDestroyed);
    assert!(heap.upgrade(&w).is_none());
}

#[test]
fn dead_cell_stays_dead() {
    let (value, drops) = counter(1);
    let mut heap = SharedHeap::new();
    let s = heap.new_shared(value);
    let w = heap.downgrade(&s);
    assert_eq!(heap.drop_strong(s), DropEffect::ValueDestroyed);
    let w2 = heap.clone_weak(&w);
    assert_eq!(heap.weak_count(&w2), 2);
    for _ in 0..3 {
        assert!(heap.upgrade(&w).is_none());
        assert!(heap.upgrade(&w2).is_none());
        assert_eq!(heap.strong_count(&w), 0);
        assert_eq!(heap.weak_count(&w), 2);
    }
    assert_eq!(drops.get(), 1);
    assert_eq!(heap.drop_weak(w), DropEffect::Retained);
    assert_eq!(heap.drop_weak(w2), DropEffect::Released);
    assert_eq!(drops.get(), 1);
}

#[test]
fn counts_follow_live_handles() {
    let mut heap = SharedHeap::new();
    let s = heap.new_shared(0u8);
    let mut strong = vec![];
    let mut weak = vec![];
    for i in 0..10u64 {
        strong.push(heap.clone_strong(&s));
        if i % 2 == 0 {
            weak.push(heap.downgrade(&s));
        }
        assert_eq!(heap.strong_count(&s), strong.len() as u64 + 1);
        assert_eq!(heap.weak_count(&s), weak.len() as u64);
    }
    while let Some(h) = strong.pop() {
        assert_eq!(heap.drop_strong(h), DropEffect::Retained);
        assert_eq!(heap.strong_count(&s), strong.len() as u64 + 1);
    }
    while let Some(w) = weak.pop() {
        assert_eq!(heap.drop_weak(w), DropEffect::Retained);
        assert_eq!(heap.weak_count(&s), weak.len() as u64);
    }
    assert_eq!(heap.drop_strong(s), DropEffect::Released);
}

#[test]
fn value_destroyed_once_at_last_strong_drop() {
    let (value, drops) = counter(9);
    let mut heap = SharedHeap::new();
    let a = heap.new_shared(value);
    let b = heap.clone_strong(&a);
    let c = heap.clone_strong(&b);
    let w = heap.downgrade(&c);
    assert_eq!(heap.drop_strong(a), DropEffect::Retained);
    assert_eq!(drops.get(), 0);
    assert_eq!(heap.drop_strong(c), DropEffect::Retained);
    assert_eq!(drops.get(), 0);
    assert_eq!(heap.drop_strong(b), DropEffect::ValueDestroyed);
    assert_eq!(drops.get(), 1);
    assert!(heap.upgrade(&w).is_none());
    assert_eq!(heap.drop_weak(w), DropEffect::Released);
    assert_eq!(drops.get(), 1);
}

#[test]
fn weak_handle_may_outlive_value_and_be_cloned() {
    let mut heap = SharedHeap::new();
    let s = heap.new_shared(1i32);
    let w = heap.downgrade(&s);
    heap.drop_strong(s);
    let w2 = heap.clone_weak(&w);
    assert_eq!(heap.weak_count(&w2), 2);
    assert_eq!(heap.drop_weak(w2), DropEffect::Retained);
    assert_eq!(heap.drop_weak(w), DropEffect::Released);
}

#[test]
fn cells_are_independent() {
    let mut heap = SharedHeap::new();
    let a = heap.new_shared(10u32);
    let b = heap.new_shared(20u32);
    let a2 = heap.clone_strong(&a);
    let wb = heap.downgrade(&b);
    assert_eq!(heap.strong_count(&a), 2);
    assert_eq!(heap.strong_count(&b), 1);
    assert_eq!(heap.weak_count(&a), 0);
    assert_eq!(heap.weak_count(&b), 1);
    assert_eq!(heap.drop_strong(b), DropEffect::ValueDestroyed);
    assert_eq!(*heap.get(&a), 10);
    assert_eq!(*heap.get(&a2), 10);
    assert!(heap.upgrade(&wb).is_none());
    assert_eq!(heap.drop_strong(a), DropEffect::Retained);
    assert_eq!(heap.drop_strong(a2), DropEffect::Released);
}
