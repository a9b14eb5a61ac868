use std::cell::Cell;
use std::rc::Rc;

use ringdeque::deque::Deque;
use ringdeque::ring::RingBuf;

/// An element whose destruction bumps a shared counter.
struct Tally {
    drops: Rc<Cell<u32>>,
}

impl Drop for Tally {
    fn drop(&mut self) {
        self.drops.set(self.drops.get() + 1);
    }
}

fn tally(drops: &Rc<Cell<u32>>) -> Tally {
    Tally { drops: Rc::clone(drops) }
}

#[test]
fn ring_drops_each_live_element_exactly_once_with_wraparound() {
    let drops: Rc<Cell<u32>> = Rc::new(Cell::new(0));
    {
        let mut q: RingBuf<Tally> = RingBuf::new(3);
        assert!(q.push(tally(&drops)).is_ok());
        assert!(q.push(tally(&drops)).is_ok());
        // pop one (dropping it) and push two more so the live range wraps
        assert!(q.pop().is_some());
        assert!(q.push(tally(&drops)).is_ok());
        assert!(q.push(tally(&drops)).is_ok());
        assert_eq!(drops.get(), 1);
        // q is dropped here holding three wrapped live elements
    }
    assert_eq!(drops.get(), 4);
}

#[test]
fn ring_rejected_push_drops_the_new_element_only() {
    let drops: Rc<Cell<u32>> = Rc::new(Cell::new(0));
    {
        let mut q: RingBuf<Tally> = RingBuf::new(1);
        assert!(q.push(tally(&drops)).is_ok());
        // the rejected element is handed back and dropped by the caller
        assert!(q.push(tally(&drops)).is_err());
        assert_eq!(drops.get(), 1);
    }
    assert_eq!(drops.get(), 2);
}

#[test]
fn deque_drops_each_live_element_exactly_once_across_growth() {
    let drops: Rc<Cell<u32>> = Rc::new(Cell::new(0));
    {
        let mut d: Deque<Tally> = Deque::with_capacity(2);
        for _ in 0..5 {
            d.push_front(tally(&drops));
        }
        for _ in 0..4 {
            d.push_back(tally(&drops));
        }
        assert!(d.pop_back().is_some());
        assert_eq!(drops.get(), 1);
        // d is dropped here holding eight live elements
    }
    assert_eq!(drops.get(), 9);
}

#[test]
fn popped_element_is_owned_by_the_caller() {
    let drops: Rc<Cell<u32>> = Rc::new(Cell::new(0));
    let mut d: Deque<Tally> = Deque::new();
    d.push_back(tally(&drops));
    let out = d.pop_front().unwrap();
    assert_eq!(drops.get(), 0);
    drop(out);
    assert_eq!(drops.get(), 1);
    drop(d);
    assert_eq!(drops.get(), 1);
}
