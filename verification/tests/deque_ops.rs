use ringdeque::deque::Deque;

#[test]
fn deque_order_mixed_ends() {
    let mut d: Deque<i32> = Deque::new();
    d.push_front(5);
    d.push_front(6);
    d.push_back(11);
    // logical sequence is [6, 5, 11]
    assert_eq!(d.pop_front(), Some(6));
    assert_eq!(d.pop_back(), Some(11));
    assert_eq!(d.pop_front(), Some(5));
    assert_eq!(d.pop_front(), None);
}

#[test]
fn growth_preserves_order_without_loss_or_duplication() {
    let mut d: Deque<u32> = Deque::with_capacity(4);
    for v in [1, 2, 3, 4, 5] {
        d.push_front(v);
    }
    // five front pushes into a capacity-4 deque cross one growth boundary
    assert_eq!(d.capacity_slots(), 8);
    let mut drained = Vec::new();
    while let Some(v) = d.pop_front() {
        drained.push(v);
    }
    assert_eq!(drained, vec![5, 4, 3, 2, 1]);
    assert_eq!(d.len(), 0);
}

#[test]
fn growth_at_the_back_preserves_order() {
    let mut d: Deque<u8> = Deque::with_capacity(2);
    for v in 1..=9 {
        d.push_back(v);
    }
    for v in 1..=9 {
        assert_eq!(d.pop_front(), Some(v));
    }
    assert_eq!(d.pop_front(), None);
}

#[test]
fn pop_on_empty_is_idempotent_at_both_ends() {
    let mut d: Deque<u8> = Deque::new();
    for _ in 0..3 {
        assert_eq!(d.pop_front(), None);
        assert_eq!(d.pop_back(), None);
    }
    d.push_back(9);
    assert_eq!(d.pop_back(), Some(9));
    assert_eq!(d.pop_back(), None);
}

#[test]
fn zero_capacity_deque_grows_on_first_push() {
    let mut d: Deque<u8> = Deque::with_capacity(0);
    assert_eq!(d.capacity_slots(), 0);
    d.push_front(1);
    d.push_back(2);
    assert_eq!(d.pop_front(), Some(1));
    assert_eq!(d.pop_front(), Some(2));
    assert_eq!(d.pop_front(), None);
}

#[test]
fn new_in_matches_with_capacity() {
    let mut d: Deque<u8> = Deque::new_in(6);
    assert_eq!(d.capacity_slots(), 6);
    assert_eq!(d.len(), 0);
    d.push_front(3);
    d.push_back(4);
    assert_eq!(d.pop_back(), Some(4));
    assert_eq!(d.pop_back(), Some(3));
    assert_eq!(d.pop_back(), None);
}

#[test]
fn resize_recenters_and_preserves_contents() {
    let mut d: Deque<u16> = Deque::with_capacity(4);
    d.push_back(1);
    d.push_back(2);
    d.push_front(0);
    d.resize(10);
    assert_eq!(d.capacity_slots(), 10);
    assert_eq!(d.len(), 3);
    assert_eq!(d.get(0), Some(&0));
    assert_eq!(d.get(1), Some(&1));
    assert_eq!(d.get(2), Some(&2));
    assert_eq!(d.get(3), None);
}

#[test]
fn get_reflects_logical_order_across_growth() {
    let mut d: Deque<i32> = Deque::new();
    d.push_front(5);
    d.push_front(6);
    d.push_front(7);
    d.push_back(11);
    d.push_back(12);
    d.push_front(9);
    d.push_front(9);
    d.push_front(9);
    d.push_front(9);
    // the nine pushes cross two growth boundaries: 4 -> 8 -> 16
    assert_eq!(d.capacity_slots(), 16);
    let mut seen = Vec::new();
    for i in 0..d.len() {
        seen.push(*d.get(i).unwrap());
    }
    assert_eq!(seen, vec![9, 9, 9, 9, 7, 6, 5, 11, 12]);
    assert_eq!(d.get(d.len()), None);
}
