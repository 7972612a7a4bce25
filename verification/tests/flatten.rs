use std::collections::VecDeque;
use sync_primitives::safe::flatten::deque_from;
use sync_primitives::safe::flatten::flatten;
use sync_primitives::safe::flatten::Flatten;
use sync_primitives::safe::flatten::IteratorExt;

#[test]
fn flatten_count() {
    let v = vec![vec![1, 2, 3], vec![4, 5, 6]];
    let iter = Flatten::new(v);
    assert_eq!(iter.count(), 6);
    let v = vec![vec![1, 2, 3], vec![], vec![4, 5, 6]];
    let iter = Flatten::new(v);
    assert_eq!(iter.count(), 6);
    let v: Vec<Vec<i32>> = vec![];
    let iter = Flatten::new(v);
    assert_eq!(iter.count(), 0);
}

#[test]
fn flatten_flatten_empty_inner() {
    let v = vec![vec![1], vec![], vec![3]];
    let mut iter = flatten(v);
    assert_eq!(iter.next(), Some(1));
    assert_eq!(iter.next(), Some(3));
    assert_eq!(iter.next(), None);
}

#[test]
fn flatten_flatten_test() {
    let v = vec![vec![1, 2, 3], vec![4, 5, 6]];
    let mut iter = Flatten::new(v);
    assert_eq!(iter.next(), Some(1));
    assert_eq!(iter.next(), Some(2));
    assert_eq!(iter.next(), Some(3));
    assert_eq!(iter.next(), Some(4));
    assert_eq!(iter.next(), Some(5));
    assert_eq!(iter.next(), Some(6));
    assert_eq!(iter.next(), None);
}

#[test]
fn flatten_flatten_double_ended() {
    let v = vec![vec![1, 2, 3], vec![4, 5, 6]];
    let mut iter = Flatten::new(v);
    assert_eq!(iter.next_back(), Some(6));
    assert_eq!(iter.next_back(), Some(5));
    assert_eq!(iter.next_back(), Some(4));
    assert_eq!(iter.next_back(), Some(3));
    assert_eq!(iter.next_back(), Some(2));
    assert_eq!(iter.next_back(), Some(1));
    assert_eq!(iter.next_back(), None);
}

#[test]
fn flatten_flatten_double_ended_mixed() {
    let v = vec![vec![1, 2, 3], vec![4, 5, 6]];
    let mut iter = Flatten::new(v);
    assert_eq!(iter.next(), Some(1));
    assert_eq!(iter.next_back(), Some(6));
    assert_eq!(iter.next(), Some(2));
    assert_eq!(iter.next_back(), Some(5));
    assert_eq!(iter.next(), Some(3));
    assert_eq!(iter.next_back(), Some(4));
    assert_eq!(iter.next_back(), None);
    assert_eq!(iter.next(), None);
}

#[test]
fn flatten_infinite_iter() {
    let v: Vec<Vec<i32>> = (1..5).map(|i| (0..i).collect()).collect();
    let mut iter = Flatten::new(v);
    assert_eq!(iter.next(), Some(0));
    assert_eq!(iter.next(), Some(0));
    assert_eq!(iter.next(), Some(1));
    assert_eq!(iter.next(), Some(0));
    assert_eq!(iter.next(), Some(1));
    assert_eq!(iter.next(), Some(2));
    assert_eq!(iter.next(), Some(0));
}

#[test]
fn flatten_iter_flatten() {
    let v = vec![vec![1, 2, 3], vec![4, 5, 6]];
    let mut iter = v.my_flatten();
    assert_eq!(iter.next(), Some(1));
    assert_eq!(iter.next_back(), Some(6));
    assert_eq!(iter.next(), Some(2));
    assert_eq!(iter.next(), Some(3));
    assert_eq!(iter.next(), Some(4));
    assert_eq!(iter.next(), Some(5));
    assert_eq!(iter.next(), None);
}

#[test]
fn flatten_skips_empty_rows_from_both_ends() {
    let v: Vec<Vec<i32>> = vec![vec![], vec![], vec![1], vec![], vec![2, 3], vec![], vec![]];
    let mut iter = Flatten::new(v);
    assert_eq!(iter.next_back(), Some(3));
    assert_eq!(iter.next(), Some(1));
    assert_eq!(iter.next(), Some(2));
    assert_eq!(iter.next(), None);
    assert_eq!(iter.next_back(), None);
    let only_empty: Vec<Vec<i32>> = vec![vec![], vec![]];
    assert_eq!(Flatten::new(only_empty).next(), None);
}

#[test]
fn flatten_takes_what_the_other_end_opened() {
    let v = vec![vec![1, 2, 3]];
    let mut iter = Flatten::new(v);
    assert_eq!(iter.next(), Some(1));
    // the only row is open at the front: the back end takes from it
    assert_eq!(iter.next_back(), Some(3));
    assert_eq!(iter.next_back(), Some(2));
    assert_eq!(iter.next_back(), None);
    let v = vec![vec![1, 2, 3]];
    let mut iter = Flatten::new(v);
    assert_eq!(iter.next_back(), Some(3));
    assert_eq!(iter.next(), Some(1));
    assert_eq!(iter.next(), Some(2));
    assert_eq!(iter.next(), None);
}

#[test]
fn deque_from_keeps_the_order() {
    assert_eq!(deque_from(vec![1, 2, 3]), VecDeque::from(vec![1, 2, 3]));
    assert_eq!(deque_from(vec!["a"]), VecDeque::from(vec!["a"]));
    assert_eq!(deque_from(Vec::<u8>::new()), VecDeque::new());
}
