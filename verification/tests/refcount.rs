use sync_primitives::refcount::joined_one_too_many;
use sync_primitives::refcount::left_as_last;
use sync_primitives::refcount::one_more;
use sync_primitives::refcount::LocalCount;
use sync_primitives::refcount::SharedCount;
use sync_primitives::refcount::MAX_OWNERS;

#[test]
fn rc_it_works() {
    let rc = LocalCount::new();
    assert!(rc.increment());
    assert_eq!(rc.strong(), 2);
    assert_eq!(rc.strong(), 2);
}

#[test]
fn local_count_frees_with_the_last_owner() {
    let count = LocalCount::new();
    assert_eq!(count.strong(), 1);
    assert!(count.increment());
    assert!(count.increment());
    assert_eq!(count.strong(), 3);
    assert!(!count.decrement());
    assert!(!count.decrement());
    assert_eq!(count.strong(), 1);
    assert!(count.decrement());
}

#[test]
fn shared_count_frees_with_the_last_owner() {
    let count = SharedCount::new();
    assert!(!count.increment());
    assert!(!count.increment());
    assert!(!count.decrement());
    assert!(!count.decrement());
    assert!(count.decrement());
}

#[test]
fn owner_count_rules() {
    assert_eq!(MAX_OWNERS, isize::MAX as usize);
    assert!(!joined_one_too_many(0));
    assert!(!joined_one_too_many(MAX_OWNERS - 1));
    assert!(joined_one_too_many(MAX_OWNERS));
    assert!(joined_one_too_many(usize::MAX));
    assert!(left_as_last(1));
    assert!(!left_as_last(2));
    assert!(!left_as_last(0));
}

#[test]
fn local_count_never_shows_zero() {
    let count = LocalCount::new();
    assert!(count.strong() >= 1);
    assert!(count.increment());
    assert!(!count.decrement());
    // the last owner frees, and the count is left at one
    assert!(count.decrement());
    assert_eq!(count.strong(), 1);
}

#[test]
fn one_more_stops_at_the_limit() {
    assert_eq!(one_more(1), Some(2));
    assert_eq!(one_more(usize::MAX - 1), Some(usize::MAX));
    assert_eq!(one_more(usize::MAX), None);
}
