use std::cell::RefCell;
use std::sync::atomic::AtomicU64;
use std::sync::atomic::Ordering;
use sync_primitives::mutex::back_off;
use sync_primitives::mutex::choose_backoff;
use sync_primitives::mutex::lock_contended;
use sync_primitives::mutex::lock_fast;
use sync_primitives::mutex::release_must_wake;
use sync_primitives::mutex::swap_acquired;
use sync_primitives::mutex::Backoff;
use sync_primitives::mutex::Mutex;
use sync_primitives::mutex::CONTENDED;
use sync_primitives::mutex::LOCKED;
use sync_primitives::mutex::SPIN_LIMIT;
use sync_primitives::mutex::UNLOCKED;

#[test]
fn test_mutex_single_thread() {
    let mutex = Mutex::new();
    let data = RefCell::new(5);
    {
        let guard = mutex.lock(0).unwrap();
        assert_eq!(*data.borrow(), 5);
        *data.borrow_mut() = 10; // Modify the value
        guard.unlock();
    }
    let guard = mutex.lock(0).unwrap();
    assert_eq!(*data.borrow(), 10); // Check the modified value
    guard.unlock();
}

#[test]
fn test_mutex_with_fn() {
    let mutex = Mutex::new();
    let data: RefCell<Vec<i32>> = RefCell::new(vec![]);

    let first = mutex.with_fn(0, || {
        data.borrow_mut().push(1);
        data.borrow_mut().push(2);
    });
    assert!(first.is_some());

    let second = mutex.with_fn(0, || {
        data.borrow_mut().push(3);
    });
    assert!(second.is_some());

    let third = mutex.with_fn(0, || {
        assert_eq!(data.borrow().len(), 3);
        assert_eq!(data.borrow()[0], 1);
        assert_eq!(data.borrow()[1], 2);
        assert_eq!(data.borrow()[2], 3);
    });
    assert!(third.is_some());
}

#[test]
fn mutex_refuses_second_guard_without_blocking() {
    let mutex = Mutex::new();
    let guard = mutex.lock(0).unwrap();
    assert!(mutex.lock(0).is_none());
    assert!(mutex.lock(SPIN_LIMIT as u64).is_none());
    guard.unlock();
    let again = mutex.lock(0);
    assert!(again.is_some());
    again.unwrap().unlock();
}

#[test]
fn mutex_with_fn_reports_a_held_lock() {
    let mutex = Mutex::new();
    let guard = mutex.lock(0).unwrap();
    assert_eq!(mutex.with_fn(3, || 7), None);
    guard.unlock();
    assert_eq!(mutex.with_fn(3, || 7), Some(7));
}

#[test]
fn mutex_guard_names_its_mutex() {
    let mutex = Mutex::new();
    let guard = mutex.lock(0).unwrap();
    assert!(std::ptr::eq(guard.lock_ref(), &mutex));
    assert!(std::ptr::eq(guard.unlock(), &mutex));
}

#[test]
fn mutex_word_rules() {
    assert_eq!((UNLOCKED, LOCKED, CONTENDED), (0, 1, 2));
    assert_eq!(SPIN_LIMIT, 100);
    assert!(swap_acquired(UNLOCKED));
    assert!(!swap_acquired(LOCKED));
    assert!(!swap_acquired(CONTENDED));
    assert!(release_must_wake(CONTENDED));
    assert!(!release_must_wake(LOCKED));
    assert!(!release_must_wake(UNLOCKED));
    assert_eq!(choose_backoff(0), Backoff::Spin);
    assert_eq!(choose_backoff(99), Backoff::Spin);
    assert_eq!(choose_backoff(100), Backoff::Park);
}

#[test]
fn mutex_word_paths() {
    let word = std::sync::atomic::AtomicU32::new(UNLOCKED);
    assert!(lock_fast(&word));
    assert_eq!(word.load(Ordering::Relaxed), LOCKED);
    assert!(!lock_fast(&word));
    let lost = lock_contended(&word, 5);
    assert!(!lost.acquired);
    assert_eq!((lost.backoffs, lost.spins), (5, 5));
    assert_eq!(word.load(Ordering::Relaxed), CONTENDED);
    assert_eq!(back_off(&word, 0), 1);
    assert_eq!(back_off(&word, 99), 100);
    word.store(UNLOCKED, Ordering::Relaxed);
    // the word is no longer CONTENDED, so the park returns at once
    assert_eq!(back_off(&word, 100), 100);
    let won = lock_contended(&word, 0);
    assert!(won.acquired);
    assert_eq!((won.backoffs, won.spins), (0, 0));
    assert_eq!(word.load(Ordering::Relaxed), LOCKED);
}

#[test]
fn mutex_counts_every_increment_of_every_worker() {
    let mutex = Mutex::new();
    let counter = AtomicU64::new(0);
    let workers: u64 = 100;
    let each: u64 = 100_000;
    for _ in 0..each {
        for _ in 0..workers {
            let guard = mutex.lock(0).unwrap();
            let seen = counter.load(Ordering::Relaxed);
            counter.store(seen + 1, Ordering::Relaxed);
            guard.unlock();
        }
    }
    assert_eq!(counter.load(Ordering::Relaxed), 10_000_000);
}

#[test]
fn mutex_lets_one_worker_in_at_a_time() {
    let mutex = Mutex::new();
    let counter = AtomicU64::new(0);
    for _ in 0..200 {
        for _ in 0..8 {
            let guard = mutex.lock(0).unwrap();
            // while one worker is in, no other gets in
            assert!(mutex.lock(0).is_none());
            let seen = counter.load(Ordering::Relaxed);
            counter.store(seen + 1, Ordering::Relaxed);
            guard.unlock();
        }
    }
    assert_eq!(counter.load(Ordering::Relaxed), 1_600);
}
