use sync_primitives::vec::Vec;

#[test]
fn test_vec_new() {
    let vec: Vec<i32> = Vec::new();
    assert_eq!(vec.len(), 0);
    assert_eq!(vec.cap(), 0);
}

#[test]
fn test_vec_push_pop() {
    let mut vec = Vec::new();
    vec.push(1);
    vec.push(2);
    vec.push(3);
    assert_eq!(vec.len(), 3);
    assert_eq!(vec.cap(), 4); // Initial capacity should be 4 after first grow

    assert_eq!(vec.pop(), Some(3));
    assert_eq!(vec.len(), 2);
    assert_eq!(vec.cap(), 4);

    assert_eq!(vec.pop(), Some(2));
    assert_eq!(vec.len(), 1);
    assert_eq!(vec.cap(), 4);

    assert_eq!(vec.pop(), Some(1));
    assert_eq!(vec.len(), 0);
    assert_eq!(vec.cap(), 4);

    assert_eq!(vec.pop(), None); // Should return None when empty
}

#[test]
fn test_vec_grow() {
    let mut vec = Vec::new();
    for i in 0..10 {
        vec.push(i);
    }
    assert_eq!(vec.len(), 10);
    assert!(vec.cap() >= 10); // Capacity should be at least 10 after multiple pushes
}

#[test]
fn test_vec_drop() {
    struct DropCounter {
        value: i32,
    }
    impl Drop for DropCounter {
        fn drop(&mut self) {
            println!("Dropping {}", self.value);
        }
    }
    {
        let mut vec = Vec::new();
        for i in 0..5 {
            vec.push(DropCounter { value: i });
        }
        assert_eq!(vec.len(), 5);
    } // vec goes out of scope here, and DropCounter instances should be dropped
}

#[test]
fn test_vec_insert_remove() {
    let mut vec = Vec::new();
    vec.push(1);
    vec.push(2);
    vec.push(3);
    assert_eq!(vec.len(), 3);

    vec.insert(1, 4); // Insert 4 at index 1
    assert_eq!(vec.as_slice()[0], 1);
    assert_eq!(vec.as_slice()[1], 4);
    assert_eq!(vec.as_slice()[2], 2);
    assert_eq!(vec.as_slice()[3], 3);
    assert_eq!(vec.len(), 4);

    let removed_value = vec.remove(2); // Remove value at index 2
    assert_eq!(removed_value, 2);
    assert_eq!(vec.len(), 3);
}

#[test]
fn test_vec_deref() {
    let mut vec = Vec::new();
    vec.push(1);
    vec.push(2);
    vec.push(3);
    assert_eq!(vec.as_slice()[0], 1);
    assert_eq!(vec.as_slice()[1], 2);
    assert_eq!(vec.as_slice()[2], 3);

    let slice: &[i32] = vec.as_slice();
    assert_eq!(slice.len(), 3);
    assert_eq!(slice[0], 1);
    assert_eq!(slice[1], 2);
    assert_eq!(slice[2], 3);
}

#[test]
fn test_vec_deref_mut() {
    let mut vec = Vec::new();
    vec.push(1);
    vec.push(2);
    vec.push(3);
    assert_eq!(vec.as_slice()[0], 1);
    assert_eq!(vec.as_slice()[1], 2);
    assert_eq!(vec.as_slice()[2], 3);

    let slice: &mut [i32] = vec.as_mut_slice();
    slice[0] = 10;
    slice[1] = 20;
    slice[2] = 30;

    assert_eq!(vec.as_slice()[0], 10);
    assert_eq!(vec.as_slice()[1], 20);
    assert_eq!(vec.as_slice()[2], 30);
}

#[test]
fn mod_test_into_iter() {
    let mut vec = Vec::new();
    vec.push(1);
    vec.push(2);
    vec.push(3);

    let mut iter = vec.into_iter();
    assert_eq!(iter.next(), Some(1));
    assert_eq!(iter.next(), Some(2));
    assert_eq!(iter.next(), Some(3));
    assert_eq!(iter.next(), None); // Should return None when empty

    // Test size_hint
    let (lower, upper) = iter.size_hint();
    assert_eq!(lower, 0);
    assert_eq!(upper, Some(0));
}

#[test]
fn mod_test_into_iter_double_ended() {
    let mut vec = Vec::new();
    vec.push(1);
    vec.push(2);
    vec.push(3);

    let mut iter = vec.into_iter();
    assert_eq!(iter.next_back(), Some(3));
    assert_eq!(iter.next_back(), Some(2));
    assert_eq!(iter.next_back(), Some(1));
    assert_eq!(iter.next_back(), None); // Should return None when empty

    // Test size_hint
    let (lower, upper) = iter.size_hint();
    assert_eq!(lower, 0);
    assert_eq!(upper, Some(0));
}

#[test]
fn test_drain() {
    let mut vec = Vec::new();
    vec.push(1);
    vec.push(2);
    vec.push(3);
    vec.push(4);
    vec.push(5);

    {
        let mut drain = vec.drain(); // Drain all elements
        assert_eq!(drain.next(), Some(1));
        assert_eq!(drain.next(), Some(2));
        assert_eq!(drain.next(), Some(3));
        assert_eq!(drain.next(), Some(4));
        assert_eq!(drain.next(), Some(5));
        assert_eq!(drain.next(), None); // Should return None when empty
    }

    // After draining, vec should be empty
    assert_eq!(vec.len(), 0);
}

#[test]
fn test_vec_size_hint() {
    let mut vec = Vec::new();
    vec.push(1);
    vec.push(2);
    vec.push(3);

    let iter = vec.into_iter();
    let (lower, upper) = iter.size_hint();
    assert_eq!(lower, 3);
    assert_eq!(upper, Some(3));

    // Test with an empty vector
    let empty_vec: Vec<i32> = Vec::new();
    let empty_iter = empty_vec.into_iter();
    let (lower_empty, upper_empty) = empty_iter.size_hint();
    assert_eq!(lower_empty, 0);
    assert_eq!(upper_empty, Some(0));
}

#[test]
fn test_vec_zero_sized_type() {
    #[derive(Debug)]
    struct ZeroSized;

    impl Drop for ZeroSized {
        fn drop(&mut self) {
            // No-op for zero-sized type
            println!("Dropping ZeroSized");
        }
    }

    assert_eq!(std::mem::size_of::<ZeroSized>(), 0);

    let mut vec = Vec::new();
    vec.push(ZeroSized);
    vec.push(ZeroSized);
    vec.push(ZeroSized);

    assert_eq!(vec.len(), 3);
    assert_eq!(vec.cap(), usize::MAX); // Capacity should be usize::MAX for zero-sized types

    let popped = vec.pop();
    assert!(popped.is_some());
    assert_eq!(vec.len(), 2);

    {
        let mut drain = vec.drain();
        assert!(drain.next().is_some());
        assert!(drain.next().is_some());
        assert!(drain.next().is_none());
    }

    assert_eq!(vec.len(), 0);
    assert_eq!(vec.cap(), usize::MAX); // Capacity should remain usize::MAX after draining
}

#[test]
fn test_extend() {
    let mut vec = Vec::new();
    vec.extend(vec![1, 2, 3]);
    assert_eq!(vec.len(), 3);
    assert_eq!(vec.as_slice()[0], 1);
    assert_eq!(vec.as_slice()[1], 2);
    assert_eq!(vec.as_slice()[2], 3);

    vec.extend(vec![4, 5]);
    assert_eq!(vec.len(), 5);
    assert_eq!(vec.as_slice()[3], 4);
    assert_eq!(vec.as_slice()[4], 5);
}

#[test]
fn test_extend_empty() {
    let mut vec = Vec::new();
    vec.extend(std::iter::empty::<i32>().collect());
    assert_eq!(vec.len(), 0);
    assert_eq!(vec.cap(), 0);
}

#[test]
fn test_extend_zero_sized() {
    #[derive(Debug, Clone)]
    struct ZeroSized;

    impl Drop for ZeroSized {
        fn drop(&mut self) {
            // No-op for zero-sized type
            println!("Dropping ZeroSized");
        }
    }

    assert_eq!(std::mem::size_of::<ZeroSized>(), 0);

    let mut vec = Vec::new();
    vec.extend(std::iter::repeat_n(ZeroSized, 5).collect());
    assert_eq!(vec.len(), 5);
    assert_eq!(vec.cap(), usize::MAX); // Capacity should be usize::MAX for zero-sized types

    vec.extend(std::iter::repeat_n(ZeroSized, 3).collect());
    assert_eq!(vec.len(), 8);
}

#[test]
fn test_macro_empty() {
    let vec: Vec<i32> = Vec::new();
    assert_eq!(vec.len(), 0);
    assert_eq!(vec.cap(), 0);
}

#[test]
fn test_macro_single() {
    let vec = {
        let mut vec = Vec::new();
        vec.push(1);
        vec
    };
    assert_eq!(vec.len(), 1);
    assert_eq!(vec.as_slice()[0], 1);
}

#[test]
fn test_macro_multiple() {
    let vec = {
        let mut vec = Vec::new();
        vec.push(1);
        vec.push(2);
        vec.push(3);
        vec.push(4);
        vec.push(5);
        vec
    };
    assert_eq!(vec.len(), 5);
    assert_eq!(vec.as_slice()[0], 1);
    assert_eq!(vec.as_slice()[1], 2);
    assert_eq!(vec.as_slice()[2], 3);
    assert_eq!(vec.as_slice()[3], 4);
    assert_eq!(vec.as_slice()[4], 5);
}

#[test]
fn test_macro_with_trailing_comma() {
    let vec = {
        let mut vec = Vec::new();
        vec.push(1);
        vec.push(2);
        vec.push(3);
        vec.push(4);
        vec.push(5);
        vec
    };
    assert_eq!(vec.len(), 5);
    assert_eq!(vec.as_slice()[0], 1);
    assert_eq!(vec.as_slice()[1], 2);
    assert_eq!(vec.as_slice()[2], 3);
    assert_eq!(vec.as_slice()[3], 4);
    assert_eq!(vec.as_slice()[4], 5);
}

#[test]
fn test_macro_repeat() {
    let vec = {
        let mut vec = Vec::new();
        vec.extend(std::iter::repeat_n(42, 5).collect());
        vec
    };
    assert_eq!(vec.len(), 5);
    let mut items = vec.into_iter();
    while let Some(item) = items.next() {
        assert_eq!(item, 42);
    }
}

#[test]
fn vec_capacity_doubles() {
    let mut vec = Vec::new();
    let mut caps = std::vec::Vec::new();
    for i in 0..9 {
        vec.push(i);
        caps.push(vec.cap());
    }
    assert_eq!(caps, [1, 2, 4, 4, 8, 8, 8, 8, 16]);
    let mut vec = Vec::new();
    vec.extend(vec![1, 2, 3, 4, 5]);
    assert_eq!(vec.cap(), 8);
    vec.extend(vec![6, 7, 8]);
    assert_eq!(vec.cap(), 8);
    vec.insert(0, 0);
    assert_eq!(vec.cap(), 16);
    assert_eq!(vec.as_slice(), [0, 1, 2, 3, 4, 5, 6, 7, 8]);
}

#[test]
fn vec_insert_and_remove_at_the_ends() {
    let mut vec = Vec::new();
    vec.insert(0, 2);
    vec.insert(0, 1);
    vec.insert(2, 3);
    assert_eq!(vec.as_slice(), [1, 2, 3]);
    assert_eq!(vec.remove(0), 1);
    assert_eq!(vec.remove(1), 3);
    assert_eq!(vec.as_slice(), [2]);
    let mut drain = vec.drain();
    assert_eq!(drain.size_hint(), (1, Some(1)));
    assert_eq!(drain.next_back(), Some(2));
    assert_eq!(drain.next_back(), None);
    assert_eq!(vec.cap(), 4);
}
