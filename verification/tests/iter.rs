use sync_primitives::safe::flatten::flatten;
use sync_primitives::safe::flatten::Flatten;
use sync_primitives::safe::flatten::IteratorExt;
use sync_primitives::safe::iter::find_bytes;
use sync_primitives::safe::iter::matches_at;
use sync_primitives::safe::iter::split_first;
use sync_primitives::safe::iter::Delimiter;
use sync_primitives::safe::iter::StrSplit;

#[test]
fn split_test() {
    let s = "hello world,this is rust";
    let mut iter = StrSplit {
        remainder: Some(s),
        delimiter: " ",
    };
    assert_eq!(iter.next(), Some("hello"));
    assert_eq!(iter.next(), Some("world,this"));
    assert_eq!(iter.next(), Some("is"));
    assert_eq!(iter.next(), Some("rust"));
    assert_eq!(iter.next(), None);
}

#[test]
fn split_no_delimiter() {
    let s = "hello";
    let mut iter = StrSplit {
        remainder: Some(s),
        delimiter: " ",
    };
    assert_eq!(iter.next(), Some("hello"));
    assert_eq!(iter.next(), None);
}

#[test]
fn iter_it_works() {
    let haystack = "a b c d e";
    let delimiter = " ";
    let mut splitter = StrSplit {
        remainder: Some(haystack),
        delimiter,
    };

    assert_eq!(splitter.next(), Some("a"));
    assert_eq!(splitter.next(), Some("b"));
    assert_eq!(splitter.next(), Some("c"));
    assert_eq!(splitter.next(), Some("d"));
    assert_eq!(splitter.next(), Some("e"));
    assert_eq!(splitter.next(), None);
}

#[test]
fn split_by_char() {
    let s = "hello world,this is rust";
    let mut iter = StrSplit {
        remainder: Some(s),
        delimiter: ' ',
    };
    assert_eq!(iter.next(), Some("hello"));
    assert_eq!(iter.next(), Some("world,this"));
    assert_eq!(iter.next(), Some("is"));
    assert_eq!(iter.next(), Some("rust"));
    assert_eq!(iter.next(), None);
}

#[test]
fn test_unicode_delimiter() {
    let s = "I love rust🌍Rust is awesome🌍Let's code!❤";
    let mut iter = StrSplit {
        remainder: Some(s),
        delimiter: '🌍',
    };
    assert!('🌍'.len_utf8() == 4);
    assert!('❤'.len_utf8() == 3);
    assert_eq!(iter.next(), Some("I love rust"));
    assert_eq!(iter.next(), Some("Rust is awesome"));
    assert_eq!(iter.next(), Some("Let's code!❤"));
    assert_eq!(iter.next(), None);
}

#[test]
fn iter_count() {
    let v = vec![vec![1, 2, 3], vec![4, 5, 6]];
    let iter = Flatten::new(v);
    assert_eq!(iter.count(), 6);
    let v = vec![vec![1, 2, 3], vec![], vec![4, 5, 6]];
    let iter = Flatten::new(v);
    assert_eq!(iter.count(), 6);
    let v: Vec<Vec<i32>> = vec![];
    let iter = Flatten::new(v);
    assert_eq!(iter.count(), 0);
}

#[test]
fn iter_flatten_empty_inner() {
    let v = vec![vec![1], vec![], vec![3]];
    let mut iter = flatten(v);
    assert_eq!(iter.next(), Some(1));
    assert_eq!(iter.next(), Some(3));
    assert_eq!(iter.next(), None);
}

#[test]
fn iter_flatten_test() {
    let v = vec![vec![1, 2, 3], vec![4, 5, 6]];
    let mut iter = Flatten::new(v);
    assert_eq!(iter.next(), Some(1));
    assert_eq!(iter.next(), Some(2));
    assert_eq!(iter.next(), Some(3));
    assert_eq!(iter.next(), Some(4));
    assert_eq!(iter.next(), Some(5));
    assert_eq!(iter.next(), Some(6));
    assert_eq!(iter.next(), None);
}

#[test]
fn iter_flatten_double_ended() {
    let v = vec![vec![1, 2, 3], vec![4, 5, 6]];
    let mut iter = Flatten::new(v);
    assert_eq!(iter.next_back(), Some(6));
    assert_eq!(iter.next_back(), Some(5));
    assert_eq!(iter.next_back(), Some(4));
    assert_eq!(iter.next_back(), Some(3));
    assert_eq!(iter.next_back(), Some(2));
    assert_eq!(iter.next_back(), Some(1));
    assert_eq!(iter.next_back(), None);
}

#[test]
fn iter_flatten_double_ended_mixed() {
    let v = vec![vec![1, 2, 3], vec![4, 5, 6]];
    let mut iter = Flatten::new(v);
    assert_eq!(iter.next(), Some(1));
    assert_eq!(iter.next_back(), Some(6));
    assert_eq!(iter.next(), Some(2));
    assert_eq!(iter.next_back(), Some(5));
    assert_eq!(iter.next(), Some(3));
    assert_eq!(iter.next_back(), Some(4));
    assert_eq!(iter.next_back(), None);
    assert_eq!(iter.next(), None);
}

#[test]
fn iter_infinite_iter() {
    let v: Vec<Vec<i32>> = (1..5).map(|i| (0..i).collect()).collect();
    let mut iter = Flatten::new(v);
    assert_eq!(iter.next(), Some(0));
    assert_eq!(iter.next(), Some(0));
    assert_eq!(iter.next(), Some(1));
    assert_eq!(iter.next(), Some(0));
    assert_eq!(iter.next(), Some(1));
    assert_eq!(iter.next(), Some(2));
    assert_eq!(iter.next(), Some(0));
}

#[test]
fn iter_iter_flatten() {
    let v = vec![vec![1, 2, 3], vec![4, 5, 6]];
    let mut iter = v.my_flatten();
    assert_eq!(iter.next(), Some(1));
    assert_eq!(iter.next_back(), Some(6));
    assert_eq!(iter.next(), Some(2));
    assert_eq!(iter.next(), Some(3));
    assert_eq!(iter.next(), Some(4));
    assert_eq!(iter.next(), Some(5));
    assert_eq!(iter.next(), None);
}

#[test]
fn split_keeps_empty_tokens() {
    let mut iter = StrSplit {
        remainder: Some(",a,,b,"),
        delimiter: ',',
    };
    assert_eq!(iter.next(), Some(""));
    assert_eq!(iter.next(), Some("a"));
    assert_eq!(iter.next(), Some(""));
    assert_eq!(iter.next(), Some("b"));
    assert_eq!(iter.next(), Some(""));
    assert_eq!(iter.next(), None);
    assert_eq!(iter.next(), None);
}

#[test]
fn split_at_a_longer_delimiter() {
    let mut iter = StrSplit {
        remainder: Some("a--b-c--"),
        delimiter: "--",
    };
    assert_eq!(iter.next(), Some("a"));
    assert_eq!(iter.next(), Some("b-c"));
    assert_eq!(iter.next(), Some(""));
    assert_eq!(iter.next(), None);
    let mut empty = StrSplit {
        remainder: Some(""),
        delimiter: "--",
    };
    assert_eq!(empty.next(), Some(""));
    assert_eq!(empty.next(), None);
    let mut nothing: StrSplit<'_, &str> = StrSplit {
        remainder: None,
        delimiter: "--",
    };
    assert_eq!(nothing.next(), None);
}

#[test]
fn find_gives_the_first_occurrence_in_bytes() {
    assert_eq!(find_bytes("hello world", b"o"), Some((4, 5)));
    assert_eq!(find_bytes("hello world", b"wor"), Some((6, 9)));
    assert_eq!(find_bytes("hello world", b"xyz"), None);
    assert_eq!(find_bytes("hi", b"longer than the haystack"), None);
    assert_eq!(find_bytes("abc", b""), Some((0, 0)));
    assert_eq!(find_bytes("aaa", b"aa"), Some((0, 2)));
    assert_eq!("é=é".find('='), Some(2));
    assert_eq!('='.find_next("é=é"), Some((2, 3)));
    assert_eq!('é'.find_next("aé"), Some((1, 3)));
    assert_eq!("é".find_next("aé"), Some((1, 3)));
    assert_eq!('🌍'.find_next("ab🌍"), Some((2, 6)));
    assert_eq!('x'.find_next("ab🌍"), None);
}

#[test]
fn matches_at_compares_the_bytes() {
    assert!(matches_at(b"hello", b"ell", 1));
    assert!(!matches_at(b"hello", b"ell", 0));
    assert!(matches_at(b"hello", b"", 5));
    assert!(!matches_at(b"hello", b"lo!", 2));
}

#[test]
fn split_first_cuts_around_the_delimiter() {
    assert_eq!(split_first("key=value=more", &'='), Some(("key", "value=more")));
    assert_eq!(split_first("key", &'='), None);
    assert_eq!(split_first("a🌍b", &"🌍"), Some(("a", "b")));
}
