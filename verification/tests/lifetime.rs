use sync_primitives::safe::lifetime::str_tok;

#[test]
fn test_str_tok() {
    let s = "hello,world,test".to_string();
    let mut token = s.as_str();
    let mut ret = str_tok(&mut token, ',').unwrap();
    assert_eq!(ret, "hello");
    assert_eq!(token, "world,test");
    ret = str_tok(&mut token, ',').unwrap();
    assert_eq!(ret, "world");
    assert_eq!(token, "test");
    ret = str_tok(&mut token, ',').unwrap();
    assert_eq!(ret, "test");
    assert_eq!(token, "");
}

#[test]
fn str_tok_on_the_empty_string_and_on_a_wide_delimiter() {
    let mut rest = "";
    assert_eq!(str_tok(&mut rest, ','), Some(""));
    assert_eq!(rest, "");
    let mut rest = "a❤b❤";
    assert_eq!(str_tok(&mut rest, '❤'), Some("a"));
    assert_eq!(rest, "b❤");
    assert_eq!(str_tok(&mut rest, '❤'), Some("b"));
    assert_eq!(rest, "");
}
