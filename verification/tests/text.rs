use plan::{is_whitespace, push_decimal, text_contains};

#[test]
fn decimal_representation() {
    for n in [0u128, 7, 10, 99, 1234567890, u128::MAX] {
        let mut s = String::from("n=");
        push_decimal(&mut s, n);
        assert_eq!(s, format!("n={n}"));
    }
}

#[test]
fn substring_search() {
    assert!(text_contains("hello", ""));
    assert!(text_contains("hello", "ell"));
    assert!(text_contains("hello", "hello"));
    assert!(!text_contains("hello", "hello!"));
    assert!(!text_contains("", "a"));
    assert!(text_contains("naïve café", "é"));
}

#[test]
fn whitespace_agrees_with_std() {
    for c in (0u32..=0x10ffff).filter_map(char::from_u32) {
        assert_eq!(is_whitespace(c), c.is_whitespace(), "{:?}", c);
    }
}
