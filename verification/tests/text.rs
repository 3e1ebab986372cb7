use rustconvert::text::{decimal_text, ends_with, join2, join3, starts_with, text_eq, text_less};

#[test]
fn decimal_numbers() {
    assert_eq!(decimal_text(0), "0");
    assert_eq!(decimal_text(7), "7");
    assert_eq!(decimal_text(10), "10");
    assert_eq!(decimal_text(1234567890), "1234567890");
    assert_eq!(decimal_text(usize::MAX), usize::MAX.to_string());
}

#[test]
fn order_is_that_of_strings() {
    let words = ["", "a", "ab", "b", "é", "Z", "page-01", "page-10", "page-2"];
    for a in words {
        for b in words {
            assert_eq!(text_less(a, b), a < b, "{a:?} < {b:?}");
            assert_eq!(text_eq(a, b), a == b);
        }
    }
}

#[test]
fn prefixes_and_suffixes() {
    assert!(starts_with("abc-1.jpg", "abc"));
    assert!(!starts_with("ab", "abc"));
    assert!(ends_with("abc-1.jpg", ".jpg"));
    assert!(!ends_with("abc-1.jpeg", ".jpg"));
    assert!(starts_with("x", ""));
    assert!(ends_with("", ""));
    assert_eq!(join2("a", "b"), "ab");
    assert_eq!(join3("a", "b", "c"), "abc");
}
