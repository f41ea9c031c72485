use turbobench::text::{copy_option, decimal_string, join, push_decimal, same_text, sorts_before};

#[test]
fn decimal_numerals() {
    assert_eq!(decimal_string(0), "0");
    assert_eq!(decimal_string(9), "9");
    assert_eq!(decimal_string(10), "10");
    assert_eq!(decimal_string(1_020_300), "1020300");
    assert_eq!(decimal_string(u64::MAX), "18446744073709551615");
    let mut s = String::from("n=");
    push_decimal(&mut s, 407);
    assert_eq!(s, "n=407");
}

#[test]
fn equal_texts() {
    assert!(same_text("", ""));
    assert!(same_text("abc é", "abc é"));
    assert!(!same_text("abc", "abd"));
    assert!(!same_text("abc", "ab"));
    assert!(!same_text("", "a"));
}

#[test]
fn order_of_texts() {
    let words = ["", "a", "ab", "b", "é", "日"];
    for (i, x) in words.iter().enumerate() {
        for (j, y) in words.iter().enumerate() {
            assert_eq!(sorts_before(x, y), i < j);
        }
    }
}

#[test]
fn joining() {
    assert_eq!(join(&vec![], ", "), "");
    assert_eq!(join(&vec!["a".into()], ", "), "a");
    assert_eq!(join(&vec!["a".into(), "".into(), "b".into()], ", "), "a, , b");
}

#[test]
fn optional_texts() {
    assert_eq!(copy_option(&None), None);
    assert_eq!(copy_option(&Some("x".to_string())), Some("x".to_string()));
}
