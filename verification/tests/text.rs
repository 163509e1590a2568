use codex_sdk::text::{join, push_decimal, push_integer, same_text, same_texts};

#[test]
fn decimal_is_written_without_leading_zeros() {
    for (number, expected) in [
        (0u64, "0"),
        (7, "7"),
        (10, "10"),
        (109, "109"),
        (u64::MAX, "18446744073709551615"),
    ] {
        let mut out = String::from(">");
        push_decimal(&mut out, number);
        assert_eq!(out, format!(">{}", expected));
    }
}

#[test]
fn integers_carry_their_sign() {
    for number in [0i64, 1, -1, 42, -42, i64::MAX, i64::MIN] {
        let mut out = String::new();
        push_integer(&mut out, number);
        assert_eq!(out, number.to_string());
    }
}

#[test]
fn join_puts_the_separator_between_neighbours() {
    assert_eq!(join(&vec![], ", "), "");
    assert_eq!(join(&vec!["a".to_string()], ", "), "a");
    assert_eq!(
        join(&vec!["a".to_string(), String::new(), "c".to_string()], ", "),
        "a, , c"
    );
}

#[test]
fn same_text_compares_characters() {
    assert_eq!(same_text("", ""), true);
    assert_eq!(same_text("abc", "abc"), true);
    assert_eq!(same_text("abc", "abd"), false);
    assert_eq!(same_text("abc", "ab"), false);
    assert_eq!(same_text("é", "e"), false);
    assert_eq!(same_text("é", "é"), true);
}

#[test]
fn same_texts_compares_lists_in_order() {
    let a = vec!["x".to_string(), "y".to_string()];
    assert_eq!(same_texts(&a, &a.clone()), true);
    assert_eq!(same_texts(&a, &vec!["y".to_string(), "x".to_string()]), false);
    assert_eq!(same_texts(&a, &vec!["x".to_string()]), false);
    assert_eq!(same_texts(&vec![], &vec![]), true);
}
