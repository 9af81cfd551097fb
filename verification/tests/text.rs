use loginrs::text::{chars_of, push_decimal, push_int, same_text};

#[test]
fn chars_of_keeps_every_character_in_order() {
    assert_eq!(chars_of("tty2"), vec!['t', 't', 'y', '2']);
    assert_eq!(chars_of(""), Vec::<char>::new());
    assert_eq!(chars_of("a\u{e9}\u{3000}z"), vec!['a', '\u{e9}', '\u{3000}', 'z']);
}

#[test]
fn same_text_compares_characters() {
    assert!(same_text("seat0", "seat0"));
    assert!(same_text("", ""));
    assert!(!same_text("seat0", "seat1"));
    assert!(!same_text("seat0", "seat"));
    assert!(!same_text("", "x"));
}

#[test]
fn push_decimal_writes_the_numeral() {
    let mut out = String::new();
    push_decimal(&mut out, 0);
    assert_eq!(out, "0");

    let mut out = String::from("uid=");
    push_decimal(&mut out, 1001);
    assert_eq!(out, "uid=1001");

    let mut out = String::new();
    push_decimal(&mut out, 10);
    assert_eq!(out, "10");

    let mut out = String::new();
    push_decimal(&mut out, u64::MAX);
    assert_eq!(out, "18446744073709551615");
}

#[test]
fn push_decimal_agrees_with_the_standard_formatting() {
    for n in [0u64, 1, 9, 10, 11, 99, 100, 101, 4294967295, 4294967296, 1234567890123] {
        let mut out = String::new();
        push_decimal(&mut out, n);
        assert_eq!(out, format!("{}", n));
    }
}

#[test]
fn push_int_writes_a_sign_for_negative_numbers() {
    let mut out = String::new();
    push_int(&mut out, 0);
    assert_eq!(out, "0");

    let mut out = String::new();
    push_int(&mut out, 42);
    assert_eq!(out, "42");

    let mut out = String::new();
    push_int(&mut out, -7);
    assert_eq!(out, "-7");

    let mut out = String::new();
    push_int(&mut out, i64::MIN);
    assert_eq!(out, "-9223372036854775808");

    let mut out = String::new();
    push_int(&mut out, i64::MAX);
    assert_eq!(out, "9223372036854775807");
}
