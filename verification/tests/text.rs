use annotate::text::{chars_of, digit_value_of, push_decimal};

#[test]
fn characters_are_codepoints() {
    assert_eq!(chars_of("aé日😀"), vec!['a', 'é', '日', '😀']);
    assert!(chars_of("").is_empty());
}

#[test]
fn numerals_have_no_leading_zero() {
    for (n, text) in [(0u64, "0"), (9, "9"), (10, "10"), (2000, "2000"), (u64::MAX, "18446744073709551615")] {
        let mut out = String::from("n=");
        push_decimal(&mut out, n);
        assert_eq!(out, format!("n={}", text));
        assert_eq!(out, format!("n={}", n));
    }
}

#[test]
fn digits_have_values() {
    for d in 0..10u64 {
        assert_eq!(digit_value_of(char::from_digit(d as u32, 10).unwrap()), Some(d));
    }
    assert_eq!(digit_value_of('a'), None);
    assert_eq!(digit_value_of('٣'), None);
}
