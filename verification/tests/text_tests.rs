use playarr::text::joined;
use playarr::text::int_to_string;
use playarr::text::push_digits;
use playarr::text::push_int;
use playarr::text::push_pad2;
use playarr::text::same_text;
use playarr::text::text_is_less;

#[test]
fn int_to_string_writes_decimal() {
    assert_eq!(int_to_string(0), "0");
    assert_eq!(int_to_string(7), "7");
    assert_eq!(int_to_string(10), "10");
    assert_eq!(int_to_string(1234567890), "1234567890");
    assert_eq!(int_to_string(-42), "-42");
    assert_eq!(int_to_string(i64::MAX), "9223372036854775807");
    assert_eq!(int_to_string(i64::MIN), "-9223372036854775808");
}

#[test]
fn push_digits_appends() {
    let mut s = String::from("n=");
    push_digits(&mut s, u64::MAX);
    assert_eq!(s, "n=18446744073709551615");
    let mut t = String::from("x");
    push_int(&mut t, -5);
    assert_eq!(t, "x-5");
}

#[test]
fn push_pad2_pads_to_two_digits() {
    let mut s = String::new();
    push_pad2(&mut s, 5);
    push_pad2(&mut s, 0);
    push_pad2(&mut s, 42);
    push_pad2(&mut s, 123);
    assert_eq!(s, "050042123");
}

#[test]
fn concat_joins() {
    assert_eq!(joined("ab", "cd"), "abcd");
    assert_eq!(joined("", ""), "");
}

#[test]
fn text_order_is_lexicographic() {
    assert!(text_is_less("a", "b"));
    assert!(!text_is_less("b", "a"));
    assert!(text_is_less("ab", "abc"));
    assert!(!text_is_less("abc", "ab"));
    assert!(!text_is_less("abc", "abc"));
    assert!(text_is_less("", "a"));
    assert!(!text_is_less("", ""));
    assert!(text_is_less("2023-01-01T00:00:00Z", "2023-02-01T00:00:00Z"));
    assert!(text_is_less("Z", "a"));
    assert!(text_is_less("z", "é"));
    assert_eq!(text_is_less("é", "z"), "é" < "z");
}

#[test]
fn same_text_compares_contents() {
    assert!(same_text(&String::from("poster"), "poster"));
    assert!(!same_text(&String::from("poster"), "banner"));
    assert!(!same_text(&String::from("poster"), "poste"));
}
