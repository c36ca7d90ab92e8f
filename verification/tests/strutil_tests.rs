use jc_os::strutil::{split_first_space, str_eq, trim, two_digits, u32_to_string, u64_to_string};

#[test]
fn str_eq_compares_contents() {
    assert!(str_eq("abc", "abc"));
    assert!(!str_eq("abc", "abd"));
    assert!(str_eq("", ""));
    assert!(!str_eq("a", ""));
}

#[test]
fn trim_strips_spaces() {
    assert_eq!(trim("  hello  "), "hello");
    assert_eq!(trim("hello"), "hello");
    assert_eq!(trim("   "), "");
    assert_eq!(trim(""), "");
    assert_eq!(trim(" a b "), "a b");
}

#[test]
fn split_takes_first_word() {
    let (c, a) = split_first_space("note file.txt some text");
    assert_eq!(c, "note");
    assert_eq!(a, "file.txt some text");
    let (c, a) = split_first_space("help");
    assert_eq!(c, "help");
    assert_eq!(a, "");
    let (c, a) = split_first_space("");
    assert_eq!(c, "");
    assert_eq!(a, "");
}

#[test]
fn numbers_render_in_decimal() {
    assert_eq!(u64_to_string(0), "0");
    assert_eq!(u64_to_string(7), "7");
    assert_eq!(u64_to_string(12345), "12345");
    assert_eq!(u64_to_string(u64::MAX), "18446744073709551615");
    assert_eq!(u32_to_string(1000), "1000");
}

#[test]
fn two_digits_pads_with_zero() {
    assert_eq!(two_digits(0), "00");
    assert_eq!(two_digits(7), "07");
    assert_eq!(two_digits(59), "59");
}
