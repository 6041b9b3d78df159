use chill::text::{
    char_count, contains_char, find_char, is_all_hex, is_hex_digit_char, same_text, text_less,
    u64_to_decimal,
};

#[test]
fn text_decimal_numerals() {
    assert_eq!("0", u64_to_decimal(0));
    assert_eq!("7", u64_to_decimal(7));
    assert_eq!("10", u64_to_decimal(10));
    assert_eq!("1234567890", u64_to_decimal(1234567890));
    assert_eq!("18446744073709551615", u64_to_decimal(u64::MAX));
}

#[test]
fn text_hex_digits() {
    for c in "0123456789abcdefABCDEF".chars() {
        assert!(is_hex_digit_char(c), "{}", c);
    }
    for c in "gG/:@`-+ \u{e9}\u{ff11}".chars() {
        assert!(!is_hex_digit_char(c), "{}", c);
    }
    assert!(is_all_hex(""));
    assert!(is_all_hex("09afAF"));
    assert!(!is_all_hex("09afAg"));
    assert!(!is_all_hex("12-34"));
}

#[test]
fn text_comparisons() {
    assert!(same_text("abc", "abc"));
    assert!(!same_text("abc", "abd"));
    assert!(!same_text("abc", "ab"));
    assert!(text_less("", "a"));
    assert!(!text_less("", ""));
    assert!(!text_less("a", ""));
    assert!(text_less("ab", "abc"));
    assert!(!text_less("abc", "ab"));
    assert!(text_less("abc", "abd"));
    assert!(!text_less("abd", "abc"));
    assert!(text_less("B", "a"));
    assert!(!text_less("abc", "abc"));
    assert!(text_less("z", "\u{e9}"));
    for (a, b) in [("a", "b"), ("10", "9"), ("", "x"), ("xy", "x"), ("same", "same")] {
        assert_eq!(a < b, text_less(a, b), "{} {}", a, b);
    }
}

#[test]
fn text_search() {
    assert_eq!(Some(0), find_char("-abc", '-'));
    assert_eq!(Some(2), find_char("12-34-56", '-'));
    assert_eq!(None, find_char("1234", '-'));
    assert_eq!(None, find_char("", '-'));
    assert_eq!(Some(1), find_char("\u{e9}-", '-'));
    assert!(contains_char("a/b", '/'));
    assert!(!contains_char("ab", '/'));
    assert_eq!(2, char_count("\u{e9}-"));
    assert_eq!(0, char_count(""));
}
