//! Numerals, trimming and the order of strings.

use ptbri::text::{append_decimal, append_digits, chars_of, comes_before, parse_integer, trimmed};

#[test]
fn characters_of_a_string() {
    assert_eq!(chars_of(""), Vec::<char>::new());
    assert_eq!(chars_of("aé日𐀀"), vec!['a', 'é', '日', '𐀀']);
}

#[test]
fn numerals_of_natural_numbers() {
    for n in [0u64, 1, 9, 10, 19, 100, 101, 4000, 18446744073709551615] {
        let mut out = String::from("n=");
        append_digits(&mut out, n);
        assert_eq!(out, format!("n={}", n));
    }
}

#[test]
fn numerals_of_integers() {
    for i in [0i64, -1, 1, -10, 2147483647, -2147483648, i64::MAX, i64::MIN] {
        let mut out = String::new();
        append_decimal(&mut out, i);
        assert_eq!(out, format!("{}", i));
    }
}

#[test]
fn trimming_takes_white_space_from_both_ends_only() {
    assert_eq!(trimmed(""), "");
    assert_eq!(trimmed("   "), "");
    assert_eq!(trimmed("a"), "a");
    assert_eq!(trimmed("  a b  "), "a b");
    assert_eq!(trimmed("\t\r\n a\tb \n"), "a\tb");
    assert_eq!(trimmed("12.5\n"), "12.5");
}

#[test]
fn trimming_agrees_with_the_standard_library_on_every_character() {
    for code in 0..=0x3100u32 {
        if let Some(c) = char::from_u32(code) {
            let s = format!("{}x{}", c, c);
            assert_eq!(trimmed(&s), s.trim(), "U+{:04X}", code);
        }
    }
    for c in ['\u{feff}', '\u{200b}', '\u{e000}', '\u{10ffff}'] {
        let s = format!("{} x {}", c, c);
        assert_eq!(trimmed(&s), s.trim());
    }
}

#[test]
fn order_of_strings() {
    assert!(comes_before("", "a"));
    assert!(!comes_before("", ""));
    assert!(!comes_before("a", ""));
    assert!(comes_before("a", "b"));
    assert!(comes_before("ab", "abc"));
    assert!(!comes_before("abc", "ab"));
    assert!(!comes_before("abc", "abc"));
    assert!(comes_before("Zebra", "apple"));
    assert!(comes_before("z", "é"));
}

#[test]
fn what_is_written_can_be_read() {
    for i in [0i32, 1, -1, 9, 10, -10, 99, 100, 12345, -54321, i32::MAX, i32::MIN, i32::MIN + 1] {
        let mut out = String::new();
        append_decimal(&mut out, i as i64);
        assert_eq!(parse_integer(&out), Some(i));
    }
}
