use bunkr_dl::text::{chars_of, contains_char, joined_text, starts_with, to_decimal};

#[test]
fn numbers_in_decimal() {
    assert_eq!(to_decimal(0), "0");
    assert_eq!(to_decimal(9), "9");
    assert_eq!(to_decimal(10), "10");
    assert_eq!(to_decimal(u64::MAX), "18446744073709551615");
    for n in [1u64, 42, 99, 100, 101, 1_000_000_007] {
        assert_eq!(to_decimal(n), n.to_string());
        assert_eq!(to_decimal(n).parse::<u64>(), Ok(n));
    }
}

#[test]
fn characters_of_a_text() {
    assert_eq!(chars_of("aé✓"), ['a', 'é', '✓']);
    assert!(contains_char("a?b", '?'));
    assert!(!contains_char("ab", '?'));
    assert!(!contains_char("", '?'));
}

#[test]
fn beginnings_of_a_text() {
    assert!(starts_with("Error: x", "Error"));
    assert!(starts_with("x", ""));
    assert!(!starts_with("Err", "Error"));
    assert!(!starts_with("error", "Error"));
    assert_eq!(joined_text("a", "b✓"), "ab✓");
}
