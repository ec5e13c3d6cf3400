use timewarp::lexer::{read_digits, scan_run, CharClass};
use timewarp::text::chars_of;

fn chars(s: &str) -> Vec<char> {
    s.chars().collect()
}

#[test]
fn the_characters_of_a_text_come_in_order() {
    assert_eq!(chars_of("15 µs"), vec!['1', '5', ' ', 'µ', 's']);
    assert_eq!(chars_of(""), Vec::<char>::new());
    assert_eq!(chars_of("añ\u{1F600}b"), vec!['a', 'ñ', '\u{1F600}', 'b']);
}

#[test]
fn each_class_holds_its_characters() {
    for c in [' ', '\t', '\n', '\r'] {
        assert!(CharClass::Space.contains(c), "{:?}", c);
        assert!(!CharClass::Digit.contains(c));
        assert!(!CharClass::Letter.contains(c));
    }
    for c in ['\u{b}', '\u{c}', '\u{a0}', 'x', '0', '_'] {
        assert!(!CharClass::Space.contains(c), "{:?}", c);
    }
    for c in ['0', '1', '5', '9'] {
        assert!(CharClass::Digit.contains(c));
        assert!(!CharClass::Letter.contains(c));
    }
    for c in ['/', ':', 'a', '٣', '²'] {
        assert!(!CharClass::Digit.contains(c), "{:?}", c);
    }
    for c in ['a', 'z', 'A', 'Z', 'm', 'µ'] {
        assert!(CharClass::Letter.contains(c));
    }
    for c in ['`', '{', '@', '[', 'ñ', 'μ', 'é', '1', ' ', '-', '.'] {
        assert!(!CharClass::Letter.contains(c), "{:?}", c);
    }
}

#[test]
fn a_run_ends_at_the_first_character_of_another_class() {
    let s = chars("  12ab  ");
    assert_eq!(scan_run(&s, 0, CharClass::Space), 2);
    assert_eq!(scan_run(&s, 1, CharClass::Space), 2);
    assert_eq!(scan_run(&s, 2, CharClass::Space), 2);
    assert_eq!(scan_run(&s, 2, CharClass::Digit), 4);
    assert_eq!(scan_run(&s, 4, CharClass::Digit), 4);
    assert_eq!(scan_run(&s, 4, CharClass::Letter), 6);
    assert_eq!(scan_run(&s, 6, CharClass::Space), 8);
    assert_eq!(scan_run(&s, 8, CharClass::Space), 8);
    assert_eq!(scan_run(&[], 0, CharClass::Letter), 0);
}

#[test]
fn digits_are_read_as_a_decimal_number() {
    let s = chars("x0042y");
    assert_eq!(read_digits(&s, 1, 5, 0), Some(42));
    assert_eq!(read_digits(&s, 1, 1, 0), Some(0));
    assert_eq!(read_digits(&s, 3, 5, 7), Some(742));
    assert_eq!(read_digits(&s, 1, 3, 9), Some(900));
    assert_eq!(read_digits(&s, 5, 5, 123), Some(123));
}

#[test]
fn digits_beyond_u64_are_none() {
    let s = chars("18446744073709551615");
    assert_eq!(read_digits(&s, 0, 20, 0), Some(u64::MAX));
    let s = chars("18446744073709551616");
    assert_eq!(read_digits(&s, 0, 20, 0), None);
    let s = chars("184467440737095516150");
    assert_eq!(read_digits(&s, 0, 21, 0), None);
    let s = chars("5");
    assert_eq!(read_digits(&s, 0, 1, 1_844_674_407_370_955_161), Some(u64::MAX));
    let s = chars("6");
    assert_eq!(read_digits(&s, 0, 1, 1_844_674_407_370_955_161), None);
    let s = chars("0");
    assert_eq!(read_digits(&s, 0, 1, 1_844_674_407_370_955_162), None);
}
