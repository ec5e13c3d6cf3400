use timewarp::samples::{sample_lines, white_space};

#[test]
fn a_text_is_cut_at_each_line_feed() {
    assert_eq!(sample_lines("a\nb\nc"), vec!["a", "b", "c"]);
    assert_eq!(
        sample_lines("Fri May 13 03:13:06 2022\nSat May 14 03:13:06 2022\n"),
        vec!["Fri May 13 03:13:06 2022", "Sat May 14 03:13:06 2022"]
    );
}

#[test]
fn white_space_at_the_two_ends_is_dropped() {
    assert_eq!(sample_lines("\n\n  a\nb  \n\n"), vec!["a", "b"]);
    assert_eq!(sample_lines("\t a \t"), vec!["a"]);
    assert_eq!(sample_lines("\u{a0}a\u{3000}"), vec!["a"]);
    assert_eq!(sample_lines("\u{2003}a b\u{85}"), vec!["a b"]);
}

#[test]
fn white_space_inside_is_kept() {
    assert_eq!(sample_lines("a \n b"), vec!["a ", " b"]);
    assert_eq!(sample_lines("a\r\nb"), vec!["a\r", "b"]);
    assert_eq!(sample_lines("a\n\nb"), vec!["a", "", "b"]);
    assert_eq!(sample_lines("a\n \nb"), vec!["a", " ", "b"]);
}

#[test]
fn a_blank_text_holds_one_empty_sample() {
    assert_eq!(sample_lines(""), vec![""]);
    assert_eq!(sample_lines("   "), vec![""]);
    assert_eq!(sample_lines("\n"), vec![""]);
    assert_eq!(sample_lines(" \n\t\r\n "), vec![""]);
}

#[test]
fn other_characters_are_kept_as_they_are() {
    assert_eq!(sample_lines("é\nµ\n\u{1F600}"), vec!["é", "µ", "\u{1F600}"]);
    assert_eq!(sample_lines("\u{200b}a"), vec!["\u{200b}a"]);
}

#[test]
fn the_lines_are_those_of_std_trim_and_split() {
    for text in ["", " ", "a", "a\nb", "\na\n\nb\n", " a \n b ", "\u{2028}x\ny\u{2029}", "a\rb", "\r\n"] {
        let expected: Vec<String> = text.trim().split('\n').map(String::from).collect();
        assert_eq!(sample_lines(text), expected, "{:?}", text);
    }
}

#[test]
fn white_space_is_what_std_takes_for_it() {
    for code in 0..0x3100u32 {
        if let Some(c) = char::from_u32(code) {
            assert_eq!(white_space(c), c.is_whitespace(), "{:?}", c);
        }
    }
    for c in ['\u{feff}', '\u{e000}', '\u{10000}', '\u{10ffff}'] {
        assert_eq!(white_space(c), c.is_whitespace(), "{:?}", c);
    }
}
