use doctor_git::text::{
    bytes_within, chars_of, contains_chars, find, first_line, split_lines, string_of, trim_chars,
    utf8_width, white_space,
};

fn chars(s: &str) -> Vec<char> {
    s.chars().collect()
}

fn text(v: &[char]) -> String {
    v.iter().collect()
}

#[test]
fn chars_and_string_round_trip() {
    let v = chars_of("Ação rápida");
    assert_eq!(v, chars("Ação rápida"));
    assert_eq!(string_of(&v), "Ação rápida");
}

#[test]
fn utf8_widths_follow_the_encoding() {
    assert_eq!(utf8_width('a'), 1);
    assert_eq!(utf8_width('é'), 2);
    assert_eq!(utf8_width('€'), 3);
    assert_eq!(utf8_width('🎉'), 4);
}

#[test]
fn bytes_within_counts_utf8_bytes() {
    assert_eq!(bytes_within(0, &chars("ééé"), 6), Some(6));
    assert_eq!(bytes_within(0, &chars("ééé"), 5), None);
    assert_eq!(bytes_within(3, &chars("ab"), 5), Some(5));
    assert_eq!(bytes_within(4, &chars("ab"), 5), None);
}

#[test]
fn white_space_matches_char_is_whitespace() {
    for c in ['\t', '\n', ' ', '\u{85}', '\u{a0}', '\u{2003}', '\u{3000}', 'a', '\u{200b}', '_'] {
        assert_eq!(white_space(c), c.is_whitespace(), "{:?}", c);
    }
}

#[test]
fn trim_matches_str_trim() {
    for s in ["  a b  ", "\u{3000}x\t", "", "   ", "abc", "\n\r y \u{a0}"] {
        assert_eq!(text(&trim_chars(&chars(s))), s.trim(), "{:?}", s);
    }
}

#[test]
fn split_lines_matches_str_lines() {
    for s in ["a\nb", "a\r\nb\r\n", "a\n\n", "", "\n", "baz\r", "x\r\ry\nz", "one"] {
        let got: Vec<String> = split_lines(&chars(s)).iter().map(|l| text(l)).collect();
        let want: Vec<String> = s.lines().map(|l| l.to_string()).collect();
        assert_eq!(got, want, "{:?}", s);
    }
}

#[test]
fn first_line_is_first_of_lines_or_empty() {
    assert_eq!(text(&first_line(&chars("abc\r\ndef"))), "abc");
    assert_eq!(text(&first_line(&chars("\nabc"))), "");
    assert_eq!(text(&first_line(&chars(""))), "");
    assert_eq!(text(&first_line(&chars("solo"))), "solo");
}

#[test]
fn find_gives_first_occurrence_from_start() {
    let hay = chars("abcabc");
    assert_eq!(find(&hay, &chars("bc"), 0), Some(1));
    assert_eq!(find(&hay, &chars("bc"), 2), Some(4));
    assert_eq!(find(&hay, &chars("bd"), 0), None);
    assert!(contains_chars(&hay, &chars("cab")));
    assert!(!contains_chars(&hay, &chars("abcabcd")));
}
