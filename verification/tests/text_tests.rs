use cloudflared_gui::text::{
    chars_of, concat3, contains_str, find_str, is_all_ascii_letters, is_whitespace_char,
    join_from, parse_unsigned_text, split_lines, split_words, starts_with_str, trim_str,
};

#[test]
fn trims_ascii_and_unicode_whitespace() {
    assert_eq!(trim_str("  ab c \n"), "ab c");
    assert_eq!(trim_str("\u{3000}x\u{a0}"), "x");
    assert_eq!(trim_str(" \t\r\n "), "");
    assert_eq!(trim_str(""), "");
    assert_eq!(trim_str("x"), "x");
}

#[test]
fn trimming_twice_is_trimming_once() {
    for s in ["  a b  ", "\n\tq", "", "   ", "z"] {
        assert_eq!(trim_str(trim_str(s)), trim_str(s));
    }
}

#[test]
fn whitespace_matches_std() {
    for c in [' ', '\t', '\n', '\u{b}', '\u{85}', '\u{a0}', '\u{2009}', '\u{3000}', 'a', '-', '\u{200b}'] {
        assert_eq!(is_whitespace_char(c), c.is_whitespace(), "{:?}", c);
    }
}

#[test]
fn splits_lines_like_str_lines() {
    let s = "a\r\nb\n\nc\n";
    assert_eq!(split_lines(s), vec!["a", "b", "", "c"]);
    assert_eq!(split_lines("x\r"), vec!["x\r"]);
    assert_eq!(split_lines(""), Vec::<String>::new());
    assert_eq!(split_lines("\n"), vec![""]);
    let t = "one\ntwo\r\n\r\nthree";
    let expected: Vec<String> = t.lines().map(|l| l.to_string()).collect();
    assert_eq!(split_lines(t), expected);
}

#[test]
fn splits_words_like_split_whitespace() {
    assert_eq!(split_words(" a  b\tc "), vec!["a", "b", "c"]);
    assert_eq!(split_words(""), Vec::<String>::new());
    assert_eq!(split_words("   "), Vec::<String>::new());
    assert_eq!(split_words("2xHKG,\u{3000}2xLAX"), vec!["2xHKG,", "2xLAX"]);
}

#[test]
fn finds_substrings_by_character_position() {
    assert_eq!(find_str("héllo world", "world"), Some(6));
    assert_eq!(find_str("abc", "d"), None);
    assert_eq!(find_str("abc", ""), Some(0));
    assert_eq!(find_str("aab", "ab"), Some(1));
    assert!(contains_str("[ERR] boom", "ERR"));
    assert!(!contains_str("fine", "ERR"));
    assert!(starts_with_str("ID NAME", "ID "));
    assert!(!starts_with_str("ID", "ID "));
}

#[test]
fn recognises_ascii_letters() {
    assert!(is_all_ascii_letters("mcServer"));
    assert!(is_all_ascii_letters(""));
    assert!(!is_all_ascii_letters("mc1"));
    assert!(!is_all_ascii_letters("é"));
}

#[test]
fn parses_unsigned_numbers_like_str_parse() {
    for s in ["80", "+80", "00080", "65535", "0", "65536", "", "+", "-1", "8 0", "++1", "99999999999"] {
        let expected = s.parse::<u16>().ok().map(|v| v as u64);
        assert_eq!(parse_unsigned_text(s, 65535), expected, "{:?}", s);
    }
    assert_eq!(parse_unsigned_text("18446744073709551615", u64::MAX), Some(u64::MAX));
    assert_eq!(parse_unsigned_text("18446744073709551616", u64::MAX), None);
}

#[test]
fn joins_and_concatenates() {
    let parts = vec!["a".to_string(), "b".to_string(), "c".to_string()];
    assert_eq!(join_from(&parts, 0, ", "), "a, b, c");
    assert_eq!(join_from(&parts, 2, ", "), "c");
    assert_eq!(join_from(&parts, 3, ", "), "");
    assert_eq!(concat3("x", "-", "y"), "x-y");
    assert_eq!(chars_of("hé"), vec!['h', 'é']);
}
