use gomoku::text::{
    chars_of, contains_text, decimal_text, is_white_space, parse_number, split_text, trim_end_text, trim_text,
};

#[test]
fn white_space_is_what_unicode_says() {
    for c in '\0'..=char::MAX {
        assert_eq!(is_white_space(c), c.is_whitespace(), "{:x}", c as u32);
    }
}

#[test]
fn numbers_are_read_as_the_standard_library_reads_them() {
    let samples = [
        "0", "7", "007", "+12", "18446744073709551615", "18446744073709551616", "99999999999999999999999", "", "+",
        "-1", "1 ", " 1", "1a", "++1", "\u{661}",
    ];
    for s in samples {
        assert_eq!(parse_number(s), s.parse::<usize>().ok(), "{s:?}");
    }
}

#[test]
fn decimal_notation_reads_back() {
    for n in [0u64, 9, 10, 12_345, u64::MAX] {
        assert_eq!(decimal_text(n), n.to_string());
        assert_eq!(parse_number(&decimal_text(n)), Some(n as usize));
    }
}

#[test]
fn pieces_lie_between_separators() {
    for s in ["", ";", "a;b", ";a;;b;", "abc"] {
        let expected: Vec<&str> = s.split(';').collect();
        assert_eq!(split_text(s, ';'), expected);
    }
}

#[test]
fn trimming_takes_off_the_ends() {
    for s in ["", "  ", " a b ", "\u{2003}x\u{a0}", "y"] {
        assert_eq!(trim_text(s), s.trim());
    }
    for s in ["", "/", "a//", "/a/b/", "ab"] {
        assert_eq!(trim_end_text(s, '/'), s.trim_end_matches('/'));
    }
}

#[test]
fn parts_are_found() {
    for (s, part) in [("BlackWin", "Black"), ("aab", "ab"), ("", ""), ("a", ""), ("ab", "abc"), ("abab", "ba"), ("x", "y")] {
        assert_eq!(contains_text(s, part), s.contains(part), "{s} {part}");
    }
}

#[test]
fn characters_are_listed() {
    assert_eq!(chars_of("aé"), vec!['a', 'é']);
}
