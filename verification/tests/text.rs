use torii::number::{parse_number, push_decimal};
use torii::text::{
    chars_of, equal_but_case, find_marked, first_of, is_text, is_white, last_of, next_line,
    next_word, nth_word, same_text, starts_with, text_of, trimmed, trimmed_start,
};

fn samples() -> Vec<&'static str> {
    vec![
        "", "\n", "\r\n", "\r", "a", "a\n", "a\r\n", "a\r", "a\n\nb", "a\r\r\nb\r", "\n\n", " a  b\tc\u{3000}d ",
        "\u{85}x\u{a0}", "\u{2028}y\u{202f}\u{205f}", "\u{200b}z\u{200b}", "héllo wörld", "\u{1680}q\u{2000}\u{200a}",
        "no space", "   ", "\u{feff}bom", "\u{180e}", "\u{1c}\u{1f}", "a\u{b}b\u{c}c",
    ]
}

#[test]
fn characters_come_and_go() {
    for s in samples() {
        let chars = chars_of(s);
        assert_eq!(chars, s.chars().collect::<Vec<char>>());
        assert_eq!(text_of(&chars), s);
    }
}

#[test]
fn lines_are_those_of_the_standard_library() {
    for s in samples() {
        let chars = chars_of(s);
        let mut rest: &[char] = &chars;
        let mut got = Vec::new();
        while let Some((line, after)) = next_line(rest) {
            got.push(text_of(line));
            rest = after;
        }
        assert_eq!(got, s.lines().map(|l| l.to_string()).collect::<Vec<String>>());
    }
}

#[test]
fn words_are_those_of_the_standard_library() {
    for s in samples() {
        let chars = chars_of(s);
        let mut rest: &[char] = &chars;
        let mut got = Vec::new();
        while let Some((word, after)) = next_word(rest) {
            got.push(text_of(word));
            rest = after;
        }
        assert_eq!(got, s.split_whitespace().map(|w| w.to_string()).collect::<Vec<String>>());
        for n in 0..5 {
            assert_eq!(nth_word(&chars, n).map(text_of).as_deref(), s.split_whitespace().nth(n));
        }
    }
}

#[test]
fn trimming_is_that_of_the_standard_library() {
    for s in samples() {
        let chars = chars_of(s);
        assert_eq!(text_of(trimmed(&chars)), s.trim());
        assert_eq!(text_of(trimmed_start(&chars)), s.trim_start());
    }
}

#[test]
fn white_space_is_that_of_the_standard_library() {
    for n in 0..=0x10ffffu32 {
        if let Some(c) = char::from_u32(n) {
            assert_eq!(is_white(c), c.is_whitespace(), "{n:x}");
        }
    }
}

#[test]
fn positions_are_found() {
    let chars = chars_of("a:b:c");
    assert_eq!(first_of(&chars, ':'), Some(1));
    assert_eq!(last_of(&chars, ':'), Some(3));
    assert_eq!(first_of(&chars, '/'), None);
    assert_eq!(last_of(&chars, '/'), None);
    assert_eq!(first_of(&[], ':'), None);
}

#[test]
fn texts_are_compared() {
    assert!(equal_but_case(&chars_of("LoCation"), &chars_of("location")));
    assert!(!equal_but_case(&chars_of("location"), &chars_of("locatio")));
    assert!(!equal_but_case(&chars_of("É"), &chars_of("é")));
    assert!(!equal_but_case(&chars_of("[@"), &chars_of("{`")));
    assert!(starts_with(&chars_of("http://x"), "http://"));
    assert!(!starts_with(&chars_of("http:/"), "http://"));
    assert!(starts_with(&[], ""));
    assert!(is_text(&chars_of("torii"), "torii"));
    assert!(!is_text(&chars_of("toriis"), "torii"));
    assert!(same_text("…", "…"));
    assert!(!same_text("q", "Q"));
}

#[test]
fn marked_lines_are_found() {
    let chars = chars_of("a\n== b\n== c\n");
    assert_eq!(find_marked(&chars, "== ").map(text_of).as_deref(), Some("b"));
    assert_eq!(find_marked(&chars, "=== ").map(text_of), None);
    assert_eq!(find_marked(&[], "").map(text_of), None);
}

#[test]
fn numbers_are_read_as_the_standard_library_reads_them() {
    for s in ["", "0", "7", "007", "+7", "+", "++7", "-7", "-0", "7 ", " 7", "1_0", "18446744073709551615", "18446744073709551616", "99999999999999999999", "65535", "65536", "٣", "1a", "+18446744073709551615", "4294967295", "4294967296"] {
        let chars = chars_of(s);
        assert_eq!(parse_number(&chars, u64::MAX), s.parse::<u64>().ok(), "{s}");
        assert_eq!(parse_number(&chars, u16::MAX as u64), s.parse::<u16>().ok().map(|n| n as u64), "{s}");
        assert_eq!(parse_number(&chars, u32::MAX as u64), s.parse::<u32>().ok().map(|n| n as u64), "{s}");
    }
    assert_eq!(parse_number(&chars_of("0"), 0), Some(0));
    assert_eq!(parse_number(&chars_of("1"), 0), None);
    assert_eq!(parse_number(&chars_of("7"), 5), None);
}

#[test]
fn a_written_number_is_read_back() {
    for n in [0u64, 1, 9, 10, 11, 99, 100, 65535, 1_700_000_000, u64::MAX] {
        let mut out = String::from("n=");
        push_decimal(&mut out, n);
        assert_eq!(out, format!("n={n}"));
        assert_eq!(parse_number(&chars_of(&out[2..]), u64::MAX), Some(n));
    }
}
