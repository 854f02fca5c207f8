use uberbot::text::{
    char_len, chars_of, find_char, join, parse_bounded, parse_usize, rfind, rfind_char,
    split_after, split_lines, starts_with, str_eq, string_of, to_ascii_lowercase, trim_bounds,
    NumberError,
};

fn chars(s: &str) -> Vec<char> {
    s.chars().collect()
}

#[test]
fn numbers_are_read_like_integers() {
    assert_eq!(parse_usize("0"), Ok(0));
    assert_eq!(parse_usize("42"), Ok(42));
    assert_eq!(parse_usize("+7"), Ok(7));
    assert_eq!(parse_usize("007"), Ok(7));
    assert_eq!(parse_usize(""), Err(NumberError::Empty));
    assert_eq!(parse_usize("+"), Err(NumberError::InvalidDigit));
    assert_eq!(parse_usize("-"), Err(NumberError::InvalidDigit));
    assert_eq!(parse_usize("-3"), Err(NumberError::InvalidDigit));
    assert_eq!(parse_usize("12a"), Err(NumberError::InvalidDigit));
    assert_eq!(parse_usize(" 1"), Err(NumberError::InvalidDigit));
    assert_eq!(parse_usize("٣"), Err(NumberError::InvalidDigit));
}

#[test]
fn numbers_agree_with_the_standard_parser() {
    for s in ["", "+", "-", "1", "+1", "-1", "18446744073709551615", "18446744073709551616",
        "99999999999999999999x", "x99999999999999999999", "1 ", "0000000000000000000000001"] {
        let ours = parse_usize(s).ok();
        let theirs = s.parse::<usize>().ok();
        assert_eq!(ours, theirs, "on {:?}", s);
    }
}

#[test]
fn number_bounds_are_exact() {
    assert_eq!(parse_bounded("255", 255), Ok(255));
    assert_eq!(parse_bounded("256", 255), Err(NumberError::TooLarge));
    assert_eq!(parse_bounded("18446744073709551615", u64::MAX), Ok(u64::MAX));
    assert_eq!(parse_bounded("18446744073709551616", u64::MAX), Err(NumberError::TooLarge));
    assert_eq!(parse_bounded("9", 0), Err(NumberError::TooLarge));
    assert_eq!(parse_bounded("0", 0), Ok(0));
    // the first thing that is wrong, from the left, decides
    assert_eq!(parse_bounded("999x", 99), Err(NumberError::TooLarge));
    assert_eq!(parse_bounded("9x99", 99), Err(NumberError::InvalidDigit));
}

#[test]
fn number_errors_have_words() {
    assert_eq!(NumberError::Empty.message(), "cannot parse integer from empty string");
    assert_eq!(NumberError::InvalidDigit.message(), "invalid digit found in string");
    assert_eq!(NumberError::TooLarge.message(), "number too large to fit in target type");
    assert_eq!(NumberError::Empty.message(), "".parse::<usize>().unwrap_err().to_string());
    assert_eq!(NumberError::InvalidDigit.message(), "x".parse::<usize>().unwrap_err().to_string());
    assert_eq!(
        NumberError::TooLarge.message(),
        "99999999999999999999999".parse::<usize>().unwrap_err().to_string()
    );
}

#[test]
fn trimming_agrees_with_the_standard_library() {
    for s in ["", " ", "a", "  a b \t\n", "\u{a0}x\u{3000}", "\u{200b}x", "x  y", "\r\n"] {
        let v = chars(s);
        let (from, to) = trim_bounds(&v);
        assert_eq!(string_of(&v, from, to), s.trim(), "on {:?}", s);
    }
}

#[test]
fn strings_are_compared_by_their_characters() {
    assert!(str_eq("", ""));
    assert!(str_eq("héllo", "héllo"));
    assert!(!str_eq("hello", "hellO"));
    assert!(!str_eq("hello", "hell"));
    assert_eq!(chars_of("añ√"), vec!['a', 'ñ', '√']);
}

#[test]
fn prefixes_and_searches() {
    assert!(starts_with(&chars("!cmd"), &chars("!")));
    assert!(starts_with(&chars("!cmd"), &chars("")));
    assert!(!starts_with(&chars("!"), &chars("!!")));
    assert!(!starts_with(&chars("cmd"), &chars("!")));
    assert_eq!(find_char(&chars("a b c"), 0, ' '), 1);
    assert_eq!(find_char(&chars("a b c"), 2, ' '), 3);
    assert_eq!(find_char(&chars("abc"), 0, ' '), 3);
    assert_eq!(rfind_char(&chars("a\nb\nc"), 5, '\n'), Some(3));
    assert_eq!(rfind_char(&chars("a\nb\nc"), 3, '\n'), Some(1));
    assert_eq!(rfind_char(&chars("a\nb\nc"), 1, '\n'), None);
    assert_eq!(rfind(&chars("abcabc"), &chars("bc")), Some(4));
    assert_eq!(rfind(&chars("abcabc"), &chars("abc")), Some(3));
    assert_eq!(rfind(&chars("abcabc"), &chars("x")), None);
    assert_eq!(rfind(&chars("ab"), &chars("abc")), None);
    assert_eq!(rfind(&chars("ab"), &chars("")), Some(2));
}

#[test]
fn splitting_at_the_first_space() {
    assert_eq!(split_after(&chars("2 bob"), 0), ("2".to_string(), Some("bob".to_string())));
    assert_eq!(split_after(&chars("bob"), 0), ("bob".to_string(), None));
    assert_eq!(split_after(&chars("a  b c"), 0), ("a".to_string(), Some(" b c".to_string())));
    assert_eq!(split_after(&chars("!ev 2+2"), 1), ("ev".to_string(), Some("2+2".to_string())));
    assert_eq!(split_after(&chars("x "), 0), ("x".to_string(), Some("".to_string())));
    assert_eq!(split_after(&chars(""), 0), ("".to_string(), None));
}

#[test]
fn lines_agree_with_the_standard_library() {
    for s in ["", "a", "a\n", "a\nb", "a\r\nb\r\n", "\n", "\n\n", "a\n\nb", "a\r", "a\r\n\r\nb\r",
        "\r\n", "x\ry\nz"] {
        let ours: Vec<String> = split_lines(&chars(s)).iter().map(|l| l.iter().collect()).collect();
        let theirs: Vec<String> = s.lines().map(|l| l.to_string()).collect();
        assert_eq!(ours, theirs, "on {:?}", s);
    }
}

#[test]
fn joining_and_lower_case() {
    let parts = vec!["a".to_string(), "b c".to_string(), "".to_string()];
    assert_eq!(join(&parts, " | "), "a | b c | ");
    assert_eq!(join(&vec![], ", "), "");
    assert_eq!(join(&vec!["x".to_string()], ", "), "x");
    assert_eq!(to_ascii_lowercase("AbC-ÄÖ z"), "abc-ÄÖ z");
}

#[test]
fn characters_take_one_to_four_bytes() {
    for c in ['a', '\u{7f}', '\u{80}', 'é', '\u{7ff}', '\u{800}', '€', '\u{ffff}', '\u{10000}', '🦀'] {
        assert_eq!(char_len(c), c.len_utf8());
    }
}

#[test]
fn whitespace_agrees_with_the_standard_library_on_every_character() {
    for code in 0..=0x10ffffu32 {
        if let Some(c) = char::from_u32(code) {
            assert_eq!(uberbot::text::is_whitespace(c), c.is_whitespace(), "on U+{:04X}", code);
        }
    }
}
