use torrent_bot::text::{
    char_vec, i64_to_string, join_from, parse_i64, parse_u16, same_text, split_on, split_words,
    starts_with, strip_white_space, u64_to_string,
};

#[test]
fn decimal_text_of_numbers() {
    assert_eq!(u64_to_string(0), "0");
    assert_eq!(u64_to_string(7), "7");
    assert_eq!(u64_to_string(1234567890), "1234567890");
    assert_eq!(u64_to_string(u64::MAX), u64::MAX.to_string());
    assert_eq!(i64_to_string(-42), "-42");
    assert_eq!(i64_to_string(i64::MIN), i64::MIN.to_string());
    assert_eq!(i64_to_string(i64::MAX), i64::MAX.to_string());
}

#[test]
fn u16_parsing_follows_str_parse() {
    for s in ["0", "12", "+12", "65535", "65536", "-1", "-0", "+", "", "1a", " 1", "007", "99999999999999999999"] {
        assert_eq!(parse_u16(s), s.parse::<u16>().ok(), "{:?}", s);
    }
}

#[test]
fn i64_parsing_follows_str_parse() {
    for s in [
        "0", "-0", "+5", "-5", "-", "+", "", "9223372036854775807", "9223372036854775808",
        "-9223372036854775808", "-9223372036854775809", "12x", "1,2",
    ] {
        assert_eq!(parse_i64(s), s.parse::<i64>().ok(), "{:?}", s);
    }
}

#[test]
fn words_follow_split_whitespace() {
    for s in ["", "  ", "/search The  Matrix\t1999\n", "a\u{a0}b\u{3000}c", "one"] {
        let expected: Vec<String> = s.split_whitespace().map(|w| w.to_string()).collect();
        assert_eq!(split_words(s), expected, "{:?}", s);
        assert_eq!(strip_white_space(s), s.split_whitespace().collect::<String>());
    }
}

#[test]
fn comma_pieces_follow_split() {
    for s in ["", "1", "1,2", ",", "1,,2,", "-100123,42"] {
        let expected: Vec<String> = s.split(',').map(|w| w.to_string()).collect();
        assert_eq!(split_on(s, ','), expected);
    }
}

#[test]
fn joining_words_from_a_position() {
    let words: Vec<String> = vec!["/search".into(), "The".into(), "Matrix".into()];
    assert_eq!(join_from(&words, 1, " "), "The Matrix");
    assert_eq!(join_from(&words, 2, " "), "Matrix");
    assert_eq!(join_from(&words, 3, " "), "");
}

#[test]
fn prefixes_and_equality() {
    assert!(starts_with("https://www.imdb.com/title/tt1", "https://www.imdb.com"));
    assert!(!starts_with("https://www.imdb.co", "https://www.imdb.com"));
    assert!(starts_with("abc", ""));
    assert!(same_text("tv", "tv"));
    assert!(!same_text("tv", "tv "));
    assert_eq!(char_vec("añb"), vec!['a', 'ñ', 'b']);
}
