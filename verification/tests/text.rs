use pg_wal_budget::text::{
    i64_to_decimal, is_keyword, is_white_space, join2, join3, join4, parse_u64_text, str_eq,
    string_from_chars, trim, u64_to_decimal,
};

#[test]
fn numbers_are_written_in_decimal() {
    assert_eq!(u64_to_decimal(0), "0");
    assert_eq!(u64_to_decimal(1_234_567_890), "1234567890");
    assert_eq!(u64_to_decimal(u64::MAX), u64::MAX.to_string());
    assert_eq!(i64_to_decimal(-42), "-42");
    assert_eq!(i64_to_decimal(i64::MIN), i64::MIN.to_string());
    assert_eq!(i64_to_decimal(i64::MAX), i64::MAX.to_string());
}

#[test]
fn written_numbers_are_read_back() {
    for value in [0, 1, 9, 10, 99, 100, u64::from(u32::MAX), u64::MAX - 1, u64::MAX] {
        assert_eq!(parse_u64_text(&u64_to_decimal(value)), Some(value));
    }
}

#[test]
fn numbers_are_read_like_the_standard_library_reads_them() {
    for text in [
        "",
        "+",
        "-",
        "+7",
        "-7",
        "-0",
        "007",
        " 7",
        "7 ",
        "7x",
        "x7",
        "\u{0663}",
        "18446744073709551615",
        "18446744073709551616",
        "99999999999999999999999",
        "000000000000000000000000000042",
    ] {
        assert_eq!(parse_u64_text(text), text.parse::<u64>().ok(), "{text:?}");
    }
}

#[test]
fn white_space_is_trimmed_like_the_standard_library_trims_it() {
    for text in [
        "",
        "   ",
        " a b ",
        "\t\n\u{b}\u{c}\r a",
        "\u{85}a\u{a0}",
        "\u{1680}a\u{2000}\u{200a}",
        "\u{2028}\u{2029}a\u{202f}\u{205f}\u{3000}",
        "\u{200b}a",
        "\u{feff}a",
        "gr\u{fc}n ",
    ] {
        assert_eq!(trim(text), text.trim(), "{text:?}");
    }
}

#[test]
fn white_space_is_told_like_the_standard_library_tells_it() {
    for code in 0..0x3100u32 {
        if let Some(c) = char::from_u32(code) {
            assert_eq!(is_white_space(c), c.is_whitespace(), "{code:#x}");
        }
    }
}

#[test]
fn keywords_ignore_ascii_case_only() {
    assert!(is_keyword("QuEuE", "queue"));
    assert!(is_keyword("queue", "queue"));
    assert!(!is_keyword("queues", "queue"));
    assert!(!is_keyword("queu", "queue"));
    assert!(!is_keyword("\u{212a}", "k"));
}

#[test]
fn texts_are_joined_and_told_apart() {
    assert_eq!(join2("a", "b"), "ab");
    assert_eq!(join3("a", "", "c"), "ac");
    assert_eq!(join4("a", "b", "c", "d"), "abcd");
    assert!(str_eq("\u{e4}b", "\u{e4}b"));
    assert!(!str_eq("ab", "ac"));
    assert!(!str_eq("ab", "abc"));
    assert_eq!(string_from_chars(&['h', '\u{e9}', '!']), "h\u{e9}!");
    assert_eq!(string_from_chars(&[]), "");
}
