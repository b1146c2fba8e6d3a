use doodad_editor::decimal::{format_i32, format_usize, parse_i32, parse_u8, parse_usize};
use doodad_editor::file_utils::{chars_of, definition_path, lines_of, listed_name, split_line};

fn split(data: &str, pattern: &str) -> Vec<String> {
    split_line(&data.to_string(), pattern)
}

#[test]
fn split_line_at_a_character() {
    assert_eq!(split("a;b;c", ";"), vec!["a", "b", "c"]);
    assert_eq!(split("abc", ";"), vec!["abc"]);
    assert_eq!(split("", ";"), vec![""]);
    assert_eq!(split(";", ";"), vec!["", ""]);
    assert_eq!(split("a;;b;", ";"), vec!["a", "", "b", ""]);
    assert_eq!(split("1,2,3.5/4,5,6/", "/"), vec!["1,2,3.5", "4,5,6", ""]);
}

#[test]
fn split_line_at_a_longer_pattern() {
    assert_eq!(split("a--b--c", "--"), vec!["a", "b", "c"]);
    assert_eq!(split("aaa", "aa"), vec!["", "a"]);
    assert_eq!(split("aaaa", "aa"), vec!["", "", ""]);
    assert_eq!(split("ab", "abc"), vec!["ab"]);
    assert_eq!(split("ab", "ab"), vec!["", ""]);
}

#[test]
fn split_line_at_the_empty_pattern() {
    assert_eq!(split("abc", ""), vec!["", "a", "b", "c", ""]);
    assert_eq!(split("", ""), vec!["", ""]);
}

#[test]
fn split_line_agrees_with_the_standard_library() {
    let texts = ["", "a", "a;b", ";;", "x;y;z;", "héllo;wörld", "a.b..c", "aXbXXc", "日本;語", "a\nb\n"];
    let patterns = [";", ".", "X", "XX", "\n", "", "é", "ab", "日本"];
    for text in texts {
        for pattern in patterns {
            let expected: Vec<String> = text.split(pattern).map(String::from).collect();
            assert_eq!(split(text, pattern), expected, "{:?} at {:?}", text, pattern);
        }
    }
}

#[test]
fn chars_of_gives_the_characters() {
    assert_eq!(chars_of("aé日"), vec!['a', 'é', '日']);
    assert_eq!(chars_of(""), Vec::<char>::new());
}

#[test]
fn lines_of_splits_at_line_feeds() {
    assert_eq!(lines_of("a\nb\nc"), vec!["a", "b", "c"]);
    assert_eq!(lines_of("a\nb\n"), vec!["a", "b"]);
    assert_eq!(lines_of(""), Vec::<String>::new());
    assert_eq!(lines_of("\n"), vec![""]);
    assert_eq!(lines_of("a\n\nb"), vec!["a", "", "b"]);
    assert_eq!(lines_of("a\r\nb\r\n"), vec!["a", "b"]);
    assert_eq!(lines_of("a\rb\nc\r"), vec!["a\rb", "c\r"]);
}

#[test]
fn lines_of_agrees_with_the_standard_library() {
    let texts = ["", "\n", "\n\n", "a", "a\n", "a\nb", "a\r\nb", "a\r", "\r\n", "x\n\ny\n", "a\r\r\nb"];
    for text in texts {
        let expected: Vec<String> = text.lines().map(String::from).collect();
        assert_eq!(lines_of(text), expected, "{:?}", text);
    }
}

#[test]
fn definition_path_wraps_the_name() {
    assert_eq!(definition_path("castle"), "resources/definitions/castle.csv");
    assert_eq!(definition_path(""), "resources/definitions/.csv");
}

#[test]
fn listed_name_drops_the_ending() {
    assert_eq!(listed_name("arrow.png"), "arrow");
    assert_eq!(listed_name(".csv"), "");
    assert_eq!(listed_name("a.b.png"), "a.b");
    // The count goes by bytes: a name with wider characters keeps more.
    assert_eq!(listed_name("é.png"), "é.");
}

#[test]
fn format_i32_writes_decimal() {
    assert_eq!(format_i32(0), "0");
    assert_eq!(format_i32(7), "7");
    assert_eq!(format_i32(-7), "-7");
    assert_eq!(format_i32(1000), "1000");
    assert_eq!(format_i32(i32::MAX), "2147483647");
    assert_eq!(format_i32(i32::MIN), "-2147483648");
}

#[test]
fn format_usize_writes_decimal() {
    assert_eq!(format_usize(0), "0");
    assert_eq!(format_usize(6), "6");
    assert_eq!(format_usize(1234567890), "1234567890");
    assert_eq!(format_usize(usize::MAX), usize::MAX.to_string());
}

#[test]
fn parse_i32_reads_signed_numbers() {
    assert_eq!(parse_i32("0"), Some(0));
    assert_eq!(parse_i32("42"), Some(42));
    assert_eq!(parse_i32("-42"), Some(-42));
    assert_eq!(parse_i32("+42"), Some(42));
    assert_eq!(parse_i32("-0"), Some(0));
    assert_eq!(parse_i32("007"), Some(7));
    assert_eq!(parse_i32("2147483647"), Some(i32::MAX));
    assert_eq!(parse_i32("-2147483648"), Some(i32::MIN));
    assert_eq!(parse_i32("2147483648"), None);
    assert_eq!(parse_i32("-2147483649"), None);
    assert_eq!(parse_i32("99999999999999999999999999"), None);
    assert_eq!(parse_i32(""), None);
    assert_eq!(parse_i32("-"), None);
    assert_eq!(parse_i32("+"), None);
    assert_eq!(parse_i32("1.5"), None);
    assert_eq!(parse_i32(" 1"), None);
    assert_eq!(parse_i32("1 "), None);
    assert_eq!(parse_i32("--1"), None);
    assert_eq!(parse_i32("1e3"), None);
    assert_eq!(parse_i32("١"), None);
}

#[test]
fn parse_usize_reads_counts() {
    assert_eq!(parse_usize("0"), Some(0));
    assert_eq!(parse_usize("6"), Some(6));
    assert_eq!(parse_usize("+6"), Some(6));
    assert_eq!(parse_usize("-6"), None);
    assert_eq!(parse_usize("-0"), None);
    assert_eq!(parse_usize(""), None);
    assert_eq!(parse_usize("six"), None);
    assert_eq!(parse_usize(&usize::MAX.to_string()), Some(usize::MAX));
    assert_eq!(parse_usize("18446744073709551616"), None);
    assert_eq!(parse_usize("340282366920938463463374607431768211456"), None);
}

#[test]
fn parse_u8_reads_bytes() {
    assert_eq!(parse_u8("0"), Some(0));
    assert_eq!(parse_u8("255"), Some(255));
    assert_eq!(parse_u8("+255"), Some(255));
    assert_eq!(parse_u8("256"), None);
    assert_eq!(parse_u8("-1"), None);
    assert_eq!(parse_u8(""), None);
}

#[test]
fn parsing_agrees_with_the_standard_library() {
    let texts = [
        "", "0", "-0", "+0", "1", "-1", "+1", "00", "-00012", "12a", "a12", "+-1", "-+1", "2147483647",
        "2147483648", "-2147483648", "-2147483649", "4294967296", "255", "256", "18446744073709551615",
        "18446744073709551616", " 5", "5 ", "5\n", "٣",
    ];
    for text in texts {
        assert_eq!(parse_i32(text), text.parse::<i32>().ok(), "{:?}", text);
        assert_eq!(parse_usize(text), text.parse::<usize>().ok(), "{:?}", text);
        assert_eq!(parse_u8(text), text.parse::<u8>().ok(), "{:?}", text);
    }
}

#[test]
fn formatting_agrees_with_the_standard_library() {
    for v in [0, 1, -1, 9, 10, -10, 99, 100, 12345, -98765, i32::MAX, i32::MIN, i32::MIN + 1] {
        assert_eq!(format_i32(v), v.to_string());
        assert_eq!(parse_i32(&format_i32(v)), Some(v));
    }
    for v in [0usize, 1, 9, 10, 11, 4096, usize::MAX, usize::MAX - 1] {
        assert_eq!(format_usize(v), v.to_string());
        assert_eq!(parse_usize(&format_usize(v)), Some(v));
    }
}
