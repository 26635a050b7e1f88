use rubigo::text::{chars_of, decimal_text, has_prefix, parse_within, same_chars, same_text, trim};

fn chars(s: &str) -> Vec<char> {
    s.chars().collect()
}

#[test]
fn chars_of_lists_every_character() {
    assert_eq!(chars_of("aß→z"), vec!['a', 'ß', '→', 'z']);
    assert_eq!(chars_of(""), Vec::<char>::new());
}

#[test]
fn same_text_compares_whole_strings() {
    assert!(same_text("", ""));
    assert!(same_text("abc", "abc"));
    assert!(!same_text("abc", "abd"));
    assert!(!same_text("abc", "ab"));
    assert!(!same_text("ab", "abc"));
    assert!(same_chars(&chars("xy"), &chars("xy")));
    assert!(!same_chars(&chars("xy"), &chars("yx")));
}

#[test]
fn has_prefix_finds_prefixes_only() {
    assert!(has_prefix("golang.org/x/net", "golang.org/x"));
    assert!(has_prefix("abc", ""));
    assert!(has_prefix("abc", "abc"));
    assert!(!has_prefix("abc", "abcd"));
    assert!(!has_prefix("abc", "bc"));
    assert!(!has_prefix("", "a"));
}

#[test]
fn trim_removes_whitespace_at_both_ends_only() {
    assert_eq!(trim("  a b \n"), "a b");
    assert_eq!(trim("a"), "a");
    assert_eq!(trim(""), "");
    assert_eq!(trim(" \t\r\n"), "");
    assert_eq!(trim("\u{3000}ä\u{2028}"), "ä");
}

#[test]
fn decimal_text_writes_numbers() {
    assert_eq!(decimal_text(0), "0");
    assert_eq!(decimal_text(7), "7");
    assert_eq!(decimal_text(10), "10");
    assert_eq!(decimal_text(109), "109");
    assert_eq!(decimal_text(9876543210), "9876543210");
    assert_eq!(decimal_text(usize::MAX), usize::MAX.to_string());
}

#[test]
fn parse_within_reads_numbers_in_range() {
    assert_eq!(parse_within(&chars("1"), 5), Some(1));
    assert_eq!(parse_within(&chars("5"), 5), Some(5));
    assert_eq!(parse_within(&chars("+3"), 5), Some(3));
    assert_eq!(parse_within(&chars("003"), 5), Some(3));
    assert_eq!(parse_within(&chars("12"), 12), Some(12));
}

#[test]
fn parse_within_refuses_numbers_out_of_range() {
    assert_eq!(parse_within(&chars("0"), 5), None);
    assert_eq!(parse_within(&chars("6"), 5), None);
    assert_eq!(parse_within(&chars("10"), 5), None);
    assert_eq!(parse_within(&chars("1"), 0), None);
    assert_eq!(parse_within(&chars("99999999999999999999999999999999"), 5), None);
    assert_eq!(
        parse_within(&chars("99999999999999999999999999999999"), usize::MAX),
        None
    );
}

#[test]
fn parse_within_reads_up_to_the_largest_number() {
    let max = usize::MAX.to_string();
    assert_eq!(parse_within(&chars(&max), usize::MAX), Some(usize::MAX));
}

#[test]
fn parse_within_refuses_what_is_no_number() {
    for text in ["", "+", "-", "-1", "++1", "1+", " 1", "1 ", "1.0", "one", "0x1", "١"] {
        assert_eq!(parse_within(&chars(text), 5), None, "{:?}", text);
    }
}

#[test]
fn parse_within_agrees_with_the_standard_parser() {
    for text in ["1", "+2", "03", "4", "5", "6", "-1", "", "+", "a", "2a", "0"] {
        let expected = match text.parse::<usize>() {
            Ok(n) if n >= 1 && n <= 5 => Some(n),
            _ => None,
        };
        assert_eq!(parse_within(&chars(text), 5), expected, "{:?}", text);
    }
}

#[test]
fn trim_agrees_with_the_standard_library() {
    for text in [
        "",
        " ",
        "a",
        " a",
        "a ",
        "  a  b  ",
        "\n\ta\r\n",
        "\u{a0}a\u{a0}",
        "\u{1680}a\u{2000}\u{200a}",
        "\u{200b}a\u{200b}",
        "\u{feff}a",
        "\u{85}a\u{2029}",
        "ä ö",
    ] {
        assert_eq!(trim(text), text.trim(), "{:?}", text);
    }
}

#[test]
fn has_prefix_agrees_with_the_standard_library() {
    let texts = ["", "a", "ab", "abc", "golang.org/x", "golang.org/x/net", "äb", "ä"];
    for text in texts {
        for prefix in texts {
            assert_eq!(has_prefix(text, prefix), text.starts_with(prefix), "{:?} {:?}", text, prefix);
        }
    }
}

#[test]
fn decimal_text_agrees_with_the_standard_library() {
    for n in [0usize, 1, 9, 10, 11, 99, 100, 101, 999, 1000, 65535, 4294967295] {
        assert_eq!(decimal_text(n), n.to_string());
    }
}
