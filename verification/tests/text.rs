use clockery::text::{decimal_string, parses_i32, is_blank, is_text, push_decimal, split_whitespace, trim_end, LineWrapper};

#[test]
fn decimal_numbers() {
    assert_eq!(decimal_string(0), "0");
    assert_eq!(decimal_string(7), "7");
    assert_eq!(decimal_string(10), "10");
    assert_eq!(decimal_string(12345), "12345");
    assert_eq!(decimal_string(u64::MAX), "18446744073709551615");
    let mut s = String::from("n=");
    push_decimal(&mut s, 907);
    assert_eq!(s, "n=907");
}

#[test]
fn trailing_white_space_is_cut() {
    assert_eq!(trim_end("ab  \t\n"), "ab");
    assert_eq!(trim_end("  a b"), "  a b");
    assert_eq!(trim_end("x\u{3000}\u{a0}"), "x");
    assert_eq!(trim_end("   "), "");
    assert_eq!(trim_end(""), "");
}

#[test]
fn blank_texts() {
    assert!(is_blank(""));
    assert!(is_blank(" \t\n"));
    assert!(!is_blank(" a "));
    assert!(!is_blank("é"));
}

#[test]
fn words_of_a_text() {
    assert_eq!(split_whitespace("  hello   big\tworld \n"), vec!["hello", "big", "world"]);
    assert_eq!(split_whitespace("one"), vec!["one"]);
    assert_eq!(split_whitespace("a\u{3000}b"), vec!["a", "b"]);
    assert!(split_whitespace("  \t ").is_empty());
    assert!(split_whitespace("").is_empty());
}

#[test]
fn literal_comparison() {
    assert!(is_text(&String::from("-"), "-"));
    assert!(!is_text(&String::from("+"), "-"));
    assert!(!is_text(&String::from("--"), "-"));
}

fn wrap(text: &str, widths: &dyn Fn(&str) -> u32, max: u32) -> Vec<String> {
    let mut w = LineWrapper::new();
    for word in split_whitespace(text) {
        let t = w.test_line(&word);
        w.push_word(&word, widths(&t), max);
    }
    w.finish()
}

#[test]
fn greedy_wrapping_by_measured_width() {
    let chars = |s: &str| s.chars().count() as u32;
    assert_eq!(wrap("The date is Sunday", &chars, 12), vec!["The date is", "Sunday"]);
    assert_eq!(wrap("The date is Sunday", &chars, 100), vec!["The date is Sunday"]);
    assert_eq!(wrap("", &chars, 100), Vec::<String>::new());
}

#[test]
fn a_word_too_wide_closes_an_empty_line() {
    let chars = |s: &str| s.chars().count() as u32;
    assert_eq!(wrap("enormous a", &chars, 3), vec!["", "enormous", "a"]);
}

#[test]
fn wrapper_steps() {
    let mut w = LineWrapper::new();
    assert_eq!(w.test_line("ab"), "ab ");
    w.push_word("ab", 3, 10);
    assert_eq!(w.test_line("cd"), "ab cd ");
    w.push_word("cd", 11, 10);
    assert_eq!(w.test_line("e"), "cd e ");
    assert_eq!(w.finish(), vec!["ab", "cd"]);
}

#[test]
fn integers_read_by_parse() {
    let cases = [
        ("123", true),
        ("+7", true),
        ("-0", true),
        ("00012", true),
        ("2147483647", true),
        ("-2147483648", true),
        ("2147483648", false),
        ("-2147483649", false),
        ("99999999999999999999", false),
        ("+", false),
        ("-", false),
        ("", false),
        ("+07:00", false),
        ("1a", false),
        (" 1", false),
        ("--1", false),
        ("\u{663}", false),
    ];
    for (s, expected) in cases {
        assert_eq!(parses_i32(s), expected, "{:?}", s);
        assert_eq!(s.parse::<i32>().is_ok(), expected, "{:?}", s);
    }
}
