use agentmesh::number::{parse_decimal, parse_i32, parse_i64};
use agentmesh::split::{collapse_whitespace, decimal_text, join_texts, replace_char_text, split_lines, split_words};
use agentmesh::text::{
    chars_of, contains_text, ends_with, find_text, find_text_from, is_blank_text, is_whitespace, lowercase,
    rfind_char, starts_with, str_eq, string_of, to_ascii_lower, trim_text,
};

fn v(s: &str) -> Vec<char> {
    s.chars().collect()
}

fn lines(s: &str) -> Vec<String> {
    split_lines(&v(s)).iter().map(|l| l.iter().collect()).collect()
}

#[test]
fn conversions_keep_every_character() {
    let s = "a\u{e9}\u{4e2d}\u{1f600}\n";
    assert_eq!(chars_of(s), v(s));
    assert_eq!(string_of(&v(s)), s);
    assert!(str_eq("abc", "abc"));
    assert!(!str_eq("abc", "abd"));
    assert!(!str_eq("abc", "ab"));
}

#[test]
fn lines_split_like_std() {
    for s in ["", "a", "a\n", "a\n\n", "\n", "a\r\nb", "a\rb\r", "a\r\n", "\r\n\r\n", "a\n\rb\n", "x\r\r\ny"] {
        let want: Vec<String> = s.lines().map(|l| l.to_string()).collect();
        assert_eq!(lines(s), want, "for {s:?}");
    }
}

#[test]
fn trimming_and_words_follow_unicode_white_space() {
    for s in ["", "  a b  ", "\u{a0}x\u{3000}", "\t\n\u{b}\u{c}\r x \u{85}\u{1680}\u{2000}\u{200a}\u{2028}\u{2029}\u{202f}\u{205f}", "\u{200b}z\u{200b}", "no-space"] {
        assert_eq!(string_of(&trim_text(&v(s))), s.trim(), "trim {s:?}");
        let words: Vec<String> = split_words(&v(s)).iter().map(|w| w.iter().collect()).collect();
        let want: Vec<String> = s.split_whitespace().map(|w| w.to_string()).collect();
        assert_eq!(words, want, "words {s:?}");
        assert_eq!(is_blank_text(&v(s)), s.trim().is_empty());
        assert_eq!(string_of(&collapse_whitespace(&v(s))), want.join(" "));
    }
    for c in ['\u{0}', ' ', '\u{1f}', '\u{85}', '\u{a0}', '\u{180e}', '\u{200b}', '\u{2060}', '\u{3000}', '\u{feff}', 'a'] {
        assert_eq!(is_whitespace(c), c.is_whitespace(), "for {c:?}");
    }
}

#[test]
fn searching_finds_first_and_last() {
    let hay = v("abcabcab");
    assert_eq!(find_text(&hay, &v("bc")), Some(1));
    assert_eq!(find_text_from(&hay, &v("bc"), 2), Some(4));
    assert_eq!(find_text_from(&hay, &v("bc"), 5), None);
    assert_eq!(find_text(&hay, &v("")), Some(0));
    assert_eq!(find_text_from(&hay, &v(""), 8), Some(8));
    assert_eq!(find_text_from(&hay, &v(""), 9), None);
    assert_eq!(find_text(&hay, &v("abcabcabc")), None);
    assert_eq!(find_text(&hay, &v("cab")), Some(2));
    assert!(contains_text(&hay, &v("cabc")));
    assert!(!contains_text(&hay, &v("cc")));
    assert!(starts_with(&hay, &v("abc")) && !starts_with(&hay, &v("bc")));
    assert!(ends_with(&hay, &v("cab")) && !ends_with(&hay, &v("abc")));
    assert!(ends_with(&hay, &v("")) && starts_with(&v(""), &v("")));
    assert_eq!(rfind_char(&hay, 'c'), Some(5));
    assert_eq!(rfind_char(&hay, 'z'), None);
}

#[test]
fn joining_replacing_and_numbers() {
    let parts = vec![v("a"), v(""), v("c")];
    assert_eq!(string_of(&join_texts(&parts, &v(", "))), "a, , c");
    assert_eq!(string_of(&join_texts(&Vec::new(), &v(", "))), "");
    assert_eq!(string_of(&replace_char_text(&v("a_b__c"), '_', &v("--"))), "a--b----c");
    assert_eq!(string_of(&decimal_text(0)), "0");
    assert_eq!(string_of(&decimal_text(10)), "10");
    assert_eq!(string_of(&decimal_text(u64::MAX)), "18446744073709551615");
    assert_eq!(to_ascii_lower('Q'), 'q');
    assert_eq!(to_ascii_lower('\u{c9}'), '\u{c9}');
    assert_eq!(lowercase("A\u{c9}b"), "a\u{e9}b");
}

#[test]
fn decimal_numerals_are_read_like_std() {
    for s in ["0", "-0", "+0", "007", "2147483647", "2147483648", "-2147483648", "-2147483649", "", "+", "-", "1_0", " 1", "1 ", "99999999999999999999999", "\u{661}"] {
        assert_eq!(parse_i32(&v(s)), s.parse::<i32>().ok(), "i32 {s:?}");
        assert_eq!(parse_i64(&v(s)), s.parse::<i64>().ok(), "i64 {s:?}");
    }
    assert_eq!(parse_i64(&v("-9223372036854775808")), Some(i64::MIN));
    assert_eq!(parse_i64(&v("9223372036854775807")), Some(i64::MAX));
    assert_eq!(parse_i64(&v("9223372036854775808")), None);
    assert_eq!(parse_decimal(&v("-12"), 20, 10), Some((true, 12)));
    assert_eq!(parse_decimal(&v("12"), 20, 10), None);
}
