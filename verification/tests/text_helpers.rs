use tabularis_clickhouse_plugin::text::{
    chars_of, contains, decimal_string, find_last, is_whitespace, non_blank_lines, result_lines,
    result_text, same_text, starts_with, trim,
};

#[test]
fn trim_removes_unicode_white_space() {
    assert_eq!(trim("  x y\t\n"), "x y");
    assert_eq!(trim("\u{3000}\u{85}x\u{a0}"), "x");
    assert_eq!(trim(" \t "), "");
    assert_eq!(trim("x"), "x");
    for c in ['\t', '\n', '\u{b}', '\u{c}', '\r', ' ', '\u{85}', '\u{a0}', '\u{1680}', '\u{2000}',
              '\u{200a}', '\u{2028}', '\u{2029}', '\u{202f}', '\u{205f}', '\u{3000}'] {
        assert!(is_whitespace(c), "{:?}", c);
        assert_eq!(is_whitespace(c), c.is_whitespace());
    }
    for c in ['a', '\u{200b}', '\u{feff}', '\u{180e}', '0'] {
        assert_eq!(is_whitespace(c), c.is_whitespace(), "{:?}", c);
    }
}

#[test]
fn decimal_rendering() {
    assert_eq!(decimal_string(0), "0");
    assert_eq!(decimal_string(8123), "8123");
    assert_eq!(decimal_string(u64::MAX), u64::MAX.to_string());
}

#[test]
fn search_helpers() {
    let v = chars_of("abcabc");
    assert!(starts_with(&v, "abc"));
    assert!(!starts_with(&v, "bc"));
    assert!(contains(&v, "ca"));
    assert!(!contains(&v, "cc"));
    assert_eq!(find_last(&v, &chars_of("bc")), Some(4));
    assert_eq!(find_last(&v, &chars_of("x")), None);
    assert_eq!(find_last(&v, &chars_of("")), Some(6));
    assert!(same_text("é", "é"));
    assert!(!same_text("a", "ab"));
}

#[test]
fn lines_like_str_lines() {
    assert_eq!(non_blank_lines("a\r\n\n  \nb"), vec!["a".to_string(), "b".to_string()]);
    assert_eq!(non_blank_lines("a\rb\n"), vec!["a\rb".to_string()]);
    assert_eq!(non_blank_lines(" x \n"), vec![" x ".to_string()]);
    assert!(non_blank_lines("").is_empty());
    assert!(non_blank_lines("\n\r\n \t").is_empty());
    let text = "{\"a\":1}\r\n\n{\"a\":2}\n";
    let mine = non_blank_lines(text);
    let std: Vec<String> = text.lines().filter(|l| !l.trim().is_empty()).map(String::from).collect();
    assert_eq!(mine, std);
}

#[test]
fn result_bytes_are_decoded_leniently() {
    assert_eq!(result_text(b"caf\xc3\xa9"), "café");
    assert_eq!(result_text(b"a\xffb"), "a\u{fffd}b");
    assert_eq!(
        result_lines(b"{\"x\":1}\n\n{\"x\":2}\r\n"),
        vec!["{\"x\":1}".to_string(), "{\"x\":2}".to_string()]
    );
}
