use tabularis_clickhouse_plugin::escape::{escape_identifier, escape_string};
use tabularis_clickhouse_plugin::value::{format_value_for_sql, quote_string, JsonValue};

#[test]
fn escape_string_doubles_backslashes_and_escapes_quotes() {
    assert_eq!(escape_string("it's"), "it\\'s");
    assert_eq!(escape_string("a\\b"), "a\\\\b");
    assert_eq!(escape_string("\\'"), "\\\\\\'");
    assert_eq!(escape_string(""), "");
    assert_eq!(escape_string("plain `text`"), "plain `text`");
}

#[test]
fn escape_identifier_doubles_backticks() {
    assert_eq!(escape_identifier("my`table"), "my``table");
    assert_eq!(escape_identifier("``"), "````");
    assert_eq!(escape_identifier("o'neil"), "o'neil");
    assert_eq!(escape_identifier(""), "");
}

#[test]
fn escaping_keeps_non_ascii_text() {
    assert_eq!(escape_string("naïve 'ü'"), "naïve \\'ü\\'");
    assert_eq!(escape_identifier("таблица`1"), "таблица``1");
}

#[test]
fn escaped_literal_reads_back() {
    // Reading a quoted literal: a backslash takes the next character as it is.
    fn read(t: &str) -> String {
        let mut out = String::new();
        let mut it = t.chars();
        while let Some(c) = it.next() {
            if c == '\\' {
                if let Some(d) = it.next() {
                    out.push(d);
                } else {
                    out.push(c);
                }
            } else {
                assert_ne!(c, '\'', "unescaped quote in {:?}", t);
                out.push(c);
            }
        }
        out
    }
    for s in ["", "a'b", "\\", "'\\'", "x\\'y", "end\\"] {
        assert_eq!(read(&escape_string(s)), s);
    }
}

#[test]
fn quote_string_wraps_in_quotes() {
    assert_eq!(quote_string("o'k"), "'o\\'k'");
}

#[test]
fn format_value_for_sql_scalars() {
    assert_eq!(format_value_for_sql(&JsonValue::Null), "NULL");
    assert_eq!(format_value_for_sql(&JsonValue::Bool(true)), "1");
    assert_eq!(format_value_for_sql(&JsonValue::Bool(false)), "0");
    assert_eq!(format_value_for_sql(&JsonValue::Number("42".to_string())), "42");
    assert_eq!(format_value_for_sql(&JsonValue::Number("-1.5".to_string())), "-1.5");
    assert_eq!(format_value_for_sql(&JsonValue::String("it's".to_string())), "'it\\'s'");
}

#[test]
fn format_value_for_sql_arrays_and_objects() {
    let arr = JsonValue::Array(vec![
        JsonValue::Number("1".to_string()),
        JsonValue::String("a".to_string()),
        JsonValue::Null,
        JsonValue::Array(vec![JsonValue::Bool(true)]),
    ]);
    assert_eq!(format_value_for_sql(&arr), "[1, 'a', NULL, [1]]");
    assert_eq!(format_value_for_sql(&JsonValue::Array(vec![])), "[]");
    let obj = JsonValue::Object("{\"k\":\"v'\"}".to_string());
    assert_eq!(format_value_for_sql(&obj), "'{\"k\":\"v\\'\"}'");
}

#[test]
fn json_value_helpers() {
    assert!(JsonValue::Number("1".to_string()).is_number_one());
    assert!(!JsonValue::Number("1.0".to_string()).is_number_one());
    assert!(!JsonValue::String("1".to_string()).is_number_one());
    assert_eq!(
        JsonValue::String("x".to_string()).as_text().map(|s| s.as_str()),
        Some("x")
    );
    assert!(JsonValue::Null.as_text().is_none());
    let v = JsonValue::Array(vec![JsonValue::String("a".to_string())]);
    let d = v.duplicate();
    assert_eq!(format_value_for_sql(&d), format_value_for_sql(&v));
}
