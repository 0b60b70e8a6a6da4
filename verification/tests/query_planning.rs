use tabularis_clickhouse_plugin::query::{
    decode_rows, finish_page, has_format_clause, has_format_keyword, is_select_like,
    is_select_like_upper, page_param, page_size_param, plan_query, plan_query_upper,
    split_format_clause, parse_result_rows, result_rows, QueryPlan,
};
use tabularis_clickhouse_plugin::value::{format_value_for_sql, JsonValue};

fn s(x: &str) -> String {
    x.to_string()
}

fn num(x: &str) -> JsonValue {
    JsonValue::Number(x.to_string())
}

fn text(x: &str) -> JsonValue {
    JsonValue::String(x.to_string())
}

#[test]
fn select_like_keywords() {
    assert!(is_select_like("SELECT 1"));
    assert!(is_select_like("  select * from t"));
    assert!(is_select_like("show tables"));
    assert!(is_select_like("Describe t"));
    assert!(is_select_like("desc t"));
    assert!(is_select_like("EXPLAIN SELECT 1"));
    assert!(is_select_like("with x as (select 1) select * from x"));
    assert!(!is_select_like("desc"));
    assert!(!is_select_like("insert into t values (1)"));
    assert!(!is_select_like("CREATE TABLE t (x UInt8) ENGINE = Memory"));
    assert!(!is_select_like(""));
}

#[test]
fn select_like_goes_through_unicode_upper_case() {
    // U+017F LATIN SMALL LETTER LONG S upper-cases to 'S'.
    assert!(is_select_like("\u{17f}elect 1"));
    assert!(is_select_like_upper("SELECT 1"));
    assert!(!is_select_like_upper("select 1"));
}

#[test]
fn format_clause_detection() {
    assert!(has_format_clause("SELECT 1 FORMAT JSON"));
    assert!(has_format_clause("select 1 format tsv"));
    assert!(!has_format_clause("SELECT 1 FORMAT"));
    assert!(!has_format_clause("SELECT formatted FROM t"));
    // The test is textual: a column named `format` counts too.
    assert!(has_format_clause("SELECT format FROM t"));
    assert!(has_format_keyword("A FORMAT B"));
    assert!(!has_format_keyword("a format b"));
}

#[test]
fn plan_statement_for_non_reading_query() {
    match plan_query("  insert into t values (1)\n", Some(10), 1) {
        Some(QueryPlan::Statement(q)) => assert_eq!(q, "insert into t values (1)"),
        _ => panic!("expected a statement"),
    }
}

#[test]
fn plan_format_clause_split() {
    match plan_query("  SELECT 1 FORMAT JSON ", None, 1) {
        Some(QueryPlan::Formatted { body, format }) => {
            assert_eq!(body, "SELECT 1");
            assert_eq!(format, "JSON");
        }
        _ => panic!("expected a formatted plan"),
    }
    match plan_query("select 1 format tsv format CSV", Some(5), 2) {
        Some(QueryPlan::Formatted { body, format }) => {
            assert_eq!(body, "select 1 format tsv");
            assert_eq!(format, "CSV");
        }
        _ => panic!("expected a formatted plan"),
    }
}

#[test]
fn plan_format_split_cuts_the_query_itself() {
    // U+0131 upper-cases to 'I', one byte shorter: the cut is still made at the
    // clause's own place in the query.
    match plan_query("SELECT '\u{131}' FORMAT JSON", None, 1) {
        Some(QueryPlan::Formatted { body, format }) => {
            assert_eq!(body, "SELECT '\u{131}'");
            assert_eq!(format, "JSON");
        }
        _ => panic!("expected a formatted plan"),
    }
    match plan_query("select \u{131}\u{e9} format x", None, 1) {
        Some(QueryPlan::Formatted { body, format }) => {
            assert_eq!(body, "select \u{131}\u{e9}");
            assert_eq!(format, "x");
        }
        _ => panic!("expected a formatted plan"),
    }
}

#[test]
fn split_format_clause_direct() {
    let (body, format) = split_format_clause("select 1 FoRmAt  Pretty ");
    assert_eq!(body, "select 1");
    assert_eq!(format, "Pretty");
    let (body, format) = split_format_clause("select 1");
    assert_eq!(body, "select 1");
    assert_eq!(format, "TSV");
}

#[test]
fn plan_paging() {
    match plan_query("select * from t", Some(10), 0) {
        Some(QueryPlan::Paged { sql, page, page_size }) => {
            assert_eq!(sql, "SELECT * FROM (select * from t) LIMIT 11 OFFSET 0");
            assert_eq!(page, 1);
            assert_eq!(page_size, Some(10));
        }
        _ => panic!("expected a paged plan"),
    }
    match plan_query("select * from t", Some(10), 3) {
        Some(QueryPlan::Paged { sql, page, .. }) => {
            assert_eq!(sql, "SELECT * FROM (select * from t) LIMIT 11 OFFSET 20");
            assert_eq!(page, 3);
        }
        _ => panic!("expected a paged plan"),
    }
    match plan_query(" SHOW TABLES ", None, 7) {
        Some(QueryPlan::Paged { sql, page, page_size }) => {
            assert_eq!(sql, "SHOW TABLES");
            assert_eq!(page, 7);
            assert_eq!(page_size, None);
        }
        _ => panic!("expected a paged plan"),
    }
}

#[test]
fn plan_paging_overflow_is_refused() {
    assert!(plan_query("select 1", Some(u32::MAX), 1).is_none());
    assert!(plan_query("select 1", Some(1 << 31), 3).is_none());
    assert!(plan_query("select 1", Some(1 << 31), 2).is_some());
    assert!(plan_query_upper("select 1", "SELECT 1", Some(u32::MAX - 1), 1).is_some());
}

#[test]
fn paging_params_truncate_like_as_u32() {
    assert_eq!(page_size_param(Some(4_294_967_297)), Some(1));
    assert_eq!(page_size_param(Some(50)), Some(50));
    assert_eq!(page_size_param(None), None);
    assert_eq!(page_param(None), 1);
    assert_eq!(page_param(Some(0)), 0);
    assert_eq!(page_param(Some(4_294_967_296)), 0);
}

#[test]
fn decode_rows_orders_by_first_object_keys() {
    let objects = vec![
        vec![(s("a"), num("1")), (s("b"), text("x"))],
        vec![(s("b"), text("y")), (s("a"), num("2"))],
        vec![(s("c"), JsonValue::Bool(true))],
    ];
    let (columns, rows) = decode_rows(&objects);
    assert_eq!(columns, vec![s("a"), s("b")]);
    let shown: Vec<Vec<String>> = rows
        .iter()
        .map(|r| r.iter().map(format_value_for_sql).collect())
        .collect();
    assert_eq!(
        shown,
        vec![
            vec![s("1"), s("'x'")],
            vec![s("2"), s("'y'")],
            vec![s("NULL"), s("NULL")],
        ]
    );
    let (columns, rows) = decode_rows(&vec![]);
    assert!(columns.is_empty());
    assert!(rows.is_empty());
}

#[test]
fn finish_page_cuts_the_extra_row() {
    let objects = vec![
        vec![(s("n"), num("1"))],
        vec![(s("n"), num("2"))],
        vec![(s("n"), num("3"))],
    ];
    let page = finish_page(objects, 1, Some(2));
    assert!(page.has_more);
    assert_eq!(page.rows.len(), 2);
    assert_eq!(page.columns, vec![s("n")]);
    assert_eq!(format_value_for_sql(&page.rows[1][0]), "2");
    assert_eq!(page.page, 1);
    assert_eq!(page.page_size, Some(2));

    let objects = vec![vec![(s("n"), num("1"))], vec![(s("n"), num("2"))]];
    let page = finish_page(objects, 4, Some(2));
    assert!(!page.has_more);
    assert_eq!(page.rows.len(), 2);

    let objects = vec![vec![(s("n"), num("1"))], vec![(s("n"), num("2"))]];
    let page = finish_page(objects, 1, None);
    assert!(!page.has_more);
    assert_eq!(page.rows.len(), 2);
    assert_eq!(page.page_size, None);
}

#[test]
fn result_rows_keep_the_line_order_of_keys() {
    let body = b"{\"b\":1,\"a\":\"x\"}\n  \n{\"a\":null,\"t\":[1,[2]],\"o\":{\"k\":1}}\n";
    let (columns, rows) = result_rows(body).unwrap();
    assert_eq!(columns, vec![s("b"), s("a")]);
    assert_eq!(rows.len(), 2);
    assert!(matches!(&rows[0][0], JsonValue::Number(n) if n == "1"));
    assert!(matches!(&rows[0][1], JsonValue::String(v) if v == "x"));
    assert!(matches!(rows[1][0], JsonValue::Null));
    assert!(matches!(rows[1][1], JsonValue::Null));
    let objects = parse_result_rows(body, "p: ").unwrap();
    assert_eq!(objects[1].len(), 3);
    match &objects[1][1].1 {
        JsonValue::Array(items) => {
            assert!(matches!(&items[0], JsonValue::Number(n) if n == "1"));
            assert!(matches!(&items[1], JsonValue::Array(inner) if inner.len() == 1));
        }
        _ => panic!("expected an array"),
    }
    assert!(matches!(&objects[1][2].1, JsonValue::Object(t) if t == "{\"k\":1}"));
}

#[test]
fn result_rows_report_the_first_bad_line() {
    let err = match result_rows(b"{\"a\":1}\nnot json\n[1]\n") {
        Err(e) => e,
        Ok(_) => panic!("expected an error"),
    };
    assert!(err.starts_with("Failed to parse row: "));
    assert!(err.len() > "Failed to parse row: ".len());
    let err2 = match parse_result_rows(b"[1]\n", "Failed to parse result row: ") {
        Err(e) => e,
        Ok(_) => panic!("expected an error"),
    };
    assert!(err2.starts_with("Failed to parse result row: "));
    assert!(result_rows(b"").unwrap().1.is_empty());
}

#[test]
fn select_like_ignores_case_and_surrounding_space() {
    for q in ["select 1", "SELECT 1", "SeLeCt 1", " \t select 1 \n", "insert into t values (1)"] {
        let lower = q.to_lowercase();
        let upper = q.to_uppercase();
        let spaced = format!("\n  {}\t ", q);
        assert_eq!(is_select_like(&lower), is_select_like(q));
        assert_eq!(is_select_like(&upper), is_select_like(q));
        assert_eq!(is_select_like(&spaced), is_select_like(q));
    }
}
