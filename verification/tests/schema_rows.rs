use tabularis_clickhouse_plugin::schema::{
    cell_flag, column_from_row, columns_from_rows, first_cells, first_text, group_columns,
    indexes_from_rows, snapshot_columns, snapshot_from_results, table_names, tables_from_rows, views_from_rows,
    ColumnInfo,
};
use tabularis_clickhouse_plugin::value::{format_value_for_sql, JsonValue};

fn s(x: &str) -> String {
    x.to_string()
}

fn t(x: &str) -> JsonValue {
    JsonValue::String(x.to_string())
}

fn n(x: &str) -> JsonValue {
    JsonValue::Number(x.to_string())
}

fn column_row(name: &str) -> Vec<JsonValue> {
    vec![t(name), t("String"), t(""), t(""), t(""), n("0")]
}

#[test]
fn column_rows() {
    let row = vec![t("id"), t("Nullable(UInt64)"), t("DEFAULT"), t("0"), t(""), n("1")];
    let c = column_from_row(&row, 0);
    assert_eq!(c.name, "id");
    assert_eq!(c.data_type, "Nullable(UInt64)");
    assert!(c.is_nullable);
    assert!(c.is_primary_key);
    assert!(!c.is_auto_increment);
    assert_eq!(c.column_default, Some(s("0")));
    assert_eq!(c.comment, None);

    let row = vec![t("ts"), JsonValue::Null, t(""), t("now()"), t("when"), t("1")];
    let c = column_from_row(&row, 0);
    assert_eq!(c.data_type, "String");
    assert!(!c.is_nullable);
    assert!(c.is_primary_key);
    assert_eq!(c.column_default, None);
    assert_eq!(c.comment, Some(s("when")));

    let row = vec![t("x"), t("UInt8"), t("MATERIALIZED"), t(""), t(""), n("1.0")];
    let c = column_from_row(&row, 0);
    assert!(!c.is_primary_key);
    assert_eq!(c.column_default, None);

    let c = column_from_row(&vec![], 0);
    assert_eq!(c.name, "");
    assert_eq!(c.data_type, "String");

    let cols = columns_from_rows(&vec![column_row("a"), column_row("b")]);
    assert_eq!(cols.len(), 2);
    assert_eq!(cols[1].name, "b");
}

#[test]
fn primary_key_flag() {
    assert!(cell_flag(&vec![n("1")], 0));
    assert!(cell_flag(&vec![t("1")], 0));
    assert!(!cell_flag(&vec![n("0")], 0));
    assert!(!cell_flag(&vec![JsonValue::Bool(true)], 0));
    assert!(!cell_flag(&vec![], 0));
}

#[test]
fn table_and_view_rows() {
    let tables = tables_from_rows(&vec![vec![t("a"), t("")], vec![t("b"), t("note")], vec![]], "db");
    assert_eq!(tables.len(), 3);
    assert_eq!(tables[0].name, "a");
    assert_eq!(tables[0].schema, "db");
    assert_eq!(tables[0].comment, None);
    assert_eq!(tables[1].comment, Some(s("note")));
    assert_eq!(tables[2].name, "");
    assert_eq!(table_names(&tables), vec![s("a"), s("b"), s("")]);

    let views = views_from_rows(
        &vec![vec![t("v1"), t("View"), t("")], vec![t("v2"), t("MaterializedView"), t("c")]],
        "db",
    );
    assert!(!views[0].is_materialized);
    assert!(views[1].is_materialized);
    assert_eq!(views[1].comment, Some(s("c")));
    assert_eq!(views[1].schema, "db");
}

#[test]
fn index_rows() {
    let idx = vec![vec![t("i1"), t("x * 2"), t("minmax"), n("4")]];
    let pk = vec![vec![t("id")], vec![t("ts")]];
    let all = indexes_from_rows(&idx, Some(&pk));
    assert_eq!(all.len(), 2);
    assert_eq!(all[0].index_name, "PRIMARY");
    assert_eq!(all[0].columns, vec![s("id"), s("ts")]);
    assert!(all[0].is_unique && all[0].is_primary);
    assert_eq!(all[0].index_type, "primary");
    assert_eq!(all[1].index_name, "i1");
    assert_eq!(all[1].columns, vec![s("x * 2")]);
    assert!(!all[1].is_unique && !all[1].is_primary);
    assert_eq!(all[1].index_type, "minmax");
    assert!(matches!(&all[1].granularity, JsonValue::Number(g) if g == "4"));
    assert!(matches!(all[0].granularity, JsonValue::Null));
    let short = indexes_from_rows(&vec![vec![t("i2")]], None);
    assert!(matches!(short[0].granularity, JsonValue::Null));

    assert_eq!(indexes_from_rows(&idx, Some(&vec![])).len(), 1);
    assert_eq!(indexes_from_rows(&idx, None).len(), 1);
    let only_pk = indexes_from_rows(&vec![], Some(&vec![vec![n("3")]]));
    assert_eq!(only_pk.len(), 1);
    assert!(only_pk[0].columns.is_empty());
}

#[test]
fn first_cells_and_text() {
    let rows = vec![vec![t("default")], vec![], vec![n("2"), t("x")]];
    let cells: Vec<String> = first_cells(&rows).iter().map(format_value_for_sql).collect();
    assert_eq!(cells, vec![s("'default'"), s("2")]);
    assert_eq!(first_text(&vec![vec![t("CREATE VIEW v AS SELECT 1")]]), "CREATE VIEW v AS SELECT 1");
    assert_eq!(first_text(&vec![vec![n("1")]]), "");
    assert_eq!(first_text(&vec![]), "");
}

#[test]
fn columns_grouped_by_table() {
    let rows = vec![
        vec![t("t1"), t("a"), t("UInt8"), t(""), t(""), t(""), n("1")],
        vec![t("t2"), t("b"), t("String"), t(""), t(""), t(""), n("0")],
        vec![t("t1"), t("c"), t("Nullable(String)"), t(""), t(""), t(""), n("0")],
    ];
    let groups = group_columns(&rows);
    assert_eq!(groups.len(), 2);
    assert_eq!(groups[0].0, "t1");
    let names: Vec<&str> = groups[0].1.iter().map(|c| c.name.as_str()).collect();
    assert_eq!(names, vec!["a", "c"]);
    assert!(groups[0].1[0].is_primary_key);
    assert!(groups[0].1[1].is_nullable);
    assert_eq!(groups[1].0, "t2");
    assert_eq!(groups[1].1.len(), 1);
    assert!(group_columns(&vec![]).is_empty());
}

fn col(name: &str) -> ColumnInfo {
    column_from_row(&column_row(name), 0)
}

#[test]
fn snapshot_keeps_last_columns_per_table() {
    let entries = vec![
        (s("a"), vec![col("x")]),
        (s("b"), vec![]),
        (s("a"), vec![col("y"), col("z")]),
    ];
    let snap = snapshot_columns(entries);
    assert_eq!(snap.len(), 2);
    assert_eq!(snap[0].0, "a");
    let names: Vec<&str> = snap[0].1.iter().map(|c| c.name.as_str()).collect();
    assert_eq!(names, vec!["y", "z"]);
    assert_eq!(snap[1].0, "b");
    assert!(snap[1].1.is_empty());
}

#[test]
fn batch_rows_read_as_single_table_rows() {
    let single = vec![t("id"), t("Nullable(UInt64)"), t("DEFAULT"), t("0"), t("key"), n("1")];
    let mut batch = vec![t("events")];
    batch.extend(single.iter().map(|c| match c {
        JsonValue::String(x) => JsonValue::String(x.clone()),
        JsonValue::Number(x) => JsonValue::Number(x.clone()),
        _ => JsonValue::Null,
    }));
    let a = column_from_row(&single, 0);
    let b = column_from_row(&batch, 1);
    assert_eq!(a.name, b.name);
    assert_eq!(a.data_type, b.data_type);
    assert_eq!(a.is_primary_key, b.is_primary_key);
    assert_eq!(a.is_nullable, b.is_nullable);
    assert_eq!(a.column_default, b.column_default);
    assert_eq!(a.comment, b.comment);
    assert!(a.is_nullable && a.is_primary_key);
    assert_eq!(a.column_default, Some(s("0")));
}

#[test]
fn snapshot_from_query_results() {
    let names = vec![s("a"), s("b"), s("a")];
    let results = vec![
        Some(columns_from_rows(&vec![column_row("x")])),
        None,
        Some(columns_from_rows(&vec![column_row("y"), column_row("z")])),
    ];
    let snap = snapshot_from_results(names, results);
    assert_eq!(snap.len(), 2);
    assert_eq!(snap[0].0, "a");
    let cols: Vec<&str> = snap[0].1.iter().map(|c| c.name.as_str()).collect();
    assert_eq!(cols, vec!["y", "z"]);
    assert_eq!(snap[1].0, "b");
    assert!(snap[1].1.is_empty());
}

#[test]
fn batch_groups_match_single_table_listings() {
    let mut rows = Vec::new();
    for (table, col) in [("t1", "a"), ("t2", "b"), ("t1", "c")] {
        let mut r = vec![t(table)];
        r.extend(column_row(col));
        rows.push(r);
    }
    let groups = group_columns(&rows);
    let single = columns_from_rows(&vec![column_row("a"), column_row("c")]);
    assert_eq!(groups[0].0, "t1");
    let batch_names: Vec<&str> = groups[0].1.iter().map(|c| c.name.as_str()).collect();
    let single_names: Vec<&str> = single.iter().map(|c| c.name.as_str()).collect();
    assert_eq!(batch_names, single_names);
    assert_eq!(groups[0].1.len(), 2);
}
