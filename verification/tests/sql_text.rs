use tabularis_clickhouse_plugin::sql::{
    add_column_sql, all_columns_sql, alter_column_sql, alter_view_sql, columns_sql,
    connection_test_sql, create_foreign_key_sql, create_index_sql, create_view_sql,
    databases_sql, delete_sql, drop_index_sql, drop_view_sql, indexes_sql, insert_sql,
    join_strings, primary_key_sql, quote_identifier, quote_table, show_create_table_sql,
    string_items, tables_sql, update_sql, view_definition_sql, views_sql,
};
use tabularis_clickhouse_plugin::value::JsonValue;

fn s(x: &str) -> String {
    x.to_string()
}

#[test]
fn schema_queries() {
    assert_eq!(databases_sql(), "SELECT name FROM system.databases ORDER BY name");
    assert_eq!(connection_test_sql(), "SELECT 1 AS ok");
    assert_eq!(
        tables_sql("o'k"),
        "SELECT name, comment FROM system.tables WHERE database = 'o\\'k' AND is_temporary = 0 AND engine NOT LIKE '%View%' ORDER BY name"
    );
    assert_eq!(
        columns_sql("db", "t"),
        "SELECT name, type, default_kind, default_expression, comment, is_in_primary_key FROM system.columns WHERE database = 'db' AND table = 't' ORDER BY position"
    );
    assert_eq!(
        indexes_sql("db", "t"),
        "SELECT name, expr, type, granularity FROM system.data_skipping_indices WHERE database = 'db' AND table = 't' ORDER BY name"
    );
    assert_eq!(
        primary_key_sql("db", "t\\"),
        "SELECT name FROM system.columns WHERE database = 'db' AND table = 't\\\\' AND is_in_primary_key = 1 ORDER BY position"
    );
    assert_eq!(
        views_sql("db"),
        "SELECT name, engine, comment FROM system.tables WHERE database = 'db' AND engine LIKE '%View%' ORDER BY name"
    );
    assert_eq!(
        view_definition_sql("db", "v"),
        "SELECT create_table_query FROM system.tables WHERE database = 'db' AND name = 'v'"
    );
    assert_eq!(
        all_columns_sql("db"),
        "SELECT table, name, type, default_kind, default_expression, comment, is_in_primary_key FROM system.columns WHERE database = 'db' ORDER BY table, position"
    );
    assert_eq!(show_create_table_sql("d`b", "t"), "SHOW CREATE TABLE `d``b`.`t`");
}

#[test]
fn quoting_helpers() {
    assert_eq!(quote_identifier("a`b"), "`a``b`");
    assert_eq!(quote_table("s", "t"), "`s`.`t`");
    assert_eq!(join_strings(&vec![s("a"), s("b"), s("c")], ", "), "a, b, c");
    assert_eq!(join_strings(&vec![s("a")], ", "), "a");
    assert_eq!(join_strings(&vec![], ", "), "");
}

#[test]
fn insert_statement() {
    let data = vec![
        (s("id"), JsonValue::Number(s("1"))),
        (s("name"), JsonValue::String(s("x'y"))),
        (s("tags"), JsonValue::Array(vec![JsonValue::String(s("a"))])),
    ];
    assert_eq!(
        insert_sql("db", "t", &data).unwrap(),
        "INSERT INTO `db`.`t` (`id`, `name`, `tags`) VALUES (1, 'x\\'y', ['a'])"
    );
}

#[test]
fn insert_escapes_column_names() {
    let data = vec![(s("a`b"), JsonValue::Null)];
    assert_eq!(
        insert_sql("d`b", "t", &data).unwrap(),
        "INSERT INTO `d``b`.`t` (`a``b`) VALUES (NULL)"
    );
}

#[test]
fn insert_without_data_is_an_error() {
    assert_eq!(insert_sql("db", "t", &vec![]), Err(s("No data provided for insert")));
}

#[test]
fn row_edit_statements() {
    assert_eq!(
        update_sql("db", "t", "id", &JsonValue::Number(s("5")), "name", &JsonValue::String(s("o'k"))),
        "ALTER TABLE `db`.`t` UPDATE `name` = 'o\\'k' WHERE `id` = 5"
    );
    assert_eq!(
        delete_sql("db", "t", "id", &JsonValue::String(s("7"))),
        "DELETE FROM `db`.`t` WHERE `id` = '7'"
    );
    assert_eq!(
        delete_sql("db", "t", "id", &JsonValue::Null),
        "DELETE FROM `db`.`t` WHERE `id` = NULL"
    );
    assert_eq!(drop_index_sql("db", "t", "idx`1"), "ALTER TABLE `db`.`t` DROP INDEX `idx``1`");
}

#[test]
fn view_statements() {
    assert_eq!(create_view_sql("s", "v", "SELECT 1"), "CREATE VIEW `s`.`v` AS SELECT 1");
    assert_eq!(
        alter_view_sql("s", "v", "SELECT 2"),
        "CREATE OR REPLACE VIEW `s`.`v` AS SELECT 2"
    );
    assert_eq!(drop_view_sql("s", "v`"), "DROP VIEW `s`.`v```");
}

#[test]
fn add_column_statements() {
    assert_eq!(
        add_column_sql("s", "t", "c", None, None),
        vec![s("ALTER TABLE `s`.`t` ADD COLUMN `c` Nullable(String)")]
    );
    assert_eq!(
        add_column_sql("s", "t", "c", Some(s("UInt8")), Some(false)),
        vec![s("ALTER TABLE `s`.`t` ADD COLUMN `c` UInt8")]
    );
    assert_eq!(
        add_column_sql("s", "t", "c", Some(s("Date")), Some(true)),
        vec![s("ALTER TABLE `s`.`t` ADD COLUMN `c` Nullable(Date)")]
    );
}

#[test]
fn alter_column_statements() {
    assert_eq!(
        alter_column_sql("s", "t", Some(s("a")), Some(s("b")), Some(s("Int32"))),
        vec![
            s("ALTER TABLE `s`.`t` RENAME COLUMN `a` TO `b`"),
            s("ALTER TABLE `s`.`t` MODIFY COLUMN `b` Int32"),
        ]
    );
    assert_eq!(
        alter_column_sql("s", "t", Some(s("a")), None, None),
        vec![s("-- No changes needed")]
    );
    assert_eq!(
        alter_column_sql("s", "t", None, Some(s("b")), None),
        vec![s("-- No changes needed")]
    );
    assert_eq!(
        alter_column_sql("s", "t", Some(s("a")), None, Some(s("String"))),
        vec![s("ALTER TABLE `s`.`t` MODIFY COLUMN `a` String")]
    );
    assert_eq!(
        alter_column_sql("s", "t", Some(s("a")), Some(s("b")), None),
        vec![s("ALTER TABLE `s`.`t` RENAME COLUMN `a` TO `b`")]
    );
}

#[test]
fn index_statements() {
    let cols = vec![
        JsonValue::String(s("a")),
        JsonValue::Number(s("1")),
        JsonValue::String(s("b")),
    ];
    assert_eq!(string_items(&cols), vec![s("a"), s("b")]);
    assert_eq!(
        create_index_sql("s", "t", None, &cols),
        vec![s("ALTER TABLE `s`.`t` ADD INDEX `idx` (a, b) TYPE minmax GRANULARITY 1")]
    );
    assert_eq!(
        create_index_sql("s", "t", Some(s("i")), &vec![]),
        vec![s("ALTER TABLE `s`.`t` ADD INDEX `i` () TYPE minmax GRANULARITY 1")]
    );
    assert_eq!(
        create_foreign_key_sql(),
        vec![s("-- ClickHouse does not support foreign key constraints")]
    );
}
