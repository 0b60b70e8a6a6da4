//! The SQL text the plugin sends to ClickHouse or hands back to the user:
//! schema queries, row edits, and DDL statements.

use vstd::prelude::*;
use crate::escape::{escape_identifier, escaped_identifier};
use crate::text::views;
use crate::value::{format_value_for_sql, quote_string, quoted_string, sql_literal, Json, JsonValue};

verus! {

/// An identifier escaped and put between backticks.
pub open spec fn quoted_ident(s: Seq<char>) -> Seq<char> {
    "`"@ + escaped_identifier(s) + "`"@
}

/// A table (or view) of a database, both names escaped: `` `db`.`name` ``.
pub open spec fn table_ref(db: Seq<char>, name: Seq<char>) -> Seq<char> {
    quoted_ident(db) + "."@ + quoted_ident(name)
}

/// A name put between backticks as it is, without escaping.
pub open spec fn raw_ident(s: Seq<char>) -> Seq<char> {
    "`"@ + s + "`"@
}

/// A table of a database, both names put between backticks as they are.
pub open spec fn raw_table_ref(db: Seq<char>, name: Seq<char>) -> Seq<char> {
    raw_ident(db) + "."@ + raw_ident(name)
}

/// `items` joined by `sep`.
pub open spec fn joined(items: Seq<Seq<char>>, sep: Seq<char>) -> Seq<char>
    decreases items.len(),
{
    if items.len() == 0 {
        seq![]
    } else if items.len() == 1 {
        items[0]
    } else {
        joined(items.drop_last(), sep) + sep + items.last()
    }
}

/// `s` escaped and put between backticks.
pub fn quote_identifier(s: &str) -> (r: String)
    ensures
        r@ == quoted_ident(s@),
{
    let mut r = String::from_str("`");
    let e = escape_identifier(s);
    r.append(e.as_str());
    r.append("`");
    r
}

/// `` `db`.`name` `` with both names escaped.
pub fn quote_table(db: &str, name: &str) -> (r: String)
    ensures
        r@ == table_ref(db@, name@),
{
    let mut r = quote_identifier(db);
    r.append(".");
    let n = quote_identifier(name);
    r.append(n.as_str());
    r
}

/// `s` between backticks, unescaped.
fn raw_identifier(s: &str) -> (r: String)
    ensures
        r@ == raw_ident(s@),
{
    let mut r = String::from_str("`");
    r.append(s);
    r.append("`");
    r
}

/// `` `db`.`name` `` with both names as they are.
fn raw_table(db: &str, name: &str) -> (r: String)
    ensures
        r@ == raw_table_ref(db@, name@),
{
    let mut r = raw_identifier(db);
    r.append(".");
    let n = raw_identifier(name);
    r.append(n.as_str());
    r
}

/// Joins strings with a separator (std `join` on a slice of strings).
pub fn join_strings(items: &Vec<String>, sep: &str) -> (r: String)
    ensures
        r@ == joined(views(items@), sep@),
{
    let mut r = String::new();
    let mut i: usize = 0;
    assert(views(items@).take(0) =~= Seq::<Seq<char>>::empty());
    while i < items.len()
        invariant
            i <= items.len(),
            r@ == joined(views(items@).take(i as int), sep@),
        decreases items.len() - i,
    {
        let ghost prev = views(items@).take(i as int);
        let ghost next = views(items@).take(i + 1);
        assert(next.drop_last() =~= prev);
        assert(next.last() == items@[i as int]@);
        if i > 0 {
            r.append(sep);
        } else {
            assert(next =~= seq![items@[0]@]);
        }
        r.append(items[i].as_str());
        assert(r@ =~= joined(next, sep@));
        i = i + 1;
    }
    assert(views(items@).take(items.len() as int) =~= views(items@));
    r
}

/// The query that lists the databases.
pub open spec fn databases_query() -> Seq<char> {
    "SELECT name FROM system.databases ORDER BY name"@
}

/// The query that lists the databases.
pub fn databases_sql() -> (r: String)
    ensures
        r@ == databases_query(),
{
    String::from_str("SELECT name FROM system.databases ORDER BY name")
}

/// The query that tests a connection.
pub open spec fn connection_test_query() -> Seq<char> {
    "SELECT 1 AS ok"@
}

/// The query that tests a connection.
pub fn connection_test_sql() -> (r: String)
    ensures
        r@ == connection_test_query(),
{
    String::from_str("SELECT 1 AS ok")
}

/// The query that lists the tables (not views, not temporary) of a database.
pub open spec fn tables_query(db: Seq<char>) -> Seq<char> {
    "SELECT name, comment FROM system.tables WHERE database = "@ + quoted_string(db)
        + " AND is_temporary = 0 AND engine NOT LIKE '%View%' ORDER BY name"@
}

/// The query that lists the tables of a database.
pub fn tables_sql(db: &str) -> (r: String)
    ensures
        r@ == tables_query(db@),
{
    let mut r = String::from_str("SELECT name, comment FROM system.tables WHERE database = ");
    let d = quote_string(db);
    r.append(d.as_str());
    r.append(" AND is_temporary = 0 AND engine NOT LIKE '%View%' ORDER BY name");
    r
}

/// The query that lists a table's columns, in position order.
pub open spec fn columns_query(db: Seq<char>, table: Seq<char>) -> Seq<char> {
    "SELECT name, type, default_kind, default_expression, comment, is_in_primary_key FROM system.columns WHERE database = "@
        + quoted_string(db) + " AND table = "@ + quoted_string(table)
        + " ORDER BY position"@
}

/// The query that lists a table's columns.
pub fn columns_sql(db: &str, table: &str) -> (r: String)
    ensures
        r@ == columns_query(db@, table@),
{
    let mut r = String::from_str(
        "SELECT name, type, default_kind, default_expression, comment, is_in_primary_key FROM system.columns WHERE database = ",
    );
    let d = quote_string(db);
    r.append(d.as_str());
    r.append(" AND table = ");
    let t = quote_string(table);
    r.append(t.as_str());
    r.append(" ORDER BY position");
    r
}

/// The query that lists a table's data-skipping indexes.
pub open spec fn indexes_query(db: Seq<char>, table: Seq<char>) -> Seq<char> {
    "SELECT name, expr, type, granularity FROM system.data_skipping_indices WHERE database = "@
        + quoted_string(db) + " AND table = "@ + quoted_string(table) + " ORDER BY name"@
}

/// The query that lists a table's data-skipping indexes.
pub fn indexes_sql(db: &str, table: &str) -> (r: String)
    ensures
        r@ == indexes_query(db@, table@),
{
    let mut r = String::from_str(
        "SELECT name, expr, type, granularity FROM system.data_skipping_indices WHERE database = ",
    );
    let d = quote_string(db);
    r.append(d.as_str());
    r.append(" AND table = ");
    let t = quote_string(table);
    r.append(t.as_str());
    r.append(" ORDER BY name");
    r
}

/// The query that lists a table's primary-key columns, in position order.
pub open spec fn primary_key_query(db: Seq<char>, table: Seq<char>) -> Seq<char> {
    "SELECT name FROM system.columns WHERE database = "@ + quoted_string(db) + " AND table = "@
        + quoted_string(table) + " AND is_in_primary_key = 1 ORDER BY position"@
}

/// The query that lists a table's primary-key columns.
pub fn primary_key_sql(db: &str, table: &str) -> (r: String)
    ensures
        r@ == primary_key_query(db@, table@),
{
    let mut r = String::from_str("SELECT name FROM system.columns WHERE database = ");
    let d = quote_string(db);
    r.append(d.as_str());
    r.append(" AND table = ");
    let t = quote_string(table);
    r.append(t.as_str());
    r.append(" AND is_in_primary_key = 1 ORDER BY position");
    r
}

/// The query that lists the views of a database.
pub open spec fn views_query(db: Seq<char>) -> Seq<char> {
    "SELECT name, engine, comment FROM system.tables WHERE database = "@ + quoted_string(db)
        + " AND engine LIKE '%View%' ORDER BY name"@
}

/// The query that lists the views of a database.
pub fn views_sql(db: &str) -> (r: String)
    ensures
        r@ == views_query(db@),
{
    let mut r = String::from_str(
        "SELECT name, engine, comment FROM system.tables WHERE database = ",
    );
    let d = quote_string(db);
    r.append(d.as_str());
    r.append(" AND engine LIKE '%View%' ORDER BY name");
    r
}

/// The query that fetches a view's `CREATE VIEW` statement.
pub open spec fn view_definition_query(db: Seq<char>, view: Seq<char>) -> Seq<char> {
    "SELECT create_table_query FROM system.tables WHERE database = "@ + quoted_string(db)
        + " AND name = "@ + quoted_string(view)
}

/// The query that fetches a view's `CREATE VIEW` statement.
pub fn view_definition_sql(db: &str, view: &str) -> (r: String)
    ensures
        r@ == view_definition_query(db@, view@),
{
    let mut r = String::from_str("SELECT create_table_query FROM system.tables WHERE database = ");
    let d = quote_string(db);
    r.append(d.as_str());
    r.append(" AND name = ");
    let v = quote_string(view);
    r.append(v.as_str());
    r
}

/// The query that lists the columns of every table of a database.
pub open spec fn all_columns_query(db: Seq<char>) -> Seq<char> {
    "SELECT table, name, type, default_kind, default_expression, comment, is_in_primary_key FROM system.columns WHERE database = "@
        + quoted_string(db) + " ORDER BY table, position"@
}

/// The query that lists the columns of every table of a database.
pub fn all_columns_sql(db: &str) -> (r: String)
    ensures
        r@ == all_columns_query(db@),
{
    let mut r = String::from_str(
        "SELECT table, name, type, default_kind, default_expression, comment, is_in_primary_key FROM system.columns WHERE database = ",
    );
    let d = quote_string(db);
    r.append(d.as_str());
    r.append(" ORDER BY table, position");
    r
}

/// The statement that shows a table's `CREATE TABLE`.
pub open spec fn show_create_query(db: Seq<char>, table: Seq<char>) -> Seq<char> {
    "SHOW CREATE TABLE "@ + table_ref(db, table)
}

/// The statement that shows a table's `CREATE TABLE`.
pub fn show_create_table_sql(db: &str, table: &str) -> (r: String)
    ensures
        r@ == show_create_query(db@, table@),
{
    let mut r = String::from_str("SHOW CREATE TABLE ");
    let t = quote_table(db, table);
    r.append(t.as_str());
    r
}

/// The column list of an insert: each key as a quoted identifier.
pub open spec fn insert_columns(data: Seq<(String, JsonValue)>) -> Seq<Seq<char>> {
    data.map_values(|e: (String, JsonValue)| quoted_ident(e.0@))
}

/// The value list of an insert: each value as an SQL literal.
pub open spec fn insert_values(data: Seq<(String, JsonValue)>) -> Seq<Seq<char>> {
    data.map_values(|e: (String, JsonValue)| sql_literal(e.1@))
}

/// The statement that inserts one row.
pub open spec fn insert_statement(db: Seq<char>, table: Seq<char>, data: Seq<(String, JsonValue)>) -> Seq<
    char,
> {
    "INSERT INTO "@ + table_ref(db, table) + " ("@ + joined(insert_columns(data), ", "@)
        + ") VALUES ("@ + joined(insert_values(data), ", "@) + ")"@
}

/// The message for an insert without data.
pub open spec fn no_insert_data_message() -> Seq<char> {
    "No data provided for insert"@
}

/// The statement that inserts one row with the given column values; an error
/// when no value is given.
pub fn insert_sql(db: &str, table: &str, data: &Vec<(String, JsonValue)>) -> (r: Result<
    String,
    String,
>)
    ensures
        data.len() == 0 ==> (r matches Err(e) && e@ == no_insert_data_message()),
        data.len() > 0 ==> (r matches Ok(s) && s@ == insert_statement(db@, table@, data@)),
{
    if data.len() == 0 {
        return Err(String::from_str("No data provided for insert"));
    }
    let mut cols: Vec<String> = Vec::new();
    let mut vals: Vec<String> = Vec::new();
    let mut i: usize = 0;
    while i < data.len()
        invariant
            i <= data.len(),
            views(cols@) == insert_columns(data@).take(i as int),
            views(vals@) == insert_values(data@).take(i as int),
        decreases data.len() - i,
    {
        let c = quote_identifier(data[i].0.as_str());
        let v = format_value_for_sql(&data[i].1);
        let ghost c0 = views(cols@);
        let ghost v0 = views(vals@);
        cols.push(c);
        vals.push(v);
        assert(views(cols@) =~= c0.push(quoted_ident(data@[i as int].0@)));
        assert(views(vals@) =~= v0.push(sql_literal(data@[i as int].1@)));
        assert(insert_columns(data@).take(i + 1) =~= insert_columns(data@).take(i as int).push(
            quoted_ident(data@[i as int].0@),
        ));
        assert(insert_values(data@).take(i + 1) =~= insert_values(data@).take(i as int).push(
            sql_literal(data@[i as int].1@),
        ));
        i = i + 1;
    }
    assert(insert_columns(data@).take(data.len() as int) =~= insert_columns(data@));
    assert(insert_values(data@).take(data.len() as int) =~= insert_values(data@));
    let mut r = String::from_str("INSERT INTO ");
    let t = quote_table(db, table);
    r.append(t.as_str());
    r.append(" (");
    let cj = join_strings(&cols, ", ");
    r.append(cj.as_str());
    r.append(") VALUES (");
    let vj = join_strings(&vals, ", ");
    r.append(vj.as_str());
    r.append(")");
    Ok(r)
}

/// The statement that sets one column of the rows with a given key.
pub open spec fn update_statement(
    db: Seq<char>,
    table: Seq<char>,
    pk_col: Seq<char>,
    pk_val: Json,
    col: Seq<char>,
    new_val: Json,
) -> Seq<char> {
    "ALTER TABLE "@ + table_ref(db, table) + " UPDATE "@ + quoted_ident(col) + " = "@
        + sql_literal(new_val) + " WHERE "@ + quoted_ident(pk_col) + " = "@ + sql_literal(pk_val)
}

/// The statement that sets one column of the rows with a given key.
pub fn update_sql(
    db: &str,
    table: &str,
    pk_col: &str,
    pk_val: &JsonValue,
    col: &str,
    new_val: &JsonValue,
) -> (r: String)
    ensures
        r@ == update_statement(db@, table@, pk_col@, pk_val@, col@, new_val@),
{
    let mut r = String::from_str("ALTER TABLE ");
    let t = quote_table(db, table);
    r.append(t.as_str());
    r.append(" UPDATE ");
    let c = quote_identifier(col);
    r.append(c.as_str());
    r.append(" = ");
    let nv = format_value_for_sql(new_val);
    r.append(nv.as_str());
    r.append(" WHERE ");
    let k = quote_identifier(pk_col);
    r.append(k.as_str());
    r.append(" = ");
    let kv = format_value_for_sql(pk_val);
    r.append(kv.as_str());
    r
}

/// The statement that deletes the rows with a given key.
pub open spec fn delete_statement(db: Seq<char>, table: Seq<char>, pk_col: Seq<char>, pk_val: Json) -> Seq<
    char,
> {
    "DELETE FROM "@ + table_ref(db, table) + " WHERE "@ + quoted_ident(pk_col) + " = "@
        + sql_literal(pk_val)
}

/// The statement that deletes the rows with a given key.
pub fn delete_sql(db: &str, table: &str, pk_col: &str, pk_val: &JsonValue) -> (r: String)
    ensures
        r@ == delete_statement(db@, table@, pk_col@, pk_val@),
{
    let mut r = String::from_str("DELETE FROM ");
    let t = quote_table(db, table);
    r.append(t.as_str());
    r.append(" WHERE ");
    let k = quote_identifier(pk_col);
    r.append(k.as_str());
    r.append(" = ");
    let kv = format_value_for_sql(pk_val);
    r.append(kv.as_str());
    r
}

/// The statement that drops a data-skipping index.
pub open spec fn drop_index_statement(db: Seq<char>, table: Seq<char>, index: Seq<char>) -> Seq<
    char,
> {
    "ALTER TABLE "@ + table_ref(db, table) + " DROP INDEX "@ + quoted_ident(index)
}

/// The statement that drops a data-skipping index.
pub fn drop_index_sql(db: &str, table: &str, index: &str) -> (r: String)
    ensures
        r@ == drop_index_statement(db@, table@, index@),
{
    let mut r = String::from_str("ALTER TABLE ");
    let t = quote_table(db, table);
    r.append(t.as_str());
    r.append(" DROP INDEX ");
    let i = quote_identifier(index);
    r.append(i.as_str());
    r
}

/// The statement that creates a view.
pub open spec fn create_view_statement(schema: Seq<char>, name: Seq<char>, definition: Seq<char>) -> Seq<
    char,
> {
    "CREATE VIEW "@ + table_ref(schema, name) + " AS "@ + definition
}

/// The statement that creates a view.
pub fn create_view_sql(schema: &str, name: &str, definition: &str) -> (r: String)
    ensures
        r@ == create_view_statement(schema@, name@, definition@),
{
    let mut r = String::from_str("CREATE VIEW ");
    let t = quote_table(schema, name);
    r.append(t.as_str());
    r.append(" AS ");
    r.append(definition);
    r
}

/// The statement that replaces a view.
pub open spec fn alter_view_statement(schema: Seq<char>, name: Seq<char>, definition: Seq<char>) -> Seq<
    char,
> {
    "CREATE OR REPLACE VIEW "@ + table_ref(schema, name) + " AS "@ + definition
}

/// The statement that replaces a view.
pub fn alter_view_sql(schema: &str, name: &str, definition: &str) -> (r: String)
    ensures
        r@ == alter_view_statement(schema@, name@, definition@),
{
    let mut r = String::from_str("CREATE OR REPLACE VIEW ");
    let t = quote_table(schema, name);
    r.append(t.as_str());
    r.append(" AS ");
    r.append(definition);
    r
}

/// The statement that drops a view.
pub open spec fn drop_view_statement(schema: Seq<char>, name: Seq<char>) -> Seq<char> {
    "DROP VIEW "@ + table_ref(schema, name)
}

/// The statement that drops a view.
pub fn drop_view_sql(schema: &str, name: &str) -> (r: String)
    ensures
        r@ == drop_view_statement(schema@, name@),
{
    let mut r = String::from_str("DROP VIEW ");
    let t = quote_table(schema, name);
    r.append(t.as_str());
    r
}

/// The column type an added column gets: the given type (`String` when none is
/// given), wrapped in `Nullable(..)` unless the column is said not to be nullable.
pub open spec fn added_column_type(data_type: Option<String>, is_nullable: Option<bool>) -> Seq<
    char,
> {
    let t = match data_type {
        Some(t) => t@,
        None => "String"@,
    };
    let nullable = match is_nullable {
        Some(b) => b,
        None => true,
    };
    if nullable {
        "Nullable("@ + t + ")"@
    } else {
        t
    }
}

/// The statement that adds a column (names are put between backticks as they
/// are, without escaping).
pub open spec fn add_column_statement(
    schema: Seq<char>,
    table: Seq<char>,
    name: Seq<char>,
    data_type: Option<String>,
    is_nullable: Option<bool>,
) -> Seq<char> {
    "ALTER TABLE "@ + raw_table_ref(schema, table) + " ADD COLUMN "@ + raw_ident(name) + " "@
        + added_column_type(data_type, is_nullable)
}

/// The statements that add a column: exactly one.
pub fn add_column_sql(
    schema: &str,
    table: &str,
    name: &str,
    data_type: Option<String>,
    is_nullable: Option<bool>,
) -> (r: Vec<String>)
    ensures
        views(r@) == seq![add_column_statement(schema@, table@, name@, data_type, is_nullable)],
{
    let t = match &data_type {
        Some(t) => t.clone(),
        None => String::from_str("String"),
    };
    let nullable = match is_nullable {
        Some(b) => b,
        None => true,
    };
    let ch_type = if nullable {
        let mut s = String::from_str("Nullable(");
        s.append(t.as_str());
        s.append(")");
        s
    } else {
        t
    };
    let mut r = String::from_str("ALTER TABLE ");
    let tr = raw_table(schema, table);
    r.append(tr.as_str());
    r.append(" ADD COLUMN ");
    let c = raw_identifier(name);
    r.append(c.as_str());
    r.append(" ");
    r.append(ch_type.as_str());
    let mut out: Vec<String> = Vec::new();
    out.push(r);
    assert(views(out@) =~= seq![add_column_statement(schema@, table@, name@, data_type, is_nullable)]);
    out
}

/// The statement that renames a column.
pub open spec fn rename_column_statement(
    schema: Seq<char>,
    table: Seq<char>,
    old_name: Seq<char>,
    new_name: Seq<char>,
) -> Seq<char> {
    "ALTER TABLE "@ + raw_table_ref(schema, table) + " RENAME COLUMN "@ + raw_ident(old_name)
        + " TO "@ + raw_ident(new_name)
}

/// The statement that changes a column's type.
pub open spec fn modify_column_statement(
    schema: Seq<char>,
    table: Seq<char>,
    name: Seq<char>,
    data_type: Seq<char>,
) -> Seq<char> {
    "ALTER TABLE "@ + raw_table_ref(schema, table) + " MODIFY COLUMN "@ + raw_ident(name) + " "@
        + data_type
}

/// The note given when a column change needs no statement.
pub open spec fn no_change_note() -> Seq<char> {
    "-- No changes needed"@
}

/// The statements that change a column: a rename when a new, different name is
/// given and the old name is not empty; then a type change when a type is
/// given (under the new name); a note when neither applies.
pub open spec fn alter_column_statements(
    schema: Seq<char>,
    table: Seq<char>,
    old_name: Option<String>,
    new_name: Option<String>,
    new_type: Option<String>,
) -> Seq<Seq<char>> {
    let old = match old_name {
        Some(o) => o@,
        None => ""@,
    };
    let new = match new_name {
        Some(n) => n@,
        None => old,
    };
    let renames: Seq<Seq<char>> = if old != new && old.len() != 0 {
        seq![rename_column_statement(schema, table, old, new)]
    } else {
        seq![]
    };
    let modifies: Seq<Seq<char>> = match new_type {
        Some(t) => seq![modify_column_statement(schema, table, new, t@)],
        None => seq![],
    };
    if renames.len() + modifies.len() == 0 {
        seq![no_change_note()]
    } else {
        renames + modifies
    }
}

/// How a column change reads: a rename is generated exactly when the old name
/// is not empty and the new name (the old one where none is given) differs
/// from it, and reads ``ALTER TABLE `schema`.`table` RENAME COLUMN `old` TO
/// `new` ``; a type change is generated exactly when a type is given, comes
/// after the rename, and reads ``ALTER TABLE `schema`.`table` MODIFY COLUMN
/// `new` type``; when neither is generated the one line is
/// `-- No changes needed`. So a change of type alone, under the same name,
/// gives the type change and nothing else.
pub proof fn lemma_alter_column_reads(
    schema: Seq<char>,
    table: Seq<char>,
    old_name: Option<String>,
    new_name: Option<String>,
    new_type: Option<String>,
)
    ensures
        ({
            let r = alter_column_statements(schema, table, old_name, new_name, new_type);
            let old = match old_name {
                Some(o) => o@,
                None => ""@,
            };
            let new = match new_name {
                Some(n) => n@,
                None => old,
            };
            let rename = old.len() != 0 && old != new;
            let head = "ALTER TABLE `"@ + schema + "`.`"@ + table + "` "@;
            &&& r.len() == (if rename && new_type is Some {
                2int
            } else {
                1int
            })
            &&& rename ==> r[0] == head + "RENAME COLUMN `"@ + old + "` TO `"@ + new + "`"@
            &&& (new_type matches Some(t) ==> r[r.len() - 1] == head + "MODIFY COLUMN `"@ + new
                + "` "@ + t@)
            &&& (!rename && new_type is None ==> r[0] == "-- No changes needed"@)
        }),
{
    reveal_strlit("ALTER TABLE ");
    reveal_strlit("ALTER TABLE `");
    reveal_strlit("`");
    reveal_strlit(".");
    reveal_strlit("`.`");
    reveal_strlit("` ");
    reveal_strlit(" ");
    reveal_strlit(" RENAME COLUMN ");
    reveal_strlit("RENAME COLUMN `");
    reveal_strlit(" TO ");
    reveal_strlit("` TO `");
    reveal_strlit(" MODIFY COLUMN ");
    reveal_strlit("MODIFY COLUMN `");
    let old = match old_name {
        Some(o) => o@,
        None => ""@,
    };
    let new = match new_name {
        Some(n) => n@,
        None => old,
    };
    let head = "ALTER TABLE `"@ + schema + "`.`"@ + table + "` "@;
    assert(rename_column_statement(schema, table, old, new) =~= head + "RENAME COLUMN `"@ + old
        + "` TO `"@ + new + "`"@);
    match new_type {
        Some(t) => {
            assert(modify_column_statement(schema, table, new, t@) =~= head + "MODIFY COLUMN `"@
                + new + "` "@ + t@);
        },
        None => {},
    }
}

/// How an added column reads: ``ALTER TABLE `schema`.`table` ADD COLUMN
/// `name` type``, where the type is the given one (`String` when none is
/// given), wrapped as `Nullable(...)` unless the column is said not to be
/// nullable.
pub proof fn lemma_add_column_reads(
    schema: Seq<char>,
    table: Seq<char>,
    name: Seq<char>,
    data_type: Option<String>,
    is_nullable: Option<bool>,
)
    ensures
        ({
            let t = match data_type {
                Some(t) => t@,
                None => "String"@,
            };
            let ty = if is_nullable == Some(false) {
                t
            } else {
                "Nullable("@ + t + ")"@
            };
            add_column_statement(schema, table, name, data_type, is_nullable) == "ALTER TABLE `"@
                + schema + "`.`"@ + table + "` ADD COLUMN `"@ + name + "` "@ + ty
        }),
{
    reveal_strlit("ALTER TABLE ");
    reveal_strlit("ALTER TABLE `");
    reveal_strlit("`");
    reveal_strlit(".");
    reveal_strlit("`.`");
    reveal_strlit(" ");
    reveal_strlit(" ADD COLUMN ");
    reveal_strlit("` ADD COLUMN `");
    reveal_strlit("` ");
    let t = match data_type {
        Some(t) => t@,
        None => "String"@,
    };
    let ty = added_column_type(data_type, is_nullable);
    assert(add_column_statement(schema, table, name, data_type, is_nullable) =~= "ALTER TABLE `"@
        + schema + "`.`"@ + table + "` ADD COLUMN `"@ + name + "` "@ + ty);
}

/// The string items of a list, in order: where every item is a string, all of
/// them, as they stand; items of other kinds are left out.
pub proof fn lemma_strings_among(values: Seq<JsonValue>)
    ensures
        strings_among(values).len() <= values.len(),
        (forall|i: int| 0 <= i < values.len() ==> (#[trigger] values[i]@) is Str) ==> (
        strings_among(values).len() == values.len() && forall|i: int|
            0 <= i < values.len() ==> Json::Str(#[trigger] strings_among(values)[i])
                == values[i]@),
    decreases values.len(),
{
    if values.len() > 0 {
        let prev = values.drop_last();
        lemma_strings_among(prev);
        if forall|i: int| 0 <= i < values.len() ==> (#[trigger] values[i]@) is Str {
            assert forall|i: int| 0 <= i < prev.len() implies (#[trigger] prev[i]@) is Str by {
                assert(prev[i] == values[i]);
            }
            assert(values[values.len() - 1]@ is Str);
            assert forall|i: int| 0 <= i < values.len() implies Json::Str(
                #[trigger] strings_among(values)[i],
            ) == values[i]@ by {
                if i < prev.len() {
                    assert(prev[i] == values[i]);
                }
            }
        }
    }
}

/// How an added index reads: ``ALTER TABLE `schema`.`table` ADD INDEX `name`
/// (columns) TYPE minmax GRANULARITY 1``, named `idx` when no name is given,
/// over the string items of the column list joined by `, `.
pub proof fn lemma_create_index_reads(
    schema: Seq<char>,
    table: Seq<char>,
    index_name: Option<String>,
    columns: Seq<JsonValue>,
)
    ensures
        ({
            let name = match index_name {
                Some(n) => n@,
                None => "idx"@,
            };
            create_index_statement(schema, table, index_name, columns) == "ALTER TABLE `"@ + schema
                + "`.`"@ + table + "` ADD INDEX `"@ + name + "` ("@ + joined(
                strings_among(columns),
                ", "@,
            ) + ") TYPE minmax GRANULARITY 1"@
        }),
{
    reveal_strlit("ALTER TABLE ");
    reveal_strlit("ALTER TABLE `");
    reveal_strlit("`");
    reveal_strlit(".");
    reveal_strlit("`.`");
    reveal_strlit(" ADD INDEX ");
    reveal_strlit("` ADD INDEX `");
    reveal_strlit(" (");
    reveal_strlit("` (");
    let name = match index_name {
        Some(n) => n@,
        None => "idx"@,
    };
    assert(create_index_statement(schema, table, index_name, columns) =~= "ALTER TABLE `"@ + schema
        + "`.`"@ + table + "` ADD INDEX `"@ + name + "` ("@ + joined(strings_among(columns), ", "@)
        + ") TYPE minmax GRANULARITY 1"@);
}

/// The statements that change a column.
pub fn alter_column_sql(
    schema: &str,
    table: &str,
    old_name: Option<String>,
    new_name: Option<String>,
    new_type: Option<String>,
) -> (r: Vec<String>)
    ensures
        views(r@) == alter_column_statements(schema@, table@, old_name, new_name, new_type),
{
    let old = match &old_name {
        Some(o) => o.clone(),
        None => String::new(),
    };
    proof {
        reveal_strlit("");
    }
    let new = match &new_name {
        Some(n) => n.clone(),
        None => old.clone(),
    };
    let mut out: Vec<String> = Vec::new();
    let same = crate::text::same_text(old.as_str(), new.as_str());
    let old_empty = old.as_str().is_empty();
    if !same && !old_empty {
        let mut r = String::from_str("ALTER TABLE ");
        let tr = raw_table(schema, table);
        r.append(tr.as_str());
        r.append(" RENAME COLUMN ");
        let o = raw_identifier(old.as_str());
        r.append(o.as_str());
        r.append(" TO ");
        let n = raw_identifier(new.as_str());
        r.append(n.as_str());
        out.push(r);
    }
    let ghost renames = views(out@);
    if let Some(t) = &new_type {
        let mut r = String::from_str("ALTER TABLE ");
        let tr = raw_table(schema, table);
        r.append(tr.as_str());
        r.append(" MODIFY COLUMN ");
        let n = raw_identifier(new.as_str());
        r.append(n.as_str());
        r.append(" ");
        r.append(t.as_str());
        out.push(r);
    }
    if out.len() == 0 {
        out.push(String::from_str("-- No changes needed"));
        assert(views(out@) =~= seq![no_change_note()]);
    } else {
        assert(views(out@) =~= alter_column_statements(schema@, table@, old_name, new_name, new_type));
    }
    out
}

/// The strings among `values`, in order (non-strings are skipped).
pub open spec fn strings_among(values: Seq<JsonValue>) -> Seq<Seq<char>>
    decreases values.len(),
{
    if values.len() == 0 {
        seq![]
    } else {
        let rest = strings_among(values.drop_last());
        match values.last()@ {
            Json::Str(s) => rest.push(s),
            _ => rest,
        }
    }
}

/// The strings among `values`, in order.
pub fn string_items(values: &Vec<JsonValue>) -> (r: Vec<String>)
    ensures
        views(r@) == strings_among(values@),
{
    let mut out: Vec<String> = Vec::new();
    let mut i: usize = 0;
    assert(values@.take(0) =~= Seq::<JsonValue>::empty());
    while i < values.len()
        invariant
            i <= values.len(),
            views(out@) == strings_among(values@.take(i as int)),
        decreases values.len() - i,
    {
        assert(values@.take(i + 1).drop_last() =~= values@.take(i as int));
        let ghost before = views(out@);
        match values[i].as_text() {
            Some(s) => {
                out.push(s.clone());
                assert(views(out@) =~= before.push(s@));
            },
            None => {},
        }
        i = i + 1;
    }
    assert(values@.take(values.len() as int) =~= values@);
    out
}

/// The statement that adds a min-max index over the given columns (names are
/// put between backticks as they are); the index is named `idx` when no name
/// is given.
pub open spec fn create_index_statement(
    schema: Seq<char>,
    table: Seq<char>,
    index_name: Option<String>,
    columns: Seq<JsonValue>,
) -> Seq<char> {
    let name = match index_name {
        Some(n) => n@,
        None => "idx"@,
    };
    "ALTER TABLE "@ + raw_table_ref(schema, table) + " ADD INDEX "@ + raw_ident(name) + " ("@
        + joined(strings_among(columns), ", "@) + ") TYPE minmax GRANULARITY 1"@
}

/// The statements that add an index: exactly one.
pub fn create_index_sql(
    schema: &str,
    table: &str,
    index_name: Option<String>,
    columns: &Vec<JsonValue>,
) -> (r: Vec<String>)
    ensures
        views(r@) == seq![create_index_statement(schema@, table@, index_name, columns@)],
{
    let name = match &index_name {
        Some(n) => n.clone(),
        None => String::from_str("idx"),
    };
    let cols = string_items(columns);
    let cols_expr = join_strings(&cols, ", ");
    let mut r = String::from_str("ALTER TABLE ");
    let tr = raw_table(schema, table);
    r.append(tr.as_str());
    r.append(" ADD INDEX ");
    let n = raw_identifier(name.as_str());
    r.append(n.as_str());
    r.append(" (");
    r.append(cols_expr.as_str());
    r.append(") TYPE minmax GRANULARITY 1");
    let mut out: Vec<String> = Vec::new();
    out.push(r);
    assert(views(out@) =~= seq![create_index_statement(schema@, table@, index_name, columns@)]);
    out
}

/// The note given in place of a foreign-key statement.
pub open spec fn foreign_key_note() -> Seq<char> {
    "-- ClickHouse does not support foreign key constraints"@
}

/// The statements given for a foreign key: the note that ClickHouse has none.
pub fn create_foreign_key_sql() -> (r: Vec<String>)
    ensures
        views(r@) == seq![foreign_key_note()],
{
    let mut out: Vec<String> = Vec::new();
    out.push(String::from_str("-- ClickHouse does not support foreign key constraints"));
    assert(views(out@) =~= seq![foreign_key_note()]);
    out
}

} // verus!
