//! The JSON-RPC methods the plugin answers, how a request names them, and the
//! error codes of their failures.

use vstd::prelude::*;
use crate::text::same_text;

verus! {

/// A method of the plugin's JSON-RPC interface.
#[derive(Clone, Copy, PartialEq, Eq, Structural, Debug)]
pub enum Method {
    TestConnection,
    GetDatabases,
    GetSchemas,
    GetTables,
    GetColumns,
    GetForeignKeys,
    GetIndexes,
    GetViews,
    GetViewDefinition,
    GetViewColumns,
    CreateView,
    AlterView,
    DropView,
    GetRoutines,
    GetRoutineParameters,
    GetRoutineDefinition,
    ExecuteQuery,
    InsertRecord,
    UpdateRecord,
    DeleteRecord,
    GetSchemaSnapshot,
    GetAllColumnsBatch,
    GetAllForeignKeysBatch,
    GetCreateTableSql,
    GetAddColumnSql,
    GetAlterColumnSql,
    GetCreateIndexSql,
    GetCreateForeignKeySql,
    DropIndex,
    DropForeignKey,
}

/// The name by which a request asks for a method.
pub open spec fn method_name(m: Method) -> Seq<char> {
    match m {
        Method::TestConnection => "test_connection"@,
        Method::GetDatabases => "get_databases"@,
        Method::GetSchemas => "get_schemas"@,
        Method::GetTables => "get_tables"@,
        Method::GetColumns => "get_columns"@,
        Method::GetForeignKeys => "get_foreign_keys"@,
        Method::GetIndexes => "get_indexes"@,
        Method::GetViews => "get_views"@,
        Method::GetViewDefinition => "get_view_definition"@,
        Method::GetViewColumns => "get_view_columns"@,
        Method::CreateView => "create_view"@,
        Method::AlterView => "alter_view"@,
        Method::DropView => "drop_view"@,
        Method::GetRoutines => "get_routines"@,
        Method::GetRoutineParameters => "get_routine_parameters"@,
        Method::GetRoutineDefinition => "get_routine_definition"@,
        Method::ExecuteQuery => "execute_query"@,
        Method::InsertRecord => "insert_record"@,
        Method::UpdateRecord => "update_record"@,
        Method::DeleteRecord => "delete_record"@,
        Method::GetSchemaSnapshot => "get_schema_snapshot"@,
        Method::GetAllColumnsBatch => "get_all_columns_batch"@,
        Method::GetAllForeignKeysBatch => "get_all_foreign_keys_batch"@,
        Method::GetCreateTableSql => "get_create_table_sql"@,
        Method::GetAddColumnSql => "get_add_column_sql"@,
        Method::GetAlterColumnSql => "get_alter_column_sql"@,
        Method::GetCreateIndexSql => "get_create_index_sql"@,
        Method::GetCreateForeignKeySql => "get_create_foreign_key_sql"@,
        Method::DropIndex => "drop_index"@,
        Method::DropForeignKey => "drop_foreign_key"@,
    }
}

/// The position of a method in the order the interface lists them.
pub open spec fn method_index(m: Method) -> int {
    match m {
        Method::TestConnection => 0,
        Method::GetDatabases => 1,
        Method::GetSchemas => 2,
        Method::GetTables => 3,
        Method::GetColumns => 4,
        Method::GetForeignKeys => 5,
        Method::GetIndexes => 6,
        Method::GetViews => 7,
        Method::GetViewDefinition => 8,
        Method::GetViewColumns => 9,
        Method::CreateView => 10,
        Method::AlterView => 11,
        Method::DropView => 12,
        Method::GetRoutines => 13,
        Method::GetRoutineParameters => 14,
        Method::GetRoutineDefinition => 15,
        Method::ExecuteQuery => 16,
        Method::InsertRecord => 17,
        Method::UpdateRecord => 18,
        Method::DeleteRecord => 19,
        Method::GetSchemaSnapshot => 20,
        Method::GetAllColumnsBatch => 21,
        Method::GetAllForeignKeysBatch => 22,
        Method::GetCreateTableSql => 23,
        Method::GetAddColumnSql => 24,
        Method::GetAlterColumnSql => 25,
        Method::GetCreateIndexSql => 26,
        Method::GetCreateForeignKeySql => 27,
        Method::DropIndex => 28,
        Method::DropForeignKey => 29,
    }
}

/// Each method of the interface is asked for by its documented name:
/// `test_connection`, `get_databases`, `get_schemas`, `get_tables`,
/// `get_columns`, `get_foreign_keys`, `get_indexes`, `get_views`,
/// `get_view_definition`, `get_view_columns`, `create_view`, `alter_view`,
/// `drop_view`, `get_routines`, `get_routine_parameters`,
/// `get_routine_definition`, `execute_query`, `insert_record`,
/// `update_record`, `delete_record`, `get_schema_snapshot`,
/// `get_all_columns_batch`, `get_all_foreign_keys_batch`,
/// `get_create_table_sql`, `get_add_column_sql`, `get_alter_column_sql`,
/// `get_create_index_sql`, `get_create_foreign_key_sql`, `drop_index` and
/// `drop_foreign_key`.
pub proof fn lemma_documented_method_names()
    ensures
        method_name(Method::TestConnection) == "test_connection"@,
        method_name(Method::GetDatabases) == "get_databases"@,
        method_name(Method::GetSchemas) == "get_schemas"@,
        method_name(Method::GetTables) == "get_tables"@,
        method_name(Method::GetColumns) == "get_columns"@,
        method_name(Method::GetForeignKeys) == "get_foreign_keys"@,
        method_name(Method::GetIndexes) == "get_indexes"@,
        method_name(Method::GetViews) == "get_views"@,
        method_name(Method::GetViewDefinition) == "get_view_definition"@,
        method_name(Method::GetViewColumns) == "get_view_columns"@,
        method_name(Method::CreateView) == "create_view"@,
        method_name(Method::AlterView) == "alter_view"@,
        method_name(Method::DropView) == "drop_view"@,
        method_name(Method::GetRoutines) == "get_routines"@,
        method_name(Method::GetRoutineParameters) == "get_routine_parameters"@,
        method_name(Method::GetRoutineDefinition) == "get_routine_definition"@,
        method_name(Method::ExecuteQuery) == "execute_query"@,
        method_name(Method::InsertRecord) == "insert_record"@,
        method_name(Method::UpdateRecord) == "update_record"@,
        method_name(Method::DeleteRecord) == "delete_record"@,
        method_name(Method::GetSchemaSnapshot) == "get_schema_snapshot"@,
        method_name(Method::GetAllColumnsBatch) == "get_all_columns_batch"@,
        method_name(Method::GetAllForeignKeysBatch) == "get_all_foreign_keys_batch"@,
        method_name(Method::GetCreateTableSql) == "get_create_table_sql"@,
        method_name(Method::GetAddColumnSql) == "get_add_column_sql"@,
        method_name(Method::GetAlterColumnSql) == "get_alter_column_sql"@,
        method_name(Method::GetCreateIndexSql) == "get_create_index_sql"@,
        method_name(Method::GetCreateForeignKeySql) == "get_create_foreign_key_sql"@,
        method_name(Method::DropIndex) == "drop_index"@,
        method_name(Method::DropForeignKey) == "drop_foreign_key"@,
{
}

/// The error code each failing method answers with: -32000 for the
/// connection test, the database listings and the view statements; -32001
/// tables, -32002 columns, -32004 indexes, -32005 views, -32006 a view's
/// definition, -32007 a view's columns, -32012 a query, -32013 an insert,
/// -32014 an update, -32015 a delete, -32016 the schema snapshot, -32017 the
/// column batch, -32018 a `CREATE TABLE`, -32024 an index drop; -32601 for the
/// two methods ClickHouse cannot serve, refused with their reasons; the
/// methods that answer without the server have no failure.
pub proof fn lemma_documented_failures()
    ensures
        failure_code_of(Method::TestConnection) == Some(-32000i32),
        failure_code_of(Method::GetDatabases) == Some(-32000i32),
        failure_code_of(Method::GetSchemas) == Some(-32000i32),
        failure_code_of(Method::CreateView) == Some(-32000i32),
        failure_code_of(Method::AlterView) == Some(-32000i32),
        failure_code_of(Method::DropView) == Some(-32000i32),
        failure_code_of(Method::GetTables) == Some(-32001i32),
        failure_code_of(Method::GetColumns) == Some(-32002i32),
        failure_code_of(Method::GetIndexes) == Some(-32004i32),
        failure_code_of(Method::GetViews) == Some(-32005i32),
        failure_code_of(Method::GetViewDefinition) == Some(-32006i32),
        failure_code_of(Method::GetViewColumns) == Some(-32007i32),
        failure_code_of(Method::ExecuteQuery) == Some(-32012i32),
        failure_code_of(Method::InsertRecord) == Some(-32013i32),
        failure_code_of(Method::UpdateRecord) == Some(-32014i32),
        failure_code_of(Method::DeleteRecord) == Some(-32015i32),
        failure_code_of(Method::GetSchemaSnapshot) == Some(-32016i32),
        failure_code_of(Method::GetAllColumnsBatch) == Some(-32017i32),
        failure_code_of(Method::GetCreateTableSql) == Some(-32018i32),
        failure_code_of(Method::DropIndex) == Some(-32024i32),
        failure_code_of(Method::GetRoutineDefinition) == Some(-32601i32),
        failure_code_of(Method::DropForeignKey) == Some(-32601i32),
        refusal_of(Method::GetRoutineDefinition) == Some(
            "ClickHouse does not support stored routines"@,
        ),
        refusal_of(Method::DropForeignKey) == Some(
            "ClickHouse does not support foreign key constraints"@,
        ),
        failure_code_of(Method::GetForeignKeys) is None,
        failure_code_of(Method::GetRoutines) is None,
        failure_code_of(Method::GetRoutineParameters) is None,
        failure_code_of(Method::GetAllForeignKeysBatch) is None,
        failure_code_of(Method::GetAddColumnSql) is None,
        failure_code_of(Method::GetAlterColumnSql) is None,
        failure_code_of(Method::GetCreateIndexSql) is None,
        failure_code_of(Method::GetCreateForeignKeySql) is None,
        METHOD_NOT_SPECIFIED == -32600i32,
        METHOD_NOT_FOUND == -32601i32,
{
}

/// No two methods share a name, so a name asks for one method at most.
pub proof fn lemma_method_names_distinct(m1: Method, m2: Method)
    ensures
        method_name(m1) == method_name(m2) ==> m1 == m2,
{
    reveal_strlit("test_connection");
    reveal_strlit("get_databases");
    reveal_strlit("get_schemas");
    reveal_strlit("get_tables");
    reveal_strlit("get_columns");
    reveal_strlit("get_foreign_keys");
    reveal_strlit("get_indexes");
    reveal_strlit("get_views");
    reveal_strlit("get_view_definition");
    reveal_strlit("get_view_columns");
    reveal_strlit("create_view");
    reveal_strlit("alter_view");
    reveal_strlit("drop_view");
    reveal_strlit("get_routines");
    reveal_strlit("get_routine_parameters");
    reveal_strlit("get_routine_definition");
    reveal_strlit("execute_query");
    reveal_strlit("insert_record");
    reveal_strlit("update_record");
    reveal_strlit("delete_record");
    reveal_strlit("get_schema_snapshot");
    reveal_strlit("get_all_columns_batch");
    reveal_strlit("get_all_foreign_keys_batch");
    reveal_strlit("get_create_table_sql");
    reveal_strlit("get_add_column_sql");
    reveal_strlit("get_alter_column_sql");
    reveal_strlit("get_create_index_sql");
    reveal_strlit("get_create_foreign_key_sql");
    reveal_strlit("drop_index");
    reveal_strlit("drop_foreign_key");
    let a = method_name(m1);
    let b = method_name(m2);
    if a == b {
        assert(a.len() == b.len());
        assert(a[0] == b[0]);
        assert(a[4] == b[4]);
        if a.len() > 12 {
            assert(a[12] == b[12]);
        }
    }
}

/// The method a request's method name asks for; `None` for a name the plugin
/// does not implement.
pub fn parse_method(name: &str) -> (r: Option<Method>)
    ensures
        r matches Some(m) ==> name@ == method_name(m),
        r is None ==> forall|m: Method| name@ != #[trigger] method_name(m),
        forall|m: Method| name@ == #[trigger] method_name(m) ==> r == Some(m),
{
    let table: [(&str, Method); 30] = [
        ("test_connection", Method::TestConnection),
        ("get_databases", Method::GetDatabases),
        ("get_schemas", Method::GetSchemas),
        ("get_tables", Method::GetTables),
        ("get_columns", Method::GetColumns),
        ("get_foreign_keys", Method::GetForeignKeys),
        ("get_indexes", Method::GetIndexes),
        ("get_views", Method::GetViews),
        ("get_view_definition", Method::GetViewDefinition),
        ("get_view_columns", Method::GetViewColumns),
        ("create_view", Method::CreateView),
        ("alter_view", Method::AlterView),
        ("drop_view", Method::DropView),
        ("get_routines", Method::GetRoutines),
        ("get_routine_parameters", Method::GetRoutineParameters),
        ("get_routine_definition", Method::GetRoutineDefinition),
        ("execute_query", Method::ExecuteQuery),
        ("insert_record", Method::InsertRecord),
        ("update_record", Method::UpdateRecord),
        ("delete_record", Method::DeleteRecord),
        ("get_schema_snapshot", Method::GetSchemaSnapshot),
        ("get_all_columns_batch", Method::GetAllColumnsBatch),
        ("get_all_foreign_keys_batch", Method::GetAllForeignKeysBatch),
        ("get_create_table_sql", Method::GetCreateTableSql),
        ("get_add_column_sql", Method::GetAddColumnSql),
        ("get_alter_column_sql", Method::GetAlterColumnSql),
        ("get_create_index_sql", Method::GetCreateIndexSql),
        ("get_create_foreign_key_sql", Method::GetCreateForeignKeySql),
        ("drop_index", Method::DropIndex),
        ("drop_foreign_key", Method::DropForeignKey),
    ];
    assert(forall|k: int| 0 <= k < 30 ==> #[trigger] table@[k].0@ == method_name(table@[k].1));
    assert(forall|m: Method|
        0 <= #[trigger] method_index(m) < 30 && table@[method_index(m)].1 == m);
    let mut i: usize = 0;
    while i < 30
        invariant
            i <= 30,
            forall|k: int| 0 <= k < 30 ==> #[trigger] table@[k].0@ == method_name(table@[k].1),
            forall|k: int| 0 <= k < i ==> name@ != #[trigger] table@[k].0@,
        decreases 30 - i,
    {
        if same_text(name, table[i].0) {
            proof {
                assert forall|m: Method| name@ == #[trigger] method_name(m) implies table@[i as int].1
                    == m by {
                    lemma_method_names_distinct(m, table@[i as int].1);
                }
            }
            return Some(table[i].1);
        }
        i = i + 1;
    }
    proof {
        assert forall|m: Method| name@ != #[trigger] method_name(m) by {
            let k = method_index(m);
            assert(table@[k].0@ == method_name(m));
        }
    }
    None
}

/// The error code a method's failure is reported with; `None` for the methods
/// that cannot fail.
pub open spec fn failure_code_of(m: Method) -> Option<i32> {
    match m {
        Method::TestConnection | Method::GetDatabases | Method::GetSchemas | Method::CreateView
        | Method::AlterView | Method::DropView => Some(-32000i32),
        Method::GetTables => Some(-32001i32),
        Method::GetColumns => Some(-32002i32),
        Method::GetIndexes => Some(-32004i32),
        Method::GetViews => Some(-32005i32),
        Method::GetViewDefinition => Some(-32006i32),
        Method::GetViewColumns => Some(-32007i32),
        Method::ExecuteQuery => Some(-32012i32),
        Method::InsertRecord => Some(-32013i32),
        Method::UpdateRecord => Some(-32014i32),
        Method::DeleteRecord => Some(-32015i32),
        Method::GetSchemaSnapshot => Some(-32016i32),
        Method::GetAllColumnsBatch => Some(-32017i32),
        Method::GetCreateTableSql => Some(-32018i32),
        Method::DropIndex => Some(-32024i32),
        Method::GetRoutineDefinition | Method::DropForeignKey => Some(-32601i32),
        Method::GetForeignKeys | Method::GetRoutines | Method::GetRoutineParameters
        | Method::GetAllForeignKeysBatch | Method::GetAddColumnSql | Method::GetAlterColumnSql
        | Method::GetCreateIndexSql | Method::GetCreateForeignKeySql => None,
    }
}

/// The error code a method's failure is reported with.
pub fn failure_code(m: Method) -> (r: Option<i32>)
    ensures
        r == failure_code_of(m),
{
    match m {
        Method::TestConnection | Method::GetDatabases | Method::GetSchemas | Method::CreateView
        | Method::AlterView | Method::DropView => Some(-32000),
        Method::GetTables => Some(-32001),
        Method::GetColumns => Some(-32002),
        Method::GetIndexes => Some(-32004),
        Method::GetViews => Some(-32005),
        Method::GetViewDefinition => Some(-32006),
        Method::GetViewColumns => Some(-32007),
        Method::ExecuteQuery => Some(-32012),
        Method::InsertRecord => Some(-32013),
        Method::UpdateRecord => Some(-32014),
        Method::DeleteRecord => Some(-32015),
        Method::GetSchemaSnapshot => Some(-32016),
        Method::GetAllColumnsBatch => Some(-32017),
        Method::GetCreateTableSql => Some(-32018),
        Method::DropIndex => Some(-32024),
        Method::GetRoutineDefinition | Method::DropForeignKey => Some(-32601),
        Method::GetForeignKeys | Method::GetRoutines | Method::GetRoutineParameters
        | Method::GetAllForeignKeysBatch | Method::GetAddColumnSql | Method::GetAlterColumnSql
        | Method::GetCreateIndexSql | Method::GetCreateForeignKeySql => None,
    }
}

/// The error code of a request that names no method.
pub const METHOD_NOT_SPECIFIED: i32 = -32600;

/// The error code of a method that is not implemented or not supported.
pub const METHOD_NOT_FOUND: i32 = -32601;

/// The message of a request that names no method.
pub open spec fn method_not_specified_message() -> Seq<char> {
    "Method not specified"@
}

/// The message of a request that names no method.
pub fn method_not_specified() -> (r: String)
    ensures
        r@ == method_not_specified_message(),
{
    String::from_str("Method not specified")
}

/// Why a method is refused outright, for the methods ClickHouse cannot serve.
pub open spec fn refusal_of(m: Method) -> Option<Seq<char>> {
    match m {
        Method::GetRoutineDefinition => Some("ClickHouse does not support stored routines"@),
        Method::DropForeignKey => Some("ClickHouse does not support foreign key constraints"@),
        _ => None,
    }
}

/// Why a method is refused outright, if it is.
pub fn refusal(m: Method) -> (r: Option<String>)
    ensures
        match r {
            Some(s) => refusal_of(m) == Some(s@),
            None => refusal_of(m) is None,
        },
{
    match m {
        Method::GetRoutineDefinition => Some(
            String::from_str("ClickHouse does not support stored routines"),
        ),
        Method::DropForeignKey => Some(
            String::from_str("ClickHouse does not support foreign key constraints"),
        ),
        _ => None,
    }
}

/// The message for a method name the plugin does not implement.
pub open spec fn not_implemented_message(name: Seq<char>) -> Seq<char> {
    "Method '"@ + name + "' not implemented"@
}

/// The message for a method name the plugin does not implement.
pub fn not_implemented(name: &str) -> (r: String)
    ensures
        r@ == not_implemented_message(name@),
{
    let mut r = String::from_str("Method '");
    r.append(name);
    r.append("' not implemented");
    r
}

/// The schema a request works in: the one it names, else the connection's
/// database.
pub fn schema_or(schema: Option<String>, database: &str) -> (r: String)
    ensures
        r@ == match schema {
            Some(s) => s@,
            None => database@,
        },
{
    match schema {
        Some(s) => s,
        None => String::from_str(database),
    }
}

/// What the plugin does for a method.
#[derive(Clone, Copy, PartialEq, Eq, Structural, Debug)]
pub enum Action {
    /// Run the connection test query.
    TestConnection,
    /// List the databases.
    ListDatabases,
    /// List the tables of the schema.
    ListTables,
    /// List the columns of the table (or view) the request names.
    ListColumns,
    /// List the indexes of a table.
    ListIndexes,
    /// List the views of the schema.
    ListViews,
    /// Fetch a view's definition.
    ViewDefinition,
    /// Run a view statement (create, replace or drop).
    ViewStatement,
    /// Answer with an empty list.
    EmptyList,
    /// Answer with an empty object.
    EmptyObject,
    /// Refuse with the method's reason.
    Refuse,
    /// Run the user's query.
    ExecuteQuery,
    /// Run a row edit (insert, update or delete).
    EditRecord,
    /// Build the schema snapshot.
    SchemaSnapshot,
    /// List the columns of every table, grouped by table.
    AllColumns,
    /// Fetch a table's `CREATE TABLE`.
    CreateTableSql,
    /// Answer with generated DDL, not run.
    GenerateSql,
    /// Drop an index.
    DropIndex,
}

/// What the plugin does for each method: `get_schemas` is `get_databases`,
/// `get_view_columns` lists columns as `get_columns` does, the foreign-key and
/// routine listings are empty, and what ClickHouse lacks is refused.
pub open spec fn action_of(m: Method) -> Action {
    match m {
        Method::TestConnection => Action::TestConnection,
        Method::GetDatabases | Method::GetSchemas => Action::ListDatabases,
        Method::GetTables => Action::ListTables,
        Method::GetColumns | Method::GetViewColumns => Action::ListColumns,
        Method::GetForeignKeys | Method::GetRoutines | Method::GetRoutineParameters => Action::EmptyList,
        Method::GetIndexes => Action::ListIndexes,
        Method::GetViews => Action::ListViews,
        Method::GetViewDefinition => Action::ViewDefinition,
        Method::CreateView | Method::AlterView | Method::DropView => Action::ViewStatement,
        Method::GetRoutineDefinition | Method::DropForeignKey => Action::Refuse,
        Method::ExecuteQuery => Action::ExecuteQuery,
        Method::InsertRecord | Method::UpdateRecord | Method::DeleteRecord => Action::EditRecord,
        Method::GetSchemaSnapshot => Action::SchemaSnapshot,
        Method::GetAllColumnsBatch => Action::AllColumns,
        Method::GetAllForeignKeysBatch => Action::EmptyObject,
        Method::GetCreateTableSql => Action::CreateTableSql,
        Method::GetAddColumnSql | Method::GetAlterColumnSql | Method::GetCreateIndexSql
        | Method::GetCreateForeignKeySql => Action::GenerateSql,
        Method::DropIndex => Action::DropIndex,
    }
}

/// What the plugin does for a method.
pub fn action(m: Method) -> (r: Action)
    ensures
        r == action_of(m),
{
    match m {
        Method::TestConnection => Action::TestConnection,
        Method::GetDatabases | Method::GetSchemas => Action::ListDatabases,
        Method::GetTables => Action::ListTables,
        Method::GetColumns | Method::GetViewColumns => Action::ListColumns,
        Method::GetForeignKeys | Method::GetRoutines | Method::GetRoutineParameters => Action::EmptyList,
        Method::GetIndexes => Action::ListIndexes,
        Method::GetViews => Action::ListViews,
        Method::GetViewDefinition => Action::ViewDefinition,
        Method::CreateView | Method::AlterView | Method::DropView => Action::ViewStatement,
        Method::GetRoutineDefinition | Method::DropForeignKey => Action::Refuse,
        Method::ExecuteQuery => Action::ExecuteQuery,
        Method::InsertRecord | Method::UpdateRecord | Method::DeleteRecord => Action::EditRecord,
        Method::GetSchemaSnapshot => Action::SchemaSnapshot,
        Method::GetAllColumnsBatch => Action::AllColumns,
        Method::GetAllForeignKeysBatch => Action::EmptyObject,
        Method::GetCreateTableSql => Action::CreateTableSql,
        Method::GetAddColumnSql | Method::GetAlterColumnSql | Method::GetCreateIndexSql
        | Method::GetCreateForeignKeySql => Action::GenerateSql,
        Method::DropIndex => Action::DropIndex,
    }
}

/// What each method does, as the interface documents it: the connection
/// test; the database listing (for `get_schemas` too); the table, column (for a
/// view's columns too), index and view listings; a view's definition; the view
/// statements; an empty list for foreign keys and routines and an empty object
/// for the foreign-key batch; the refusal of routine definitions and foreign-key
/// drops; running a query; the row edits; the schema snapshot; the column
/// batch; a table's `CREATE TABLE`; the generated DDL; and an index drop.
pub proof fn lemma_documented_actions()
    ensures
        action_of(Method::TestConnection) == Action::TestConnection,
        action_of(Method::GetDatabases) == Action::ListDatabases,
        action_of(Method::GetSchemas) == Action::ListDatabases,
        action_of(Method::GetTables) == Action::ListTables,
        action_of(Method::GetColumns) == Action::ListColumns,
        action_of(Method::GetForeignKeys) == Action::EmptyList,
        action_of(Method::GetIndexes) == Action::ListIndexes,
        action_of(Method::GetViews) == Action::ListViews,
        action_of(Method::GetViewDefinition) == Action::ViewDefinition,
        action_of(Method::GetViewColumns) == Action::ListColumns,
        action_of(Method::CreateView) == Action::ViewStatement,
        action_of(Method::AlterView) == Action::ViewStatement,
        action_of(Method::DropView) == Action::ViewStatement,
        action_of(Method::GetRoutines) == Action::EmptyList,
        action_of(Method::GetRoutineParameters) == Action::EmptyList,
        action_of(Method::GetRoutineDefinition) == Action::Refuse,
        action_of(Method::ExecuteQuery) == Action::ExecuteQuery,
        action_of(Method::InsertRecord) == Action::EditRecord,
        action_of(Method::UpdateRecord) == Action::EditRecord,
        action_of(Method::DeleteRecord) == Action::EditRecord,
        action_of(Method::GetSchemaSnapshot) == Action::SchemaSnapshot,
        action_of(Method::GetAllColumnsBatch) == Action::AllColumns,
        action_of(Method::GetAllForeignKeysBatch) == Action::EmptyObject,
        action_of(Method::GetCreateTableSql) == Action::CreateTableSql,
        action_of(Method::GetAddColumnSql) == Action::GenerateSql,
        action_of(Method::GetAlterColumnSql) == Action::GenerateSql,
        action_of(Method::GetCreateIndexSql) == Action::GenerateSql,
        action_of(Method::GetCreateForeignKeySql) == Action::GenerateSql,
        action_of(Method::DropIndex) == Action::DropIndex,
        action_of(Method::DropForeignKey) == Action::Refuse,
{
}

/// The methods' documented behaviour: `get_schemas` does what `get_databases`
/// does, `get_view_columns` what `get_columns` does; the foreign-key and
/// routine listings answer with nothing; exactly the methods ClickHouse cannot
/// serve are refused, with the not-found code; a method that answers without
/// touching the server cannot fail.
pub proof fn lemma_method_table(m: Method)
    ensures
        action_of(Method::GetSchemas) == action_of(Method::GetDatabases),
        action_of(Method::GetViewColumns) == action_of(Method::GetColumns),
        action_of(Method::GetForeignKeys) == Action::EmptyList,
        action_of(Method::GetRoutines) == Action::EmptyList,
        action_of(Method::GetRoutineParameters) == Action::EmptyList,
        action_of(Method::GetAllForeignKeysBatch) == Action::EmptyObject,
        (action_of(m) == Action::Refuse) <==> refusal_of(m) is Some,
        action_of(m) == Action::Refuse ==> failure_code_of(m) == Some(METHOD_NOT_FOUND),
        (action_of(m) == Action::EmptyList || action_of(m) == Action::EmptyObject || action_of(m)
            == Action::GenerateSql) <==> failure_code_of(m) is None,
{
}

} // verus!
