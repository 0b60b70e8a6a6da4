use tabularis_clickhouse_plugin::rpc::{
    action, failure_code, method_not_specified, not_implemented, parse_method, refusal, schema_or, Action, Method,
    METHOD_NOT_FOUND, METHOD_NOT_SPECIFIED,
};

#[test]
fn method_names() {
    assert_eq!(parse_method("get_tables"), Some(Method::GetTables));
    assert_eq!(parse_method("get_schemas"), Some(Method::GetSchemas));
    assert_eq!(parse_method("drop_foreign_key"), Some(Method::DropForeignKey));
    assert_eq!(parse_method("execute_query"), Some(Method::ExecuteQuery));
    assert_eq!(parse_method("get_routine_parameters"), Some(Method::GetRoutineParameters));
    assert_eq!(parse_method("Get_Tables"), None);
    assert_eq!(parse_method(""), None);
    assert_eq!(parse_method("get_tables "), None);
}

#[test]
fn failure_codes() {
    assert_eq!(failure_code(Method::TestConnection), Some(-32000));
    assert_eq!(failure_code(Method::CreateView), Some(-32000));
    assert_eq!(failure_code(Method::GetTables), Some(-32001));
    assert_eq!(failure_code(Method::GetColumns), Some(-32002));
    assert_eq!(failure_code(Method::GetIndexes), Some(-32004));
    assert_eq!(failure_code(Method::GetViews), Some(-32005));
    assert_eq!(failure_code(Method::GetViewDefinition), Some(-32006));
    assert_eq!(failure_code(Method::GetViewColumns), Some(-32007));
    assert_eq!(failure_code(Method::ExecuteQuery), Some(-32012));
    assert_eq!(failure_code(Method::InsertRecord), Some(-32013));
    assert_eq!(failure_code(Method::UpdateRecord), Some(-32014));
    assert_eq!(failure_code(Method::DeleteRecord), Some(-32015));
    assert_eq!(failure_code(Method::GetSchemaSnapshot), Some(-32016));
    assert_eq!(failure_code(Method::GetAllColumnsBatch), Some(-32017));
    assert_eq!(failure_code(Method::GetCreateTableSql), Some(-32018));
    assert_eq!(failure_code(Method::DropIndex), Some(-32024));
    assert_eq!(failure_code(Method::DropForeignKey), Some(METHOD_NOT_FOUND));
    assert_eq!(failure_code(Method::GetForeignKeys), None);
    assert_eq!(METHOD_NOT_SPECIFIED, -32600);
}

#[test]
fn messages() {
    assert_eq!(method_not_specified(), "Method not specified");
    assert_eq!(not_implemented("frobnicate"), "Method 'frobnicate' not implemented");
    assert_eq!(
        refusal(Method::GetRoutineDefinition),
        Some("ClickHouse does not support stored routines".to_string())
    );
    assert_eq!(
        refusal(Method::DropForeignKey),
        Some("ClickHouse does not support foreign key constraints".to_string())
    );
    assert_eq!(refusal(Method::GetTables), None);
}

#[test]
fn schema_defaults_to_the_database() {
    assert_eq!(schema_or(None, "db"), "db");
    assert_eq!(schema_or(Some("other".to_string()), "db"), "other");
}

#[test]
fn schemas_are_databases_and_view_columns_are_columns() {
    assert_eq!(action(Method::GetSchemas), action(Method::GetDatabases));
    assert_eq!(action(Method::GetDatabases), Action::ListDatabases);
    assert_eq!(action(Method::GetViewColumns), action(Method::GetColumns));
    assert_eq!(action(Method::GetColumns), Action::ListColumns);
}

#[test]
fn unsupported_listings_answer_empty() {
    assert_eq!(action(Method::GetForeignKeys), Action::EmptyList);
    assert_eq!(action(Method::GetRoutines), Action::EmptyList);
    assert_eq!(action(Method::GetRoutineParameters), Action::EmptyList);
    assert_eq!(action(Method::GetAllForeignKeysBatch), Action::EmptyObject);
    assert_eq!(failure_code(Method::GetRoutines), None);
}

#[test]
fn refused_methods_are_exactly_those_with_a_reason() {
    assert_eq!(action(Method::GetRoutineDefinition), Action::Refuse);
    assert_eq!(action(Method::DropForeignKey), Action::Refuse);
    assert_eq!(failure_code(Method::GetRoutineDefinition), Some(METHOD_NOT_FOUND));
    assert_eq!(action(Method::DropIndex), Action::DropIndex);
    assert_eq!(action(Method::GetCreateIndexSql), Action::GenerateSql);
    assert_eq!(action(Method::UpdateRecord), Action::EditRecord);
    assert_eq!(action(Method::AlterView), Action::ViewStatement);
}
