use saya_cli::json::Json;
use saya_cli::schema::{
    cached_schema_answer, compact_schema, model_row_limit, AuditStatus, ColumnNode, DatabaseNode,
    SchemaNode, SchemaTree, TableNode, MODEL_ROW_CAP,
};
use saya_cli::tool_error::ToolError;

fn column(name: &str, data_type: &str) -> ColumnNode {
    ColumnNode { name: name.to_string(), data_type: data_type.to_string() }
}

fn table(name: &str, columns: Vec<ColumnNode>) -> TableNode {
    TableNode { name: name.to_string(), columns }
}

fn schema(name: &str, tables: Vec<TableNode>) -> SchemaNode {
    SchemaNode { name: name.to_string(), tables }
}

fn tree(db: &str, schemas: Vec<SchemaNode>) -> SchemaTree {
    SchemaTree { databases: vec![DatabaseNode { name: db.to_string(), schemas }] }
}

fn tables_of(compact: &Json) -> &Vec<(String, Json)> {
    match compact.get("tables") {
        Some(Json::Object(m)) => m,
        other => panic!("tables missing: {other:?}"),
    }
}

fn text(s: &str) -> Json {
    Json::String(s.to_string())
}

fn two_users() -> SchemaTree {
    tree(
        "main",
        vec![
            schema("public", vec![table("users", vec![column("id", "INTEGER")])]),
            schema("sales", vec![table("users", vec![column("email", "TEXT")])]),
        ],
    )
}

#[test]
fn compact_schema_qualifies_keys_and_prevents_collisions() {
    let compact = compact_schema(&two_users(), 3);
    let tables = tables_of(&compact);
    assert_eq!(tables.len(), 2);
    assert_eq!(lookup(tables, "main.public.users"), Some(&text("id:INTEGER")));
    assert_eq!(lookup(tables, "main.sales.users"), Some(&text("email:TEXT")));
}

#[test]
fn compact_schema_single_table_uses_fully_qualified_key() {
    let t = tree(
        "db1",
        vec![schema("schema1", vec![table("orders", vec![column("id", "INT"), column("amount", "NUMERIC")])])],
    );
    let compact = compact_schema(&t, 3);
    let tables = tables_of(&compact);
    assert_eq!(tables.len(), 1);
    assert_eq!(tables[0].0, "db1.schema1.orders");
    assert_eq!(tables[0].1, text("id:INT, amount:NUMERIC"));
}

#[test]
fn short_names_are_used_when_unambiguous_and_qualified_when_not() {
    let one_part = compact_schema(
        &tree("main", vec![schema("main", vec![table("orders", vec![column("id", "INT")])])]),
        1,
    );
    let tables = tables_of(&one_part);
    assert_eq!(tables.len(), 1);
    assert_eq!(tables[0].0, "orders");

    let clash = compact_schema(&two_users(), 1);
    let keys: Vec<&str> = tables_of(&clash).iter().map(|(k, _)| k.as_str()).collect();
    assert_eq!(keys, vec!["main.public.users", "main.sales.users"]);

    let two_part = compact_schema(
        &tree("shop", vec![schema("public", vec![table("items", vec![])])]),
        2,
    );
    let tables = tables_of(&two_part);
    assert_eq!(tables[0].0, "shop.items");
    assert_eq!(tables[0].1, text(""));
}

#[test]
fn an_empty_schema_compacts_to_no_tables() {
    let compact = compact_schema(&SchemaTree { databases: Vec::new() }, 3);
    assert!(tables_of(&compact).is_empty());
}

#[test]
fn the_model_row_limit_never_exceeds_the_cap() {
    assert_eq!(model_row_limit(10), 10);
    assert_eq!(model_row_limit(MODEL_ROW_CAP), MODEL_ROW_CAP);
    assert_eq!(model_row_limit(1000), MODEL_ROW_CAP);
}

#[test]
fn a_failed_refresh_serves_the_cache_with_a_diagnostic() {
    let cached = two_users();
    let (answer, status) = cached_schema_answer("connection refused", Some(&cached), 3);
    assert_eq!(status, AuditStatus::Cached);
    let value = answer.expect("the cache answers");
    assert_eq!(
        value.get("diagnostic"),
        Some(&text("using cached schema because live refresh failed: connection refused"))
    );
    assert_eq!(tables_of(&value).len(), 2);

    let (answer, status) = cached_schema_answer("connection refused", None, 3);
    assert_eq!(status, AuditStatus::Failure);
    assert_eq!(answer, Err(ToolError::SchemaDiscoveryFailed("connection refused".to_string())));
}

fn lookup<'a>(members: &'a [(String, Json)], key: &str) -> Option<&'a Json> {
    members.iter().find(|(k, _)| k == key).map(|(_, v)| v)
}
