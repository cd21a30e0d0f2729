use saya_cli::definitions::{
    contract_definitions, definitions, definitions_with_chart_save, propose_definition,
    LocalStateEffect, ToolDefinition,
};
use saya_cli::json::Json;
use saya_cli::tool_args::validate_arguments;

fn text(s: &str) -> Json {
    Json::String(s.to_string())
}

fn names(list: &[&str]) -> Json {
    Json::Array(list.iter().map(|s| text(s)).collect())
}

fn find<'a>(tools: &'a [ToolDefinition], name: &str) -> Option<&'a ToolDefinition> {
    tools.iter().find(|tool| tool.name == name)
}

fn property<'a>(tool: &'a ToolDefinition, name: &str) -> Option<&'a Json> {
    tool.parameters.get("properties").and_then(|p| p.get(name))
}

fn is_object(v: Option<&Json>) -> bool {
    matches!(v, Some(Json::Object(_)))
}

fn assert_sql_tool_advertised(name: &str) {
    let tools = definitions(true, false, false, false);
    let tool = find(&tools, name).expect("advertised when data sharing is on");
    assert!(tool.read_only);
    assert!(tool.effect.requires_approval);
    assert_eq!(tool.parameters.get("required"), Some(&names(&["sql"])));
    assert!(is_object(property(tool, "connection")));
    assert!(is_object(property(tool, "sql")));
    let hidden = definitions(false, false, false, false);
    assert!(find(&hidden, name).is_none(), "{name} is not advertised when data sharing is off");
}

#[test]
fn column_health_is_advertised_with_its_arguments_when_sharing_is_on() {
    assert_sql_tool_advertised("column_health");
}

#[test]
fn result_shape_is_advertised_with_its_arguments_when_sharing_is_on() {
    assert_sql_tool_advertised("result_shape");
}

#[test]
fn join_check_is_advertised_with_its_arguments_when_sharing_is_on() {
    assert_sql_tool_advertised("join_check");
}

#[test]
fn contract_tool_definitions_are_read_only_unapproved_and_not_writable() {
    let tools = definitions(true, true, false, false);
    let search = find(&tools, "contract_search").expect("contract_search is registered");
    let read = find(&tools, "contract_read").expect("contract_read is registered");
    for tool in [search, read] {
        assert!(tool.read_only, "{} must be read_only", tool.name);
        assert!(!tool.effect.requires_approval);
        assert!(!tool.effect.external_side_effect);
        assert!(tool.effect.database_data);
    }
}

#[test]
fn contract_tools_are_hidden_without_a_store_or_when_the_gate_is_closed() {
    let with_store = contract_definitions(true, true);
    assert!(find(&with_store, "contract_search").is_some());
    assert!(find(&with_store, "contract_read").is_some());
    let no_store = contract_definitions(true, false);
    assert!(find(&no_store, "contract_search").is_none());
    assert!(find(&no_store, "contract_read").is_none());
    let closed = contract_definitions(false, true);
    assert!(find(&closed, "contract_search").is_none());
    assert!(find(&closed, "contract_read").is_none());
}

#[test]
fn render_chart_requires_approval() {
    let tools = definitions(true, false, false, false);
    let chart = find(&tools, "render_chart").expect("render_chart definition exists");
    assert!(chart.effect.requires_approval);
    assert!(chart.effect.external_side_effect);
    assert!(!chart.effect.database_data);
    assert_eq!(chart.effect.local_state, LocalStateEffect::Nothing);
}

#[test]
fn the_tool_is_hidden_when_writes_are_not_permitted() {
    let hidden = definitions(false, false, false, false);
    assert!(find(&hidden, "workspace_edit").is_none());
    let shown = definitions(false, false, false, true);
    let tool = find(&shown, "workspace_edit").expect("advertised when writes are permitted");
    assert!(!tool.read_only);
    assert!(!tool.effect.database_data);
    assert!(!tool.effect.external_side_effect);
    assert!(!tool.effect.requires_approval);
    assert_eq!(tool.effect.local_state, LocalStateEffect::WriteWorkspace);
    assert_eq!(tool.parameters.get("required"), Some(&names(&["path"])));
    let variants = match tool.parameters.get("oneOf") {
        Some(Json::Array(v)) => v,
        other => panic!("oneOf missing: {other:?}"),
    };
    assert_eq!(variants.len(), 2);
    assert!(variants.iter().any(|v| v.get("required") == Some(&names(&["old_text", "new_text"]))));
    assert!(variants.iter().any(|v| v.get("required") == Some(&names(&["offset", "chunk"]))));
    assert_eq!(tool.completion.as_deref(), Some("workspace file edited"));
}

#[test]
fn test_contract_propose_tool_not_advertised_to_model() {
    let tools = definitions(true, true, true, false);
    let listed: Vec<&str> = tools.iter().map(|t| t.name.as_str()).collect();
    assert!(!listed.contains(&"contract_propose"));
    assert!(listed.contains(&"schema_discovery"));
    assert!(listed.contains(&"bounded_sql_query"));
    assert!(listed.contains(&"contract_search"));
    assert!(listed.contains(&"contract_read"));
}

#[test]
fn the_full_catalogue_is_listed_in_order() {
    let tools = definitions(true, true, false, true);
    let listed: Vec<&str> = tools.iter().map(|t| t.name.as_str()).collect();
    assert_eq!(
        listed,
        vec![
            "schema_discovery",
            "workspace_read",
            "workspace_list",
            "glob",
            "grep",
            "workspace_edit",
            "workspace_write",
            "bounded_sql_query",
            "bounded_sql_query_all",
            "result_shape",
            "column_health",
            "join_check",
            "render_chart",
            "designate_answer",
            "contract_search",
            "contract_read",
        ]
    );
    let minimal = definitions(false, true, true, false);
    let listed: Vec<&str> = minimal.iter().map(|t| t.name.as_str()).collect();
    assert_eq!(listed, vec!["schema_discovery", "workspace_read", "workspace_list", "glob", "grep"]);
}

#[test]
fn every_schema_closes_additional_properties() {
    for tool in definitions(true, true, false, true) {
        assert_eq!(tool.parameters.get("type"), Some(&text("object")), "{}", tool.name);
        assert_eq!(
            tool.parameters.get("additionalProperties"),
            Some(&Json::Bool(false)),
            "{}",
            tool.name
        );
    }
}

#[test]
fn advertised_arguments_validate_and_unknown_ones_do_not() {
    let tools = definitions(true, false, false, false);
    let query = find(&tools, "bounded_sql_query").unwrap();
    assert!(is_object(property(query, "sql")));
    let ok = Json::Object(vec![("sql".to_string(), text("select 1"))]);
    assert!(validate_arguments("bounded_sql_query", &ok).is_ok());
    let unknown = Json::Object(vec![
        ("sql".to_string(), text("select 1")),
        ("limit".to_string(), text("5")),
    ]);
    assert!(validate_arguments("bounded_sql_query", &unknown).is_err());
    let missing = Json::Object(Vec::new());
    assert!(validate_arguments("bounded_sql_query", &missing).is_err());
}

#[test]
fn the_propose_definition_declares_a_candidate_write() {
    let tool = propose_definition();
    assert_eq!(tool.name, "contract_propose");
    assert!(!tool.read_only);
    assert!(tool.effect.database_data);
    assert_eq!(tool.effect.local_state, LocalStateEffect::WriteCandidate);
    assert_eq!(
        tool.parameters.get("required"),
        Some(&names(&["table", "kind", "value"]))
    );
}

#[test]
fn parameter_types_are_declared() {
    let tools = definitions(true, true, false, true);
    let type_of = |tool: &str, prop: &str| {
        let t = find(&tools, tool).unwrap();
        property(t, prop).and_then(|p| p.get("type")).and_then(|t| t.as_str()).map(|s| s.to_string())
    };
    assert_eq!(type_of("bounded_sql_query", "sql").as_deref(), Some("string"));
    assert_eq!(type_of("workspace_edit", "offset").as_deref(), Some("integer"));
    assert_eq!(type_of("grep", "case_insensitive").as_deref(), Some("boolean"));
    assert_eq!(type_of("render_chart", "y").as_deref(), Some("array"));
    assert_eq!(type_of("contract_search", "terms").as_deref(), Some("array"));
    assert_eq!(type_of("contract_read", "table").as_deref(), Some("string"));
}

#[test]
fn render_chart_offers_workspace_save_only_with_write_permit() {
    let tools = definitions_with_chart_save(true, false, false, true, true);
    let chart = find(&tools, "render_chart").unwrap();
    assert_eq!(property(chart, "save_to").and_then(|p| p.get("type")), Some(&text("string")));
    assert_eq!(chart.effect.local_state, LocalStateEffect::WriteWorkspace);
    assert!(chart.effect.requires_approval);
    assert!(chart.effect.external_side_effect);

    let tools = definitions_with_chart_save(true, false, false, false, true);
    let chart = find(&tools, "render_chart").unwrap();
    assert!(property(chart, "save_to").is_none());
    assert_eq!(chart.effect.local_state, LocalStateEffect::Nothing);

    let tools = definitions_with_chart_save(true, false, false, true, false);
    let chart = find(&tools, "render_chart").unwrap();
    assert!(property(chart, "save_to").is_none());
}

#[test]
fn render_chart_accepts_save_to() {
    let args = Json::Object(vec![
        ("sql".to_string(), text("SELECT 1")),
        ("chart_type".to_string(), text("bar")),
        ("save_to".to_string(), text("monthly.html")),
    ]);
    assert!(validate_arguments("render_chart", &args).is_ok());
}
