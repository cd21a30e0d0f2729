use saya_cli::chart::{
    chart_overrides, chart_request, chart_y_columns, chart_result, check_chart_save, SAVED_NOTE, TEMP_NOTE,
};
use saya_cli::contract_args::{validate_arguments as validate_contract_arguments, MAX_TERMS};
use saya_cli::contract_tools::{
    cap_read_claims, contract_gate, empty_for, empty_result, read_answer, resolve_name,
    search_answer, search_terms, ContractGate, EmptyShape, ReadOutcome, MAX_READ_CLAIMS,
    REASON_NO_CONTRACT, REASON_NO_IDENTITY, REASON_NO_MATCH, REASON_PRIVACY, REASON_STALE,
    REASON_STORE,
};
use saya_cli::dispatch::{
    denied_observation, fan_out_record_of, fan_out_report, read_only_route, FanOutOutcome,
    ReadOnlyRoute, WorkspaceTool,
};
use saya_cli::json::{Json, JsonNumber};
use saya_cli::logs::ObservationOutcome;
use saya_cli::tool_error::ToolError;

fn text(s: &str) -> Json {
    Json::String(s.to_string())
}

fn object(members: Vec<(&str, Json)>) -> Json {
    Json::Object(members.into_iter().map(|(k, v)| (k.to_string(), v)).collect())
}

fn terms(list: &[&str]) -> Json {
    Json::Array(list.iter().map(|s| text(s)).collect())
}

fn reason(v: &Json) -> Option<&str> {
    v.get("reason").and_then(|r| r.as_str())
}

#[test]
fn contract_tool_argument_validation_errors_are_typed() {
    let search = |j: Json| validate_contract_arguments("contract_search", &j);
    let read = |j: Json| validate_contract_arguments("contract_read", &j);
    assert_eq!(search(object(vec![("terms", terms(&["orders"]))])), Ok(()));
    assert_eq!(search(object(vec![])), Ok(()), "a missing terms is an empty search");
    assert_eq!(search(text("orders")), Err(ToolError::ArgumentsNotObject));
    assert_eq!(search(object(vec![("bogus", Json::Null)])), Err(ToolError::UnsupportedProperty));
    assert_eq!(
        search(object(vec![("connection", Json::Bool(true))])),
        Err(ToolError::ConnectionNotString)
    );
    assert_eq!(search(object(vec![("terms", text("orders"))])), Err(ToolError::InvalidQueryArguments));
    assert_eq!(
        search(object(vec![("terms", Json::Array(vec![text("a"), Json::Null]))])),
        Err(ToolError::InvalidQueryArguments)
    );
    let many: Vec<String> = (0..=MAX_TERMS).map(|i| format!("t{i}")).collect();
    let many_refs: Vec<&str> = many.iter().map(|s| s.as_str()).collect();
    assert_eq!(search(object(vec![("terms", terms(&many_refs))])), Err(ToolError::InvalidQueryArguments));
    assert_eq!(search(object(vec![("terms", terms(&many_refs[..MAX_TERMS]))])), Ok(()));
    assert_eq!(read(object(vec![("table", text("c.s.t"))])), Ok(()));
    assert_eq!(read(object(vec![])), Err(ToolError::InvalidQueryArguments));
    assert_eq!(
        read(object(vec![("table", Json::Number(JsonNumber::PosInt(1)))])),
        Err(ToolError::InvalidQueryArguments)
    );
    assert_eq!(read(object(vec![("terms", terms(&[]))])), Err(ToolError::UnsupportedProperty));
    assert_eq!(
        validate_contract_arguments("contract_write", &object(vec![])),
        Err(ToolError::UnsupportedTool)
    );
}

#[test]
fn the_profile_name_falls_back_to_the_primary() {
    assert_eq!(resolve_name("primary", None), "primary");
    assert_eq!(resolve_name("primary", Some("")), "primary");
    assert_eq!(resolve_name("primary", Some("warehouse")), "warehouse");
}

#[test]
fn privacy_gate_closed_returns_empty_without_claims() {
    let gate = contract_gate(EmptyShape::Search, Some(true), false, true).unwrap();
    match gate {
        ContractGate::Empty(v) => {
            assert_eq!(reason(&v), Some(REASON_PRIVACY));
            assert_eq!(v.get("contracts"), Some(&Json::Array(Vec::new())));
        }
        ContractGate::Proceed => panic!("a closed gate answers empty"),
    }
}

#[test]
fn contract_gate_checks_identity_then_privacy_then_store() {
    let no_identity = contract_gate(EmptyShape::Read, None, false, false).unwrap();
    assert_eq!(no_identity, ContractGate::Empty(empty_result(EmptyShape::Read, REASON_NO_IDENTITY)));
    assert_eq!(
        contract_gate(EmptyShape::Read, Some(false), true, true),
        Err(ToolError::InvalidQueryArguments)
    );
    let no_store = contract_gate(EmptyShape::Read, Some(true), true, false).unwrap();
    assert_eq!(no_store, ContractGate::Empty(empty_result(EmptyShape::Read, REASON_STORE)));
    assert_eq!(contract_gate(EmptyShape::Search, Some(true), true, true), Ok(ContractGate::Proceed));
}

#[test]
fn empty_results_have_the_tool_shape() {
    assert_eq!(empty_for("contract_read"), EmptyShape::Read);
    assert_eq!(empty_for("contract_search"), EmptyShape::Search);
    assert_eq!(
        empty_result(EmptyShape::Read, "why"),
        object(vec![("reason", text("why"))])
    );
    assert_eq!(
        empty_result(EmptyShape::Search, "why"),
        object(vec![("contracts", Json::Array(Vec::new())), ("reason", text("why"))])
    );
}

#[test]
fn search_answers_say_why_nothing_came_back() {
    assert_eq!(reason(&search_answer(true, 0, vec![text("x")])), Some(REASON_STORE));
    assert_eq!(reason(&search_answer(false, 2, Vec::new())), Some(REASON_STALE));
    assert_eq!(reason(&search_answer(false, 0, Vec::new())), Some(REASON_NO_MATCH));
    let found = search_answer(false, 1, vec![text("c1")]);
    assert_eq!(found, object(vec![("contracts", Json::Array(vec![text("c1")]))]));
    assert_eq!(reason(&found), None);
}

#[test]
fn search_terms_keep_strings_in_order() {
    let args = object(vec![("terms", Json::Array(vec![text("a"), Json::Null, text("b")]))]);
    assert_eq!(search_terms(&args), vec!["a".to_string(), "b".to_string()]);
    assert!(search_terms(&object(vec![])).is_empty());
    assert!(search_terms(&object(vec![("terms", text("a"))])).is_empty());
}

#[test]
fn contract_read_on_unknown_object_returns_empty_with_reason() {
    assert_eq!(reason(&read_answer(ReadOutcome::Missing)), Some(REASON_NO_CONTRACT));
    assert_eq!(reason(&read_answer(ReadOutcome::StoreFailed)), Some(REASON_STORE));
    let found = read_answer(ReadOutcome::Found(text("payload")));
    assert_eq!(found, object(vec![("contract", text("payload"))]));
}

#[test]
fn contract_read_truncates_claims_past_the_bound_and_says_so() {
    let mut claims: Vec<usize> = (0..MAX_READ_CLAIMS + 3).collect();
    let mut truncated = false;
    cap_read_claims(&mut claims, &mut truncated);
    assert_eq!(claims.len(), MAX_READ_CLAIMS);
    assert_eq!(claims[0], 0);
    assert!(truncated);
    let mut few: Vec<usize> = (0..MAX_READ_CLAIMS).collect();
    let mut flag = false;
    cap_read_claims(&mut few, &mut flag);
    assert_eq!(few.len(), MAX_READ_CLAIMS);
    assert!(!flag);
}

#[test]
fn read_only_calls_route_by_name_and_gate() {
    let sql = object(vec![("sql", text("select 1"))]);
    assert_eq!(read_only_route("contract_search", &text("ignored"), false), Ok(ReadOnlyRoute::Contract));
    assert_eq!(read_only_route("bounded_sql_query", &sql, false), Ok(ReadOnlyRoute::Denied));
    assert_eq!(read_only_route("render_chart", &sql, false), Ok(ReadOnlyRoute::Denied));
    assert_eq!(
        read_only_route("bounded_sql_query", &sql, true),
        Ok(ReadOnlyRoute::Query { sql: "select 1".to_string() })
    );
    assert_eq!(
        read_only_route("bounded_sql_query_all", &sql, true),
        Ok(ReadOnlyRoute::QueryAll { sql: "select 1".to_string() })
    );
    assert_eq!(read_only_route("schema_discovery", &object(vec![]), false), Ok(ReadOnlyRoute::Schema));
    assert!(read_only_route("bounded_sql_query", &object(vec![("bogus", Json::Null)]), true).is_err());
    assert_eq!(read_only_route("bounded_sql_query", &text("select 1"), true), Err(ToolError::ArgumentsNotObject));
}

#[test]
fn denied_call_records_denied_with_no_objects_or_rows() {
    let o = denied_observation("bounded_sql_query");
    assert_eq!(o.tool, "bounded_sql_query");
    assert_eq!(o.outcome, ObservationOutcome::Denied);
    assert_eq!(o.profile, None);
    assert!(o.objects.is_empty());
    assert!(o.columns.is_empty());
    assert_eq!(o.row_count, None);
    assert_eq!(o.truncated, None);
}

fn outcome(index: usize, name: &str, result: Result<Json, String>) -> FanOutOutcome {
    FanOutOutcome { index, name: name.to_string(), dialect: "postgresql".to_string(), outcome: result }
}

#[test]
fn fan_out_reports_each_database_in_connection_order() {
    let report = fan_out_report(vec![
        outcome(2, "c", Ok(text("r2"))),
        outcome(0, "a", Err("read-only query timed out".to_string())),
        outcome(1, "b", Ok(text("r1"))),
    ]);
    let databases = match report.get("databases") {
        Some(Json::Array(d)) => d,
        other => panic!("databases missing: {other:?}"),
    };
    let names: Vec<&str> = databases
        .iter()
        .map(|d| d.get("connection").and_then(|c| c.as_str()).unwrap())
        .collect();
    assert_eq!(names, vec!["a", "b", "c"]);
    assert_eq!(databases[0].get("error"), Some(&text("read-only query timed out")));
    assert_eq!(databases[0].get("result"), None);
    assert_eq!(databases[1].get("result"), Some(&text("r1")));
    assert_eq!(databases[1].get("dialect"), Some(&text("postgresql")));
}

#[test]
fn a_fan_out_record_names_connection_dialect_and_outcome() {
    assert_eq!(
        fan_out_record_of(outcome(0, "a", Ok(Json::Null))),
        object(vec![
            ("connection", text("a")),
            ("dialect", text("postgresql")),
            ("result", Json::Null),
        ])
    );
}

#[test]
fn a_chart_request_needs_sql_and_a_workspace_for_a_save() {
    let plain = object(vec![("sql", text("select 1"))]);
    assert_eq!(chart_request(&plain, false), Ok(("select 1".to_string(), None)));
    let saving = object(vec![("sql", text("select 1")), ("save_to", text("c.html"))]);
    assert_eq!(chart_request(&saving, false), Err(ToolError::WorkspaceUnavailable));
    assert_eq!(
        chart_request(&saving, true),
        Ok(("select 1".to_string(), Some("c.html".to_string())))
    );
    assert_eq!(chart_request(&object(vec![]), true), Err(ToolError::InvalidQueryArguments));
}

#[test]
fn chart_overrides_read_type_axes_and_title() {
    let args = object(vec![
        ("sql", text("select 1")),
        ("chart_type", text("bar")),
        ("x", text("day")),
        ("y", Json::Array(vec![text("total"), Json::Null, text("count")])),
    ]);
    let o = chart_overrides(&args);
    assert_eq!(o.chart_type.as_deref(), Some("bar"));
    assert_eq!(o.x.as_deref(), Some("day"));
    assert_eq!(o.y, vec!["total".to_string(), "count".to_string()]);
    assert_eq!(o.title, None);
}

#[test]
fn suggested_y_columns_stay_unless_the_call_names_one() {
    let suggested = vec!["revenue".to_string()];
    let none = chart_overrides(&object(vec![("sql", text("select 1")), ("y", Json::Array(vec![Json::Null]))]));
    assert_eq!(chart_y_columns(suggested.clone(), none.y), suggested);
    let named = chart_overrides(&object(vec![("y", Json::Array(vec![text("count")]))]));
    assert_eq!(chart_y_columns(suggested, named.y), vec!["count".to_string()]);
}

#[test]
fn render_chart_over_bound_does_not_replace_saved_file() {
    assert_eq!(check_chart_save(100, 100), Ok(()));
    assert_eq!(
        check_chart_save(101, 100),
        Err(ToolError::WorkspaceWrite("content is over the 100-byte workspace write bound".to_string()))
    );
}

#[test]
fn the_chart_result_names_the_saved_or_temporary_path() {
    assert_eq!(
        chart_result(Some("out/c.html"), "/tmp/x.html"),
        object(vec![("path", text("out/c.html")), ("note", text(SAVED_NOTE))])
    );
    assert_eq!(
        chart_result(None, "/tmp/x.html"),
        object(vec![("path", text("/tmp/x.html")), ("note", text(TEMP_NOTE))])
    );
}

#[test]
fn column_health_is_refused_when_data_sharing_is_off() {
    let sql = object(vec![("sql", text("SELECT 1"))]);
    for name in ["column_health", "result_shape", "join_check"] {
        assert_eq!(read_only_route(name, &sql, false), Ok(ReadOnlyRoute::Denied), "{name}");
    }
    assert_eq!(
        read_only_route("column_health", &sql, true),
        Ok(ReadOnlyRoute::ColumnHealth { sql: "SELECT 1".to_string() })
    );
    assert_eq!(
        read_only_route("result_shape", &sql, true),
        Ok(ReadOnlyRoute::ResultShape { sql: "SELECT 1".to_string() })
    );
    assert_eq!(
        read_only_route("join_check", &sql, true),
        Ok(ReadOnlyRoute::JoinCheck { sql: "SELECT 1".to_string() })
    );
}

#[test]
fn workspace_tools_are_handed_to_their_handlers() {
    let edit = object(vec![
        ("path", text("notes.md")),
        ("old_text", text("anchor")),
        ("new_text", text("ANCHOR")),
    ]);
    assert_eq!(
        read_only_route("workspace_edit", &edit, false),
        Ok(ReadOnlyRoute::Workspace(WorkspaceTool::Edit))
    );
    assert_eq!(
        read_only_route("workspace_read", &object(vec![("path", text("a"))]), false),
        Ok(ReadOnlyRoute::Workspace(WorkspaceTool::Read))
    );
    assert_eq!(
        read_only_route("grep", &object(vec![("pattern", text("a"))]), true),
        Ok(ReadOnlyRoute::Workspace(WorkspaceTool::Grep))
    );
    assert_eq!(
        read_only_route("workspace_edit", &object(vec![("path", text("a")), ("bogus", Json::Null)]), true),
        Err(ToolError::UnsupportedProperty)
    );
}

#[test]
fn a_chart_call_naming_save_to_is_routed() {
    let args = object(vec![("sql", text("SELECT 1")), ("save_to", text("monthly.html"))]);
    assert_eq!(
        read_only_route("render_chart", &args, true),
        Ok(ReadOnlyRoute::Chart { sql: "SELECT 1".to_string() })
    );
}
