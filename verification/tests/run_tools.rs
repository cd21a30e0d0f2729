use saya_cli::json::{Json, JsonNumber};
use saya_cli::run_tools::{
    chart_save_gate, parse_host_call, route, validate_host_json_argv, ArgvLimits, RunMembers,
    RunRoute, ARGUMENT_TOO_LONG, ARGV_TOO_LONG, CHART_SAVE_REFUSAL, TOO_MANY_ARGUMENTS,
};
use saya_cli::tool_error::ToolError;

const MAX_ARG_COUNT: usize = 64;
const MAX_ARG_BYTES: usize = 4096;
const MAX_ARGV_BYTES: usize = 32768;

fn limits() -> ArgvLimits {
    ArgvLimits {
        max_arg_count: MAX_ARG_COUNT,
        max_arg_bytes: MAX_ARG_BYTES,
        max_argv_bytes: MAX_ARGV_BYTES,
    }
}

fn text(s: &str) -> Json {
    Json::String(s.to_string())
}

fn strings(n: usize, item: &str) -> Vec<Json> {
    (0..n).map(|_| text(item)).collect()
}

fn object(members: Vec<(&str, Json)>) -> Json {
    Json::Object(members.into_iter().map(|(k, v)| (k.to_string(), v)).collect())
}

fn runner_message(r: Result<(), ToolError>) -> String {
    match r {
        Err(ToolError::Runner(m)) => m,
        other => panic!("expected a runner refusal, got {other:?}"),
    }
}

#[test]
fn host_argv_count_item_and_total_bounds_refuse_before_cloning() {
    let too_many = strings(MAX_ARG_COUNT + 1, "");
    let error = runner_message(validate_host_json_argv(&too_many, limits()));
    assert!(error.contains("too many arguments"), "{error}");

    let too_long = vec![text(&"x".repeat(MAX_ARG_BYTES + 1))];
    let error = runner_message(validate_host_json_argv(&too_long, limits()));
    assert!(error.contains("per-argument byte limit"), "{error}");

    let item = "x".repeat(MAX_ARG_BYTES);
    let too_wide = strings(MAX_ARGV_BYTES / MAX_ARG_BYTES + 1, &item);
    let error = runner_message(validate_host_json_argv(&too_wide, limits()));
    assert!(error.contains("aggregate byte limit"), "{error}");
}

#[test]
fn host_argv_at_each_bound_is_accepted() {
    assert!(validate_host_json_argv(&strings(MAX_ARG_COUNT, ""), limits()).is_ok());
    assert!(validate_host_json_argv(&[text(&"x".repeat(MAX_ARG_BYTES))], limits()).is_ok());
    let item = "x".repeat(MAX_ARG_BYTES);
    assert!(validate_host_json_argv(&strings(MAX_ARGV_BYTES / MAX_ARG_BYTES, &item), limits()).is_ok());
}

#[test]
fn argv_bytes_count_utf8_bytes_not_characters() {
    let tight = ArgvLimits { max_arg_count: 4, max_arg_bytes: 3, max_argv_bytes: 6 };
    assert!(validate_host_json_argv(&[text("é")], tight).is_ok());
    assert_eq!(runner_message(validate_host_json_argv(&[text("éé")], tight)), ARGUMENT_TOO_LONG);
    assert_eq!(
        runner_message(validate_host_json_argv(&[text("abc"), text("ab"), text("é")], tight)),
        ARGV_TOO_LONG
    );
    assert_eq!(
        validate_host_json_argv(&[text("a"), Json::Bool(true)], tight),
        Err(ToolError::UnsupportedProperty)
    );
    assert_eq!(
        runner_message(validate_host_json_argv(&strings(5, ""), tight)),
        TOO_MANY_ARGUMENTS
    );
}

#[test]
fn a_host_call_parses_program_argv_and_timeout() {
    let call = object(vec![
        ("program", text("ls")),
        ("args", Json::Array(vec![text("-l"), text("/tmp")])),
        ("timeout_seconds", Json::Number(JsonNumber::PosInt(30))),
    ]);
    let parsed = parse_host_call(&call, limits()).expect("a valid call parses");
    assert_eq!(parsed.program, "ls");
    assert_eq!(parsed.argv, vec!["-l".to_string(), "/tmp".to_string()]);
    assert_eq!(parsed.timeout_seconds, Some(30));

    let bare = parse_host_call(&object(vec![("program", text("pwd"))]), limits()).unwrap();
    assert!(bare.argv.is_empty());
    assert_eq!(bare.timeout_seconds, None);
}

#[test]
fn a_malformed_host_call_is_refused() {
    assert_eq!(parse_host_call(&text("ls"), limits()).err(), Some(ToolError::ArgumentsNotObject));
    let unknown = object(vec![("program", text("ls")), ("cwd", text("/"))]);
    assert_eq!(parse_host_call(&unknown, limits()).err(), Some(ToolError::UnsupportedProperty));
    let no_program = object(vec![("args", Json::Array(Vec::new()))]);
    assert_eq!(parse_host_call(&no_program, limits()).err(), Some(ToolError::UnsupportedProperty));
    let negative = object(vec![
        ("program", text("ls")),
        ("timeout_seconds", Json::Number(JsonNumber::NegInt(-1))),
    ]);
    assert_eq!(parse_host_call(&negative, limits()).err(), Some(ToolError::UnsupportedProperty));
    let oversized = object(vec![("program", text("ls")), ("args", Json::Array(strings(MAX_ARG_COUNT + 1, "")))]);
    assert_eq!(
        parse_host_call(&oversized, limits()).err(),
        Some(ToolError::Runner(TOO_MANY_ARGUMENTS.to_string()))
    );
}

#[test]
fn calls_route_to_their_member_or_refuse_when_it_is_absent() {
    let all = RunMembers { scratch: true, fetch: true, runner: true, host: true, tasks: true };
    let none = RunMembers { scratch: false, fetch: false, runner: false, host: false, tasks: false };
    assert_eq!(route("scratch_sql", all), Ok(RunRoute::Scratch));
    assert_eq!(route("http_download", all), Ok(RunRoute::Fetch));
    assert_eq!(route("run_program", all), Ok(RunRoute::Runner));
    assert_eq!(route("run_command", all), Ok(RunRoute::Host));
    assert_eq!(route("tasks_set", all), Ok(RunRoute::Tasks));
    assert_eq!(route("bounded_sql_query", all), Ok(RunRoute::Database));
    assert_eq!(route("run_command", none), Err(ToolError::UnsupportedTool));
    assert_eq!(route("scratch_import", none), Err(ToolError::UnsupportedTool));
    assert_eq!(route("bounded_sql_query", none), Ok(RunRoute::Database));
}

#[test]
fn run_step_refuses_chart_save_without_its_workspace_write_permit() {
    let with_save = object(vec![("sql", text("select 1")), ("save_to", text("chart.html"))]);
    assert_eq!(
        chart_save_gate("render_chart", &with_save, false),
        Err(ToolError::WorkspaceWrite(CHART_SAVE_REFUSAL.to_string()))
    );
    assert_eq!(chart_save_gate("render_chart", &with_save, true), Ok(()));
    let without = object(vec![("sql", text("select 1"))]);
    assert_eq!(chart_save_gate("render_chart", &without, false), Ok(()));
    assert_eq!(chart_save_gate("bounded_sql_query", &with_save, false), Ok(()));
}
