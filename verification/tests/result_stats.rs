use saya_cli::json::{FloatFacts, Json, JsonNumber};
use saya_cli::result_stats::{
    health_of, is_numeric_zero, join_report, no_probe_report, shape_of, single_count,
    value_type_label, NO_COUNT_REASON, NO_PROBE_REASON,
};

fn text(s: &str) -> Json {
    Json::String(s.to_string())
}

fn uint(n: u64) -> Json {
    Json::Number(JsonNumber::PosInt(n))
}

fn float(text: &str, is_zero: bool, whole: Option<i64>) -> Json {
    Json::Number(JsonNumber::Float(FloatFacts { text: text.to_string(), is_zero, whole }))
}

fn object(members: Vec<(&str, Json)>) -> Json {
    Json::Object(members.into_iter().map(|(k, v)| (k.to_string(), v)).collect())
}

fn array(items: Vec<Json>) -> Json {
    Json::Array(items)
}

fn result(columns: &[&str], rows: Vec<Json>, row_count: u64) -> Json {
    object(vec![
        ("columns", array(columns.iter().map(|c| text(c)).collect())),
        ("rows", array(rows)),
        ("row_count", uint(row_count)),
        ("truncated", Json::Bool(false)),
        ("executed_sql", text("SELECT 1")),
    ])
}

fn count_result(rows: Vec<Json>) -> Json {
    let n = rows.len() as u64;
    object(vec![
        ("columns", array(vec![text("n")])),
        ("rows", array(rows)),
        ("row_count", uint(n)),
        ("truncated", Json::Bool(false)),
    ])
}

/// Whether any string anywhere inside `v` contains `needle`.
fn mentions(v: &Json, needle: &str) -> bool {
    match v {
        Json::String(s) => s.contains(needle),
        Json::Array(items) => items.iter().any(|i| mentions(i, needle)),
        Json::Object(members) => members.iter().any(|(k, x)| k.contains(needle) || mentions(x, needle)),
        _ => false,
    }
}

#[test]
fn shape_of_infers_types_from_the_first_row_and_omits_values() {
    let r = result(
        &["customer", "age", "balance", "active", "meta"],
        vec![array(vec![
            text("Alice"),
            uint(30),
            float("99.5", false, None),
            Json::Bool(true),
            object(vec![("k", uint(1))]),
        ])],
        1,
    );
    let shape = shape_of(&r);
    assert_eq!(shape.get("row_count"), Some(&uint(1)));
    assert_eq!(shape.get("truncated"), Some(&Json::Bool(false)));
    let columns = match shape.get("columns") {
        Some(Json::Array(c)) => c,
        other => panic!("columns missing: {other:?}"),
    };
    assert_eq!(columns[0].get("name"), Some(&text("customer")));
    assert_eq!(columns[0].get("type"), Some(&text("TEXT")));
    assert_eq!(columns[1].get("type"), Some(&text("INTEGER")));
    assert_eq!(columns[2].get("type"), Some(&text("REAL")));
    assert_eq!(columns[3].get("type"), Some(&text("BOOLEAN")));
    assert_eq!(columns[4].get("type"), Some(&text("JSON")));
    assert!(!mentions(&shape, "Alice"), "no cell value may escape");
}

#[test]
fn shape_of_keeps_column_names_with_null_types_for_an_empty_result() {
    let shape = shape_of(&result(&["customer", "age"], Vec::new(), 0));
    assert_eq!(shape.get("row_count"), Some(&uint(0)));
    let columns = match shape.get("columns") {
        Some(Json::Array(c)) => c,
        other => panic!("columns missing: {other:?}"),
    };
    assert_eq!(columns.len(), 2);
    assert_eq!(columns[0].get("name"), Some(&text("customer")));
    assert_eq!(columns[0].get("type"), Some(&Json::Null));
    assert_eq!(columns[1].get("name"), Some(&text("age")));
    assert_eq!(columns[1].get("type"), Some(&Json::Null));
}

#[test]
fn value_type_labels_follow_the_json_kind() {
    assert_eq!(value_type_label(&Json::Null), text("NULL"));
    assert_eq!(value_type_label(&Json::Number(JsonNumber::NegInt(-3))), text("INTEGER"));
    assert_eq!(value_type_label(&float("1.5", false, None)), text("REAL"));
    assert_eq!(value_type_label(&array(Vec::new())), text("JSON"));
}

#[test]
fn health_of_reports_nulls_distinct_and_zeros_without_values() {
    let r = result(
        &["day", "amount", "flag"],
        vec![
            array(vec![Json::Null, uint(0), text("a")]),
            array(vec![Json::Null, uint(5), text("a")]),
            array(vec![Json::Null, uint(0), text("b")]),
        ],
        3,
    );
    let health = health_of(&r);
    assert_eq!(health.row_count, 3);
    assert!(!health.truncated);
    let columns = &health.columns;
    assert_eq!(columns[0].name, text("day"));
    assert_eq!(columns[0].nulls, 3);
    assert_eq!(columns[0].distinct, 1);
    assert_eq!(columns[0].zeros, 0);
    assert_eq!(columns[1].name, text("amount"));
    assert_eq!(columns[1].nulls, 0);
    assert_eq!(columns[1].distinct, 2);
    assert_eq!(columns[1].zeros, 2);
    assert_eq!(columns[2].name, text("flag"));
    assert_eq!(columns[2].nulls, 0);
    assert_eq!(columns[2].distinct, 2);
    assert_eq!(columns[2].zeros, 0);
}

#[test]
fn health_of_never_leaks_a_planted_cell_value() {
    let r = result(&["secret"], vec![array(vec![text("HEALTH_LEAK_SENTINEL_99")])], 1);
    let health = health_of(&r);
    assert_eq!(health.columns.len(), 1);
    assert_eq!(health.columns[0].name, text("secret"));
    assert_eq!(health.columns[0].distinct, 1);
    assert!(!format!("{health:?}").contains("HEALTH_LEAK_SENTINEL_99"));
}

#[test]
fn health_of_handles_empty_result() {
    let health = health_of(&result(&["a", "b"], Vec::new(), 0));
    assert_eq!(health.row_count, 0);
    assert_eq!(health.columns.len(), 2);
    assert_eq!(health.columns[0].nulls, 0);
    assert_eq!(health.columns[0].distinct, 0);
    assert_eq!(health.columns[0].zeros, 0);
}

#[test]
fn float_zero_counts_as_a_numeric_zero() {
    assert!(is_numeric_zero(&uint(0)));
    assert!(is_numeric_zero(&float("0.0", true, Some(0))));
    assert!(!is_numeric_zero(&float("0.5", false, None)));
    assert!(!is_numeric_zero(&text("0")));
    assert!(!is_numeric_zero(&Json::Null));
}

#[test]
fn single_count_extracts_an_integer_cell() {
    assert_eq!(single_count(&count_result(vec![array(vec![uint(42)])])), Some(42));
}

#[test]
fn single_count_extracts_a_whole_float_cell() {
    assert_eq!(single_count(&count_result(vec![array(vec![float("100.0", false, Some(100))])])), Some(100));
}

#[test]
fn single_count_rejects_multiple_rows() {
    assert_eq!(single_count(&count_result(vec![array(vec![uint(1)]), array(vec![uint(2)])])), None);
}

#[test]
fn single_count_rejects_a_string_cell() {
    assert_eq!(single_count(&count_result(vec![array(vec![text("not a number")])])), None);
}

#[test]
fn single_count_rejects_a_fractional_float() {
    assert_eq!(single_count(&count_result(vec![array(vec![float("1.5", false, None)])])), None);
}

#[test]
fn join_report_flags_a_fanned_out_join() {
    let report = join_report(
        &count_result(vec![array(vec![uint(12)])]),
        &count_result(vec![array(vec![uint(4)])]),
    );
    assert_eq!(report.get("applicable"), Some(&Json::Bool(true)));
    assert_eq!(report.get("joined_rows"), Some(&uint(12)));
    assert_eq!(report.get("base_rows"), Some(&uint(4)));
    assert_eq!(report.get("fanned_out"), Some(&Json::Bool(true)));
    assert_eq!(report.get("dropped_rows"), Some(&Json::Bool(false)));
}

#[test]
fn join_report_clears_a_one_to_one_join_and_flags_dropped_rows() {
    let clean = join_report(
        &count_result(vec![array(vec![uint(4)])]),
        &count_result(vec![array(vec![uint(4)])]),
    );
    assert_eq!(clean.get("fanned_out"), Some(&Json::Bool(false)));
    assert_eq!(clean.get("dropped_rows"), Some(&Json::Bool(false)));
    let dropping = join_report(
        &count_result(vec![array(vec![uint(3)])]),
        &count_result(vec![array(vec![uint(4)])]),
    );
    assert_eq!(dropping.get("fanned_out"), Some(&Json::Bool(false)));
    assert_eq!(dropping.get("dropped_rows"), Some(&Json::Bool(true)));
}

#[test]
fn join_report_without_counts_is_not_applicable() {
    let report = join_report(
        &count_result(vec![array(vec![text("x")])]),
        &count_result(vec![array(vec![uint(4)])]),
    );
    assert_eq!(report.get("applicable"), Some(&Json::Bool(false)));
    assert_eq!(report.get("reason"), Some(&text(NO_COUNT_REASON)));
    let none = no_probe_report();
    assert_eq!(none.get("applicable"), Some(&Json::Bool(false)));
    assert_eq!(none.get("reason"), Some(&text(NO_PROBE_REASON)));
}

#[test]
fn single_count_saturates_an_integer_beyond_i64() {
    assert_eq!(single_count(&count_result(vec![array(vec![uint(u64::MAX)])])), Some(i64::MAX));
    assert_eq!(
        single_count(&count_result(vec![array(vec![Json::Number(JsonNumber::NegInt(-4))])])),
        Some(-4)
    );
}
