use saya_cli::json::{Json, JsonNumber};
use saya_cli::logs::{
    dedupe_by_claim, query_observation, DrainedObservations, ObservationLog, ObservationOutcome,
    OverrideFindingDto, OverrideLog, ProposedClaimDto, ProposedClaimsLog, SqlReferences,
    ToolObservation, MAX_CANDIDATES_PER_TURN, MAX_FINDINGS, MAX_OBSERVATIONS,
};

fn obs(tool: &str) -> ToolObservation {
    ToolObservation {
        tool: tool.into(),
        outcome: ObservationOutcome::Succeeded,
        profile: None,
        objects: Vec::new(),
        columns: Vec::new(),
        row_count: None,
        truncated: None,
        references_partial: false,
    }
}

fn finding(id: &str, observed: &str) -> OverrideFindingDto {
    OverrideFindingDto {
        claim_id: id.to_string(),
        kind: "default_time_column".into(),
        claimed_value: "return_date".into(),
        observed_columns: vec![observed.into()],
    }
}

fn dto(profile: &str, object: &str, id: &str) -> ProposedClaimDto {
    ProposedClaimDto {
        claim_id: id.to_string(),
        profile: profile.into(),
        object: object.into(),
        kind: "table_alias".into(),
        value: "orders".into(),
        column: None,
        status: "candidate".into(),
    }
}

fn object(members: Vec<(&str, Json)>) -> Json {
    Json::Object(members.into_iter().map(|(k, v)| (k.to_string(), v)).collect())
}

fn names(parts: &[&str]) -> Vec<String> {
    parts.iter().map(|p| p.to_string()).collect()
}

#[test]
fn record_then_drain_returns_in_order_and_empties() {
    let mut log = ObservationLog::new();
    log.record(obs("a"));
    log.record(obs("b"));
    let drained = log.drain();
    assert_eq!(
        drained.observations.iter().map(|o| &o.tool).collect::<Vec<_>>(),
        &["a", "b"]
    );
    assert!(!drained.truncated);
    let again = log.drain();
    assert!(again.observations.is_empty());
    assert!(!again.truncated);
}

#[test]
fn observations_cap_holds_and_drain_reports_truncation() {
    let mut log = ObservationLog::new();
    for i in 0..40 {
        log.record(obs(&format!("t{i}")));
    }
    let drained = log.drain();
    assert_eq!(drained.observations.len(), MAX_OBSERVATIONS);
    assert_eq!(drained.observations.last().unwrap().tool, "t31");
    assert!(drained.truncated);
}

#[test]
fn drain_report_type_carries_truncation_flag() {
    let drained = DrainedObservations {
        observations: Vec::<ToolObservation>::new(),
        truncated: true,
    };
    assert!(drained.truncated);
    assert!(drained.observations.is_empty());
}

#[test]
fn drain_returns_findings_in_order_and_clears() {
    let mut log = OverrideLog::new();
    log.record(finding("c-a", "rental_date"));
    log.record(finding("c-b", "checkout_date"));
    let drained = log.drain();
    assert_eq!(drained.len(), 2);
    assert_eq!(drained[0].claim_id, "c-a");
    assert_eq!(drained[1].claim_id, "c-b");
    assert!(log.drain().is_empty());
}

#[test]
fn drain_dedupes_by_claim_id_keeping_the_first() {
    let mut log = OverrideLog::new();
    log.record(finding("c-a", "rental_date"));
    log.record(finding("c-b", "checkout_date"));
    log.record(finding("c-a", "checkout_date"));
    let drained = log.drain();
    assert_eq!(drained.len(), 2, "one finding per contradicted claim");
    assert_eq!(drained[0].claim_id, "c-a");
    assert_eq!(drained[0].observed_columns, vec!["rental_date".to_string()]);
    assert_eq!(drained[1].claim_id, "c-b");
}

#[test]
fn the_log_caps_at_max_findings() {
    let mut log = OverrideLog::new();
    for i in 0..(MAX_FINDINGS + 5) {
        log.record(finding(&format!("c-{i}"), "rental_date"));
    }
    assert_eq!(log.drain().len(), MAX_FINDINGS, "the log honors its cap");
}

#[test]
fn drain_returns_claims_in_storage_order_and_clears() {
    let mut log = ProposedClaimsLog::new();
    log.record(dto("primary", "catalog.public.a", "c-1"));
    log.record(dto("primary", "catalog.public.b", "c-2"));
    let drained = log.drain();
    assert_eq!(drained.len(), 2);
    assert_eq!(drained[0].object, "catalog.public.a");
    assert_eq!(drained[1].object, "catalog.public.b");
    assert!(log.drain().is_empty());
}

#[test]
fn the_log_caps_at_the_per_turn_bound() {
    let mut log = ProposedClaimsLog::new();
    for i in 0..(MAX_CANDIDATES_PER_TURN + 5) {
        log.record(dto("primary", "catalog.public.t", &format!("c-{i}")));
    }
    assert_eq!(log.drain().len(), MAX_CANDIDATES_PER_TURN, "the log honors the per-turn bound");
}

#[test]
fn dedupe_keeps_first_occurrence_in_order() {
    let kept = dedupe_by_claim(vec![
        finding("x", "1"),
        finding("y", "2"),
        finding("x", "3"),
        finding("z", "4"),
        finding("y", "5"),
    ]);
    let ids: Vec<&str> = kept.iter().map(|f| f.claim_id.as_str()).collect();
    assert_eq!(ids, vec!["x", "y", "z"]);
    assert_eq!(kept[0].observed_columns, vec!["1".to_string()]);
    assert_eq!(kept[1].observed_columns, vec!["2".to_string()]);
    assert!(dedupe_by_claim(Vec::new()).is_empty());
}

#[test]
fn successful_query_records_objects_columns_and_row_count() {
    let refs = SqlReferences {
        objects: vec![names(&["analytics", "public", "orders"])],
        columns: vec!["created_at".to_string()],
        partial: false,
    };
    let result = object(vec![
        ("row_count", Json::Number(JsonNumber::PosInt(3))),
        ("truncated", Json::Bool(false)),
        ("rows", Json::Array(Vec::new())),
    ]);
    let o = query_observation("bounded_sql_query", Some(refs), Some("primary".to_string()), Some(&result));
    assert_eq!(o.tool, "bounded_sql_query");
    assert_eq!(o.outcome, ObservationOutcome::Succeeded);
    assert_eq!(o.profile.as_deref(), Some("primary"));
    assert_eq!(o.objects, vec![names(&["analytics", "public", "orders"])]);
    assert_eq!(o.columns, vec!["created_at".to_string()]);
    assert_eq!(o.row_count, Some(3));
    assert_eq!(o.truncated, Some(false));
    assert!(!o.references_partial);
}

#[test]
fn failed_query_records_failed_without_counts() {
    let refs = SqlReferences {
        objects: vec![names(&["analytics", "public", "orders"])],
        columns: Vec::new(),
        partial: true,
    };
    let o = query_observation("bounded_sql_query", Some(refs), None, None);
    assert_eq!(o.outcome, ObservationOutcome::Failed);
    assert_eq!(o.row_count, None);
    assert_eq!(o.truncated, None);
    assert_eq!(o.objects.len(), 1);
    assert!(o.references_partial);
    let unparsed = query_observation("bounded_sql_query", None, None, None);
    assert!(unparsed.objects.is_empty());
    assert!(unparsed.columns.is_empty());
}

#[test]
fn touched_requires_a_succeeded_exact_three_part_name() {
    let mut log = ObservationLog::new();
    let refs = SqlReferences {
        objects: vec![names(&["analytics", "public", "orders"])],
        columns: Vec::new(),
        partial: false,
    };
    let result = object(vec![("row_count", Json::Number(JsonNumber::PosInt(1)))]);
    log.record_query("bounded_sql_query", Some(refs), None, Some(&result));
    let failed = SqlReferences {
        objects: vec![names(&["analytics", "public", "payments"])],
        columns: Vec::new(),
        partial: false,
    };
    log.record_query("bounded_sql_query", Some(failed), None, None);
    log.record_schema("schema_discovery", None, true);
    assert!(log.touched("analytics", "public", "orders"));
    assert!(!log.touched("analytics", "public", "payments"), "a failed read touches nothing");
    assert!(!log.touched("analytics", "public", "Orders"));
    assert!(!log.touched("public", "orders", ""));
    let drained = log.drain();
    assert_eq!(drained.observations.len(), 3);
    assert!(drained.observations[2].objects.is_empty());
    assert_eq!(drained.observations[2].outcome, ObservationOutcome::Succeeded);
}

#[test]
fn default_logs_start_empty() {
    let mut observations = ObservationLog::default();
    assert!(observations.drain().observations.is_empty());
    assert!(ProposedClaimsLog::default().drain().is_empty());
    assert!(OverrideLog::default().drain().is_empty());
}

#[test]
fn truncation_is_reported_only_when_a_record_was_dropped() {
    let mut log = ObservationLog::new();
    for i in 0..MAX_OBSERVATIONS {
        log.record(obs(&format!("t{i}")));
    }
    let full = log.drain();
    assert_eq!(full.observations.len(), MAX_OBSERVATIONS);
    assert!(!full.truncated, "exactly the cap, nothing dropped");
    for i in 0..=MAX_OBSERVATIONS {
        log.record(obs(&format!("u{i}")));
    }
    let over = log.drain();
    assert_eq!(over.observations.len(), MAX_OBSERVATIONS);
    assert!(over.truncated);
    assert!(!log.drain().truncated, "a drain clears the flag");
}
