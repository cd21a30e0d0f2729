use saya_cli::definitions::propose_definition;
use saya_cli::json::{Json, JsonNumber};
use saya_cli::logs::{ObservationLog, ObservationOutcome, ToolObservation};
use saya_cli::propose::{
    admit_proposal,
    decide_evidence_kind, evidence_kind, is_supplied_object, now_unix_ms, outcome_payload,
    parse_arguments, profile_name, proposal_gate, proposal_record, unix_ms_of, EvidenceKind,
    ProposalBudget, ProposeArgs, ProposeOutcome, TOUCHED, UNTOUCHED,
};
use saya_cli::tool_error::ToolError;

fn text(s: &str) -> Json {
    Json::String(s.to_string())
}

fn object(members: Vec<(&str, Json)>) -> Json {
    Json::Object(members.into_iter().map(|(k, v)| (k.to_string(), v)).collect())
}

#[test]
fn touched_is_a_successful_read_not_an_explicit_user_statement() {
    assert_eq!(TOUCHED, EvidenceKind::SuccessfulReadQuery);
    assert_ne!(TOUCHED, EvidenceKind::ExplicitUserStatement);
}

#[test]
fn untouched_is_repeated_observation() {
    assert_eq!(UNTOUCHED, EvidenceKind::RepeatedObservation);
}

#[test]
fn the_two_kinds_differ() {
    assert_ne!(TOUCHED, UNTOUCHED);
}

#[test]
fn decide_evidence_kind_touched_and_not_supplied() {
    assert_eq!(decide_evidence_kind(true, false), TOUCHED);
}

#[test]
fn decide_evidence_kind_touched_and_supplied_gets_untouched() {
    assert_eq!(decide_evidence_kind(true, true), UNTOUCHED);
}

#[test]
fn decide_evidence_kind_untouched_and_not_supplied() {
    assert_eq!(decide_evidence_kind(false, false), UNTOUCHED);
}

#[test]
fn decide_evidence_kind_untouched_and_supplied() {
    assert_eq!(decide_evidence_kind(false, true), UNTOUCHED);
}

#[test]
fn is_supplied_object_exact_and_case_insensitive() {
    let supplied = vec![
        "catalog.public.orders".to_string(),
        "DB.SCHEMA.USERS".to_string(),
    ];
    assert!(is_supplied_object(&supplied, "catalog.public.orders"));
    assert!(is_supplied_object(&supplied, "CATALOG.PUBLIC.ORDERS"));
    assert!(is_supplied_object(&supplied, "Catalog.Public.Orders"));
    assert!(is_supplied_object(&supplied, "db.schema.users"));
    assert!(is_supplied_object(&supplied, "DB.SCHEMA.USERS"));

    assert!(!is_supplied_object(&supplied, "catalog.public.other"));
    assert!(!is_supplied_object(&supplied, "public.orders"));
    assert!(!is_supplied_object(&supplied, "orders"));
}

fn touched_observation(parts: [&str; 3], outcome: ObservationOutcome) -> ToolObservation {
    ToolObservation {
        tool: "bounded_sql_query".to_string(),
        outcome,
        profile: None,
        objects: vec![parts.iter().map(|p| p.to_string()).collect()],
        columns: Vec::new(),
        row_count: Some(1),
        truncated: None,
        references_partial: false,
    }
}

#[test]
fn evidence_follows_observations_and_supplied_claims() {
    let mut log = ObservationLog::new();
    log.record(touched_observation(["catalog", "public", "orders"], ObservationOutcome::Succeeded));
    log.record(touched_observation(["catalog", "public", "users"], ObservationOutcome::Failed));
    assert_eq!(evidence_kind("catalog", "public", "orders", Some(&log), &[]), TOUCHED);
    assert_eq!(
        evidence_kind("catalog", "public", "users", Some(&log), &[]),
        UNTOUCHED,
        "a failed query is no read that worked"
    );
    let supplied = vec!["CATALOG.public.orders".to_string()];
    assert_eq!(
        evidence_kind("catalog", "public", "orders", Some(&log), &supplied),
        UNTOUCHED,
        "a supplied claim never becomes its own evidence"
    );
    assert_eq!(evidence_kind("catalog", "public", "orders", None, &[]), UNTOUCHED);
}

#[test]
fn parse_arguments_rejects_unknown_property() {
    let err = parse_arguments(&object(vec![
        ("table", text("a.b.c")),
        ("kind", text("alias")),
        ("value", text("v")),
        ("bogus", Json::Number(JsonNumber::PosInt(1))),
    ]))
    .unwrap_err();
    assert!(matches!(err, ToolError::UnsupportedProperty), "got: {err:?}");
}

#[test]
fn parse_arguments_rejects_non_string_connection() {
    let err = parse_arguments(&object(vec![
        ("table", text("a.b.c")),
        ("kind", text("alias")),
        ("value", text("v")),
        ("connection", Json::Number(JsonNumber::PosInt(7))),
    ]))
    .unwrap_err();
    assert!(matches!(err, ToolError::ConnectionNotString), "got: {err:?}");
}

#[test]
fn parse_arguments_rejects_non_object() {
    let err = parse_arguments(&Json::Array(vec![text("a")])).unwrap_err();
    assert!(matches!(err, ToolError::ArgumentsNotObject), "got: {err:?}");
}

#[test]
fn parse_arguments_requires_table_kind_value() {
    assert!(matches!(
        parse_arguments(&object(vec![("kind", text("alias")), ("value", text("v"))])).unwrap_err(),
        ToolError::InvalidQueryArguments
    ));
    assert!(matches!(
        parse_arguments(&object(vec![("table", text("a.b.c")), ("value", text("v"))])).unwrap_err(),
        ToolError::InvalidQueryArguments
    ));
    assert!(matches!(
        parse_arguments(&object(vec![("table", text("a.b.c")), ("kind", text("alias"))])).unwrap_err(),
        ToolError::InvalidQueryArguments
    ));
}

#[test]
fn parse_arguments_accepts_optional_column_and_connection() {
    let raw = object(vec![
        ("table", text("a.b.c")),
        ("kind", text("column-description")),
        ("value", text("v")),
        ("column", text("amount")),
    ]);
    let args = parse_arguments(&raw).unwrap();
    assert_eq!(args.column, Some("amount".to_string()));
    assert_eq!(args.connection, None);
}

#[test]
fn definition_and_validator_agree_on_properties_and_kind_enum() {
    let definition = propose_definition();
    let props = definition.parameters.get("properties").expect("properties");
    for allowed in ["table", "kind", "value", "column", "connection"] {
        assert!(props.get(allowed).is_some(), "definition is missing the `{allowed}` property");
    }
    let kinds = props.get("kind").and_then(|k| k.get("enum")).expect("kind has an enum");
    assert_eq!(
        kinds,
        &Json::Array(
            ["description", "alias", "grain", "time-column", "column-description", "column-role"]
                .iter()
                .map(|k| text(k))
                .collect()
        )
    );
    assert_eq!(definition.name, "contract_propose");
    assert!(!definition.read_only);
    assert!(definition.effect.database_data);
    assert!(!definition.effect.requires_approval);
}

#[test]
fn the_ninth_proposal_in_a_turn_is_refused() {
    let mut budget = ProposalBudget::new();
    let admitted: Vec<bool> = (0..10).map(|_| budget.try_take()).collect();
    assert_eq!(admitted, vec![true, true, true, true, true, true, true, true, false, false]);
    assert_eq!(budget.attempts, 10);
}

#[test]
fn the_profile_name_is_the_named_connection_or_the_primary() {
    assert_eq!(profile_name(Some("wh"), "primary"), "wh");
    assert_eq!(profile_name(Some(""), "primary"), "primary");
    assert_eq!(profile_name(None, "primary"), "primary");
}

#[test]
fn outcome_payload_reports_id_action_and_status() {
    let stored = outcome_payload(ProposeOutcome::Stored { claim_id: "c-1".to_string() });
    assert_eq!(stored.get("claim_id"), Some(&text("c-1")));
    assert_eq!(stored.get("action"), Some(&text("proposed")));
    assert_eq!(stored.get("status"), Some(&text("candidate")));
    let duplicate = outcome_payload(ProposeOutcome::Duplicate {
        claim_id: "c-2".to_string(),
        status: "forgotten".to_string(),
    });
    assert_eq!(duplicate.get("action"), Some(&text("duplicate")));
    assert_eq!(duplicate.get("status"), Some(&text("forgotten")));
}

#[test]
fn only_a_stored_proposal_is_recorded() {
    let stored = ProposeOutcome::Stored { claim_id: "c-1".to_string() };
    let record = proposal_record(
        &stored,
        "primary".to_string(),
        "catalog.public.orders".to_string(),
        "table_alias".to_string(),
        "orders".to_string(),
        None,
    )
    .expect("a stored claim is recorded");
    assert_eq!(record.status, "candidate");
    assert_eq!(record.claim_id, "c-1");
    let duplicate = ProposeOutcome::Duplicate { claim_id: "c-1".to_string(), status: "candidate".to_string() };
    assert!(proposal_record(
        &duplicate,
        "primary".to_string(),
        "o".to_string(),
        "k".to_string(),
        "v".to_string(),
        None
    )
    .is_none());
}

#[test]
fn a_closed_gate_refuses_proposals() {
    assert_eq!(proposal_gate(false), Err(ToolError::DataSharingDisabled));
    assert_eq!(proposal_gate(true), Ok(()));
}

#[test]
fn the_evidence_timestamp_is_milliseconds_or_zero() {
    assert_eq!(unix_ms_of(None), 0);
    assert_eq!(unix_ms_of(Some(1_700_000_000_000)), 1_700_000_000_000);
    assert!(now_unix_ms() > 1_600_000_000_000, "the clock reads after 2020");
}

fn args_for(i: usize) -> ProposeArgs {
    ProposeArgs {
        table: format!("catalog.public.t{i}"),
        kind: "description".to_string(),
        value: "a fact table".to_string(),
        column: None,
        connection: None,
    }
}

#[test]
fn ninth_proposal_in_a_turn_is_refused_and_eight_stored() {
    let mut budget = ProposalBudget::new();
    let mut stored = Vec::new();
    for i in 0..9 {
        match admit_proposal(&mut budget, args_for(i)) {
            Ok(args) => stored.push(args.table),
            Err(e) => {
                assert_eq!(i, 8, "only the ninth is refused");
                assert_eq!(e, ToolError::QueryFailed);
            }
        }
    }
    assert_eq!(stored.len(), 8);
    assert_eq!(stored[7], "catalog.public.t7");
    assert_eq!(budget.attempts, 9);
}
