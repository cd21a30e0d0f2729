use saya_cli::session_facts::session_facts_text;
use saya_cli::system_prompt::{
    assemble_system_prompt, last_sql_hint, last_sql_hint_block, memory_reachable, memory_section,
    naming_section, MemoryMode, ANSWER_CONTRACT, LAST_SQL_BLOCK_LABEL, MEMORY_SYSTEM_PROMPT,
};

const ANSWER_CONTRACT_MAX_BYTES: usize = 1200;

fn form(engine: &str, name_form: &str) -> (String, String) {
    (engine.to_string(), name_form.to_string())
}

/// One PostgreSQL connection: the connection context stays silent.
fn single() -> (Option<String>, Vec<(String, String)>) {
    (None, vec![form("postgresql", "catalog.schema.object")])
}

/// A PostgreSQL and a MySQL connection, with the registry's context text.
fn multi() -> (Option<String>, Vec<(String, String)>) {
    (
        Some(
            "Available database connections:\n- db1 (postgresql, primary)\n- db2 (mysql)".to_string(),
        ),
        vec![form("postgresql", "catalog.schema.object"), form("mysql", "database.object")],
    )
}

fn prompt(setup: (Option<String>, Vec<(String, String)>), mode: MemoryMode, reachable: bool) -> String {
    assemble_system_prompt(setup.0, mode, reachable, &setup.1).expect("a prompt")
}

fn engines() -> Vec<(String, String)> {
    vec![
        form("postgresql", "catalog.schema.object"),
        form("mysql", "database.object"),
        form("sqlite", "object"),
        form("duckdb", "catalog.schema.object"),
        form("snowflake", "database.schema.object"),
    ]
}

#[test]
fn memory_section_appears_under_assisted_and_absent_under_off() {
    assert!(memory_section(MemoryMode::Assisted).is_some());
    assert!(memory_section(MemoryMode::Off).is_none());
    let text = memory_section(MemoryMode::Assisted).unwrap();
    assert!(text.contains("durable knowledge"));
    assert!(text.contains("Confirmed facts relevant to the question are already supplied"));
    assert!(text.contains("contract_search"));
    assert!(text.contains("contract_read"));
    assert!(text.contains("restate it explicitly and precisely in the answer"));
    assert!(!text.contains("catalog.schema.object"));
}

#[test]
fn assemble_system_prompt_single_connection_off() {
    let p = prompt(single(), MemoryMode::Off, true);
    assert!(!p.contains("durable knowledge"));
    assert!(p.contains("catalog.schema.object"));
}

#[test]
fn assemble_system_prompt_single_connection_assisted() {
    let p = prompt(single(), MemoryMode::Assisted, true);
    assert!(p.starts_with(MEMORY_SYSTEM_PROMPT));
    assert!(p.contains("catalog.schema.object"));
}

#[test]
fn assemble_system_prompt_with_last_sql_and_memory_off() {
    let p = prompt(single(), MemoryMode::Off, true);
    assert!(!p.contains("durable knowledge"));
    assert!(!p.contains("most recent SQL you ran was"));
}

#[test]
fn assemble_system_prompt_with_last_sql_and_assisted() {
    let p = prompt(single(), MemoryMode::Assisted, true);
    assert!(p.contains(MEMORY_SYSTEM_PROMPT));
    assert!(!p.contains("most recent SQL you ran was"));
}

#[test]
fn assemble_system_prompt_multi_connection_assisted_and_sql() {
    let p = prompt(multi(), MemoryMode::Assisted, true);
    let conn_idx = p.find("Available database connections").unwrap();
    let mem_idx = p.find("SAYA maintains durable knowledge").unwrap();
    let guidance_idx = p.find("Discover the schema").unwrap();
    assert!(conn_idx < mem_idx);
    assert!(mem_idx < guidance_idx);
    assert!(!p.contains("most recent SQL you ran was"));
    assert!(p.contains("The SQL dialect is the connected engine's, whatever the DDL says"));
    assert!(p.contains("- postgresql: `catalog.schema.object`"));
}

#[test]
fn assemble_system_prompt_stays_within_budget() {
    let p = prompt(multi(), MemoryMode::Assisted, true);
    assert!(p.len() < 4000);
}

#[test]
fn memory_section_is_absent_when_memory_is_configured_on_but_unreachable() {
    let p = prompt(single(), MemoryMode::Assisted, false);
    assert!(!p.contains("durable knowledge"));
    assert!(memory_reachable(true, true));
    assert!(!memory_reachable(false, true), "no state store, no briefing");
    assert!(!memory_reachable(true, false), "privacy gate shut, no briefing");
}

#[test]
fn the_naming_rule_matches_what_the_engine_accepts() {
    let sqlite = prompt((None, vec![form("sqlite", "object")]), MemoryMode::Assisted, true);
    assert!(!sqlite.contains("catalog.schema.object"));
    let postgres = prompt(single(), MemoryMode::Assisted, true);
    assert!(postgres.contains("catalog.schema.object"));
}

#[test]
fn every_engine_is_still_told_to_qualify_names() {
    for (engine, name_form) in engines() {
        let p = prompt((None, vec![(engine.clone(), name_form.clone())]), MemoryMode::Assisted, true);
        assert!(p.contains(&name_form), "{engine} must be told its own name form: {p}");
    }
}

#[test]
fn the_naming_rule_is_present_with_memory_off() {
    let p = prompt((None, vec![form("sqlite", "object")]), MemoryMode::Off, false);
    assert!(p.contains("`object`"));
    assert!(!p.contains("durable knowledge"));
}

#[test]
fn single_connection_prompt_names_engine_and_guides_giving_up() {
    let p = prompt(single(), MemoryMode::Off, false);
    assert!(p.contains("postgresql"));
    assert!(p.contains("multi-step"));
    assert!(p.contains("Do not repeat a query that already failed"));
    assert!(p.contains("Giving up with a reason"));
    assert!(p.contains("stop and say so"));
}

#[test]
fn multi_connection_prompt_also_guides_giving_up() {
    let p = prompt(multi(), MemoryMode::Off, false);
    assert!(p.contains("Giving up with a reason"));
}

#[test]
fn assembled_prompt_contains_the_answer_contract() {
    let p = prompt(single(), MemoryMode::Off, false);
    assert!(p.contains(ANSWER_CONTRACT));
}

#[test]
fn answer_contract_present_regardless_of_connections_and_memory() {
    let cases = [
        (single(), MemoryMode::Off, false),
        (single(), MemoryMode::Assisted, true),
        (single(), MemoryMode::Assisted, false),
        (multi(), MemoryMode::Off, false),
        (multi(), MemoryMode::Assisted, true),
        (multi(), MemoryMode::Off, true),
        ((None, Vec::new()), MemoryMode::Off, false),
    ];
    for (setup, mode, reachable) in cases {
        let p = prompt(setup, mode, reachable);
        assert!(p.contains(ANSWER_CONTRACT), "answer contract missing: {p}");
    }
}

#[test]
fn answer_contract_section_stays_under_documented_ceiling() {
    assert!(
        ANSWER_CONTRACT.len() <= ANSWER_CONTRACT_MAX_BYTES,
        "answer contract is {} bytes; the stated ceiling is {}",
        ANSWER_CONTRACT.len(),
        ANSWER_CONTRACT_MAX_BYTES,
    );
}

#[test]
fn system_prompt_does_not_contain_the_previous_sql() {
    let p = prompt(single(), MemoryMode::Off, true);
    assert!(!p.contains("most recent SQL you ran was"));
    let hint = last_sql_hint_block("SELECT 1 FROM tbl").expect("a hint block");
    assert!(!p.contains(&hint.body));
}

#[test]
fn system_prompt_is_byte_identical_across_turns_differing_only_in_last_sql() {
    let a = prompt(single(), MemoryMode::Off, true);
    let b = prompt(single(), MemoryMode::Off, true);
    assert_eq!(a, b);
    assert_ne!(last_sql_hint_block("SELECT 1 FROM tbl"), last_sql_hint_block("SELECT 2 FROM tbl"));
}

#[test]
fn dialect_statement_names_the_connected_engine() {
    let p = prompt((None, vec![form("sqlite", "object")]), MemoryMode::Off, false);
    assert!(p.contains("The SQL dialect is sqlite's, whatever the DDL says"));
    assert!(p.contains("declared column types in this database may come from another engine"));
}

#[test]
fn last_sql_hint_block_is_none_for_empty_sql() {
    assert!(last_sql_hint_block("").is_none());
    assert!(last_sql_hint_block("   \n\t ").is_none());
    let hint = last_sql_hint_block("SELECT 1").expect("non-empty SQL yields a block");
    assert_eq!(hint.label, LAST_SQL_BLOCK_LABEL);
    assert!(hint.body.contains("SELECT 1"));
    assert!(hint.body.contains("most recent SQL you ran was"));
    assert!(!hint.truncated);
}

#[test]
fn last_sql_hint_wraps_the_sql_exactly() {
    assert_eq!(
        last_sql_hint("SELECT 1"),
        "For context, the most recent SQL you ran was:\nSELECT 1\n\nIf the user's request refines, filters, sorts, or drills into that previous result, adapt this query instead of rediscovering the schema from scratch."
    );
}

#[test]
fn naming_section_lists_each_engine_once() {
    assert_eq!(naming_section(&[]), None);
    let repeated = vec![
        form("postgresql", "catalog.schema.object"),
        form("mysql", "database.object"),
        form("postgresql", "catalog.schema.object"),
    ];
    let text = naming_section(&repeated).unwrap();
    assert_eq!(text.matches("- postgresql: `catalog.schema.object`").count(), 1);
    assert!(text.contains("- mysql: `database.object`"));
    let same_engine_twice = vec![form("sqlite", "object"), form("sqlite", "object")];
    let single_text = naming_section(&same_engine_twice).unwrap();
    assert!(single_text.starts_with("The SQL dialect is sqlite's"));
    assert!(single_text.contains("Name objects as `object`"));
}

#[test]
fn prompt_sections_are_separated_by_blank_lines() {
    let p = prompt((Some("CTX".to_string()), vec![form("sqlite", "object")]), MemoryMode::Off, false);
    assert!(p.starts_with("CTX\n\nDiscover the schema"));
    assert!(p.ends_with("syntax error."));
}

#[test]
fn session_facts_name_connections_and_the_workspace() {
    assert_eq!(session_facts_text(&[], None), None);
    let text = session_facts_text(&[form("main", "postgresql")], None).unwrap();
    assert_eq!(text, "Session facts\n- Database `main` (postgresql).\n- No workspace is bound.");
    let ws = session_facts_text(&[], Some("/tmp/ws")).unwrap();
    assert_eq!(ws, "Session facts\n- Workspace root: /tmp/ws.\n- No database is connected.");
    let both = session_facts_text(&[form("a", "sqlite"), form("b", "mysql")], Some("w")).unwrap();
    assert_eq!(
        both,
        "Session facts\n- Database `a` (sqlite).\n- Database `b` (mysql).\n- Workspace root: w."
    );
}
