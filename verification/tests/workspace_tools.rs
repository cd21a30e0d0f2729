use saya_cli::json::{Json, JsonNumber};
use saya_cli::tool_error::ToolError;
use saya_cli::workspace_edit::WORKSPACE_WRITE_MAX_BYTES;
use saya_cli::workspace_tools::{
    glob_result, glob_target, grep_result, grep_target, kind_label, list_result, list_target,
    read_result, read_target, write_result, write_target, EntryKind, GrepHit, ListEntry,
    ServedFile, served_file,
};

fn text(s: &str) -> Json {
    Json::String(s.to_string())
}

fn uint(n: u64) -> Json {
    Json::Number(JsonNumber::PosInt(n))
}

fn object(members: Vec<(&str, Json)>) -> Json {
    Json::Object(members.into_iter().map(|(k, v)| (k.to_string(), v)).collect())
}

#[test]
fn workspace_edit_denies_when_no_workspace_is_attached() {
    let args = object(vec![("path", text("notes.md"))]);
    assert_eq!(read_target(&args, false), Err(ToolError::WorkspaceUnavailable));
    assert_eq!(list_target(&args, false), Err(ToolError::WorkspaceUnavailable));
    let pattern = object(vec![("pattern", text("*.md"))]);
    assert_eq!(glob_target(&pattern, false), Err(ToolError::WorkspaceUnavailable));
    assert_eq!(grep_target(&pattern, false), Err(ToolError::WorkspaceUnavailable));
    let write = object(vec![("path", text("a")), ("content", text("b"))]);
    assert_eq!(write_target(&write, false), Err(ToolError::WorkspaceUnavailable));
}

#[test]
fn targets_read_their_arguments() {
    assert_eq!(read_target(&object(vec![("path", text("a/b.md"))]), true), Ok("a/b.md".to_string()));
    assert_eq!(read_target(&object(vec![]), true), Err(ToolError::PathNotString));
    assert_eq!(list_target(&object(vec![]), true), Ok(String::new()));
    assert_eq!(list_target(&object(vec![("path", text("src"))]), true), Ok("src".to_string()));
    assert_eq!(glob_target(&object(vec![]), true), Err(ToolError::PatternNotString));
    assert_eq!(
        grep_target(&object(vec![("pattern", text("needle"))]), true),
        Ok(("needle".to_string(), false))
    );
    assert_eq!(
        grep_target(&object(vec![("pattern", text("Needle")), ("case_insensitive", Json::Bool(true))]), true),
        Ok(("Needle".to_string(), true))
    );
    assert_eq!(
        grep_target(&object(vec![("pattern", text("x")), ("case_insensitive", text("yes"))]), true),
        Err(ToolError::CaseInsensitiveNotBool)
    );
}

#[test]
fn a_write_over_the_bound_refuses_whole() {
    let at_bound = "x".repeat(WORKSPACE_WRITE_MAX_BYTES);
    let ok = object(vec![("path", text("big.txt")), ("content", text(&at_bound))]);
    assert_eq!(write_target(&ok, true), Ok(("big.txt".to_string(), at_bound.clone())));
    let over = object(vec![("path", text("big.txt")), ("content", text(&format!("{at_bound}x")))]);
    assert_eq!(
        write_target(&over, true),
        Err(ToolError::WorkspaceWriteTooLarge { limit: WORKSPACE_WRITE_MAX_BYTES })
    );
    assert_eq!(write_target(&object(vec![("path", text("a"))]), true), Err(ToolError::ContentNotString));
    assert_eq!(write_target(&object(vec![("content", text("a"))]), true), Err(ToolError::PathNotString));
}

#[test]
fn results_carry_counts_and_names_only() {
    let read = read_result(
        "notes.md",
        ServedFile { size: 10, truncated: true, digest: "abc".to_string(), content: "hello".to_string() },
    );
    assert_eq!(
        read,
        object(vec![
            ("path", text("notes.md")),
            ("size", uint(10)),
            ("truncated", Json::Bool(true)),
            ("digest", text("abc")),
            ("content", text("hello")),
        ])
    );
    let listing = list_result(
        "",
        vec![
            ListEntry { name: "a".to_string(), kind: EntryKind::File, size: 3 },
            ListEntry { name: "d".to_string(), kind: EntryKind::Dir, size: 0 },
        ],
    );
    let entries = match listing.get("entries") {
        Some(Json::Array(e)) => e,
        other => panic!("entries missing: {other:?}"),
    };
    assert_eq!(entries.len(), 2);
    assert_eq!(entries[1].get("kind"), Some(&text("dir")));
    assert_eq!(kind_label(EntryKind::Symlink), "symlink");
    assert_eq!(kind_label(EntryKind::Other), "other");
    assert_eq!(
        glob_result(vec!["a.md".to_string(), "b.md".to_string()]),
        object(vec![("matches", Json::Array(vec![text("a.md"), text("b.md")]))])
    );
    let grep = grep_result(
        vec![GrepHit { path: "a.md".to_string(), line: 3, text: "needle".to_string(), truncated: false }],
        4,
        1,
    );
    assert_eq!(grep.get("files_scanned"), Some(&uint(4)));
    assert_eq!(grep.get("files_skipped"), Some(&uint(1)));
    assert_eq!(
        write_result("out.txt", 12),
        object(vec![("path", text("out.txt")), ("bytes_written", uint(12))])
    );
}

#[test]
fn served_bytes_are_decoded_with_stray_bytes_replaced() {
    let file = served_file(9, true, "d".to_string(), b"h\xc3\xa9llo \xff");
    assert_eq!(file.size, 9);
    assert!(file.truncated);
    assert_eq!(file.digest, "d");
    assert_eq!(file.content, "h\u{e9}llo \u{fffd}");
    assert_eq!(served_file(3, false, String::new(), b"abc").content, "abc");
}
