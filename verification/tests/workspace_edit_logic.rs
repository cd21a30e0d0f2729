use saya_cli::anchor::{find_matches, hex_digest, match_lines};
use saya_cli::json::{Json, JsonNumber};
use saya_cli::redaction_guard::{count_markers, existing_marker_count, refuse_marker_growth, GuardedTool};
use saya_cli::tool_error::ToolError;
use saya_cli::workspace_edit::{
    check_append_arguments, check_edit_target_size, check_replace_arguments, edit_result,
    length_mismatch_refusal, parse_arguments, plan_append, plan_append_absent, plan_replace,
    splice_text, FileRead, WorkspaceEditRequest, WORKSPACE_EDIT_MAX_BYTES,
};

fn text(s: &str) -> Json {
    Json::String(s.to_string())
}

fn uint(n: u64) -> Json {
    Json::Number(JsonNumber::PosInt(n))
}

fn object(members: Vec<(&str, Json)>) -> Json {
    Json::Object(members.into_iter().map(|(k, v)| (k.to_string(), v)).collect())
}

const EMPTY_DIGEST: &str = "e3b0c44298fc1c149afbf4c8996fb92427ae41e4649b934ca495991b7852b855";

#[test]
fn counts_non_overlapping_markers() {
    assert_eq!(count_markers(b"no markers here"), 0);
    assert_eq!(count_markers(b"a = f([redacted])"), 1);
    assert_eq!(
        count_markers(b"[redacted] and again [redacted]"),
        2,
        "two separate occurrences must both count"
    );
}

#[test]
fn does_not_count_the_longer_private_key_marker() {
    assert_eq!(count_markers(b"[redacted private key]"), 0);
}

#[test]
fn marker_growth_is_refused_with_the_counts_and_path() {
    assert_eq!(refuse_marker_growth("a.txt", 1, b"[redacted]", GuardedTool::Write), Ok(()));
    let refused = refuse_marker_growth("a.txt", 0, b"x [redacted] y", GuardedTool::Write);
    match refused {
        Err(ToolError::WorkspaceWrite(msg)) => {
            assert!(msg.starts_with("refused: the new content holds 1 occurrence(s)"));
            assert!(msg.contains("more than the 0 already on disk: a.txt."));
        }
        other => panic!("expected a write refusal, got {other:?}"),
    }
    match refuse_marker_growth("b.txt", 1, b"[redacted][redacted]", GuardedTool::Edit) {
        Err(ToolError::WorkspaceEdit(msg)) => assert!(msg.contains("holds 2 occurrence(s)")),
        other => panic!("expected an edit refusal, got {other:?}"),
    }
    assert_eq!(existing_marker_count(None), 0);
    assert_eq!(existing_marker_count(Some(b"[redacted]")), 1);
}

#[test]
fn matches_are_non_overlapping_and_lines_are_one_based() {
    assert_eq!(find_matches("aaaa", "aa"), vec![0, 2]);
    assert_eq!(find_matches("abc", "x"), Vec::<usize>::new());
    let body = "x\nfoo\nbar foo\n";
    let hits = find_matches(body, "foo");
    assert_eq!(hits, vec![2, 10]);
    assert_eq!(match_lines(body, &hits), vec![2, 3]);
}

#[test]
fn reported_lines_are_bounded() {
    let body = "k\n".repeat(40);
    let hits = find_matches(&body, "k");
    assert_eq!(hits.len(), 40);
    let lines = match_lines(&body, &hits);
    assert_eq!(lines.len(), 16);
    assert_eq!(lines[0], 1);
    assert_eq!(lines[15], 16);
}

#[test]
fn digest_is_lowercase_sha256_hex() {
    assert_eq!(hex_digest(b""), EMPTY_DIGEST);
    assert_eq!(
        hex_digest(b"abc"),
        "ba7816bf8f01cfea414140de5dae2223b00361a396177a9cb410ff61f20015ad"
    );
}

#[test]
fn splice_replaces_exactly_the_range() {
    assert_eq!(splice_text("hello world", 6..11, "there"), "hello there");
    assert_eq!(splice_text("café au lait", 0..5, "tea"), "tea au lait");
    assert_eq!(splice_text("abc", 1..1, "X"), "aXbc");
}

#[test]
fn edit_arguments_select_replace_or_append() {
    let replace = parse_arguments(&object(vec![
        ("path", text("a.txt")),
        ("old_text", text("x")),
        ("new_text", text("y")),
        ("expected_size", uint(3)),
    ]));
    match replace {
        Ok(WorkspaceEditRequest::Replace { path, old_text, new_text, expected_size, expected_digest }) => {
            assert_eq!(path, "a.txt");
            assert_eq!(old_text, "x");
            assert_eq!(new_text, "y");
            assert_eq!(expected_size, Some(3));
            assert_eq!(expected_digest, None);
        }
        other => panic!("expected replace, got {other:?}"),
    }
    let append = parse_arguments(&object(vec![
        ("path", text("a.txt")),
        ("offset", uint(0)),
        ("chunk", text("hi")),
        ("expected_digest", Json::Null),
    ]));
    match append {
        Ok(WorkspaceEditRequest::Append { offset, chunk, expected_digest, .. }) => {
            assert_eq!(offset, 0);
            assert_eq!(chunk, "hi");
            assert_eq!(expected_digest, None);
        }
        other => panic!("expected append, got {other:?}"),
    }
}

#[test]
fn edit_arguments_refuse_each_malformed_shape() {
    assert_eq!(parse_arguments(&text("x")).err(), Some(ToolError::ArgumentsNotObject));
    assert_eq!(
        parse_arguments(&object(vec![("path", text("a")), ("bogus", text("b"))])).err(),
        Some(ToolError::UnsupportedProperty)
    );
    assert_eq!(
        parse_arguments(&object(vec![("path", uint(1))])).err(),
        Some(ToolError::PathNotString)
    );
    assert_eq!(
        parse_arguments(&object(vec![("path", text("a")), ("chunk", text("c"))])).err(),
        Some(ToolError::OffsetNotUint)
    );
    assert_eq!(
        parse_arguments(&object(vec![("path", text("a")), ("offset", uint(0))])).err(),
        Some(ToolError::ChunkNotString)
    );
    assert_eq!(
        parse_arguments(&object(vec![
            ("path", text("a")),
            ("offset", uint(0)),
            ("chunk", text("c")),
            ("old_text", text("x")),
        ]))
        .err(),
        Some(ToolError::UnsupportedProperty),
        "mixing the two halves is refused"
    );
    assert_eq!(
        parse_arguments(&object(vec![("path", text("a")), ("new_text", text("y"))])).err(),
        Some(ToolError::OldTextNotString)
    );
    assert_eq!(
        parse_arguments(&object(vec![("path", text("a")), ("old_text", text("x"))])).err(),
        Some(ToolError::NewTextNotString)
    );
    assert_eq!(
        parse_arguments(&object(vec![
            ("path", text("a")),
            ("old_text", text("x")),
            ("new_text", text("y")),
            ("expected_size", text("3")),
        ]))
        .err(),
        Some(ToolError::ExpectedSizeNotUint)
    );
    assert_eq!(
        parse_arguments(&object(vec![
            ("path", text("a")),
            ("old_text", text("x")),
            ("new_text", text("y")),
            ("expected_digest", uint(3)),
        ]))
        .err(),
        Some(ToolError::ExpectedDigestNotString)
    );
}

#[test]
fn replace_checks_run_before_the_workspace() {
    assert_eq!(
        check_replace_arguments("a", "", "y", true),
        Err(ToolError::WorkspaceEditEmptyAnchor { path: "a".to_string() })
    );
    let big = "x".repeat(WORKSPACE_EDIT_MAX_BYTES + 1);
    assert_eq!(
        check_replace_arguments("a", "x", &big, true),
        Err(ToolError::WorkspaceEditTooLarge {
            path: "a".to_string(),
            limit: WORKSPACE_EDIT_MAX_BYTES,
            found: WORKSPACE_EDIT_MAX_BYTES + 1
        })
    );
    assert_eq!(check_replace_arguments("a", "x", "y", false), Err(ToolError::WorkspaceUnavailable));
    assert_eq!(check_replace_arguments("a", "x", "y", true), Ok(()));
    assert_eq!(check_append_arguments("a", &big, true).is_err(), true);
    assert_eq!(check_append_arguments("a", "c", false), Err(ToolError::WorkspaceUnavailable));
    assert_eq!(check_append_arguments("a", "c", true), Ok(()));
    assert_eq!(
        check_edit_target_size(11, 10, "a: 11 bytes over the 10-byte bound".to_string()),
        Err(ToolError::WorkspaceEdit("a: 11 bytes over the 10-byte bound".to_string()))
    );
    assert_eq!(check_edit_target_size(10, 10, "unused".to_string()), Ok(()));
}

#[test]
fn replace_resolves_exactly_one_range() {
    let body = b"alpha beta gamma";
    let plan = plan_replace("f.txt", body, 16, "beta", "BETA", None, &None).expect("one match");
    assert_eq!((plan.start, plan.end, plan.expected_len), (6, 10, 16));
}

#[test]
fn replace_refuses_zero_or_several_matches_with_state() {
    let body = b"one two one";
    let digest = hex_digest(body);
    match plan_replace("f.txt", body, 11, "three", "3", None, &None) {
        Err(ToolError::WorkspaceEditNoMatch { matches, size, digest: d, .. }) => {
            assert_eq!(matches, 0);
            assert_eq!(size, 11);
            assert_eq!(d, digest);
        }
        other => panic!("expected no match, got {other:?}"),
    }
    match plan_replace("f.txt", body, 11, "one", "1", None, &None) {
        Err(ToolError::WorkspaceEditAmbiguous { matches, lines, .. }) => {
            assert_eq!(matches, 2);
            assert_eq!(lines, vec![1, 1]);
        }
        other => panic!("expected ambiguity, got {other:?}"),
    }
}

#[test]
fn replace_refuses_a_moved_anchor_or_non_text_target() {
    let body = b"abc";
    match plan_replace("f.txt", body, 3, "b", "B", Some(4), &None) {
        Err(ToolError::WorkspaceEditMoved { expected_size, current_size, current_digest, .. }) => {
            assert_eq!(expected_size, Some(4));
            assert_eq!(current_size, 3);
            assert_eq!(current_digest, hex_digest(body));
        }
        other => panic!("expected a moved refusal, got {other:?}"),
    }
    let stale = Some("00".to_string());
    assert!(matches!(
        plan_replace("f.txt", body, 3, "b", "B", None, &stale),
        Err(ToolError::WorkspaceEditMoved { .. })
    ));
    assert_eq!(
        plan_replace("f.txt", &[0xff, 0xfe], 2, "b", "B", None, &None).err(),
        Some(ToolError::WorkspaceEditNotText { path: "f.txt".to_string() })
    );
    let fresh = Some(hex_digest(body));
    assert!(plan_replace("f.txt", body, 3, "b", "B", Some(3), &fresh).is_ok());
}

#[test]
fn replace_refuses_copying_a_marker_back() {
    let body = b"key = secret";
    assert!(matches!(
        plan_replace("f.txt", body, 12, "secret", "[redacted]", None, &None),
        Err(ToolError::WorkspaceEdit(_))
    ));
}

#[test]
fn append_guards_the_offset_and_creates_only_at_zero() {
    assert_eq!(plan_append_absent("n.txt", 0, "hi", None, &None), Ok(()));
    match plan_append_absent("n.txt", 5, "hi", None, &None) {
        Err(ToolError::WorkspaceAppendOffset { expected_offset, current_size, current_digest, .. }) => {
            assert_eq!(expected_offset, 5);
            assert_eq!(current_size, 0);
            assert_eq!(current_digest, EMPTY_DIGEST);
        }
        other => panic!("expected an offset refusal, got {other:?}"),
    }
    assert!(matches!(
        plan_append_absent("n.txt", 0, "hi", Some(3), &None),
        Err(ToolError::WorkspaceEditMoved { current_size: 0, .. })
    ));
    assert!(matches!(
        plan_append_absent("n.txt", 0, "[redacted]", None, &None),
        Err(ToolError::WorkspaceEdit(_))
    ));
    let body = b"abc";
    assert_eq!(plan_append("f.txt", body, 3, 3, "d", None, &None), Ok(()));
    assert!(matches!(
        plan_append("f.txt", body, 3, 2, "d", None, &None),
        Err(ToolError::WorkspaceAppendOffset { expected_offset: 2, current_size: 3, .. })
    ));
}

#[test]
fn append_sees_a_marker_split_across_the_old_end() {
    let body = b"x [reda";
    assert!(matches!(
        plan_append("f.txt", body, 7, 7, "cted]", None, &None),
        Err(ToolError::WorkspaceEdit(_))
    ));
}

#[test]
fn a_moved_commit_reports_where_to_resume() {
    let reread = FileRead { size: 9, bytes: b"123456789".to_vec() };
    match length_mismatch_refusal("f.txt", 5, Some(&reread), 7) {
        ToolError::WorkspaceAppendOffset { expected_offset, current_size, current_digest, .. } => {
            assert_eq!(expected_offset, 5);
            assert_eq!(current_size, 9);
            assert_eq!(current_digest, hex_digest(b"123456789"));
        }
        other => panic!("unexpected {other:?}"),
    }
    match length_mismatch_refusal("f.txt", 5, None, 7) {
        ToolError::WorkspaceAppendOffset { current_size, current_digest, .. } => {
            assert_eq!(current_size, 7);
            assert_eq!(current_digest, EMPTY_DIGEST);
        }
        other => panic!("unexpected {other:?}"),
    }
}

#[test]
fn the_edit_result_names_size_and_digest() {
    let after = FileRead { size: 3, bytes: b"abc".to_vec() };
    let r = edit_result("f.txt", Some((1, 2)), &after);
    assert_eq!(r.get("path"), Some(&text("f.txt")));
    assert_eq!(r.get("bytes_replaced"), Some(&uint(1)));
    assert_eq!(r.get("bytes_written"), Some(&uint(2)));
    assert_eq!(r.get("size"), Some(&uint(3)));
    assert_eq!(r.get("digest"), Some(&text(&hex_digest(b"abc"))));
    let appended = edit_result("f.txt", None, &after);
    assert_eq!(appended.get("bytes_replaced"), None);
}

#[test]
fn splicing_the_displaced_text_back_restores_the_original() {
    let current = "hello anchor world";
    let once = splice_text(current, 6..12, "ANCHORED");
    assert_eq!(once, "hello ANCHORED world");
    let back = splice_text(&once, 6..6 + "ANCHORED".len(), &current[6..12]);
    assert_eq!(back, current);
    let wide = "héllo ✓ wörld";
    let start = wide.find('✓').unwrap();
    let end = start + '✓'.len_utf8();
    let swapped = splice_text(wide, start..end, "ÿes");
    assert_eq!(swapped, "héllo ÿes wörld");
    assert_eq!(splice_text(&swapped, start..start + "ÿes".len(), &wide[start..end]), wide);
}

#[test]
fn markers_are_counted_per_position_and_never_lost_at_a_seam() {
    assert_eq!(count_markers(b"[redacted][redacted]x[redacted]"), 3);
    let a: &[u8] = b"secret [reda";
    let b: &[u8] = b"cted] tail [redacted]";
    let whole = [a, b].concat();
    assert_eq!(count_markers(a), 0);
    assert_eq!(count_markers(b), 1);
    assert_eq!(count_markers(&whole), 2);
    assert!(count_markers(&whole) >= count_markers(a) + count_markers(b));
}
