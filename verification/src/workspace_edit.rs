//! The model-facing anchored edit (`replace` and `append` variants): the
//! replace variant resolves `old_text` to exactly one byte range of a
//! contained workspace file; the append variant splices `chunk` at an empty
//! range at EOF guarded by `offset`. Both commit through one range-replace
//! operation — append is a range replace, not a second write path. This
//! module decides; the caller reads the file, commits the splice it is told
//! to, and reads the result back.
//!
//! Failure contract: every row refuses loudly and writes nothing.
//! Zero matches refuses (`NoMatch`, with the current size and digest so the
//! model re-anchors); multiple matches refuses (`Ambiguous`, with bounded
//! line numbers only — never "first wins"); a moved anchor refuses
//! (`expected_size` or `expected_digest` no longer matching the current file —
//! no write); a replacement or chunk over the bound refuses whole, never
//! truncated; an offset mismatch refuses (`OffsetMismatch`, reporting the
//! current size and digest so the model resumes from `offset`); a mid-edit
//! truncation lands nothing (a truncated tool-call argument never parses or
//! validates; a crashed commit leaves the old file); a non-UTF-8 target is
//! refused (`NotText` — byte-exact anchors cannot be trusted over lossy
//! reads); concurrent writers are last-writer-wins unless `expected_*` is
//! supplied, in which case the loser gets the moved-anchor refusal; an empty
//! anchor is rejected (it matches everywhere).

use vstd::prelude::*;
use vstd::string::StringSliceAdditionalSpecFns;
use vstd::utf8::{encode_utf8, is_char_boundary, valid_utf8};

use crate::anchor::{
    byte_match_lines, find_byte_matches, hex_digest, reported_lines, spec_find_matches,
    spec_hex_digest,
};
use crate::json::{
    get_str, json_get, object_view, str_of, u64_of, has_key, str_eq, Json, JsonV,
};
use crate::redaction_guard::{
    count_markers, marker_refusal, refuse_marker_growth, spec_count_markers, GuardedTool,
};
use crate::tool_error::ToolError;

verus! {

/// The bound on a workspace write's `content`, and on an edit's `old_text`,
/// `new_text` and `chunk`: anything written can be read back whole in one
/// read. Over the bound is a typed whole-refusal, never a truncation.
pub const WORKSPACE_WRITE_MAX_BYTES: usize = 65536;

/// The bound on a workspace edit's `old_text`, `new_text` and `chunk`.
pub const WORKSPACE_EDIT_MAX_BYTES: usize = WORKSPACE_WRITE_MAX_BYTES;

/// A parsed `workspace_edit` call.
#[derive(Debug, PartialEq)]
pub enum WorkspaceEditRequest {
    Replace {
        path: String,
        old_text: String,
        new_text: String,
        expected_size: Option<u64>,
        expected_digest: Option<String>,
    },
    Append {
        path: String,
        offset: u64,
        chunk: String,
        expected_size: Option<u64>,
        expected_digest: Option<String>,
    },
}

/// The mathematical form of a parsed `workspace_edit` call.
pub enum EditRequestV {
    Replace {
        path: Seq<char>,
        old_text: Seq<char>,
        new_text: Seq<char>,
        expected_size: Option<u64>,
        expected_digest: Option<Seq<char>>,
    },
    Append {
        path: Seq<char>,
        offset: u64,
        chunk: Seq<char>,
        expected_size: Option<u64>,
        expected_digest: Option<Seq<char>>,
    },
}

pub open spec fn opt_view(o: Option<String>) -> Option<Seq<char>> {
    match o {
        Some(s) => Some(s@),
        None => None,
    }
}

impl View for WorkspaceEditRequest {
    type V = EditRequestV;

    open spec fn view(&self) -> EditRequestV {
        match self {
            WorkspaceEditRequest::Replace {
                path,
                old_text,
                new_text,
                expected_size,
                expected_digest,
            } => EditRequestV::Replace {
                path: path@,
                old_text: old_text@,
                new_text: new_text@,
                expected_size: *expected_size,
                expected_digest: opt_view(*expected_digest),
            },
            WorkspaceEditRequest::Append {
                path,
                offset,
                chunk,
                expected_size,
                expected_digest,
            } => EditRequestV::Append {
                path: path@,
                offset: *offset,
                chunk: chunk@,
                expected_size: *expected_size,
                expected_digest: opt_view(*expected_digest),
            },
        }
    }
}

/// The argument names a `workspace_edit` call may carry.
pub open spec fn edit_argument_names() -> Seq<Seq<char>> {
    seq![
        "path"@,
        "old_text"@,
        "new_text"@,
        "offset"@,
        "chunk"@,
        "expected_size"@,
        "expected_digest"@,
    ]
}

/// Every member key of the object is one of `allowed`.
pub open spec fn keys_within(m: Seq<(Seq<char>, JsonV)>, allowed: Seq<Seq<char>>) -> bool {
    forall|k: int| 0 <= k < m.len() ==> allowed.contains(#[trigger] m[k].0)
}

/// An optional argument: absent or `null` is `None`.
pub open spec fn optional_arg(j: JsonV, key: Seq<char>) -> Option<JsonV> {
    match json_get(j, key) {
        Some(JsonV::Null) => None,
        other => other,
    }
}

/// What `parse_arguments` returns for the JSON arguments `j`.
pub open spec fn spec_parse_edit(j: JsonV) -> Result<EditRequestV, ToolError> {
    match j {
        JsonV::Object(m) => {
            if !keys_within(m, edit_argument_names()) {
                Err(ToolError::UnsupportedProperty)
            } else if get_str(j, "path"@) is None {
                Err(ToolError::PathNotString)
            } else if optional_arg(j, "expected_size"@) matches Some(v) && u64_of(v) is None {
                Err(ToolError::ExpectedSizeNotUint)
            } else if optional_arg(j, "expected_digest"@) matches Some(v) && str_of(v) is None {
                Err(ToolError::ExpectedDigestNotString)
            } else {
                let path = get_str(j, "path"@).unwrap();
                let expected_size = match optional_arg(j, "expected_size"@) {
                    Some(v) => u64_of(v),
                    None => None,
                };
                let expected_digest = match optional_arg(j, "expected_digest"@) {
                    Some(v) => str_of(v),
                    None => None,
                };
                if has_key(j, "offset"@) || has_key(j, "chunk"@) {
                    let offset = match json_get(j, "offset"@) {
                        Some(v) => u64_of(v),
                        None => None,
                    };
                    if offset is None {
                        Err(ToolError::OffsetNotUint)
                    } else if get_str(j, "chunk"@) is None {
                        Err(ToolError::ChunkNotString)
                    } else if has_key(j, "old_text"@) || has_key(j, "new_text"@) {
                        Err(ToolError::UnsupportedProperty)
                    } else {
                        Ok(
                            EditRequestV::Append {
                                path,
                                offset: offset.unwrap(),
                                chunk: get_str(j, "chunk"@).unwrap(),
                                expected_size,
                                expected_digest,
                            },
                        )
                    }
                } else if get_str(j, "old_text"@) is None {
                    Err(ToolError::OldTextNotString)
                } else if get_str(j, "new_text"@) is None {
                    Err(ToolError::NewTextNotString)
                } else {
                    Ok(
                        EditRequestV::Replace {
                            path,
                            old_text: get_str(j, "old_text"@).unwrap(),
                            new_text: get_str(j, "new_text"@).unwrap(),
                            expected_size,
                            expected_digest,
                        },
                    )
                }
            }
        },
        _ => Err(ToolError::ArgumentsNotObject),
    }
}

/// `r` is the parse outcome `s` describes: equal views on success, the same
/// payload-free refusal on failure.
pub open spec fn parse_outcome_is<T: View>(r: Result<T, ToolError>, s: Result<T::V, ToolError>) -> bool {
    match (r, s) {
        (Ok(a), Ok(b)) => a@ == b,
        (Err(e), Err(f)) => e == f,
        _ => false,
    }
}

/// Whether every member key of `members` is one of `allowed`.
pub fn member_keys_within(members: &Vec<(String, Json)>, allowed: &[&str]) -> (r: bool)
    ensures
        r == keys_within(object_view(members@), allowed@.map_values(|s: &str| s@)),
{
    let ghost al = allowed@.map_values(|s: &str| s@);
    proof {
        crate::json::lemma_object_view_len(members@);
    }
    let mut i: usize = 0;
    while i < members.len()
        invariant
            i <= members.len(),
            object_view(members@).len() == members@.len(),
            al == allowed@.map_values(|s: &str| s@),
            forall|k: int| 0 <= k < i ==> al.contains(#[trigger] object_view(members@)[k].0),
        decreases members.len() - i,
    {
        proof {
            crate::json::lemma_object_view_index(members@, i as int);
        }
        let key = members[i].0.as_str();
        let mut found = false;
        let mut a: usize = 0;
        while a < allowed.len()
            invariant
                a <= allowed.len(),
                al == allowed@.map_values(|s: &str| s@),
                found ==> al.contains(key@),
                !found ==> forall|q: int| 0 <= q < a ==> al[q] != key@,
            decreases allowed.len() - a,
        {
            if str_eq(allowed[a], key) {
                assert(al[a as int] == key@);
                found = true;
            }
            a += 1;
        }
        if !found {
            proof {
                crate::json::lemma_object_view_len(members@);
                assert(!al.contains(object_view(members@)[i as int].0));
            }
            return false;
        }
        i += 1;
    }
    true
}


/// Reads the `workspace_edit` arguments: a tagged union of `replace`
/// (`old_text` + `new_text`) and `append` (`offset` + `chunk`), each with
/// the optional `expected_size`/`expected_digest` precondition. A present
/// `offset` or `chunk` selects append; mixing the two halves is refused.
pub fn parse_arguments(arguments: &Json) -> (r: Result<WorkspaceEditRequest, ToolError>)
    ensures
        parse_outcome_is(r, spec_parse_edit(arguments@)),
{
    let members = match arguments {
        Json::Object(m) => m,
        _ => {
            return Err(ToolError::ArgumentsNotObject);
        },
    };
    let allowed: [&str; 7] = [
        "path",
        "old_text",
        "new_text",
        "offset",
        "chunk",
        "expected_size",
        "expected_digest",
    ];
    assert(allowed@.map_values(|s: &str| s@) =~= edit_argument_names());
    if !member_keys_within(members, allowed.as_slice()) {
        return Err(ToolError::UnsupportedProperty);
    }
    let path = match arguments.get_str("path") {
        Some(p) => p.to_owned(),
        None => {
            return Err(ToolError::PathNotString);
        },
    };
    let expected_size = match arguments.get("expected_size") {
        None => None,
        Some(v) => {
            if v.is_null() {
                None
            } else {
                match v.as_u64() {
                    Some(u) => Some(u),
                    None => {
                        return Err(ToolError::ExpectedSizeNotUint);
                    },
                }
            }
        },
    };
    let expected_digest = match arguments.get("expected_digest") {
        None => None,
        Some(v) => {
            if v.is_null() {
                None
            } else {
                match v.as_str() {
                    Some(d) => Some(d.to_owned()),
                    None => {
                        return Err(ToolError::ExpectedDigestNotString);
                    },
                }
            }
        },
    };
    let has_old = arguments.contains_key("old_text");
    let has_new = arguments.contains_key("new_text");
    let has_offset = arguments.contains_key("offset");
    let has_chunk = arguments.contains_key("chunk");
    if has_offset || has_chunk {
        let offset = match arguments.get("offset") {
            Some(v) => match v.as_u64() {
                Some(u) => u,
                None => {
                    return Err(ToolError::OffsetNotUint);
                },
            },
            None => {
                return Err(ToolError::OffsetNotUint);
            },
        };
        let chunk = match arguments.get_str("chunk") {
            Some(c) => c.to_owned(),
            None => {
                return Err(ToolError::ChunkNotString);
            },
        };
        if has_old || has_new {
            return Err(ToolError::UnsupportedProperty);
        }
        return Ok(
            WorkspaceEditRequest::Append { path, offset, chunk, expected_size, expected_digest },
        );
    }
    let old_text = match arguments.get_str("old_text") {
        Some(t) => t.to_owned(),
        None => {
            return Err(ToolError::OldTextNotString);
        },
    };
    let new_text = match arguments.get_str("new_text") {
        Some(t) => t.to_owned(),
        None => {
            return Err(ToolError::NewTextNotString);
        },
    };
    Ok(WorkspaceEditRequest::Replace { path, old_text, new_text, expected_size, expected_digest })
}


/// Whether `bytes` are valid UTF-8, by `std::str::from_utf8`.
#[verifier::external_body]
pub(crate) fn is_valid_utf8(bytes: &[u8]) -> (r: bool)
    ensures
        r == valid_utf8(bytes@),
{
    std::str::from_utf8(bytes).is_ok()
}

/// `t` with the byte range `start..end` replaced by `new`.
pub open spec fn spec_splice(t: Seq<u8>, start: int, end: int, new: Seq<u8>) -> Seq<u8> {
    t.subrange(0, start) + new + t.subrange(end, t.len() as int)
}

/// Splicing the displaced bytes back undoes a splice: replacing
/// `start..end` by `new`, then the range `new` now occupies by what was at
/// `start..end`, gives the original bytes back.
pub proof fn lemma_splice_round_trip(t: Seq<u8>, start: int, end: int, new: Seq<u8>)
    requires
        0 <= start <= end <= t.len(),
    ensures
        spec_splice(
            spec_splice(t, start, end, new),
            start,
            start + new.len(),
            t.subrange(start, end),
        ) == t,
{
    let once = spec_splice(t, start, end, new);
    assert(once.subrange(0, start) =~= t.subrange(0, start));
    assert(once.subrange(start + new.len(), once.len() as int) =~= t.subrange(end, t.len() as int));
    assert(t.subrange(0, start) + t.subrange(start, end) + t.subrange(end, t.len() as int) =~= t);
}

/// The same round trip over strings: splicing text into `current` at the
/// byte range `start..end`, then splicing the displaced text back over the
/// range the new text occupies, gives `current` back.
pub proof fn lemma_splice_text_round_trip(
    current: Seq<char>,
    start: int,
    end: int,
    new: Seq<char>,
    displaced: Seq<char>,
    once: Seq<char>,
    twice: Seq<char>,
)
    requires
        0 <= start <= end <= encode_utf8(current).len(),
        encode_utf8(displaced) == encode_utf8(current).subrange(start, end),
        encode_utf8(once) == spec_splice(encode_utf8(current), start, end, encode_utf8(new)),
        encode_utf8(twice) == spec_splice(
            encode_utf8(once),
            start,
            start + encode_utf8(new).len(),
            encode_utf8(displaced),
        ),
    ensures
        twice == current,
{
    lemma_splice_round_trip(encode_utf8(current), start, end, encode_utf8(new));
    vstd::utf8::encode_utf8_decode_utf8(twice);
    vstd::utf8::encode_utf8_decode_utf8(current);
}

/// The bytes `t` would hold with `start..end` replaced by `new`.
pub fn splice_bytes(t: &[u8], start: usize, end: usize, new: &[u8]) -> (r: Vec<u8>)
    requires
        start <= end <= t.len(),
    ensures
        r@ == spec_splice(t@, start as int, end as int, new@),
{
    let mut r: Vec<u8> = Vec::new();
    let mut k: usize = 0;
    while k < start
        invariant
            k <= start <= end <= t.len(),
            r@ == t@.subrange(0, k as int),
        decreases start - k,
    {
        r.push(t[k]);
        assert(t@.subrange(0, k as int + 1) == t@.subrange(0, k as int).push(t@[k as int]));
        k += 1;
    }
    let mut m: usize = 0;
    while m < new.len()
        invariant
            start <= end <= t.len(),
            m <= new.len(),
            r@ == t@.subrange(0, start as int) + new@.subrange(0, m as int),
        decreases new.len() - m,
    {
        r.push(new[m]);
        assert(new@.subrange(0, m as int + 1) == new@.subrange(0, m as int).push(new@[m as int]));
        m += 1;
    }
    assert(new@.subrange(0, new@.len() as int) == new@);
    let mut q = end;
    while q < t.len()
        invariant
            start <= end <= q <= t.len(),
            r@ == t@.subrange(0, start as int) + new@ + t@.subrange(end as int, q as int),
        decreases t.len() - q,
    {
        r.push(t[q]);
        assert(t@.subrange(end as int, q as int + 1) == t@.subrange(end as int, q as int).push(t@[q as int]));
        q += 1;
    }
    r
}

/// UTF-8 encoding distributes over concatenation.
pub proof fn lemma_encode_utf8_concat(a: Seq<char>, b: Seq<char>)
    ensures
        encode_utf8(a + b) == encode_utf8(a) + encode_utf8(b),
    decreases a.len(),
{
    if a.len() == 0 {
        assert(a + b =~= b);
        assert(encode_utf8(a) =~= Seq::<u8>::empty());
        assert(encode_utf8(a) + encode_utf8(b) =~= encode_utf8(b));
    } else {
        assert((a + b)[0] == a[0]);
        assert((a + b).drop_first() =~= a.drop_first() + b);
        lemma_encode_utf8_concat(a.drop_first(), b);
        let h = vstd::utf8::encode_scalar(a[0] as u32);
        assert(h + (encode_utf8(a.drop_first()) + encode_utf8(b)) =~= (h + encode_utf8(
            a.drop_first(),
        )) + encode_utf8(b));
    }
}

/// The `replace` half's resulting content, built in memory so the
/// redaction-placeholder guard can inspect what the commit would write
/// before any byte lands: `current` with the byte range `range` (a match of
/// `old_text`, so on character boundaries) swapped for `new_text`.
pub fn splice_text(current: &str, range: std::ops::Range<usize>, new_text: &str) -> (r: String)
    requires
        range.start <= range.end,
        is_char_boundary(current.spec_bytes(), range.start as int),
        is_char_boundary(current.spec_bytes(), range.end as int),
    ensures
        encode_utf8(r@) == spec_splice(
            current.spec_bytes(),
            range.start as int,
            range.end as int,
            new_text.spec_bytes(),
        ),
{
    let (head, _) = current.split_at(range.start);
    let (_, tail) = current.split_at(range.end);
    let mut resulting = head.to_owned();
    crate::text::push_str(&mut resulting, new_text);
    crate::text::push_str(&mut resulting, tail);
    proof {
        lemma_encode_utf8_concat(head@, new_text@);
        lemma_encode_utf8_concat(head@ + new_text@, tail@);
    }
    resulting
}

/// The outcome an edit decision reaches, in the failure contract's order.
pub enum EditVerdict {
    NotText,
    SizeMoved,
    DigestMoved,
    NoMatch,
    Ambiguous,
    OffsetMismatch,
    MarkerGrowth,
    Commit { start: int, end: int },
}

/// The replace decision over the target's bytes and size.
pub open spec fn replace_verdict(
    bytes: Seq<u8>,
    size: u64,
    old: Seq<u8>,
    new: Seq<u8>,
    expected_size: Option<u64>,
    expected_digest: Option<Seq<char>>,
) -> EditVerdict {
    let digest = spec_hex_digest(bytes);
    let hits = spec_find_matches(bytes, old);
    if !valid_utf8(bytes) {
        EditVerdict::NotText
    } else if expected_size matches Some(w) && w != size {
        EditVerdict::SizeMoved
    } else if expected_digest matches Some(w) && w != digest {
        EditVerdict::DigestMoved
    } else if hits.len() == 0 {
        EditVerdict::NoMatch
    } else if hits.len() > 1 {
        EditVerdict::Ambiguous
    } else if spec_count_markers(spec_splice(bytes, hits[0], hits[0] + old.len(), new))
        > spec_count_markers(bytes) {
        EditVerdict::MarkerGrowth
    } else {
        EditVerdict::Commit { start: hits[0], end: hits[0] + old.len() }
    }
}

/// A committed replace rewrites the anchor's one occurrence and nothing
/// else: the range it names lies in the file, is the only match, and holds
/// `old`; the content it commits keeps every byte before the range and
/// every byte after it, with `new` in between, and it holds no more
/// `[redacted]` markers than the file did.
pub proof fn lemma_replace_rewrites_only_the_anchor(
    bytes: Seq<u8>,
    size: u64,
    old: Seq<u8>,
    new: Seq<u8>,
    expected_size: Option<u64>,
    expected_digest: Option<Seq<char>>,
)
    requires
        replace_verdict(bytes, size, old, new, expected_size, expected_digest) is Commit,
    ensures
        ({
            let v = replace_verdict(bytes, size, old, new, expected_size, expected_digest);
            let result = spec_splice(bytes, v->start, v->end, new);
            &&& 0 <= v->start <= v->end <= bytes.len()
            &&& spec_find_matches(bytes, old) == seq![v->start]
            &&& bytes.subrange(v->start, v->end) == old
            &&& result.len() == bytes.len() - old.len() + new.len()
            &&& result.subrange(0, v->start) == bytes.subrange(0, v->start)
            &&& result.subrange(v->start, v->start + new.len()) == new
            &&& result.subrange(v->start + new.len(), result.len() as int) == bytes.subrange(
                v->end,
                bytes.len() as int,
            )
            &&& spec_count_markers(result) <= spec_count_markers(bytes)
        }),
{
    let hits = spec_find_matches(bytes, old);
    crate::anchor::lemma_matches_in_bounds(bytes, old, 0);
    assert(crate::anchor::bytes_occur_at(bytes, hits[0], old));
    assert(hits =~= seq![hits[0]]);
    let start = hits[0];
    let end = hits[0] + old.len();
    let result = spec_splice(bytes, start, end, new);
    assert(result.subrange(0, start) =~= bytes.subrange(0, start));
    assert(result.subrange(start, start + new.len()) =~= new);
    assert(result.subrange(start + new.len(), result.len() as int) =~= bytes.subrange(
        end,
        bytes.len() as int,
    ));
}

/// `e` is the moved-anchor refusal for `path` with the given preconditions
/// and current state.
pub open spec fn is_moved_refusal(
    e: ToolError,
    path: Seq<char>,
    expected_size: Option<u64>,
    current_size: u64,
    expected_digest: Option<Seq<char>>,
    current_digest: Seq<char>,
) -> bool {
    e matches ToolError::WorkspaceEditMoved {
        path: p,
        expected_size: es,
        current_size: cs,
        expected_digest: ed,
        current_digest: cd,
    } && p@ == path && es == expected_size && cs == current_size && opt_view(ed)
        == expected_digest && cd@ == current_digest
}

/// The byte range a replace commits, and the size the commit expects.
#[derive(Debug, PartialEq)]
pub struct ReplacePlan {
    pub start: u64,
    pub end: u64,
    pub expected_len: u64,
}

fn clone_opt_string(o: &Option<String>) -> (r: Option<String>)
    ensures
        opt_view(r) == opt_view(*o),
{
    match o {
        Some(s) => Some(s.clone()),
        None => None,
    }
}

fn digest_differs(want: &Option<String>, digest: &String) -> (r: bool)
    ensures
        r == (opt_view(*want) matches Some(w) && w != digest@),
{
    match want {
        Some(w) => !(*w == *digest),
        None => false,
    }
}

/// The `replace` half's decision over the target as read: refuse a non-UTF-8
/// target, a moved anchor, zero or several matches, or a splice that would
/// add `[redacted]` markers; otherwise the one byte range to replace.
pub fn plan_replace(
    rel: &str,
    bytes: &[u8],
    size: u64,
    old_text: &str,
    new_text: &str,
    expected_size: Option<u64>,
    expected_digest: &Option<String>,
) -> (r: Result<ReplacePlan, ToolError>)
    requires
        old_text@.len() > 0,
        bytes@.len() < u64::MAX,
    ensures
        match replace_verdict(
            bytes@,
            size,
            old_text.spec_bytes(),
            new_text.spec_bytes(),
            expected_size,
            opt_view(*expected_digest),
        ) {
            EditVerdict::NotText => r matches Err(ToolError::WorkspaceEditNotText { path })
                && path@ == rel@,
            EditVerdict::SizeMoved | EditVerdict::DigestMoved => r matches Err(e)
                && is_moved_refusal(
                e,
                rel@,
                expected_size,
                size,
                opt_view(*expected_digest),
                spec_hex_digest(bytes@),
            ),
            EditVerdict::NoMatch => r matches Err(
                ToolError::WorkspaceEditNoMatch { path, matches, size: s, digest },
            ) && path@ == rel@ && matches == 0 && s == size && digest@ == spec_hex_digest(bytes@),
            EditVerdict::Ambiguous => r matches Err(
                ToolError::WorkspaceEditAmbiguous { path, matches, lines, size: s, digest },
            ) && path@ == rel@ && matches == spec_find_matches(bytes@, old_text.spec_bytes()).len()
                && lines@ == reported_lines(bytes@, spec_find_matches(bytes@, old_text.spec_bytes()))
                && s == size && digest@ == spec_hex_digest(bytes@),
            EditVerdict::MarkerGrowth => {
                let hits = spec_find_matches(bytes@, old_text.spec_bytes());
                r matches Err(ToolError::WorkspaceEdit(msg)) && msg@ == marker_refusal(
                    rel@,
                    spec_count_markers(
                        spec_splice(
                            bytes@,
                            hits[0],
                            hits[0] + old_text.spec_bytes().len(),
                            new_text.spec_bytes(),
                        ),
                    ),
                    spec_count_markers(bytes@),
                )
            },
            EditVerdict::Commit { start, end } => r matches Ok(plan) && plan.start == start
                && plan.end == end && plan.expected_len == size,
            _ => false,
        },
{
    proof {
        crate::anchor::lemma_encode_nonempty(old_text@);
    }
    let old = old_text.as_bytes();
    let new = new_text.as_bytes();
    if !is_valid_utf8(bytes) {
        return Err(ToolError::WorkspaceEditNotText { path: rel.to_owned() });
    }
    let digest = hex_digest(bytes);
    if let Some(want) = expected_size {
        if want != size {
            return Err(
                ToolError::WorkspaceEditMoved {
                    path: rel.to_owned(),
                    expected_size: Some(want),
                    current_size: size,
                    expected_digest: clone_opt_string(expected_digest),
                    current_digest: digest,
                },
            );
        }
    }
    if digest_differs(expected_digest, &digest) {
        return Err(
            ToolError::WorkspaceEditMoved {
                path: rel.to_owned(),
                expected_size,
                current_size: size,
                expected_digest: clone_opt_string(expected_digest),
                current_digest: digest,
            },
        );
    }
    let hits = find_byte_matches(bytes, old);
    let ghost spec_hits = spec_find_matches(bytes@, old@);
    assert(hits@.len() == spec_hits.len()) by {
        assert(hits@.map_values(|h: usize| h as int).len() == hits@.len());
    }
    if hits.len() == 0 {
        return Err(
            ToolError::WorkspaceEditNoMatch { path: rel.to_owned(), matches: 0, size, digest },
        );
    }
    if hits.len() > 1 {
        let lines = byte_match_lines(bytes, hits.as_slice());
        return Err(
            ToolError::WorkspaceEditAmbiguous {
                path: rel.to_owned(),
                matches: hits.len(),
                lines,
                size,
                digest,
            },
        );
    }
    let start = hits[0];
    assert(spec_hits[0] == start as int) by {
        assert(hits@.map_values(|h: usize| h as int)[0] == hits@[0] as int);
    }
    proof {
        crate::anchor::lemma_matches_in_bounds(bytes@, old@, 0);
        assert(crate::anchor::bytes_occur_at(bytes@, spec_hits[0], old@));
    }
    assert(start + old.len() <= bytes.len());
    let end = start + old.len();
    let resulting = splice_bytes(bytes, start, end, new);
    let before = count_markers(bytes);
    match refuse_marker_growth(rel, before, resulting.as_slice(), GuardedTool::Edit) {
        Ok(()) => {},
        Err(e) => {
            return Err(e);
        },
    }
    Ok(ReplacePlan { start: start as u64, end: end as u64, expected_len: size })
}


/// A file as the workspace read it: its full size and its bytes.
#[derive(Debug, PartialEq)]
pub struct FileRead {
    pub size: u64,
    pub bytes: Vec<u8>,
}

/// `e` is the over-bound refusal for `path` with the given limit and size.
pub open spec fn is_too_large_refusal(e: ToolError, path: Seq<char>, found: usize) -> bool {
    e matches ToolError::WorkspaceEditTooLarge { path: p, limit, found: f } && p@ == path && limit
        == WORKSPACE_EDIT_MAX_BYTES && f == found
}

/// The `replace` half's checks before the workspace is touched: an empty
/// anchor is rejected (it matches everywhere), an anchor or replacement over
/// the bound refuses whole, and with no workspace attached there is no edit.
pub fn check_replace_arguments(rel: &str, old_text: &str, new_text: &str, workspace_attached: bool) -> (r:
    Result<(), ToolError>)
    ensures
        old_text@.len() == 0 ==> (r matches Err(ToolError::WorkspaceEditEmptyAnchor { path })
            && path@ == rel@),
        old_text@.len() != 0 && old_text.len() > WORKSPACE_EDIT_MAX_BYTES ==> (r matches Err(e)
            && is_too_large_refusal(e, rel@, old_text.len())),
        old_text@.len() != 0 && old_text.len() <= WORKSPACE_EDIT_MAX_BYTES
            && new_text.len() > WORKSPACE_EDIT_MAX_BYTES ==> (r matches Err(e)
            && is_too_large_refusal(e, rel@, new_text.len())),
        old_text@.len() != 0 && old_text.len() <= WORKSPACE_EDIT_MAX_BYTES
            && new_text.len() <= WORKSPACE_EDIT_MAX_BYTES ==> (r is Ok
            <==> workspace_attached),
        r is Err && old_text@.len() != 0 && old_text.len() <= WORKSPACE_EDIT_MAX_BYTES
            && new_text.len() <= WORKSPACE_EDIT_MAX_BYTES ==> r matches Err(
            ToolError::WorkspaceUnavailable,
        ),
{
    if old_text.is_empty() {
        return Err(ToolError::WorkspaceEditEmptyAnchor { path: rel.to_owned() });
    }
    if old_text.len() > WORKSPACE_EDIT_MAX_BYTES {
        return Err(
            ToolError::WorkspaceEditTooLarge {
                path: rel.to_owned(),
                limit: WORKSPACE_EDIT_MAX_BYTES,
                found: old_text.len(),
            },
        );
    }
    if new_text.len() > WORKSPACE_EDIT_MAX_BYTES {
        return Err(
            ToolError::WorkspaceEditTooLarge {
                path: rel.to_owned(),
                limit: WORKSPACE_EDIT_MAX_BYTES,
                found: new_text.len(),
            },
        );
    }
    if !workspace_attached {
        return Err(ToolError::WorkspaceUnavailable);
    }
    Ok(())
}

/// The `append` half's checks before the workspace is touched: a chunk over
/// the bound refuses whole, and with no workspace attached there is no edit.
pub fn check_append_arguments(rel: &str, chunk: &str, workspace_attached: bool) -> (r: Result<
    (),
    ToolError,
>)
    ensures
        chunk.len() > WORKSPACE_EDIT_MAX_BYTES ==> (r matches Err(e)
            && is_too_large_refusal(e, rel@, chunk.len())),
        chunk.len() <= WORKSPACE_EDIT_MAX_BYTES ==> (r is Ok <==> workspace_attached),
        chunk.len() <= WORKSPACE_EDIT_MAX_BYTES && r is Err ==> r matches Err(
            ToolError::WorkspaceUnavailable,
        ),
{
    if chunk.len() > WORKSPACE_EDIT_MAX_BYTES {
        return Err(
            ToolError::WorkspaceEditTooLarge {
                path: rel.to_owned(),
                limit: WORKSPACE_EDIT_MAX_BYTES,
                found: chunk.len(),
            },
        );
    }
    if !workspace_attached {
        return Err(ToolError::WorkspaceUnavailable);
    }
    Ok(())
}

/// The target-size bound: a target over `max_file_bytes` (the host
/// workspace's file cap for patches) is refused as a workspace-edit error
/// carrying `bounds_refusal`, the host's own rendering of its bounds error
/// for this path, size and cap.
pub fn check_edit_target_size(target_size: u64, max_file_bytes: u64, bounds_refusal: String) -> (r:
    Result<(), ToolError>)
    ensures
        r == if target_size <= max_file_bytes {
            Ok::<(), ToolError>(())
        } else {
            Err(ToolError::WorkspaceEdit(bounds_refusal))
        },
{
    if target_size > max_file_bytes {
        return Err(ToolError::WorkspaceEdit(bounds_refusal));
    }
    Ok(())
}

/// The append decision on an absent path: only offset 0 creates, a stated
/// `expected_size` other than 0 means the file moved, and the first chunk
/// may not introduce `[redacted]` markers.
pub open spec fn append_absent_verdict(
    offset: u64,
    chunk: Seq<u8>,
    expected_size: Option<u64>,
) -> EditVerdict {
    if expected_size matches Some(w) && w != 0 {
        EditVerdict::SizeMoved
    } else if offset != 0 {
        EditVerdict::OffsetMismatch
    } else if spec_count_markers(chunk) > 0 {
        EditVerdict::MarkerGrowth
    } else {
        EditVerdict::Commit { start: 0, end: 0 }
    }
}

/// `e` is the offset-mismatch refusal for `path`.
pub open spec fn is_offset_refusal(
    e: ToolError,
    path: Seq<char>,
    expected_offset: u64,
    current_size: u64,
    current_digest: Seq<char>,
) -> bool {
    e matches ToolError::WorkspaceAppendOffset {
        path: p,
        expected_offset: o,
        current_size: c,
        current_digest: d,
    } && p@ == path && o == expected_offset && c == current_size && d@ == current_digest
}

/// The `append` half's decision when the path names no file: `Ok` means
/// create the file holding `chunk`.
pub fn plan_append_absent(
    rel: &str,
    offset: u64,
    chunk: &str,
    expected_size: Option<u64>,
    expected_digest: &Option<String>,
) -> (r: Result<(), ToolError>)
    ensures
        match append_absent_verdict(offset, chunk.spec_bytes(), expected_size) {
            EditVerdict::SizeMoved => r matches Err(e) && is_moved_refusal(
                e,
                rel@,
                expected_size,
                0,
                opt_view(*expected_digest),
                spec_hex_digest(Seq::empty()),
            ),
            EditVerdict::OffsetMismatch => r matches Err(e) && is_offset_refusal(
                e,
                rel@,
                offset,
                0,
                spec_hex_digest(Seq::empty()),
            ),
            EditVerdict::MarkerGrowth => r matches Err(ToolError::WorkspaceEdit(msg)) && msg@
                == marker_refusal(rel@, spec_count_markers(chunk.spec_bytes()), 0),
            EditVerdict::Commit { .. } => r is Ok,
            _ => false,
        },
{
    let empty: [u8; 0] = [];
    if let Some(want) = expected_size {
        if want != 0 {
            let d = hex_digest(empty.as_slice());
            assert(empty@ =~= Seq::<u8>::empty());
            return Err(
                ToolError::WorkspaceEditMoved {
                    path: rel.to_owned(),
                    expected_size: Some(want),
                    current_size: 0,
                    expected_digest: clone_opt_string(expected_digest),
                    current_digest: d,
                },
            );
        }
    }
    if offset != 0 {
        let d = hex_digest(empty.as_slice());
        assert(empty@ =~= Seq::<u8>::empty());
        return Err(
            ToolError::WorkspaceAppendOffset {
                path: rel.to_owned(),
                expected_offset: offset,
                current_size: 0,
                current_digest: d,
            },
        );
    }
    refuse_marker_growth(rel, 0, chunk.as_bytes(), GuardedTool::Edit)
}

/// The append decision over an existing target's bytes and size.
pub open spec fn append_verdict(
    bytes: Seq<u8>,
    size: u64,
    offset: u64,
    chunk: Seq<u8>,
    expected_size: Option<u64>,
    expected_digest: Option<Seq<char>>,
) -> EditVerdict {
    let digest = spec_hex_digest(bytes);
    if !valid_utf8(bytes) {
        EditVerdict::NotText
    } else if expected_size matches Some(w) && w != size {
        EditVerdict::SizeMoved
    } else if expected_digest matches Some(w) && w != digest {
        EditVerdict::DigestMoved
    } else if offset != size {
        EditVerdict::OffsetMismatch
    } else if spec_count_markers(bytes + chunk) > spec_count_markers(bytes) {
        EditVerdict::MarkerGrowth
    } else {
        EditVerdict::Commit { start: size as int, end: size as int }
    }
}

/// A stated expectation that the file no longer meets is refused as moved
/// and never committed, for a replace and for an append alike: an
/// `expected_digest` other than the lowercase hex SHA-256 of the current
/// bytes, or an `expected_size` other than the current size. Only text that
/// is not UTF-8 is refused first, as not text.
pub proof fn lemma_stale_expectations_are_refused(
    bytes: Seq<u8>,
    size: u64,
    offset: u64,
    chunk: Seq<u8>,
    old: Seq<u8>,
    new: Seq<u8>,
    expected_size: Option<u64>,
    expected_digest: Option<Seq<char>>,
)
    requires
        (expected_digest matches Some(w) && w != spec_hex_digest(bytes)) || (
        expected_size matches Some(n) && n != size),
    ensures
        ({
            let a = append_verdict(bytes, size, offset, chunk, expected_size, expected_digest);
            let r = replace_verdict(bytes, size, old, new, expected_size, expected_digest);
            &&& valid_utf8(bytes) ==> (a is SizeMoved || a is DigestMoved) && (r is SizeMoved
                || r is DigestMoved)
            &&& !valid_utf8(bytes) ==> a is NotText && r is NotText
            &&& valid_utf8(bytes) && !(expected_size matches Some(n) && n != size) ==> a is DigestMoved
                && r is DigestMoved
        }),
{
}

/// An append commits only at the end of a text file whose stated size and
/// digest still hold, and only when it adds no `[redacted]` marker; the
/// bytes it commits are the file followed by the chunk, at the empty range
/// at the end.
pub proof fn lemma_append_commits_only_at_the_end(
    bytes: Seq<u8>,
    size: u64,
    offset: u64,
    chunk: Seq<u8>,
    expected_size: Option<u64>,
    expected_digest: Option<Seq<char>>,
)
    ensures
        append_verdict(bytes, size, offset, chunk, expected_size, expected_digest) is Commit <==> {
            &&& valid_utf8(bytes)
            &&& !(expected_size matches Some(n) && n != size)
            &&& !(expected_digest matches Some(w) && w != spec_hex_digest(bytes))
            &&& offset == size
            &&& spec_count_markers(bytes + chunk) <= spec_count_markers(bytes)
        },
        append_verdict(bytes, size, offset, chunk, expected_size, expected_digest) matches EditVerdict::Commit { start, end }
            ==> start == size && end == size,
        append_verdict(bytes, size, offset, chunk, expected_size, expected_digest) is OffsetMismatch
            ==> offset != size,
{
}

/// The `append` half's decision over the existing target as read: `Ok`
/// means commit `chunk` at the empty range `size..size`.
pub fn plan_append(
    rel: &str,
    bytes: &[u8],
    size: u64,
    offset: u64,
    chunk: &str,
    expected_size: Option<u64>,
    expected_digest: &Option<String>,
) -> (r: Result<(), ToolError>)
    ensures
        match append_verdict(
            bytes@,
            size,
            offset,
            chunk.spec_bytes(),
            expected_size,
            opt_view(*expected_digest),
        ) {
            EditVerdict::NotText => r matches Err(ToolError::WorkspaceEditNotText { path })
                && path@ == rel@,
            EditVerdict::SizeMoved | EditVerdict::DigestMoved => r matches Err(e)
                && is_moved_refusal(
                e,
                rel@,
                expected_size,
                size,
                opt_view(*expected_digest),
                spec_hex_digest(bytes@),
            ),
            EditVerdict::OffsetMismatch => r matches Err(e) && is_offset_refusal(
                e,
                rel@,
                offset,
                size,
                spec_hex_digest(bytes@),
            ),
            EditVerdict::MarkerGrowth => r matches Err(ToolError::WorkspaceEdit(msg)) && msg@
                == marker_refusal(
                rel@,
                spec_count_markers(bytes@ + chunk.spec_bytes()),
                spec_count_markers(bytes@),
            ),
            EditVerdict::Commit { .. } => r is Ok,
            _ => false,
        },
{
    if !is_valid_utf8(bytes) {
        return Err(ToolError::WorkspaceEditNotText { path: rel.to_owned() });
    }
    let digest = hex_digest(bytes);
    if let Some(want) = expected_size {
        if want != size {
            return Err(
                ToolError::WorkspaceEditMoved {
                    path: rel.to_owned(),
                    expected_size: Some(want),
                    current_size: size,
                    expected_digest: clone_opt_string(expected_digest),
                    current_digest: digest,
                },
            );
        }
    }
    if digest_differs(expected_digest, &digest) {
        return Err(
            ToolError::WorkspaceEditMoved {
                path: rel.to_owned(),
                expected_size,
                current_size: size,
                expected_digest: clone_opt_string(expected_digest),
                current_digest: digest,
            },
        );
    }
    if offset != size {
        return Err(
            ToolError::WorkspaceAppendOffset {
                path: rel.to_owned(),
                expected_offset: offset,
                current_size: size,
                current_digest: digest,
            },
        );
    }
    let chunk_bytes = chunk.as_bytes();
    let resulting = splice_bytes(bytes, bytes.len(), bytes.len(), chunk_bytes);
    assert(resulting@ =~= bytes@ + chunk.spec_bytes());
    let before = count_markers(bytes);
    refuse_marker_growth(rel, before, resulting.as_slice(), GuardedTool::Edit)
}

/// The refusal for a commit the harness rejected because the file's length
/// moved since it was measured at `expected_len`: it names the size and
/// digest of a fresh re-read when one succeeds, else the harness's current
/// length and the empty digest, so the model resumes from there.
pub fn length_mismatch_refusal(
    rel: &str,
    expected_len: u64,
    reread: Option<&FileRead>,
    harness_current: u64,
) -> (e: ToolError)
    ensures
        match reread {
            Some(f) => is_offset_refusal(e, rel@, expected_len, f.size, spec_hex_digest(f.bytes@)),
            None => is_offset_refusal(
                e,
                rel@,
                expected_len,
                harness_current,
                spec_hex_digest(Seq::empty()),
            ),
        },
{
    let (size, digest) = match reread {
        Some(f) => (f.size, hex_digest(f.bytes.as_slice())),
        None => {
            let empty: [u8; 0] = [];
            assert(empty@ =~= Seq::<u8>::empty());
            (harness_current, hex_digest(empty.as_slice()))
        },
    };
    ToolError::WorkspaceAppendOffset {
        path: rel.to_owned(),
        expected_offset: expected_len,
        current_size: size,
        current_digest: digest,
    }
}

/// A JSON unsigned integer.
pub open spec fn uint_v(n: u64) -> JsonV {
    JsonV::Number(crate::json::NumberV::PosInt(n))
}

/// The result of a committed edit: the path, the file's new size and digest,
/// and for a replace the bytes it replaced and wrote.
pub fn edit_result(rel: &str, replaced: Option<(usize, usize)>, after: &FileRead) -> (r: Json)
    ensures
        r@ == match replaced {
            Some((old_len, new_len)) => JsonV::Object(
                seq![
                    ("path"@, JsonV::String(rel@)),
                    ("bytes_replaced"@, uint_v(old_len as u64)),
                    ("bytes_written"@, uint_v(new_len as u64)),
                    ("size"@, uint_v(after.size)),
                    ("digest"@, JsonV::String(spec_hex_digest(after.bytes@))),
                ],
            ),
            None => JsonV::Object(
                seq![
                    ("path"@, JsonV::String(rel@)),
                    ("size"@, uint_v(after.size)),
                    ("digest"@, JsonV::String(spec_hex_digest(after.bytes@))),
                ],
            ),
        },
{
    let mut m: Vec<(String, Json)> = Vec::new();
    proof {
        crate::json::lemma_object_view_literal(m@);
        assert(object_view(m@) =~= Seq::empty());
    }
    crate::json::push_member(&mut m, "path", Json::String(rel.to_owned()));
    match replaced {
        Some((old_len, new_len)) => {
            crate::json::push_member(&mut m, "bytes_replaced", crate::json::json_uint(old_len as u64));
            crate::json::push_member(&mut m, "bytes_written", crate::json::json_uint(new_len as u64));
        },
        None => {},
    }
    crate::json::push_member(&mut m, "size", crate::json::json_uint(after.size));
    crate::json::push_member(&mut m, "digest", Json::String(hex_digest(after.bytes.as_slice())));
    let r = Json::Object(m);
    assert(r@ == JsonV::Object(object_view(m@)));
    match replaced {
        Some((old_len, new_len)) => {
            assert(object_view(m@) =~= seq![
                ("path"@, JsonV::String(rel@)),
                ("bytes_replaced"@, uint_v(old_len as u64)),
                ("bytes_written"@, uint_v(new_len as u64)),
                ("size"@, uint_v(after.size)),
                ("digest"@, JsonV::String(spec_hex_digest(after.bytes@))),
            ]);
        },
        None => {
            assert(object_view(m@) =~= seq![
                ("path"@, JsonV::String(rel@)),
                ("size"@, uint_v(after.size)),
                ("digest"@, JsonV::String(spec_hex_digest(after.bytes@))),
            ]);
        },
    }
    r
}

} // verus!
