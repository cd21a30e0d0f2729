//! The workspace tools' own jobs around the contained workspace: argument
//! typing, the write bound, the no-workspace denial, and the shapes of the
//! results. Path resolution, containment and the I/O itself are the
//! workspace's; these tools never touch a connection and record nothing.

use vstd::prelude::*;

use crate::json::{array_view, bool_of, get_str, json_get, object_view, push_member, Json, JsonV, NumberV};
use crate::tool_error::ToolError;
use crate::workspace_edit::WORKSPACE_WRITE_MAX_BYTES;

verus! {

/// The read bound: at most this many bytes of a file are served.
pub const WORKSPACE_READ_MAX_BYTES: u64 = 65536;

/// The listing bound: a directory with more entries is refused.
pub const WORKSPACE_LIST_MAX_ENTRIES: usize = 500;

/// The glob walk bound.
pub const WORKSPACE_GLOB_MAX_VISITED: usize = 2000;

/// The glob match bound.
pub const WORKSPACE_GLOB_MAX_MATCHES: usize = 500;

/// The grep walk bound.
pub const WORKSPACE_GREP_MAX_VISITED: usize = 2000;

/// The grep match bound.
pub const WORKSPACE_GREP_MAX_MATCHES: usize = 500;

/// The per-hit line bound of grep.
pub const WORKSPACE_GREP_MAX_LINE_BYTES: usize = 2000;

fn new_object() -> (m: Vec<(String, Json)>)
    ensures
        object_view(m@) == Seq::<(Seq<char>, JsonV)>::empty(),
{
    let m: Vec<(String, Json)> = Vec::new();
    proof {
        crate::json::lemma_object_view_literal(m@);
        assert(object_view(m@) =~= Seq::empty());
    }
    m
}

/// A JSON unsigned integer.
pub open spec fn uint(n: u64) -> JsonV {
    JsonV::Number(NumberV::PosInt(n))
}

/// The path a `workspace_read` names, once a workspace is attached.
pub fn read_target(arguments: &Json, workspace_attached: bool) -> (r: Result<String, ToolError>)
    ensures
        match get_str(arguments@, "path"@) {
            None => r == Err::<String, ToolError>(ToolError::PathNotString),
            Some(p) => if workspace_attached {
                r matches Ok(s) && s@ == p
            } else {
                r == Err::<String, ToolError>(ToolError::WorkspaceUnavailable)
            },
        },
{
    let rel = match arguments.get_str("path") {
        Some(p) => p,
        None => {
            return Err(ToolError::PathNotString);
        },
    };
    if !workspace_attached {
        return Err(ToolError::WorkspaceUnavailable);
    }
    Ok(rel.to_owned())
}

/// A file as the workspace served it for a read.
#[derive(Debug, PartialEq)]
pub struct ServedFile {
    pub size: u64,
    pub truncated: bool,
    pub digest: String,
    /// The served bytes, decoded as text (lossily for stray non-UTF-8).
    pub content: String,
}

/// What `String::from_utf8_lossy` makes of `bytes`: the text they encode,
/// with each invalid sequence shown as U+FFFD.
pub uninterp spec fn lossy_decoding(bytes: Seq<u8>) -> Seq<char>;

/// std's `String::from_utf8_lossy`, owned. Its result is a function of the
/// bytes alone, and for valid UTF-8 it is exactly the text they encode, as
/// std's documentation says; how invalid sequences are replaced is left to
/// the name.
#[verifier::external_body]
fn lossy_text(bytes: &[u8]) -> (r: String)
    ensures
        r@ == lossy_decoding(bytes@),
        vstd::utf8::valid_utf8(bytes@) ==> r@ == vstd::utf8::decode_utf8(bytes@),
{
    String::from_utf8_lossy(bytes).into_owned()
}

/// The file a `workspace_read` serves: its full size, whether the bytes were
/// capped, the whole file's digest, and the served bytes as text.
pub fn served_file(size: u64, truncated: bool, digest: String, bytes: &[u8]) -> (r: ServedFile)
    ensures
        r.size == size,
        r.truncated == truncated,
        r.digest == digest,
        r.content@ == lossy_decoding(bytes@),
        vstd::utf8::valid_utf8(bytes@) ==> r.content@ == vstd::utf8::decode_utf8(bytes@),
{
    ServedFile { size, truncated, digest, content: lossy_text(bytes) }
}

/// The `workspace_read` result: the path, the file's full size, whether
/// the content was capped, the digest of the whole file, and the content.
pub fn read_result(rel: &str, file: ServedFile) -> (r: Json)
    ensures
        r@ == JsonV::Object(
            seq![
                ("path"@, JsonV::String(rel@)),
                ("size"@, uint(file.size)),
                ("truncated"@, JsonV::Bool(file.truncated)),
                ("digest"@, JsonV::String(file.digest@)),
                ("content"@, JsonV::String(file.content@)),
            ],
        ),
{
    let ghost fv = file;
    let mut m = new_object();
    push_member(&mut m, "path", Json::String(rel.to_owned()));
    push_member(&mut m, "size", crate::json::json_uint(file.size));
    push_member(&mut m, "truncated", Json::Bool(file.truncated));
    push_member(&mut m, "digest", Json::String(file.digest));
    push_member(&mut m, "content", Json::String(file.content));
    assert(object_view(m@) =~= seq![
        ("path"@, JsonV::String(rel@)),
        ("size"@, uint(fv.size)),
        ("truncated"@, JsonV::Bool(fv.truncated)),
        ("digest"@, JsonV::String(fv.digest@)),
        ("content"@, JsonV::String(fv.content@)),
    ]);
    Json::Object(m)
}

/// What kind of entry a directory listing holds.
#[derive(PartialEq, Eq, Structural, Clone, Copy, Debug)]
pub enum EntryKind {
    File,
    Dir,
    Symlink,
    Other,
}

/// The label of an entry kind.
pub open spec fn spec_kind_label(kind: EntryKind) -> Seq<char> {
    match kind {
        EntryKind::File => "file"@,
        EntryKind::Dir => "dir"@,
        EntryKind::Symlink => "symlink"@,
        EntryKind::Other => "other"@,
    }
}

/// The machine-readable label of an entry kind.
pub fn kind_label(kind: EntryKind) -> (r: &'static str)
    ensures
        r@ == spec_kind_label(kind),
{
    match kind {
        EntryKind::File => "file",
        EntryKind::Dir => "dir",
        EntryKind::Symlink => "symlink",
        EntryKind::Other => "other",
    }
}

/// The directory a `workspace_list` names: the root when `path` is absent
/// (a present non-string was refused at validation and reads as the root
/// here too), once a workspace is attached.
pub fn list_target(arguments: &Json, workspace_attached: bool) -> (r: Result<String, ToolError>)
    ensures
        if workspace_attached {
            r matches Ok(s) && s@ == match get_str(arguments@, "path"@) {
                Some(p) => p,
                None => Seq::<char>::empty(),
            }
        } else {
            r == Err::<String, ToolError>(ToolError::WorkspaceUnavailable)
        },
{
    let rel = match arguments.get_str("path") {
        Some(p) => p.to_owned(),
        None => String::new(),
    };
    if !workspace_attached {
        return Err(ToolError::WorkspaceUnavailable);
    }
    Ok(rel)
}

/// One listed entry.
#[derive(Debug, PartialEq)]
pub struct ListEntry {
    pub name: String,
    pub kind: EntryKind,
    pub size: u64,
}

/// The JSON of one listed entry.
pub open spec fn entry_json(e: ListEntry) -> JsonV {
    JsonV::Object(
        seq![
            ("name"@, JsonV::String(e.name@)),
            ("kind"@, JsonV::String(spec_kind_label(e.kind))),
            ("size"@, uint(e.size)),
        ],
    )
}

/// The `workspace_list` result: the path and its entries, each with its
/// name, kind label and size.
pub fn list_result(rel: &str, entries: Vec<ListEntry>) -> (r: Json)
    ensures
        r@ == JsonV::Object(
            seq![
                ("path"@, JsonV::String(rel@)),
                ("entries"@, JsonV::Array(entries@.map_values(|e: ListEntry| entry_json(e)))),
            ],
        ),
{
    let ghost ev = entries@;
    let mut listed: Vec<Json> = Vec::new();
    let mut rest = entries;
    let n = rest.len();
    let mut i: usize = 0;
    while rest.len() > 0
        invariant
            n == ev.len(),
            rest@ == ev.subrange(i as int, n as int),
            i + rest@.len() == n,
            array_view(listed@) =~= ev.take(i as int).map_values(|e: ListEntry| entry_json(e)),
        decreases rest.len(),
    {
        let e = rest.remove(0);
        assert(e == ev[i as int]);
        let mut m = new_object();
        let ghost en = e.name@;
        push_member(&mut m, "name", Json::String(e.name));
        push_member(&mut m, "kind", Json::String(kind_label(e.kind).to_owned()));
        push_member(&mut m, "size", crate::json::json_uint(e.size));
        assert(object_view(m@) =~= seq![
            ("name"@, JsonV::String(en)),
            ("kind"@, JsonV::String(spec_kind_label(e.kind))),
            ("size"@, uint(e.size)),
        ]);
        let item = Json::Object(m);
        proof {
            crate::json::lemma_array_view_push(listed@, item);
            assert(ev.take(i as int + 1) =~= ev.take(i as int).push(ev[i as int]));
        }
        listed.push(item);
        i += 1;
        assert(rest@ =~= ev.subrange(i as int, n as int));
    }
    assert(ev.take(n as int) =~= ev);
    let mut m = new_object();
    let ghost lv = array_view(listed@);
    push_member(&mut m, "path", Json::String(rel.to_owned()));
    push_member(&mut m, "entries", Json::Array(listed));
    assert(object_view(m@) =~= seq![("path"@, JsonV::String(rel@)), ("entries"@, JsonV::Array(lv))]);
    Json::Object(m)
}

/// The pattern a `workspace_glob` names, once a workspace is attached.
pub fn glob_target(arguments: &Json, workspace_attached: bool) -> (r: Result<String, ToolError>)
    ensures
        match get_str(arguments@, "pattern"@) {
            None => r == Err::<String, ToolError>(ToolError::PatternNotString),
            Some(p) => if workspace_attached {
                r matches Ok(s) && s@ == p
            } else {
                r == Err::<String, ToolError>(ToolError::WorkspaceUnavailable)
            },
        },
{
    let pattern = match arguments.get_str("pattern") {
        Some(p) => p,
        None => {
            return Err(ToolError::PatternNotString);
        },
    };
    if !workspace_attached {
        return Err(ToolError::WorkspaceUnavailable);
    }
    Ok(pattern.to_owned())
}

/// The `workspace_glob` result: the matched paths, in the order given.
pub fn glob_result(paths: Vec<String>) -> (r: Json)
    ensures
        r@ == JsonV::Object(
            seq![("matches"@, JsonV::Array(paths@.map_values(|p: String| JsonV::String(p@))))],
        ),
{
    let ghost pv = paths@;
    let mut items: Vec<Json> = Vec::new();
    let mut rest = paths;
    let n = rest.len();
    let mut i: usize = 0;
    while rest.len() > 0
        invariant
            n == pv.len(),
            rest@ == pv.subrange(i as int, n as int),
            i + rest@.len() == n,
            array_view(items@) =~= pv.take(i as int).map_values(|p: String| JsonV::String(p@)),
        decreases rest.len(),
    {
        let p = rest.remove(0);
        assert(p == pv[i as int]);
        let item = Json::String(p);
        proof {
            crate::json::lemma_array_view_push(items@, item);
            assert(pv.take(i as int + 1) =~= pv.take(i as int).push(pv[i as int]));
        }
        items.push(item);
        i += 1;
        assert(rest@ =~= pv.subrange(i as int, n as int));
    }
    assert(pv.take(n as int) =~= pv);
    let mut m = new_object();
    let ghost iv = array_view(items@);
    push_member(&mut m, "matches", Json::Array(items));
    assert(object_view(m@) =~= seq![("matches"@, JsonV::Array(iv))]);
    Json::Object(m)
}

/// The needle and case flag a `workspace_grep` names, once a workspace is
/// attached; `case_insensitive` defaults to false.
pub fn grep_target(arguments: &Json, workspace_attached: bool) -> (r: Result<(String, bool), ToolError>)
    ensures
        match get_str(arguments@, "pattern"@) {
            None => r == Err::<(String, bool), ToolError>(ToolError::PatternNotString),
            Some(p) => match json_get(arguments@, "case_insensitive"@) {
                Some(v) if bool_of(v) is None => r == Err::<(String, bool), ToolError>(
                    ToolError::CaseInsensitiveNotBool,
                ),
                flag => if workspace_attached {
                    r matches Ok((s, ci)) && s@ == p && ci == match flag {
                        Some(v) => bool_of(v).unwrap(),
                        None => false,
                    }
                } else {
                    r == Err::<(String, bool), ToolError>(ToolError::WorkspaceUnavailable)
                },
            },
        },
{
    let needle = match arguments.get_str("pattern") {
        Some(p) => p,
        None => {
            return Err(ToolError::PatternNotString);
        },
    };
    let case_insensitive = match arguments.get("case_insensitive") {
        Some(v) => match v.as_bool() {
            Some(b) => b,
            None => {
                return Err(ToolError::CaseInsensitiveNotBool);
            },
        },
        None => false,
    };
    if !workspace_attached {
        return Err(ToolError::WorkspaceUnavailable);
    }
    Ok((needle.to_owned(), case_insensitive))
}

/// One grep hit: the file, the 1-based line, the (capped) line text and
/// whether it was capped.
#[derive(Debug, PartialEq)]
pub struct GrepHit {
    pub path: String,
    pub line: u64,
    pub text: String,
    pub truncated: bool,
}

/// The JSON of one grep hit.
pub open spec fn hit_json(h: GrepHit) -> JsonV {
    JsonV::Object(
        seq![
            ("path"@, JsonV::String(h.path@)),
            ("line"@, uint(h.line)),
            ("text"@, JsonV::String(h.text@)),
            ("truncated"@, JsonV::Bool(h.truncated)),
        ],
    )
}

/// The `workspace_grep` result: the hits, and both coverage counts — how
/// many files were searched and how many were never read — so a capped
/// search never reads as evidence of absence.
pub fn grep_result(hits: Vec<GrepHit>, files_scanned: u64, files_skipped: u64) -> (r: Json)
    ensures
        r@ == JsonV::Object(
            seq![
                ("matches"@, JsonV::Array(hits@.map_values(|h: GrepHit| hit_json(h)))),
                ("files_scanned"@, uint(files_scanned)),
                ("files_skipped"@, uint(files_skipped)),
            ],
        ),
{
    let ghost hv = hits@;
    let mut items: Vec<Json> = Vec::new();
    let mut rest = hits;
    let n = rest.len();
    let mut i: usize = 0;
    while rest.len() > 0
        invariant
            n == hv.len(),
            rest@ == hv.subrange(i as int, n as int),
            i + rest@.len() == n,
            array_view(items@) =~= hv.take(i as int).map_values(|h: GrepHit| hit_json(h)),
        decreases rest.len(),
    {
        let h = rest.remove(0);
        assert(h == hv[i as int]);
        let ghost hp = h.path@;
        let ghost ht = h.text@;
        let mut m = new_object();
        push_member(&mut m, "path", Json::String(h.path));
        push_member(&mut m, "line", crate::json::json_uint(h.line));
        push_member(&mut m, "text", Json::String(h.text));
        push_member(&mut m, "truncated", Json::Bool(h.truncated));
        assert(object_view(m@) =~= seq![
            ("path"@, JsonV::String(hp)),
            ("line"@, uint(h.line)),
            ("text"@, JsonV::String(ht)),
            ("truncated"@, JsonV::Bool(h.truncated)),
        ]);
        let item = Json::Object(m);
        proof {
            crate::json::lemma_array_view_push(items@, item);
            assert(hv.take(i as int + 1) =~= hv.take(i as int).push(hv[i as int]));
        }
        items.push(item);
        i += 1;
        assert(rest@ =~= hv.subrange(i as int, n as int));
    }
    assert(hv.take(n as int) =~= hv);
    let mut m = new_object();
    let ghost iv = array_view(items@);
    push_member(&mut m, "matches", Json::Array(items));
    push_member(&mut m, "files_scanned", crate::json::json_uint(files_scanned));
    push_member(&mut m, "files_skipped", crate::json::json_uint(files_skipped));
    assert(object_view(m@) =~= seq![
        ("matches"@, JsonV::Array(iv)),
        ("files_scanned"@, uint(files_scanned)),
        ("files_skipped"@, uint(files_skipped)),
    ]);
    Json::Object(m)
}

/// The path and content a `workspace_write` names, checked in order: a
/// string path, a string content, an attached workspace, and content within
/// the write bound — refused whole, never truncated.
pub fn write_target(arguments: &Json, workspace_attached: bool) -> (r: Result<(String, String), ToolError>)
    ensures
        match (get_str(arguments@, "path"@), get_str(arguments@, "content"@)) {
            (None, _) => r == Err::<(String, String), ToolError>(ToolError::PathNotString),
            (Some(_), None) => r == Err::<(String, String), ToolError>(ToolError::ContentNotString),
            (Some(p), Some(c)) => if !workspace_attached {
                r == Err::<(String, String), ToolError>(ToolError::WorkspaceUnavailable)
            } else if vstd::utf8::encode_utf8(c).len() as usize > WORKSPACE_WRITE_MAX_BYTES {
                r == Err::<(String, String), ToolError>(
                    ToolError::WorkspaceWriteTooLarge { limit: WORKSPACE_WRITE_MAX_BYTES },
                )
            } else {
                r matches Ok((rp, rc)) && rp@ == p && rc@ == c
            },
        },
{
    let rel = match arguments.get_str("path") {
        Some(p) => p,
        None => {
            return Err(ToolError::PathNotString);
        },
    };
    let content = match arguments.get_str("content") {
        Some(c) => c,
        None => {
            return Err(ToolError::ContentNotString);
        },
    };
    if !workspace_attached {
        return Err(ToolError::WorkspaceUnavailable);
    }
    if content.len() > WORKSPACE_WRITE_MAX_BYTES {
        return Err(ToolError::WorkspaceWriteTooLarge { limit: WORKSPACE_WRITE_MAX_BYTES });
    }
    Ok((rel.to_owned(), content.to_owned()))
}

/// The `workspace_write` result: the path and the bytes written.
pub fn write_result(rel: &str, bytes_written: usize) -> (r: Json)
    ensures
        r@ == JsonV::Object(
            seq![("path"@, JsonV::String(rel@)), ("bytes_written"@, uint(bytes_written as u64))],
        ),
{
    let mut m = new_object();
    push_member(&mut m, "path", Json::String(rel.to_owned()));
    push_member(&mut m, "bytes_written", crate::json::json_uint(bytes_written as u64));
    assert(object_view(m@) =~= seq![
        ("path"@, JsonV::String(rel@)),
        ("bytes_written"@, uint(bytes_written as u64)),
    ]);
    Json::Object(m)
}

} // verus!
