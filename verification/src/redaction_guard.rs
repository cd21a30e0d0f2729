//! The redaction-placeholder guard `workspace_write` and `workspace_edit`
//! share: a write is refused when the content it would land holds more
//! literal `[redacted]` markers than the file already holds on disk (0 for a
//! file that does not yet exist). This stops the model from copying a masked
//! tool result back over the real value it was standing in for.

use vstd::prelude::*;

use crate::anchor::{bytes_occur_at, first_occurrence, lemma_first_occurrence, matches_from};
use crate::text::{push_decimal, push_str, spec_decimal};
use crate::tool_error::ToolError;

verus! {

/// The literal marker written over secret-shaped material: `[redacted]`.
pub open spec fn marker() -> Seq<u8> {
    seq![91u8, 114u8, 101u8, 100u8, 97u8, 99u8, 116u8, 101u8, 100u8, 93u8]
}

/// The number of non-overlapping occurrences of the marker in `bytes`,
/// counted left to right.
pub open spec fn spec_count_markers(bytes: Seq<u8>) -> nat {
    matches_from(bytes, marker(), 0).len()
}

/// The write-shaped tool a marker refusal names.
#[derive(Clone, Copy)]
pub enum GuardedTool {
    /// `workspace_write`: refusals are `ToolError::WorkspaceWrite`.
    Write,
    /// `workspace_edit`: refusals are `ToolError::WorkspaceEdit`.
    Edit,
}

/// The refusal text for a write that would grow the marker count from
/// `before` to `after` in `path`.
pub open spec fn marker_refusal(path: Seq<char>, after: nat, before: nat) -> Seq<char> {
    "refused: the new content holds "@ + spec_decimal(after)
        + " occurrence(s) of the literal `[redacted]` marker, more than the "@ + spec_decimal(before)
        + " already on disk: "@ + path
        + ". This looks like a masked secret from a tool result being copied back verbatim, not a real edit — the real value on disk is unchanged. Edit around the masked span instead of retyping it."@
}

fn marker_byte(k: usize) -> (b: u8)
    requires
        k < 10,
    ensures
        b == marker()[k as int],
{
    if k == 0 {
        91
    } else if k == 1 {
        114
    } else if k == 2 {
        101
    } else if k == 3 {
        100
    } else if k == 4 {
        97
    } else if k == 5 {
        99
    } else if k == 6 {
        116
    } else if k == 7 {
        101
    } else if k == 8 {
        100
    } else {
        93
    }
}

/// Counts non-overlapping occurrences of the `[redacted]` marker in `bytes`.
pub fn count_markers(bytes: &[u8]) -> (count: usize)
    ensures
        count == spec_count_markers(bytes@),
{
    let ghost m = marker();
    let mut count: usize = 0;
    let mut cursor: usize = 0;
    while bytes.len() >= 10 && cursor <= bytes.len() - 10
        invariant
            m == marker(),
            cursor <= bytes.len(),
            count <= cursor,
            count + matches_from(bytes@, m, cursor as int).len() == matches_from(
                bytes@,
                m,
                0,
            ).len(),
        decreases bytes.len() - cursor,
    {
        let mut k: usize = 0;
        let mut same = true;
        while k < 10
            invariant
                cursor + 10 <= bytes.len(),
                m == marker(),
                k <= 10,
                same == forall|q: int| 0 <= q < k ==> bytes@[cursor + q] == m[q],
            decreases 10 - k,
        {
            if bytes[cursor + k] != marker_byte(k) {
                same = false;
            }
            k += 1;
        }
        if same {
            assert(bytes@.subrange(cursor as int, cursor + 10) =~= m);
            assert(first_occurrence(bytes@, m, cursor as int) == Some(cursor as int));
            count += 1;
            cursor += 10;
        } else {
            assert(bytes@.subrange(cursor as int, cursor + 10) != m) by {
                let q = choose|q: int| 0 <= q < 10 && bytes@[cursor + q] != m[q];
                assert(bytes@.subrange(cursor as int, cursor + 10)[q] != m[q]);
            }
            assert(first_occurrence(bytes@, m, cursor as int) == first_occurrence(
                bytes@,
                m,
                cursor + 1,
            ));
            cursor += 1;
        }
    }
    proof {
        lemma_first_occurrence(bytes@, m, cursor as int);
    }
    assert(first_occurrence(bytes@, m, cursor as int) is None);
    count
}

/// Refuses when `new_content` would hold more `[redacted]` markers than
/// `before`, the count already on disk. The refusal names the tool's own
/// operation (`WorkspaceWrite` or `WorkspaceEdit`).
pub fn refuse_marker_growth(path: &str, before: usize, new_content: &[u8], tool: GuardedTool) -> (r:
    Result<(), ToolError>)
    ensures
        r is Ok <==> spec_count_markers(new_content@) <= before,
        r matches Err(e) ==> match tool {
            GuardedTool::Write => e matches ToolError::WorkspaceWrite(msg) && msg@ == marker_refusal(
                path@,
                spec_count_markers(new_content@),
                before as nat,
            ),
            GuardedTool::Edit => e matches ToolError::WorkspaceEdit(msg) && msg@ == marker_refusal(
                path@,
                spec_count_markers(new_content@),
                before as nat,
            ),
        },
{
    let after = count_markers(new_content);
    if after > before {
        let mut msg = String::new();
        push_str(&mut msg, "refused: the new content holds ");
        push_decimal(&mut msg, after as u64);
        push_str(&mut msg, " occurrence(s) of the literal `[redacted]` marker, more than the ");
        push_decimal(&mut msg, before as u64);
        push_str(&mut msg, " already on disk: ");
        push_str(&mut msg, path);
        push_str(
            &mut msg,
            ". This looks like a masked secret from a tool result being copied back verbatim, not a real edit — the real value on disk is unchanged. Edit around the masked span instead of retyping it.",
        );
        assert(msg@ =~= marker_refusal(path@, after as nat, before as nat));
        return Err(
            match tool {
                GuardedTool::Write => ToolError::WorkspaceWrite(msg),
                GuardedTool::Edit => ToolError::WorkspaceEdit(msg),
            },
        );
    }
    Ok(())
}

/// The marker count already on disk: the count over the existing file's
/// bytes, or 0 for an absent file.
pub fn existing_marker_count(existing: Option<&[u8]>) -> (count: usize)
    ensures
        count == match existing {
            Some(b) => spec_count_markers(b@),
            None => 0,
        },
{
    match existing {
        Some(bytes) => count_markers(bytes),
        None => 0,
    }
}

/// The number of positions at or after `from` where the marker starts.
pub open spec fn marker_positions(t: Seq<u8>, from: int) -> nat
    decreases t.len() - from,
{
    if from < 0 || from >= t.len() {
        0
    } else {
        (if bytes_occur_at(t, from, marker()) {
            1nat
        } else {
            0nat
        }) + marker_positions(t, from + 1)
    }
}

/// The marker cannot overlap itself: its first byte, `[`, occurs nowhere
/// else in it.
proof fn lemma_marker_no_overlap(t: Seq<u8>, p: int, d: int)
    requires
        bytes_occur_at(t, p, marker()),
        1 <= d < 10,
    ensures
        !bytes_occur_at(t, p + d, marker()),
{
    let m = marker();
    assert(t.subrange(p, p + 10)[d] == m[d]);
    if bytes_occur_at(t, p + d, m) {
        assert(t.subrange(p + d, p + d + 10)[0] == m[0]);
        assert(m[d] != m[0]);
    }
}

/// With no marker starting in `[a, b)`, counting from `a` or from `b` is
/// the same.
proof fn lemma_marker_positions_skip(t: Seq<u8>, a: int, b: int)
    requires
        0 <= a <= b,
        forall|q: int| a <= q < b ==> !bytes_occur_at(t, q, marker()),
    ensures
        marker_positions(t, a) == marker_positions(t, b),
    decreases b - a,
{
    if a < b {
        lemma_marker_positions_skip(t, a + 1, b);
    }
}

/// The left-to-right non-overlapping scan from `from` finds every marker
/// start at or after `from`.
proof fn lemma_scan_finds_every_position(t: Seq<u8>, from: int)
    requires
        0 <= from,
    ensures
        matches_from(t, marker(), from).len() == marker_positions(t, from),
    decreases t.len() - from,
{
    let m = marker();
    lemma_first_occurrence(t, m, from);
    match first_occurrence(t, m, from) {
        Some(p) => {
            lemma_marker_positions_skip(t, from, p);
            assert forall|q: int| p + 1 <= q < p + 10 implies !bytes_occur_at(t, q, m) by {
                lemma_marker_no_overlap(t, p, q - p);
            }
            lemma_marker_positions_skip(t, p + 1, p + 10);
            lemma_scan_finds_every_position(t, p + 10);
            assert(matches_from(t, m, from) == seq![p] + matches_from(t, m, p + 10));
        },
        None => {
            if from < t.len() {
                lemma_marker_positions_skip(t, from, t.len() as int);
            }
        },
    }
}

/// Because the marker cannot overlap itself, the count is the number of
/// positions where a marker starts.
pub proof fn lemma_count_markers_counts_positions(x: Seq<u8>)
    ensures
        spec_count_markers(x) == marker_positions(x, 0),
{
    lemma_scan_finds_every_position(x, 0);
}

/// Counting in `a + b` from inside `b` is counting in `b`.
proof fn lemma_marker_positions_suffix(a: Seq<u8>, b: Seq<u8>, j: int)
    requires
        0 <= j <= b.len(),
    ensures
        marker_positions(a + b, a.len() + j) == marker_positions(b, j),
    decreases b.len() - j,
{
    if j < b.len() {
        lemma_marker_positions_suffix(a, b, j + 1);
        let i = a.len() + j;
        if i + 10 <= (a + b).len() {
            assert((a + b).subrange(i, i + 10) =~= b.subrange(j, j + 10));
        }
    }
}

/// Counting in `a + b` from `from` inside `a` finds at least the markers of
/// `a` from there and all those of `b`.
proof fn lemma_marker_positions_concat(a: Seq<u8>, b: Seq<u8>, from: int)
    requires
        0 <= from <= a.len(),
    ensures
        marker_positions(a + b, from) >= marker_positions(a, from) + marker_positions(b, 0),
    decreases a.len() - from,
{
    if from == a.len() {
        lemma_marker_positions_suffix(a, b, 0);
    } else {
        lemma_marker_positions_concat(a, b, from + 1);
        if bytes_occur_at(a, from, marker()) {
            assert((a + b).subrange(from, from + 10) =~= a.subrange(from, from + 10));
        }
    }
}

/// Joining two byte strings never loses a marker: the whole holds at least
/// the markers of its parts, and a marker split across the seam is counted
/// in the whole.
pub proof fn lemma_count_markers_superadditive(a: Seq<u8>, b: Seq<u8>)
    ensures
        spec_count_markers(a + b) >= spec_count_markers(a) + spec_count_markers(b),
{
    lemma_count_markers_counts_positions(a);
    lemma_count_markers_counts_positions(b);
    lemma_count_markers_counts_positions(a + b);
    lemma_marker_positions_concat(a, b, 0);
}

} // verus!
