//! Anchor matching for the `workspace_edit` replace variant: byte-exact
//! match counting, bounded line-number reporting, and the sha256 digest the
//! refusal and the result carry. Pure helpers — no filesystem contact.

use vstd::prelude::*;
use vstd::string::StringSliceAdditionalSpecFns;
use vstd::utf8::encode_utf8;

use sha2::{Digest, Sha256};

verus! {

/// Excerpt budget for an ambiguous-anchor refusal: the error carries bounded
/// line numbers only, never excerpts — this cap bounds how many line numbers
/// are reported.
pub const WORKSPACE_EDIT_MAX_REPORTED_LINES: usize = 16;

/// `n` occurs in `t` at byte offset `p`.
pub open spec fn bytes_occur_at(t: Seq<u8>, p: int, n: Seq<u8>) -> bool {
    0 <= p && p + n.len() <= t.len() && t.subrange(p, p + n.len() as int) == n
}

/// The leftmost occurrence of `n` in `t` at or after `from`.
pub open spec fn first_occurrence(t: Seq<u8>, n: Seq<u8>, from: int) -> Option<int>
    decreases t.len() + 1 - from,
{
    if from < 0 || from + n.len() > t.len() {
        None
    } else if bytes_occur_at(t, from, n) {
        Some(from)
    } else {
        first_occurrence(t, n, from + 1)
    }
}

pub proof fn lemma_first_occurrence(t: Seq<u8>, n: Seq<u8>, from: int)
    ensures
        first_occurrence(t, n, from) matches Some(p) ==> from <= p && bytes_occur_at(t, p, n)
            && forall|q: int| from <= q < p ==> !bytes_occur_at(t, q, n),
        first_occurrence(t, n, from) is None ==> forall|q: int|
            from <= q && 0 <= from ==> !bytes_occur_at(t, q, n),
    decreases t.len() + 1 - from,
{
    if !(from < 0 || from + n.len() > t.len()) && !bytes_occur_at(t, from, n) {
        lemma_first_occurrence(t, n, from + 1);
    }
}

/// The offsets of the successive non-overlapping occurrences of a non-empty
/// `n` in `t`, scanning left to right from `from`.
pub open spec fn matches_from(t: Seq<u8>, n: Seq<u8>, from: int) -> Seq<int>
    decreases t.len() - from,
{
    if n.len() == 0 {
        Seq::empty()
    } else {
        match first_occurrence(t, n, from) {
            Some(p) => {
                proof {
                    lemma_first_occurrence(t, n, from);
                }
                seq![p] + matches_from(t, n, p + n.len())
            },
            None => Seq::empty(),
        }
    }
}

/// The byte offsets of every non-overlapping occurrence of `needle` in `text`.
pub open spec fn spec_find_matches(text: Seq<u8>, needle: Seq<u8>) -> Seq<int> {
    matches_from(text, needle, 0)
}

/// The number of line breaks in `t`.
pub open spec fn count_newlines(t: Seq<u8>) -> nat
    decreases t.len(),
{
    if t.len() == 0 {
        0
    } else {
        count_newlines(t.drop_last()) + if t.last() == 10u8 {
            1nat
        } else {
            0nat
        }
    }
}

/// The 1-based line on which byte offset `h` of `t` lies.
pub open spec fn line_of(t: Seq<u8>, h: int) -> int {
    1 + count_newlines(t.take(if h < t.len() {
        h
    } else {
        t.len() as int
    })) as int
}

/// The name for the SHA-256 digest of `data` as computed by the `sha2` crate.
pub uninterp spec fn sha256_digest(data: Seq<u8>) -> Seq<u8>;

/// The lowercase hexadecimal digit for a value below sixteen.
pub open spec fn hex_digit(v: u8) -> char {
    if v < 10 {
        (v + 48) as char
    } else {
        (v + 87) as char
    }
}

/// Two lowercase hexadecimal digits per byte.
pub open spec fn hex_lower(bytes: Seq<u8>) -> Seq<char>
    decreases bytes.len(),
{
    if bytes.len() == 0 {
        Seq::empty()
    } else {
        hex_lower(bytes.drop_last()).push(hex_digit(bytes.last() / 16)).push(
            hex_digit(bytes.last() % 16),
        )
    }
}

/// Lowercase hex sha256 of `bytes`.
pub open spec fn spec_hex_digest(bytes: Seq<u8>) -> Seq<char> {
    hex_lower(sha256_digest(bytes))
}

pub proof fn lemma_encode_nonempty(s: Seq<char>)
    requires
        s.len() > 0,
    ensures
        encode_utf8(s).len() > 0,
{
}

/// Byte offsets of every non-overlapping occurrence of `needle` in `text`.
/// Both are `&str`, so every match boundary is a char boundary and the
/// offsets are valid byte-range ends for the splice. Byte-exact: no
/// normalization, no fuzzy fallback, ever.
pub fn find_matches(text: &str, needle: &str) -> (hits: Vec<usize>)
    requires
        needle@.len() > 0,
    ensures
        hits@.map_values(|h: usize| h as int) == spec_find_matches(text.spec_bytes(), needle.spec_bytes()),
{
    proof {
        lemma_encode_nonempty(needle@);
    }
    find_byte_matches(text.as_bytes(), needle.as_bytes())
}

/// Byte offsets of every non-overlapping occurrence of a non-empty `n` in `t`.
pub fn find_byte_matches(t: &[u8], n: &[u8]) -> (hits: Vec<usize>)
    requires
        n@.len() > 0,
    ensures
        hits@.map_values(|h: usize| h as int) == spec_find_matches(t@, n@),
{
    let mut hits: Vec<usize> = Vec::new();
    if n.len() > t.len() {
        proof {
            lemma_first_occurrence(t@, n@, 0);
        }
        assert(spec_find_matches(t@, n@) == Seq::<int>::empty());
        assert(hits@.map_values(|h: usize| h as int) =~= Seq::<int>::empty());
        return hits;
    }
    let mut from: usize = 0;
    let mut p: usize = 0;
    while p <= t.len() - n.len()
        invariant
            n@.len() > 0,
            n@.len() <= t@.len(),
            from <= p,
            p + n@.len() <= t@.len() + n@.len(),
            first_occurrence(t@, n@, from as int) == first_occurrence(t@, n@, p as int),
            hits@.map_values(|h: usize| h as int) + matches_from(t@, n@, from as int)
                == spec_find_matches(t@, n@),
        decreases t.len() + 1 - p,
    {
        let mut k: usize = 0;
        let mut same = true;
        while k < n.len()
            invariant
                p + n.len() <= t.len(),
                k <= n.len(),
                same == forall|q: int| 0 <= q < k ==> t@[p + q] == n@[q],
            decreases n.len() - k,
        {
            if t[p + k] != n[k] {
                same = false;
            }
            k += 1;
        }
        if same {
            assert(t@.subrange(p as int, p + n@.len()) =~= n@);
            assert(first_occurrence(t@, n@, p as int) == Some(p as int));
            let ghost old_hits = hits@;
            hits.push(p);
            assert(hits@.map_values(|h: usize| h as int) =~= old_hits.map_values(|h: usize| h as int).push(p as int));
            assert(matches_from(t@, n@, from as int) == seq![p as int] + matches_from(t@, n@, p + n@.len()));
            assert(hits@.map_values(|h: usize| h as int) + matches_from(t@, n@, (p + n.len()) as int)
                =~= old_hits.map_values(|h: usize| h as int) + matches_from(t@, n@, from as int));
            from = p + n.len();
            p = from;
        } else {
            assert(!bytes_occur_at(t@, p as int, n@)) by {
                let q = choose|q: int| 0 <= q < n@.len() && t@[p + q] != n@[q];
                assert(t@.subrange(p as int, p + n@.len())[q] != n@[q]);
            }
            p += 1;
        }
    }
    assert(first_occurrence(t@, n@, p as int) is None);
    assert(matches_from(t@, n@, from as int) == Seq::<int>::empty());
    assert(hits@.map_values(|h: usize| h as int) + Seq::<int>::empty() =~= hits@.map_values(|h: usize| h as int));
    hits
}

/// 1-based line numbers for the first few match offsets, bounded so the
/// refusal carries lines — never excerpts, never file content.
pub fn match_lines(text: &str, hits: &[usize]) -> (lines: Vec<u64>)
    requires
        text.spec_bytes().len() < u64::MAX,
    ensures
        lines@ == reported_lines(text.spec_bytes(), hits@.map_values(|h: usize| h as int)),
{
    byte_match_lines(text.as_bytes(), hits)
}

/// The 1-based lines of the first reported hits.
pub open spec fn reported_lines(t: Seq<u8>, hits: Seq<int>) -> Seq<u64> {
    let n = if hits.len() < WORKSPACE_EDIT_MAX_REPORTED_LINES {
        hits.len() as int
    } else {
        WORKSPACE_EDIT_MAX_REPORTED_LINES as int
    };
    Seq::new(n as nat, |k: int| line_of(t, hits[k]) as u64)
}

/// `match_lines` over the bytes of the text.
pub fn byte_match_lines(t: &[u8], hits: &[usize]) -> (lines: Vec<u64>)
    requires
        t@.len() < u64::MAX,
    ensures
        lines@ == reported_lines(t@, hits@.map_values(|h: usize| h as int)),
{
    let mut lines: Vec<u64> = Vec::new();
    let mut k: usize = 0;
    while k < hits.len() && k < WORKSPACE_EDIT_MAX_REPORTED_LINES
        invariant
            t@.len() < u64::MAX,
            k <= hits@.len(),
            k <= WORKSPACE_EDIT_MAX_REPORTED_LINES,
            lines@.len() == k,
            forall|m: int| 0 <= m < k ==> lines@[m] == line_of(t@, hits@[m] as int),
        decreases hits.len() - k,
    {
        let h = hits[k];
        let end = if h < t.len() {
            h
        } else {
            t.len()
        };
        let mut count: u64 = 0;
        let mut b: usize = 0;
        while b < end
            invariant
                end <= t@.len() < u64::MAX,
                b <= end,
                count == count_newlines(t@.take(b as int)),
                count <= b,
            decreases end - b,
        {
            assert(t@.take(b as int + 1).drop_last() == t@.take(b as int));
            if t[b] == 10u8 {
                count += 1;
            }
            b += 1;
        }
        lines.push(count + 1);
        k += 1;
    }
    assert(lines@ =~= reported_lines(t@, hits@.map_values(|h: usize| h as int)));
    lines
}

/// The SHA-256 digest of `data`, from `sha2::Sha256::digest`: a 32-byte
/// value that depends on `data` alone.
#[verifier::external_body]
fn sha256(data: &[u8]) -> (r: Vec<u8>)
    ensures
        r@ == sha256_digest(data@),
        r@.len() == 32,
{
    Sha256::digest(data).to_vec()
}

fn hex_digit_exec(v: u8) -> (c: char)
    requires
        v < 16,
    ensures
        c == hex_digit(v),
{
    if v < 10 {
        (v + 48) as char
    } else {
        (v + 87) as char
    }
}

/// Lowercase hex sha256 of the file's bytes — the digest the refusal and
/// the result carry, and the value an `expected_digest` precondition states.
pub fn hex_digest(bytes: &[u8]) -> (r: String)
    ensures
        r@ == spec_hex_digest(bytes@),
        r@.len() == 64,
{
    let digest = sha256(bytes);
    let mut hex = String::new();
    let mut k: usize = 0;
    while k < digest.len()
        invariant
            k <= digest@.len() == 32,
            hex@ == hex_lower(digest@.take(k as int)),
            hex@.len() == 2 * k,
        decreases digest.len() - k,
    {
        let byte = digest[k];
        crate::text::push_char(&mut hex, hex_digit_exec(byte / 16));
        crate::text::push_char(&mut hex, hex_digit_exec(byte % 16));
        assert(digest@.take(k as int + 1).drop_last() == digest@.take(k as int));
        k += 1;
    }
    assert(digest@.take(32) == digest@);
    hex
}


/// Every reported match lies within the text.
pub proof fn lemma_matches_in_bounds(t: Seq<u8>, n: Seq<u8>, from: int)
    ensures
        forall|k: int|
            0 <= k < matches_from(t, n, from).len() ==> bytes_occur_at(
                t,
                #[trigger] matches_from(t, n, from)[k],
                n,
            ),
    decreases t.len() - from,
{
    if n.len() > 0 {
        lemma_first_occurrence(t, n, from);
        if let Some(p) = first_occurrence(t, n, from) {
            lemma_matches_in_bounds(t, n, p + n.len());
            let rest = matches_from(t, n, p + n.len());
            assert forall|k: int|
                0 <= k < matches_from(t, n, from).len() implies bytes_occur_at(
                t,
                #[trigger] matches_from(t, n, from)[k],
                n,
            ) by {
                if k > 0 {
                    assert(matches_from(t, n, from)[k] == rest[k - 1]);
                }
            }
        }
    }
}

} // verus!
