//! Laws of whitespace collapsing: it is idempotent, and on plain SQL (no
//! quoted text and no comments) it is the text's words joined by single
//! spaces.
//!
//! The proof runs the scanner over the text and over its collapsed form
//! side by side: each step over the text emits what the matching steps over
//! the output read back and emit again, in the same mode.

use vstd::prelude::*;

use crate::sql_format::{
    collapse_run, collapse_step, dollar_tag_len, first_from, lemma_collapse_step_advances,
    lemma_dollar_tag_len_bounds, lemma_first_from_bounds, next_is, occurs_at, spec_collapse,
    valid_tag_name, is_ascii_alnum, is_ascii_alpha, ScanMode,
};
use crate::text::spec_is_whitespace;

verus! {

/// What every state the collapsing scanner reaches satisfies.
spec fn scan_inv(
    t: Seq<char>,
    i: int,
    m: ScanMode,
    g: Seq<char>,
    p: bool,
    out: Seq<char>,
) -> bool {
    &&& 0 <= i <= t.len()
    &&& (p ==> m is Normal && out.len() > 0)
    &&& (m is DollarQuoted ==> g.len() > 0)
    &&& (m is BlockComment ==> 0 < i && out.len() > 0 && out.last() == t[i - 1])
}

/// `out` is a prefix of `s`.
spec fn extends(s: Seq<char>, out: Seq<char>) -> bool {
    s.len() >= out.len() && s.subrange(0, out.len() as int) == out
}

proof fn lemma_step_facts(t: Seq<char>, i: int, m: ScanMode, g: Seq<char>, p: bool, out: Seq<char>)
    requires
        scan_inv(t, i, m, g, p, out),
        i < t.len(),
    ensures
        ({
            let (i2, m2, g2, p2, o2) = collapse_step(t, i, m, g, p, out);
            &&& scan_inv(t, i2, m2, g2, p2, o2)
            &&& extends(o2, out)
            &&& i < i2
        }),
{
    lemma_collapse_step_advances(t, i, m, g, p, out);
    lemma_dollar_tag_len_bounds(t, i);
    let (i2, m2, g2, p2, o2) = collapse_step(t, i, m, g, p, out);
    assert(o2.subrange(0, out.len() as int) =~= out);
}

/// The scanner only ever appends to its output.
proof fn lemma_run_extends(t: Seq<char>, i: int, m: ScanMode, g: Seq<char>, p: bool, out: Seq<char>)
    requires
        scan_inv(t, i, m, g, p, out),
    ensures
        extends(collapse_run(t, i, m, g, p, out), out),
    decreases t.len() - i,
{
    if i < t.len() {
        lemma_step_facts(t, i, m, g, p, out);
        let (i2, m2, g2, p2, o2) = collapse_step(t, i, m, g, p, out);
        lemma_run_extends(t, i2, m2, g2, p2, o2);
        let c = collapse_run(t, i, m, g, p, out);
        assert(c == collapse_run(t, i2, m2, g2, p2, o2));
        assert(c.subrange(0, out.len() as int) =~= c.subrange(0, o2.len() as int).subrange(
            0,
            out.len() as int,
        ));
    } else {
        assert(out.subrange(0, out.len() as int) =~= out);
    }
}

/// A pending space is the next thing emitted, if anything is.
proof fn lemma_pending_emits_space(t: Seq<char>, i: int, g: Seq<char>, out: Seq<char>)
    requires
        scan_inv(t, i, ScanMode::Normal, g, true, out),
    ensures
        ({
            let c = collapse_run(t, i, ScanMode::Normal, g, true, out);
            c.len() == out.len() || c[out.len() as int] == ' '
        }),
    decreases t.len() - i,
{
    if i < t.len() {
        lemma_step_facts(t, i, ScanMode::Normal, g, true, out);
        let (i2, m2, g2, p2, o2) = collapse_step(t, i, ScanMode::Normal, g, true, out);
        if spec_is_whitespace(t[i]) {
            lemma_pending_emits_space(t, i2, g2, o2);
        } else {
            lemma_run_extends(t, i2, m2, g2, p2, o2);
            let c = collapse_run(t, i, ScanMode::Normal, g, true, out);
            assert(o2[out.len() as int] == ' ');
            assert(c.subrange(0, o2.len() as int)[out.len() as int] == ' ');
        }
    }
}

/// The first character emitted from a state with nothing pending: none at
/// the end of the text, a space or nothing for plain whitespace, and
/// otherwise the character read.
proof fn lemma_next_emitted(t: Seq<char>, i: int, m: ScanMode, g: Seq<char>, out: Seq<char>)
    requires
        scan_inv(t, i, m, g, false, out),
        out.len() > 0,
    ensures
        ({
            let c = collapse_run(t, i, m, g, false, out);
            &&& i >= t.len() ==> c == out
            &&& i < t.len() && m is Normal && spec_is_whitespace(t[i]) ==> (c.len() == out.len()
                || c[out.len() as int] == ' ')
            &&& i < t.len() && !(m is Normal && spec_is_whitespace(t[i])) ==> (c.len()
                > out.len() && c[out.len() as int] == t[i])
        }),
{
    if i < t.len() {
        lemma_step_facts(t, i, m, g, false, out);
        let (i2, m2, g2, p2, o2) = collapse_step(t, i, m, g, false, out);
        if m is Normal && spec_is_whitespace(t[i]) {
            lemma_pending_emits_space(t, i2, g2, o2);
        } else {
            lemma_run_extends(t, i2, m2, g2, p2, o2);
            let c = collapse_run(t, i, m, g, false, out);
            if m is DollarQuoted && g.len() > 0 && occurs_at(t, i, g) {
                assert(g[0] == t.subrange(i, i + g.len() as int)[0]);
            }
            assert(o2.len() > out.len() && o2[out.len() as int] == t[i]);
            assert(c.subrange(0, o2.len() as int)[out.len() as int] == t[i]);
        }
    }
}

/// A character that may stand in a dollar-quote tag name.
spec fn name_char(ch: char) -> bool {
    is_ascii_alnum(ch) || ch == '_'
}

/// Every character of `s` may stand in a tag name.
spec fn all_name_chars(s: Seq<char>) -> bool {
    forall|k: int| 0 <= k < s.len() ==> #[trigger] name_char(s[k])
}

/// Reading plain text from `i`, a tag name the output shows before its next
/// `$` is the same name the text shows before its next `$`.
proof fn lemma_tag_name_carries(t: Seq<char>, i: int, g: Seq<char>, out: Seq<char>)
    requires
        scan_inv(t, i, ScanMode::Normal, g, false, out),
        out.len() > 0,
    ensures
        ({
            let c = collapse_run(t, i, ScanMode::Normal, g, false, out);
            let fc = first_from(c, out.len() as int, '$');
            let ft = first_from(t, i, '$');
            fc < c.len() && all_name_chars(c.subrange(out.len() as int, fc)) ==> ft < t.len()
                && t.subrange(i, ft) == c.subrange(out.len() as int, fc)
        }),
    decreases t.len() - i,
{
    let c = collapse_run(t, i, ScanMode::Normal, g, false, out);
    let j = out.len() as int;
    lemma_run_extends(t, i, ScanMode::Normal, g, false, out);
    lemma_first_from_bounds(c, j, '$');
    lemma_next_emitted(t, i, ScanMode::Normal, g, out);
    if i < t.len() {
        lemma_first_from_bounds(t, i, '$');
        let fc = first_from(c, j, '$');
        let ch = t[i];
        if ch == '$' {
            assert(c[j] == '$');
            assert(fc == j);
            assert(first_from(t, i, '$') == i);
            assert(t.subrange(i, i) =~= c.subrange(j, j));
        } else if spec_is_whitespace(ch) {
            if fc < c.len() && all_name_chars(c.subrange(j, fc)) {
                assert(c[j] == ' ');
                assert(fc > j);
                assert(c.subrange(j, fc)[0] == ' ');
                assert(!name_char(' '));
            }
        } else if name_char(ch) {
            lemma_step_facts(t, i, ScanMode::Normal, g, false, out);
            let (i2, m2, g2, p2, o2) = collapse_step(t, i, ScanMode::Normal, g, false, out);
            assert(i2 == i + 1 && m2 is Normal && g2 == g && !p2 && o2 == out.push(ch));
            lemma_tag_name_carries(t, i2, g2, o2);
            assert(c[j] == ch);
            if fc < c.len() && all_name_chars(c.subrange(j, fc)) {
                assert(fc > j);
                assert(first_from(c, j, '$') == first_from(c, j + 1, '$'));
                assert(first_from(t, i, '$') == first_from(t, i + 1, '$'));
                let fc2 = first_from(c, j + 1, '$');
                assert forall|k: int| 0 <= k < c.subrange(j + 1, fc2).len() implies #[trigger] name_char(
                    c.subrange(j + 1, fc2)[k],
                ) by {
                    assert(c.subrange(j + 1, fc2)[k] == c.subrange(j, fc)[k + 1]);
                }
                let ft = first_from(t, i, '$');
                assert(t.subrange(i, ft) =~= seq![ch] + t.subrange(i + 1, ft));
                assert(c.subrange(j, fc) =~= seq![ch] + c.subrange(j + 1, fc2));
            }
        } else {
            if fc < c.len() && all_name_chars(c.subrange(j, fc)) {
                assert(c[j] == ch);
                assert(fc > j);
                assert(c.subrange(j, fc)[0] == ch);
            }
        }
    } else {
        assert(c == out);
        lemma_first_from_bounds(c, j, '$');
    }
}

/// Where the second run over the collapsed text stands when the first run
/// over the original stands at a state whose output is `out`: right after
/// the single space a pending run of whitespace became, if it became one.
spec fn second_pos(c: Seq<char>, out: Seq<char>, p: bool) -> int {
    if p && c.len() > out.len() {
        out.len() + 1int
    } else {
        out.len() as int
    }
}

proof fn lemma_extends_index(c: Seq<char>, o: Seq<char>, k: int)
    requires
        extends(c, o),
        0 <= k < o.len(),
    ensures
        c[k] == o[k],
{
    assert(c.subrange(0, o.len() as int)[k] == c[k]);
}

proof fn lemma_first_from_is(s: Seq<char>, a: int, b: int, ch: char)
    requires
        0 <= a <= b < s.len(),
        s[b] == ch,
        forall|k: int| a <= k < b ==> s[k] != ch,
    ensures
        first_from(s, a, ch) == b,
    decreases b - a,
{
    if a < b {
        lemma_first_from_is(s, a + 1, b, ch);
    }
}

/// After a step that read position `i - 1` of the text and left `o` as the
/// output, the output's next character is `x` exactly when the text's next
/// character is `x`, for any `x` that is not whitespace.
proof fn lemma_next_agrees(t: Seq<char>, i: int, m: ScanMode, g: Seq<char>, o: Seq<char>, x: char)
    requires
        scan_inv(t, i, m, g, false, o),
        o.len() > 0,
        !spec_is_whitespace(x),
    ensures
        ({
            let c = collapse_run(t, i, m, g, false, o);
            (c.len() > o.len() && c[o.len() as int] == x) <==> (i < t.len() && t[i] == x)
        }),
{
    lemma_next_emitted(t, i, m, g, o);
}

/// Inside a dollar-quoted body the output copies the text verbatim, through
/// the first closing tag and at least up to `k`.
proof fn lemma_dollar_verbatim(t: Seq<char>, i: int, g: Seq<char>, out: Seq<char>, k: int)
    requires
        scan_inv(t, i, ScanMode::DollarQuoted, g, false, out),
        i <= k <= t.len(),
        forall|q: int| i <= q && q + g.len() < k ==> !occurs_at(t, q, g),
    ensures
        ({
            let c = collapse_run(t, i, ScanMode::DollarQuoted, g, false, out);
            &&& c.len() >= out.len() + (k - i)
            &&& c.subrange(out.len() as int, out.len() + (k - i)) == t.subrange(i, k)
            &&& k == t.len() ==> c.len() == out.len() + (k - i)
        }),
    decreases t.len() - i,
{
    let c = collapse_run(t, i, ScanMode::DollarQuoted, g, false, out);
    lemma_run_extends(t, i, ScanMode::DollarQuoted, g, false, out);
    if i == k {
        assert(c.subrange(out.len() as int, out.len() as int) =~= t.subrange(i, k));
        if k == t.len() {
            assert(c == out);
        }
    } else {
        lemma_step_facts(t, i, ScanMode::DollarQuoted, g, false, out);
        let (i2, m2, g2, p2, o2) = collapse_step(t, i, ScanMode::DollarQuoted, g, false, out);
        assert(c == collapse_run(t, i2, m2, g2, p2, o2));
        lemma_run_extends(t, i2, m2, g2, p2, o2);
        if occurs_at(t, i, g) {
            assert(i + g.len() >= k);
            assert forall|d: int| 0 <= d < k - i implies c.subrange(
                out.len() as int,
                out.len() + (k - i),
            )[d] == #[trigger] t.subrange(i, k)[d] by {
                lemma_extends_index(c, o2, out.len() + d);
                assert(o2[out.len() + d] == g[d]);
                assert(g[d] == t.subrange(i, i + g.len() as int)[d]);
            }
            assert(c.subrange(out.len() as int, out.len() + (k - i)) =~= t.subrange(i, k));
            if k == t.len() {
                assert(i2 == t.len());
                assert(c == o2);
            }
        } else {
            assert(o2 == out.push(t[i]));
            lemma_dollar_verbatim(t, i2, g2, o2, k);
            lemma_extends_index(c, o2, out.len() as int);
            assert forall|d: int| 0 <= d < k - i implies c.subrange(
                out.len() as int,
                out.len() + (k - i),
            )[d] == #[trigger] t.subrange(i, k)[d] by {
                if d > 0 {
                    assert(c.subrange(o2.len() as int, o2.len() + (k - i2))[d - 1] == t.subrange(
                        i2,
                        k,
                    )[d - 1]);
                }
            }
            assert(c.subrange(out.len() as int, out.len() + (k - i)) =~= t.subrange(i, k));
        }
    }
}

/// A `$` read in plain text opens a dollar quote in the output exactly when
/// it opened one in the text, with the same tag.
proof fn lemma_dollar_agrees(t: Seq<char>, i: int, g: Seq<char>, p: bool, out: Seq<char>)
    requires
        scan_inv(t, i, ScanMode::Normal, g, p, out),
        i < t.len(),
        t[i] == '$',
    ensures
        ({
            let c = collapse_run(t, i, ScanMode::Normal, g, p, out);
            let k = out.len() + (if p { 1int } else { 0int });
            &&& dollar_tag_len(c, k) == dollar_tag_len(t, i)
            &&& dollar_tag_len(t, i) matches Some(n) ==> k + n <= c.len() && c.subrange(k, k + n)
                == t.subrange(i, i + n)
        }),
{
    let c = collapse_run(t, i, ScanMode::Normal, g, p, out);
    let k = out.len() + (if p { 1int } else { 0int });
    lemma_step_facts(t, i, ScanMode::Normal, g, p, out);
    lemma_dollar_tag_len_bounds(t, i);
    let (i2, m2, g2, p2, o2) = collapse_step(t, i, ScanMode::Normal, g, p, out);
    assert(c == collapse_run(t, i2, m2, g2, p2, o2));
    lemma_run_extends(t, i2, m2, g2, p2, o2);
    let o = if p {
        out.push(' ').push('$')
    } else {
        out.push('$')
    };
    assert(o.len() == k + 1);
    assert(o2.subrange(0, o.len() as int) =~= o);
    lemma_extends_index(c, o2, k);
    if dollar_tag_len(t, i) is Some {
        let n = dollar_tag_len(t, i).unwrap();
        let j = first_from(t, i + 1, '$');
        lemma_first_from_bounds(t, i + 1, '$');
        assert(j == i + n - 1);
        assert(o2 == o + t.subrange(i + 1, i + n));
        assert forall|d: int| 0 <= d < n implies #[trigger] c[k + d] == t[i + d] by {
            lemma_extends_index(c, o2, k + d);
            if d > 0 {
                assert(o2[k + d] == t.subrange(i + 1, i + n)[d - 1]);
            }
        }
        assert forall|q: int| k + 1 <= q < k + n - 1 implies c[q] != '$' by {
            assert(c[k + (q - k)] == t[i + (q - k)]);
        }
        assert(c[k + (n - 1)] == t[i + (n - 1)]);
        lemma_first_from_is(c, k + 1, k + n - 1, '$');
        assert(c.subrange(k + 1, k + n - 1) =~= t.subrange(i + 1, j)) by {
            assert forall|d: int| 0 <= d < n - 2 implies c.subrange(k + 1, k + n - 1)[d]
                == #[trigger] t.subrange(i + 1, j)[d] by {
                assert(c[k + (d + 1)] == t[i + (d + 1)]);
            }
        }
        assert(c.subrange(k, k + n) =~= t.subrange(i, i + n)) by {
            assert forall|d: int| 0 <= d < n implies c.subrange(k, k + n)[d]
                == #[trigger] t.subrange(i, i + n)[d] by {
                assert(c[k + d] == t[i + d]);
            }
        }
    } else {
        assert(i2 == i + 1 && m2 is Normal && g2 == g && !p2 && o2 == o);
        lemma_tag_name_carries(t, i + 1, g, o);
        lemma_first_from_bounds(c, k + 1, '$');
        if dollar_tag_len(c, k) is Some {
            let fc = first_from(c, k + 1, '$');
            let name = c.subrange(k + 1, fc);
            assert(valid_tag_name(name));
            assert forall|d: int| 0 <= d < name.len() implies #[trigger] name_char(name[d]) by {
                assert(is_ascii_alnum(name[d]) || name[d] == '_');
            }
            assert(all_name_chars(name));
            let ft = first_from(t, i + 1, '$');
            assert(t.subrange(i + 1, ft) == name);
            assert(dollar_tag_len(t, i) is Some);
        }
    }
}

/// One step of the run over the text is matched by the run over its output:
/// from the two corresponding states the second run ends the same way.
spec fn second_agrees(
    t: Seq<char>,
    i: int,
    m: ScanMode,
    g: Seq<char>,
    p: bool,
    out: Seq<char>,
) -> bool {
    let c = collapse_run(t, i, m, g, p, out);
    let (i2, m2, g2, p2, o2) = collapse_step(t, i, m, g, p, out);
    collapse_run(c, second_pos(c, out, p), m, g, p, out) == collapse_run(
        c,
        second_pos(c, o2, p2),
        m2,
        g2,
        p2,
        o2,
    )
}

proof fn lemma_second_normal_space(t: Seq<char>, i: int, g: Seq<char>, p: bool, out: Seq<char>)
    requires
        scan_inv(t, i, ScanMode::Normal, g, p, out),
        i < t.len(),
        spec_is_whitespace(t[i]),
        collapse_run(t, i, ScanMode::Normal, g, p, out).len() > out.len(),
    ensures
        second_agrees(t, i, ScanMode::Normal, g, p, out),
{
    let c = collapse_run(t, i, ScanMode::Normal, g, p, out);
    lemma_step_facts(t, i, ScanMode::Normal, g, p, out);
    let (i2, m2, g2, p2, o2) = collapse_step(t, i, ScanMode::Normal, g, p, out);
    assert(c == collapse_run(t, i2, m2, g2, p2, o2));
    if !p && out.len() > 0 {
        lemma_pending_emits_space(t, i2, g2, o2);
        assert(c[out.len() as int] == ' ');
        let (j2, n2, h2, q2, u2) = collapse_step(c, out.len() as int, ScanMode::Normal, g, p, out);
        assert(j2 == out.len() + 1 && n2 is Normal && h2 == g && q2 && u2 == out);
    }
}

proof fn lemma_second_normal_char(t: Seq<char>, i: int, g: Seq<char>, p: bool, out: Seq<char>)
    requires
        scan_inv(t, i, ScanMode::Normal, g, p, out),
        i < t.len(),
        !spec_is_whitespace(t[i]),
        collapse_run(t, i, ScanMode::Normal, g, p, out).len() > out.len(),
    ensures
        second_agrees(t, i, ScanMode::Normal, g, p, out),
{
    let c = collapse_run(t, i, ScanMode::Normal, g, p, out);
    lemma_step_facts(t, i, ScanMode::Normal, g, p, out);
    let (i2, m2, g2, p2, o2) = collapse_step(t, i, ScanMode::Normal, g, p, out);
    assert(c == collapse_run(t, i2, m2, g2, p2, o2));
    lemma_run_extends(t, i2, m2, g2, p2, o2);
    let ch = t[i];
    let k = out.len() + (if p { 1int } else { 0int });
    assert(second_pos(c, out, p) == k);
    let o = if p {
        out.push(' ').push(ch)
    } else {
        out.push(ch)
    };
    assert(o.len() == k + 1);
    assert(o2.subrange(0, o.len() as int) =~= o);
    lemma_extends_index(c, o2, k);
    assert(c[k] == ch);
    if ch == '$' {
        lemma_dollar_agrees(t, i, g, p, out);
    } else {
        assert(i2 == i + 1 && o2 == o);
        lemma_next_agrees(t, i2, m2, g2, o2, '-');
        lemma_next_agrees(t, i2, m2, g2, o2, '*');
    }
    let (j2, n2, h2, q2, u2) = collapse_step(c, k, ScanMode::Normal, g, p, out);
    assert(u2 =~= o2);
    assert(j2 == o2.len());
    assert(n2 == m2);
    assert(h2 =~= g2);
    assert(q2 == p2);
    assert(second_pos(c, o2, p2) == o2.len());
}

proof fn lemma_second_quoted(
    t: Seq<char>,
    i: int,
    m: ScanMode,
    g: Seq<char>,
    p: bool,
    out: Seq<char>,
    q: char,
)
    requires
        scan_inv(t, i, m, g, p, out),
        i < t.len(),
        (m is SingleQuoted && q == '\'') || (m is DoubleQuoted && q == '"') || (m is BacktickQuoted
            && q == '`'),
        collapse_run(t, i, m, g, p, out).len() > out.len(),
    ensures
        second_agrees(t, i, m, g, p, out),
{
    let c = collapse_run(t, i, m, g, p, out);
    lemma_step_facts(t, i, m, g, p, out);
    let (i2, m2, g2, p2, o2) = collapse_step(t, i, m, g, p, out);
    assert(c == collapse_run(t, i2, m2, g2, p2, o2));
    lemma_run_extends(t, i2, m2, g2, p2, o2);
    let ch = t[i];
    let k = out.len() as int;
    lemma_extends_index(c, o2, k);
    if ch == q {
        if next_is(t, i, q) {
            lemma_extends_index(c, o2, k + 1);
        } else {
            lemma_next_agrees(t, i2, m2, g2, o2, q);
        }
    }
    let (j2, n2, h2, q2, u2) = collapse_step(c, k, m, g, p, out);
    assert(u2 =~= o2);
    assert(j2 == o2.len());
    assert(n2 == m2);
    assert(second_pos(c, o2, p2) == o2.len());
}

proof fn lemma_second_dollar(t: Seq<char>, i: int, g: Seq<char>, p: bool, out: Seq<char>)
    requires
        scan_inv(t, i, ScanMode::DollarQuoted, g, p, out),
        i < t.len(),
        collapse_run(t, i, ScanMode::DollarQuoted, g, p, out).len() > out.len(),
    ensures
        second_agrees(t, i, ScanMode::DollarQuoted, g, p, out),
{
    let c = collapse_run(t, i, ScanMode::DollarQuoted, g, p, out);
    lemma_step_facts(t, i, ScanMode::DollarQuoted, g, p, out);
    let (i2, m2, g2, p2, o2) = collapse_step(t, i, ScanMode::DollarQuoted, g, p, out);
    assert(c == collapse_run(t, i2, m2, g2, p2, o2));
    lemma_run_extends(t, i2, m2, g2, p2, o2);
    let k = out.len() as int;
    if occurs_at(t, i, g) {
        assert(o2 == out + g);
        assert(c.subrange(k, k + g.len()) =~= g) by {
            assert forall|d: int| 0 <= d < g.len() implies c.subrange(k, k + g.len())[d]
                == #[trigger] g[d] by {
                lemma_extends_index(c, o2, k + d);
            }
        }
        assert(occurs_at(c, k, g));
    } else {
        let kk = if i + g.len() <= t.len() {
            i + g.len()
        } else {
            t.len() as int
        };
        lemma_dollar_verbatim(t, i, g, out, kk);
        if i + g.len() <= t.len() {
            assert(c.subrange(k, k + g.len()) == t.subrange(i, i + g.len() as int));
        }
        assert(!occurs_at(c, k, g));
    }
    lemma_extends_index(c, o2, k);
    let (j2, n2, h2, q2, u2) = collapse_step(c, k, ScanMode::DollarQuoted, g, p, out);
    assert(u2 =~= o2);
    assert(j2 == o2.len());
    assert(n2 == m2);
    assert(second_pos(c, o2, p2) == o2.len());
}

proof fn lemma_second_comment(t: Seq<char>, i: int, m: ScanMode, g: Seq<char>, p: bool, out: Seq<char>)
    requires
        scan_inv(t, i, m, g, p, out),
        i < t.len(),
        m is LineComment || m is BlockComment,
        collapse_run(t, i, m, g, p, out).len() > out.len(),
    ensures
        second_agrees(t, i, m, g, p, out),
{
    let c = collapse_run(t, i, m, g, p, out);
    lemma_step_facts(t, i, m, g, p, out);
    lemma_run_extends(t, i, m, g, p, out);
    let (i2, m2, g2, p2, o2) = collapse_step(t, i, m, g, p, out);
    assert(c == collapse_run(t, i2, m2, g2, p2, o2));
    lemma_run_extends(t, i2, m2, g2, p2, o2);
    let k = out.len() as int;
    lemma_extends_index(c, o2, k);
    if m is BlockComment {
        lemma_extends_index(c, out, k - 1);
    }
    let (j2, n2, h2, q2, u2) = collapse_step(c, k, m, g, p, out);
    assert(u2 =~= o2);
    assert(j2 == o2.len());
    assert(n2 == m2);
    assert(second_pos(c, o2, p2) == o2.len());
}

proof fn lemma_second_step(t: Seq<char>, i: int, m: ScanMode, g: Seq<char>, p: bool, out: Seq<char>)
    requires
        scan_inv(t, i, m, g, p, out),
        i < t.len(),
        collapse_run(t, i, m, g, p, out).len() > out.len(),
    ensures
        second_agrees(t, i, m, g, p, out),
{
    match m {
        ScanMode::Normal => {
            if spec_is_whitespace(t[i]) {
                lemma_second_normal_space(t, i, g, p, out);
            } else {
                lemma_second_normal_char(t, i, g, p, out);
            }
        },
        ScanMode::SingleQuoted => lemma_second_quoted(t, i, m, g, p, out, '\''),
        ScanMode::DoubleQuoted => lemma_second_quoted(t, i, m, g, p, out, '"'),
        ScanMode::BacktickQuoted => lemma_second_quoted(t, i, m, g, p, out, '`'),
        ScanMode::DollarQuoted => lemma_second_dollar(t, i, g, p, out),
        _ => lemma_second_comment(t, i, m, g, p, out),
    }
}

/// From corresponding states, the run over the output reproduces the output.
proof fn lemma_second_run(t: Seq<char>, i: int, m: ScanMode, g: Seq<char>, p: bool, out: Seq<char>)
    requires
        scan_inv(t, i, m, g, p, out),
    ensures
        ({
            let c = collapse_run(t, i, m, g, p, out);
            collapse_run(c, second_pos(c, out, p), m, g, p, out) == c
        }),
    decreases t.len() - i,
{
    let c = collapse_run(t, i, m, g, p, out);
    lemma_run_extends(t, i, m, g, p, out);
    if c.len() == out.len() {
        assert(c =~= c.subrange(0, out.len() as int));
        assert(collapse_run(c, second_pos(c, out, p), m, g, p, out) == out);
    } else {
        assert(i < t.len());
        lemma_step_facts(t, i, m, g, p, out);
        let (i2, m2, g2, p2, o2) = collapse_step(t, i, m, g, p, out);
        assert(c == collapse_run(t, i2, m2, g2, p2, o2));
        lemma_second_run(t, i2, m2, g2, p2, o2);
        lemma_second_step(t, i, m, g, p, out);
    }
}

/// Collapsing whitespace is idempotent: the collapsed form of a collapsed
/// text is that text itself.
pub proof fn lemma_collapse_is_idempotent(t: Seq<char>)
    ensures
        spec_collapse(spec_collapse(t)) == spec_collapse(t),
{
    lemma_second_run(t, 0, ScanMode::Normal, Seq::empty(), false, Seq::empty());
}

/// The whitespace-separated words of `t`, in order.
pub open spec fn split_words(t: Seq<char>) -> Seq<Seq<char>>
    decreases t.len(),
{
    if t.len() == 0 {
        Seq::empty()
    } else {
        let w = split_words(t.drop_last());
        if spec_is_whitespace(t.last()) {
            w
        } else if t.len() > 1 && !spec_is_whitespace(t[t.len() - 2]) && w.len() > 0 {
            w.update(w.len() - 1, w.last().push(t.last()))
        } else {
            w.push(seq![t.last()])
        }
    }
}

/// `words` joined with one space between neighbours.
pub open spec fn join_words(words: Seq<Seq<char>>) -> Seq<char>
    decreases words.len(),
{
    if words.len() == 0 {
        Seq::empty()
    } else if words.len() == 1 {
        words[0]
    } else {
        join_words(words.drop_last()).push(' ') + words.last()
    }
}

/// `t` holds no quote, no dollar sign and no comment opener: nothing the
/// scanner would leave verbatim.
pub open spec fn plain_sql(t: Seq<char>) -> bool {
    forall|k: int|
        0 <= k < t.len() ==> {
            &&& #[trigger] t[k] != '\''
            &&& t[k] != '"'
            &&& t[k] != '`'
            &&& t[k] != '$'
            &&& !(t[k] == '-' && next_is(t, k, '-'))
            &&& !(t[k] == '/' && next_is(t, k, '*'))
        }
}

proof fn lemma_join_extend_last(words: Seq<Seq<char>>, c: char)
    requires
        words.len() > 0,
    ensures
        join_words(words.update(words.len() - 1, words.last().push(c))) == join_words(words).push(c),
{
    let u = words.update(words.len() - 1, words.last().push(c));
    if words.len() == 1 {
    } else {
        assert(u.drop_last() =~= words.drop_last());
        assert(join_words(u) == join_words(u.drop_last()).push(' ') + u.last());
        assert(join_words(u) =~= join_words(words).push(c));
    }
}

proof fn lemma_join_nonempty(words: Seq<Seq<char>>)
    requires
        forall|k: int| 0 <= k < words.len() ==> #[trigger] words[k].len() > 0,
    ensures
        join_words(words).len() > 0 <==> words.len() > 0,
    decreases words.len(),
{
    if words.len() > 1 {
        lemma_join_nonempty(words.drop_last());
    }
}

proof fn lemma_words_nonempty(t: Seq<char>)
    ensures
        forall|k: int| 0 <= k < split_words(t).len() ==> #[trigger] split_words(t)[k].len() > 0,
    decreases t.len(),
{
    if t.len() > 0 {
        lemma_words_nonempty(t.drop_last());
        let w = split_words(t.drop_last());
        let s = split_words(t);
        assert forall|k: int| 0 <= k < s.len() implies #[trigger] s[k].len() > 0 by {
            if k < w.len() {
                assert(w[k].len() > 0);
            }
        }
    }
}

proof fn lemma_plain_run(t: Seq<char>, i: int, g: Seq<char>, p: bool, out: Seq<char>)
    requires
        plain_sql(t),
        0 <= i <= t.len(),
        out == join_words(split_words(t.take(i))),
        p == (out.len() > 0 && i > 0 && spec_is_whitespace(t[i - 1])),
    ensures
        collapse_run(t, i, ScanMode::Normal, g, p, out) == join_words(split_words(t)),
    decreases t.len() - i,
{
    if i == t.len() {
        assert(t.take(i) =~= t);
    } else {
        let ch = t[i];
        let pre = t.take(i);
        let next = t.take(i + 1);
        assert(next.drop_last() =~= pre);
        assert(next.last() == ch);
        let w = split_words(pre);
        lemma_words_nonempty(pre);
        lemma_join_nonempty(w);
        lemma_dollar_tag_len_bounds(t, i);
        let (i2, m2, g2, p2, o2) = collapse_step(t, i, ScanMode::Normal, g, p, out);
        assert(collapse_run(t, i, ScanMode::Normal, g, p, out) == collapse_run(t, i2, m2, g2, p2, o2));
        if spec_is_whitespace(ch) {
            assert(split_words(next) == w);
            lemma_plain_run(t, i2, g2, p2, o2);
        } else {
            assert(i2 == i + 1 && m2 is Normal);
            if i > 0 && !spec_is_whitespace(t[i - 1]) && w.len() > 0 {
                assert(next[next.len() - 2] == t[i - 1]);
                lemma_join_extend_last(w, ch);
                assert(o2 == out.push(ch));
            } else {
                if i > 0 {
                    assert(next[next.len() - 2] == t[i - 1]);
                }
                assert(split_words(next) == w.push(seq![ch]));
                if w.len() == 0 {
                    assert(o2 =~= join_words(w.push(seq![ch])));
                } else {
                    assert(w.push(seq![ch]).drop_last() =~= w);
                    assert(o2 =~= join_words(w.push(seq![ch])));
                }
            }
            lemma_plain_run(t, i2, g2, p2, o2);
        }
    }
}

/// On plain SQL, with no quoted text and no comments, collapsing whitespace
/// gives the text's words joined by single spaces.
pub proof fn lemma_collapse_joins_words(t: Seq<char>)
    requires
        plain_sql(t),
    ensures
        spec_collapse(t) == join_words(split_words(t)),
{
    assert(t.take(0) =~= Seq::<char>::empty());
    lemma_plain_run(t, 0, Seq::empty(), false, Seq::empty());
}

} // verus!
