//! Cosmetic SQL formatting for display: whitespace collapsing outside quoted
//! text and comments, and a line break before each major clause keyword.
//!
//! Both functions scan the text once with the same small state machine:
//! plain SQL, the three quoted forms (`'…'`, `"…"`, `` `…` ``), a
//! PostgreSQL dollar-quoted body (`$tag$…$tag$`), a line comment and a block
//! comment. Only plain SQL is ever rewritten.

use vstd::prelude::*;

use crate::text::{
    ascii_lower, lemma_strip_whitespace_concat, strip_whitespace,
    char_eq_ignore_ascii_case, chars_eq_ignore_ascii_case, chars_of, copy_range, eq_ignore_ascii_case,
    is_ascii_whitespace, is_whitespace, push_range, spec_is_ascii_whitespace, spec_is_whitespace,
    string_of,
};

verus! {

/// Where the scanner stands.
#[derive(Clone, Copy)]
pub enum ScanMode {
    Normal,
    SingleQuoted,
    DoubleQuoted,
    BacktickQuoted,
    DollarQuoted,
    LineComment,
    BlockComment,
}

/// The character after position `i` is `c`.
pub open spec fn next_is(t: Seq<char>, i: int, c: char) -> bool {
    i + 1 < t.len() && t[i + 1] == c
}

/// `tag` occurs in `t` starting at `i`.
pub open spec fn occurs_at(t: Seq<char>, i: int, tag: Seq<char>) -> bool {
    0 <= i && i + tag.len() <= t.len() && t.subrange(i, i + tag.len() as int) == tag
}

/// Index of the first `c` at or after `j`, or `t.len()` when there is none.
pub open spec fn first_from(t: Seq<char>, j: int, c: char) -> int
    decreases t.len() - j,
{
    if j >= t.len() {
        t.len() as int
    } else if t[j] == c {
        j
    } else {
        first_from(t, j + 1, c)
    }
}

pub proof fn lemma_first_from_bounds(t: Seq<char>, j: int, c: char)
    requires
        0 <= j,
    ensures
        j <= first_from(t, j, c) || (j > t.len() && first_from(t, j, c) == t.len()),
        first_from(t, j, c) <= t.len() || j > t.len(),
        first_from(t, j, c) < t.len() ==> t[first_from(t, j, c)] == c,
        forall|k: int| j <= k < first_from(t, j, c) && k < t.len() ==> t[k] != c,
    decreases t.len() - j,
{
    if j < t.len() && t[j] != c {
        lemma_first_from_bounds(t, j + 1, c);
    }
}

pub open spec fn is_ascii_alpha(c: char) -> bool {
    ('a' <= c && c <= 'z') || ('A' <= c && c <= 'Z')
}

pub open spec fn is_ascii_alnum(c: char) -> bool {
    is_ascii_alpha(c) || ('0' <= c && c <= '9')
}

/// The name between the two `$` of a dollar-quote tag: empty, or an ASCII
/// letter or `_` followed by ASCII letters, digits and `_`.
pub open spec fn valid_tag_name(name: Seq<char>) -> bool {
    name.len() == 0 || ((is_ascii_alpha(name[0]) || name[0] == '_') && forall|k: int|
        0 <= k < name.len() ==> #[trigger] is_ascii_alnum(name[k]) || name[k] == '_')
}

/// The length of the dollar-quote tag (`$…$`) opening at `i`, if one does:
/// the text from `i` through the next `$`, when the name between is valid.
pub open spec fn dollar_tag_len(t: Seq<char>, i: int) -> Option<int> {
    let j = first_from(t, i + 1, '$');
    if j >= t.len() {
        None
    } else if valid_tag_name(t.subrange(i + 1, j)) {
        Some(j - i + 1)
    } else {
        None
    }
}

pub proof fn lemma_dollar_tag_len_bounds(t: Seq<char>, i: int)
    requires
        0 <= i < t.len(),
    ensures
        dollar_tag_len(t, i) matches Some(n) ==> 2 <= n && i + n <= t.len() && t[i + n - 1]
            == '$',
{
    lemma_first_from_bounds(t, i + 1, '$');
}

/// One step of whitespace collapsing from position `i`: the next position,
/// mode, open dollar tag, pending-space flag and output.
pub open spec fn collapse_step(
    t: Seq<char>,
    i: int,
    mode: ScanMode,
    tag: Seq<char>,
    pending: bool,
    out: Seq<char>,
) -> (int, ScanMode, Seq<char>, bool, Seq<char>) {
    let ch = t[i];
    match mode {
        ScanMode::Normal => {
            if spec_is_whitespace(ch) {
                (i + 1, ScanMode::Normal, tag, out.len() > 0, out)
            } else {
                let o = if pending {
                    out.push(' ').push(ch)
                } else {
                    out.push(ch)
                };
                if ch == '\'' {
                    (i + 1, ScanMode::SingleQuoted, tag, false, o)
                } else if ch == '"' {
                    (i + 1, ScanMode::DoubleQuoted, tag, false, o)
                } else if ch == '`' {
                    (i + 1, ScanMode::BacktickQuoted, tag, false, o)
                } else if ch == '$' && dollar_tag_len(t, i) is Some {
                    let n = dollar_tag_len(t, i).unwrap();
                    (
                        i + n,
                        ScanMode::DollarQuoted,
                        t.subrange(i, i + n),
                        false,
                        o + t.subrange(i + 1, i + n),
                    )
                } else if ch == '-' && next_is(t, i, '-') {
                    (i + 1, ScanMode::LineComment, tag, false, o)
                } else if ch == '/' && next_is(t, i, '*') {
                    (i + 1, ScanMode::BlockComment, tag, false, o)
                } else {
                    (i + 1, ScanMode::Normal, tag, false, o)
                }
            }
        },
        ScanMode::SingleQuoted => {
            if ch == '\'' && next_is(t, i, '\'') {
                (i + 2, mode, tag, pending, out.push(ch).push('\''))
            } else if ch == '\'' {
                (i + 1, ScanMode::Normal, tag, pending, out.push(ch))
            } else {
                (i + 1, mode, tag, pending, out.push(ch))
            }
        },
        ScanMode::DoubleQuoted => {
            if ch == '"' && next_is(t, i, '"') {
                (i + 2, mode, tag, pending, out.push(ch).push('"'))
            } else if ch == '"' {
                (i + 1, ScanMode::Normal, tag, pending, out.push(ch))
            } else {
                (i + 1, mode, tag, pending, out.push(ch))
            }
        },
        ScanMode::BacktickQuoted => {
            if ch == '`' && next_is(t, i, '`') {
                (i + 2, mode, tag, pending, out.push(ch).push('`'))
            } else if ch == '`' {
                (i + 1, ScanMode::Normal, tag, pending, out.push(ch))
            } else {
                (i + 1, mode, tag, pending, out.push(ch))
            }
        },
        ScanMode::DollarQuoted => {
            if tag.len() > 0 && occurs_at(t, i, tag) {
                (i + tag.len(), ScanMode::Normal, tag, pending, out + tag)
            } else {
                (i + 1, mode, tag, pending, out.push(ch))
            }
        },
        ScanMode::LineComment => {
            if ch == '\n' {
                (i + 1, ScanMode::Normal, tag, pending, out.push(ch))
            } else {
                (i + 1, mode, tag, pending, out.push(ch))
            }
        },
        ScanMode::BlockComment => {
            if ch == '/' && i > 0 && t[i - 1] == '*' {
                (i + 1, ScanMode::Normal, tag, pending, out.push(ch))
            } else {
                (i + 1, mode, tag, pending, out.push(ch))
            }
        },
    }
}

pub proof fn lemma_collapse_step_advances(
    t: Seq<char>,
    i: int,
    mode: ScanMode,
    tag: Seq<char>,
    pending: bool,
    out: Seq<char>,
)
    requires
        0 <= i < t.len(),
    ensures
        i < collapse_step(t, i, mode, tag, pending, out).0 <= t.len(),
{
    lemma_dollar_tag_len_bounds(t, i);
}

/// Runs the collapsing scanner from position `i` to the end of `t`.
pub open spec fn collapse_run(
    t: Seq<char>,
    i: int,
    mode: ScanMode,
    tag: Seq<char>,
    pending: bool,
    out: Seq<char>,
) -> Seq<char>
    decreases t.len() - i,
{
    if 0 <= i < t.len() {
        let (i2, m2, g2, p2, o2) = collapse_step(t, i, mode, tag, pending, out);
        proof {
            lemma_collapse_step_advances(t, i, mode, tag, pending, out);
        }
        collapse_run(t, i2, m2, g2, p2, o2)
    } else {
        out
    }
}

/// `t` with every run of whitespace outside quoted text and comments
/// replaced by one space, leading and trailing runs dropped.
pub open spec fn spec_collapse(t: Seq<char>) -> Seq<char> {
    collapse_run(t, 0, ScanMode::Normal, Seq::empty(), false, Seq::empty())
}

/// `s` with trailing spaces removed.
pub open spec fn trim_trailing_spaces(s: Seq<char>) -> Seq<char>
    decreases s.len(),
{
    if s.len() > 0 && s.last() == ' ' {
        trim_trailing_spaces(s.drop_last())
    } else {
        s
    }
}

/// `out` ending in exactly one line break in place of any trailing spaces.
pub open spec fn line_break(out: Seq<char>) -> Seq<char> {
    let o = trim_trailing_spaces(out);
    if o.len() > 0 && o.last() == '\n' {
        o
    } else {
        o.push('\n')
    }
}

/// `kw` occurs at `start` up to ASCII case and ends at the end of the text
/// or before ASCII whitespace.
pub open spec fn keyword_matches_at(t: Seq<char>, start: int, kw: Seq<char>) -> bool {
    &&& start + kw.len() <= t.len()
    &&& eq_ignore_ascii_case(t.subrange(start, start + kw.len() as int), kw)
    &&& (start + kw.len() == t.len() || spec_is_ascii_whitespace(t[start + kw.len()]))
}

/// A clause keyword from `kws` starts a whole word at `start`.
pub open spec fn spec_keyword_at(t: Seq<char>, start: int, kws: Seq<Seq<char>>) -> bool {
    &&& start > 0
    &&& spec_is_ascii_whitespace(t[start - 1])
    &&& exists|k: int| 0 <= k < kws.len() && keyword_matches_at(t, start, #[trigger] kws[k])
}

/// The keyword `kw` matches as a whole word at `p` and covers position `i`
/// after its start.
pub open spec fn keyword_covers(t: Seq<char>, p: int, kw: Seq<char>, i: int) -> bool {
    &&& 0 < p < i < p + kw.len()
    &&& spec_is_ascii_whitespace(t[p - 1])
    &&& keyword_matches_at(t, p, kw)
}

/// Position `i` lies inside a clause keyword from `kws` that starts
/// earlier: the `JOIN` of a matched `LEFT JOIN`, say.
pub open spec fn inside_keyword(t: Seq<char>, i: int, kws: Seq<Seq<char>>) -> bool {
    exists|k: int, p: int| 0 <= k < kws.len() && #[trigger] keyword_covers(t, p, kws[k], i)
}

/// A line break goes before position `i`: a clause keyword starts there,
/// and it does not continue a multi-word keyword that started earlier, so a
/// multi-word keyword gets one break, before its first word.
pub open spec fn breaks_at(t: Seq<char>, i: int, kws: Seq<Seq<char>>) -> bool {
    spec_keyword_at(t, i, kws) && !inside_keyword(t, i, kws)
}

/// The clause keywords a line break is placed before; multi-word keywords
/// come before their one-word prefixes.
pub open spec fn sql_keywords() -> Seq<Seq<char>> {
    seq![
        "LEFT JOIN"@,
        "RIGHT JOIN"@,
        "INNER JOIN"@,
        "OUTER JOIN"@,
        "FULL JOIN"@,
        "CROSS JOIN"@,
        "GROUP BY"@,
        "ORDER BY"@,
        "UNION ALL"@,
        "FROM"@,
        "WHERE"@,
        "HAVING"@,
        "LIMIT"@,
        "OFFSET"@,
        "JOIN"@,
        "UNION"@,
        "VALUES"@,
        "RETURNING"@,
    ]
}

/// One step of keyword line-breaking over collapsed text.
pub open spec fn format_step(
    c: Seq<char>,
    i: int,
    mode: ScanMode,
    tag: Seq<char>,
    out: Seq<char>,
) -> (int, ScanMode, Seq<char>, Seq<char>) {
    let ch = c[i];
    let o = if mode is Normal && breaks_at(c, i, sql_keywords()) {
        line_break(out).push(ch)
    } else {
        out.push(ch)
    };
    match mode {
        ScanMode::Normal => {
            if ch == '\'' {
                (i + 1, ScanMode::SingleQuoted, tag, o)
            } else if ch == '"' {
                (i + 1, ScanMode::DoubleQuoted, tag, o)
            } else if ch == '`' {
                (i + 1, ScanMode::BacktickQuoted, tag, o)
            } else if ch == '$' && dollar_tag_len(c, i) is Some {
                let n = dollar_tag_len(c, i).unwrap();
                (i + n, ScanMode::DollarQuoted, c.subrange(i, i + n), o + c.subrange(i + 1, i + n))
            } else if ch == '-' && next_is(c, i, '-') {
                (i + 1, ScanMode::LineComment, tag, o)
            } else if ch == '/' && next_is(c, i, '*') {
                (i + 1, ScanMode::BlockComment, tag, o)
            } else {
                (i + 1, ScanMode::Normal, tag, o)
            }
        },
        ScanMode::SingleQuoted => {
            if ch == '\'' && next_is(c, i, '\'') {
                (i + 2, mode, tag, o.push('\''))
            } else if ch == '\'' {
                (i + 1, ScanMode::Normal, tag, o)
            } else {
                (i + 1, mode, tag, o)
            }
        },
        ScanMode::DoubleQuoted => {
            if ch == '"' && next_is(c, i, '"') {
                (i + 2, mode, tag, o.push('"'))
            } else if ch == '"' {
                (i + 1, ScanMode::Normal, tag, o)
            } else {
                (i + 1, mode, tag, o)
            }
        },
        ScanMode::BacktickQuoted => {
            if ch == '`' && next_is(c, i, '`') {
                (i + 2, mode, tag, o.push('`'))
            } else if ch == '`' {
                (i + 1, ScanMode::Normal, tag, o)
            } else {
                (i + 1, mode, tag, o)
            }
        },
        ScanMode::DollarQuoted => {
            if tag.len() > 0 && occurs_at(c, i, tag) {
                (i + tag.len(), ScanMode::Normal, tag, o + tag.subrange(1, tag.len() as int))
            } else {
                (i + 1, mode, tag, o)
            }
        },
        ScanMode::LineComment => {
            if ch == '\n' {
                (i + 1, ScanMode::Normal, tag, o)
            } else {
                (i + 1, mode, tag, o)
            }
        },
        ScanMode::BlockComment => {
            if ch == '/' && i > 0 && c[i - 1] == '*' {
                (i + 1, ScanMode::Normal, tag, o)
            } else {
                (i + 1, mode, tag, o)
            }
        },
    }
}

pub proof fn lemma_format_step_advances(
    c: Seq<char>,
    i: int,
    mode: ScanMode,
    tag: Seq<char>,
    out: Seq<char>,
)
    requires
        0 <= i < c.len(),
    ensures
        i < format_step(c, i, mode, tag, out).0 <= c.len(),
{
    lemma_dollar_tag_len_bounds(c, i);
}

/// Runs the line-breaking scanner from position `i` to the end of `c`.
pub open spec fn format_run(
    c: Seq<char>,
    i: int,
    mode: ScanMode,
    tag: Seq<char>,
    out: Seq<char>,
) -> Seq<char>
    decreases c.len() - i,
{
    if 0 <= i < c.len() {
        let (i2, m2, g2, o2) = format_step(c, i, mode, tag, out);
        proof {
            lemma_format_step_advances(c, i, mode, tag, out);
        }
        format_run(c, i2, m2, g2, o2)
    } else {
        out
    }
}

/// The display form of `t`: collapsed, then broken before each clause
/// keyword that stands as a whole word in plain SQL.
pub open spec fn spec_format_sql(t: Seq<char>) -> Seq<char> {
    format_run(spec_collapse(t), 0, ScanMode::Normal, Seq::empty(), Seq::empty())
}

/// Whether `tag` occurs in `t` at `i`.
fn occurs_at_exec(t: &[char], i: usize, tag: &[char]) -> (r: bool)
    requires
        i <= t.len(),
    ensures
        r == occurs_at(t@, i as int, tag@),
{
    if tag.len() > t.len() - i {
        return false;
    }
    let mut k: usize = 0;
    while k < tag.len()
        invariant
            i + tag.len() <= t.len(),
            k <= tag.len(),
            forall|m: int| 0 <= m < k ==> t@[i + m] == tag@[m],
        decreases tag.len() - k,
    {
        if t[i + k] != tag[k] {
            assert(t@.subrange(i as int, i + tag@.len())[k as int] != tag@[k as int]);
            return false;
        }
        k += 1;
    }
    assert(t@.subrange(i as int, i + tag@.len()) =~= tag@);
    true
}

fn is_ascii_alpha_exec(c: char) -> (r: bool)
    ensures
        r == is_ascii_alpha(c),
{
    ('a' <= c && c <= 'z') || ('A' <= c && c <= 'Z')
}

fn is_ascii_alnum_exec(c: char) -> (r: bool)
    ensures
        r == is_ascii_alnum(c),
{
    is_ascii_alpha_exec(c) || ('0' <= c && c <= '9')
}

/// The length of the dollar-quote tag (`$name$`, name possibly empty)
/// opening at `start`, or `None` when no valid tag opens there.
pub fn dollar_quote_tag_at(text: &[char], start: usize) -> (r: Option<usize>)
    requires
        start < text.len(),
        (text@[start as int] as u32) < 0x80,
    ensures
        match r {
            Some(n) => dollar_tag_len(text@, start as int) == Some(n as int),
            None => dollar_tag_len(text@, start as int) is None,
        },
{
    let ghost t = text@;
    let mut j = start + 1;
    while j < text.len() && text[j] != '$'
        invariant
            start + 1 <= j <= text.len(),
            t == text@,
            first_from(t, j as int, '$') == first_from(t, start as int + 1, '$'),
        decreases text.len() - j,
    {
        j += 1;
    }
    if j >= text.len() {
        return None;
    }
    assert(first_from(t, j as int, '$') == j as int);
    let ghost name = t.subrange(start as int + 1, j as int);
    if j > start + 1 {
        let first = text[start + 1];
        if !(is_ascii_alpha_exec(first) || first == '_') {
            assert(name[0] == first);
            return None;
        }
        let mut k = start + 1;
        while k < j
            invariant
                start + 1 <= k <= j < text.len(),
                t == text@,
                first_from(t, start as int + 1, '$') == j as int,
                name.len() == j - start - 1,
                name == t.subrange(start as int + 1, j as int),
                forall|m: int|
                    0 <= m < k - start - 1 ==> #[trigger] is_ascii_alnum(name[m]) || name[m] == '_',
            decreases j - k,
        {
            let ch = text[k];
            if !(is_ascii_alnum_exec(ch) || ch == '_') {
                assert(name[k - start - 1] == ch);
                assert(!(is_ascii_alnum(name[k - start - 1]) || name[k - start - 1] == '_'));
                assert(!valid_tag_name(name));
                return None;
            }
            k += 1;
        }
    }
    Some(j - start + 1)
}

/// Whether the keyword `kw` matches, case-insensitively and as a whole
/// word ending at the end of the text or before ASCII whitespace, at
/// `start`.
fn keyword_matches(text: &[char], start: usize, kw: &Vec<char>) -> (r: bool)
    requires
        start <= text.len(),
    ensures
        r == keyword_matches_at(text@, start as int, kw@),
{
    if kw.len() > text.len() - start {
        return false;
    }
    let end = start + kw.len();
    let mut same = true;
    let mut m: usize = 0;
    while m < kw.len()
        invariant
            end == start + kw.len() <= text.len(),
            m <= kw.len(),
            same == forall|q: int|
                0 <= q < m ==> #[trigger] chars_eq_ignore_ascii_case(text@[start + q], kw@[q]),
        decreases kw.len() - m,
    {
        if !char_eq_ignore_ascii_case(text[start + m], kw[m]) {
            same = false;
        }
        m += 1;
    }
    assert(same == eq_ignore_ascii_case(text@.subrange(start as int, end as int), kw@)) by {
        if same {
            assert forall|q: int| 0 <= q < kw@.len() implies #[trigger] chars_eq_ignore_ascii_case(
                text@.subrange(start as int, end as int)[q],
                kw@[q],
            ) by {
                assert(text@.subrange(start as int, end as int)[q] == text@[start + q]);
            }
        } else {
            let q = choose|q: int|
                0 <= q < kw@.len() && !chars_eq_ignore_ascii_case(text@[start + q], kw@[q]);
            assert(text@.subrange(start as int, end as int)[q] == text@[start + q]);
        }
    }
    same && (end == text.len() || is_ascii_whitespace(text[end]))
}

/// Whether a clause keyword from `keywords` starts a whole word at `start`:
/// preceded by ASCII whitespace, matched case-insensitively, and followed
/// by the end of the text or ASCII whitespace.
pub fn keyword_at(text: &[char], start: usize, keywords: &[Vec<char>]) -> (r: bool)
    requires
        start <= text.len(),
    ensures
        r == spec_keyword_at(text@, start as int, keywords@.map_values(|k: Vec<char>| k@)),
{
    let ghost kws = keywords@.map_values(|k: Vec<char>| k@);
    if start == 0 || !is_ascii_whitespace(text[start - 1]) {
        return false;
    }
    let mut k: usize = 0;
    while k < keywords.len()
        invariant
            0 < start <= text.len(),
            spec_is_ascii_whitespace(text@[start - 1]),
            k <= keywords.len(),
            kws == keywords@.map_values(|k: Vec<char>| k@),
            forall|m: int| 0 <= m < k ==> !keyword_matches_at(text@, start as int, #[trigger] kws[m]),
        decreases keywords.len() - k,
    {
        let kw = &keywords[k];
        assert(kws[k as int] == kw@);
        if keyword_matches(text, start, kw) {
            assert(spec_keyword_at(text@, start as int, kws));
            return true;
        }
        k += 1;
    }
    false
}

/// Whether position `i` lies inside a clause keyword that starts earlier,
/// such as the `JOIN` of a matched `LEFT JOIN`.
fn inside_keyword_exec(text: &[char], i: usize, keywords: &[Vec<char>]) -> (r: bool)
    requires
        i <= text.len(),
    ensures
        r == inside_keyword(text@, i as int, keywords@.map_values(|k: Vec<char>| k@)),
{
    let ghost kws = keywords@.map_values(|k: Vec<char>| k@);
    let mut k: usize = 0;
    while k < keywords.len()
        invariant
            i <= text.len(),
            k <= keywords.len(),
            kws == keywords@.map_values(|k: Vec<char>| k@),
            forall|m: int, p: int|
                0 <= m < k ==> !#[trigger] keyword_covers(text@, p, kws[m], i as int),
        decreases keywords.len() - k,
    {
        let kw = &keywords[k];
        assert(kws[k as int] == kw@);
        let n: usize = kw.len();
        let lo: usize = if 0 < n && n < i {
            i - n + 1
        } else if n == 0 && i > 0 {
            i
        } else {
            1
        };
        let mut p: usize = lo;
        while p < i
            invariant
                i <= text.len(),
                1 <= lo <= p,
                (lo == 1 && kw@.len() >= i) || lo + kw@.len() == i + 1 || (kw@.len() == 0
                    && lo == i),
                kw@ == kws[k as int],
                kws == keywords@.map_values(|k: Vec<char>| k@),
                k < keywords.len(),
                forall|q: int| lo <= q < p ==> !#[trigger] keyword_covers(text@, q, kw@, i as int),
            decreases i - p,
        {
            if is_ascii_whitespace(text[p - 1]) && keyword_matches(text, p, kw) {
                assert(kws.len() == keywords@.len());
                assert(keyword_covers(text@, p as int, kws[k as int], i as int));
                assert(inside_keyword(text@, i as int, kws));
                return true;
            }
            p += 1;
        }
        assert forall|q: int| !#[trigger] keyword_covers(text@, q, kws[k as int], i as int) by {
            if lo <= q < p {
            }
        }
        k += 1;
    }
    false
}

/// The collapsing scanner over characters.
fn collapse_chars(t: &Vec<char>) -> (out: Vec<char>)
    ensures
        out@ == spec_collapse(t@),
{
    let mut out: Vec<char> = Vec::new();
    let mut mode = ScanMode::Normal;
    let mut tag: Vec<char> = Vec::new();
    let mut pending = false;
    let mut i: usize = 0;
    while i < t.len()
        invariant
            i <= t.len(),
            collapse_run(t@, i as int, mode, tag@, pending, out@) == spec_collapse(t@),
            mode is DollarQuoted ==> tag@.len() >= 2,
        decreases t.len() - i,
    {
        let ghost step = collapse_step(t@, i as int, mode, tag@, pending, out@);
        proof {
            lemma_collapse_step_advances(t@, i as int, mode, tag@, pending, out@);
            lemma_dollar_tag_len_bounds(t@, i as int);
        }
        let ch = t[i];
        match mode {
            ScanMode::Normal => {
                if is_whitespace(ch) {
                    pending = out.len() > 0;
                    i += 1;
                } else {
                    if pending {
                        out.push(' ');
                        pending = false;
                    }
                    out.push(ch);
                    if ch == '\'' {
                        mode = ScanMode::SingleQuoted;
                        i += 1;
                    } else if ch == '"' {
                        mode = ScanMode::DoubleQuoted;
                        i += 1;
                    } else if ch == '`' {
                        mode = ScanMode::BacktickQuoted;
                        i += 1;
                    } else if ch == '$' && dollar_quote_tag_at(t.as_slice(), i).is_some() {
                        let n = match dollar_quote_tag_at(t.as_slice(), i) {
                            Some(n) => n,
                            None => 1,
                        };
                        push_range(&mut out, t.as_slice(), i + 1, i + n);
                        tag = copy_range(t.as_slice(), i, i + n);
                        mode = ScanMode::DollarQuoted;
                        i += n;
                    } else if ch == '-' && i + 1 < t.len() && t[i + 1] == '-' {
                        mode = ScanMode::LineComment;
                        i += 1;
                    } else if ch == '/' && i + 1 < t.len() && t[i + 1] == '*' {
                        mode = ScanMode::BlockComment;
                        i += 1;
                    } else {
                        i += 1;
                    }
                }
            },
            ScanMode::SingleQuoted => {
                out.push(ch);
                if ch == '\'' && i + 1 < t.len() && t[i + 1] == '\'' {
                    out.push('\'');
                    i += 2;
                } else {
                    if ch == '\'' {
                        mode = ScanMode::Normal;
                    }
                    i += 1;
                }
            },
            ScanMode::DoubleQuoted => {
                out.push(ch);
                if ch == '"' && i + 1 < t.len() && t[i + 1] == '"' {
                    out.push('"');
                    i += 2;
                } else {
                    if ch == '"' {
                        mode = ScanMode::Normal;
                    }
                    i += 1;
                }
            },
            ScanMode::BacktickQuoted => {
                out.push(ch);
                if ch == '`' && i + 1 < t.len() && t[i + 1] == '`' {
                    out.push('`');
                    i += 2;
                } else {
                    if ch == '`' {
                        mode = ScanMode::Normal;
                    }
                    i += 1;
                }
            },
            ScanMode::DollarQuoted => {
                if occurs_at_exec(t.as_slice(), i, tag.as_slice()) {
                    push_range(&mut out, tag.as_slice(), 0, tag.len());
                    assert(tag@.subrange(0, tag@.len() as int) == tag@);
                    i += tag.len();
                    mode = ScanMode::Normal;
                } else {
                    out.push(ch);
                    i += 1;
                }
            },
            ScanMode::LineComment => {
                out.push(ch);
                if ch == '\n' {
                    mode = ScanMode::Normal;
                }
                i += 1;
            },
            ScanMode::BlockComment => {
                out.push(ch);
                if ch == '/' && i > 0 && t[i - 1] == '*' {
                    mode = ScanMode::Normal;
                }
                i += 1;
            },
        }
        assert(i == step.0 && mode == step.1 && tag@ == step.2 && pending == step.3 && out@
            == step.4);
    }
    out
}

/// Collapses runs of whitespace outside quoted values and comments into single
/// spaces, so model SQL renders tidily without misrepresenting literal text.
pub fn collapse_whitespace(text: &str) -> (r: String)
    ensures
        r@ == spec_collapse(text@),
{
    let t = chars_of(text);
    let out = collapse_chars(&t);
    string_of(out.as_slice())
}

/// The clause keywords, as character vectors.
fn keyword_table() -> (kws: Vec<Vec<char>>)
    ensures
        kws@.map_values(|k: Vec<char>| k@) == sql_keywords(),
{
    let mut kws: Vec<Vec<char>> = Vec::new();
    kws.push(chars_of("LEFT JOIN"));
    kws.push(chars_of("RIGHT JOIN"));
    kws.push(chars_of("INNER JOIN"));
    kws.push(chars_of("OUTER JOIN"));
    kws.push(chars_of("FULL JOIN"));
    kws.push(chars_of("CROSS JOIN"));
    kws.push(chars_of("GROUP BY"));
    kws.push(chars_of("ORDER BY"));
    kws.push(chars_of("UNION ALL"));
    kws.push(chars_of("FROM"));
    kws.push(chars_of("WHERE"));
    kws.push(chars_of("HAVING"));
    kws.push(chars_of("LIMIT"));
    kws.push(chars_of("OFFSET"));
    kws.push(chars_of("JOIN"));
    kws.push(chars_of("UNION"));
    kws.push(chars_of("VALUES"));
    kws.push(chars_of("RETURNING"));
    assert(kws@.map_values(|k: Vec<char>| k@) =~= sql_keywords());
    kws
}

/// Removes trailing spaces from `out`, then ends it with one line break.
fn break_line(out: &mut Vec<char>)
    ensures
        final(out)@ == line_break(old(out)@),
{
    while out.len() > 0 && out[out.len() - 1] == ' '
        invariant
            trim_trailing_spaces(out@) == trim_trailing_spaces(old(out)@),
        decreases out.len(),
    {
        let ghost before = out@;
        out.pop();
        assert(out@ == before.drop_last());
    }
    if !(out.len() > 0 && out[out.len() - 1] == '\n') {
        out.push('\n');
    }
}

/// The line-breaking scanner over collapsed characters.
fn format_chars(c: &Vec<char>) -> (out: Vec<char>)
    ensures
        out@ == format_run(c@, 0, ScanMode::Normal, Seq::empty(), Seq::empty()),
{
    let keywords = keyword_table();
    let mut out: Vec<char> = Vec::new();
    let mut mode = ScanMode::Normal;
    let mut tag: Vec<char> = Vec::new();
    let mut i: usize = 0;
    while i < c.len()
        invariant
            i <= c.len(),
            keywords@.map_values(|k: Vec<char>| k@) == sql_keywords(),
            format_run(c@, i as int, mode, tag@, out@) == format_run(
                c@,
                0,
                ScanMode::Normal,
                Seq::empty(),
                Seq::empty(),
            ),
            mode is DollarQuoted ==> tag@.len() >= 2,
        decreases c.len() - i,
    {
        let ghost step = format_step(c@, i as int, mode, tag@, out@);
        proof {
            lemma_format_step_advances(c@, i as int, mode, tag@, out@);
            lemma_dollar_tag_len_bounds(c@, i as int);
        }
        let ch = c[i];
        if matches!(mode, ScanMode::Normal) && keyword_at(c.as_slice(), i, keywords.as_slice())
            && !inside_keyword_exec(c.as_slice(), i, keywords.as_slice()) {
            break_line(&mut out);
        }
        out.push(ch);
        match mode {
            ScanMode::Normal => {
                if ch == '\'' {
                    mode = ScanMode::SingleQuoted;
                    i += 1;
                } else if ch == '"' {
                    mode = ScanMode::DoubleQuoted;
                    i += 1;
                } else if ch == '`' {
                    mode = ScanMode::BacktickQuoted;
                    i += 1;
                } else if ch == '$' && dollar_quote_tag_at(c.as_slice(), i).is_some() {
                    let n = match dollar_quote_tag_at(c.as_slice(), i) {
                        Some(n) => n,
                        None => 1,
                    };
                    push_range(&mut out, c.as_slice(), i + 1, i + n);
                    tag = copy_range(c.as_slice(), i, i + n);
                    mode = ScanMode::DollarQuoted;
                    i += n;
                } else if ch == '-' && i + 1 < c.len() && c[i + 1] == '-' {
                    mode = ScanMode::LineComment;
                    i += 1;
                } else if ch == '/' && i + 1 < c.len() && c[i + 1] == '*' {
                    mode = ScanMode::BlockComment;
                    i += 1;
                } else {
                    i += 1;
                }
            },
            ScanMode::SingleQuoted => {
                if ch == '\'' && i + 1 < c.len() && c[i + 1] == '\'' {
                    out.push('\'');
                    i += 2;
                } else {
                    if ch == '\'' {
                        mode = ScanMode::Normal;
                    }
                    i += 1;
                }
            },
            ScanMode::DoubleQuoted => {
                if ch == '"' && i + 1 < c.len() && c[i + 1] == '"' {
                    out.push('"');
                    i += 2;
                } else {
                    if ch == '"' {
                        mode = ScanMode::Normal;
                    }
                    i += 1;
                }
            },
            ScanMode::BacktickQuoted => {
                if ch == '`' && i + 1 < c.len() && c[i + 1] == '`' {
                    out.push('`');
                    i += 2;
                } else {
                    if ch == '`' {
                        mode = ScanMode::Normal;
                    }
                    i += 1;
                }
            },
            ScanMode::DollarQuoted => {
                if occurs_at_exec(c.as_slice(), i, tag.as_slice()) {
                    push_range(&mut out, tag.as_slice(), 1, tag.len());
                    i += tag.len();
                    mode = ScanMode::Normal;
                } else {
                    i += 1;
                }
            },
            ScanMode::LineComment => {
                if ch == '\n' {
                    mode = ScanMode::Normal;
                }
                i += 1;
            },
            ScanMode::BlockComment => {
                if ch == '/' && i > 0 && c[i - 1] == '*' {
                    mode = ScanMode::Normal;
                }
                i += 1;
            },
        }
        assert(i == step.0 && mode == step.1 && tag@ == step.2 && out@ == step.3);
    }
    out
}

/// Formats a SQL string for readable multi-line display. Purely cosmetic and
/// never used to build a query that executes: it collapses runs of whitespace
/// to single spaces, then inserts a line break before each major clause
/// keyword (case-insensitive, whole word), preserving the original casing of
/// the text. Quoted values, identifiers, and comments are left intact.
pub fn format_sql(sql: &str) -> (r: String)
    ensures
        r@ == spec_format_sql(sql@),
{
    let t = chars_of(sql);
    let collapsed = collapse_chars(&t);
    let out = format_chars(&collapsed);
    string_of(out.as_slice())
}


proof fn lemma_strip_subrange_split(t: Seq<char>, i: int, j: int, k: int)
    requires
        0 <= i <= j <= k <= t.len(),
    ensures
        strip_whitespace(t.subrange(i, k)) == strip_whitespace(t.subrange(i, j))
            + strip_whitespace(t.subrange(j, k)),
{
    assert(t.subrange(i, k) == t.subrange(i, j) + t.subrange(j, k));
    lemma_strip_whitespace_concat(t.subrange(i, j), t.subrange(j, k));
}

/// Appending `t[i..j]` to `out` adds exactly its visible characters.
proof fn lemma_strip_append_range(out: Seq<char>, t: Seq<char>, i: int, j: int)
    requires
        0 <= i <= j <= t.len(),
    ensures
        strip_whitespace(out + t.subrange(i, j)) == strip_whitespace(out) + strip_whitespace(
            t.subrange(i, j),
        ),
{
    lemma_strip_whitespace_concat(out, t.subrange(i, j));
}

proof fn lemma_collapse_step_visible(
    t: Seq<char>,
    i: int,
    mode: ScanMode,
    tag: Seq<char>,
    pending: bool,
    out: Seq<char>,
)
    requires
        0 <= i < t.len(),
    ensures
        strip_whitespace(collapse_step(t, i, mode, tag, pending, out).4) == strip_whitespace(out)
            + strip_whitespace(t.subrange(i, collapse_step(t, i, mode, tag, pending, out).0)),
{
    lemma_collapse_step_advances(t, i, mode, tag, pending, out);
    lemma_dollar_tag_len_bounds(t, i);
    let (i2, m2, g2, p2, o2) = collapse_step(t, i, mode, tag, pending, out);
    let ch = t[i];
    assert(out.push(ch) == out + t.subrange(i, i + 1));
    lemma_strip_append_range(out, t, i, i + 1);
    match mode {
        ScanMode::Normal => {
            if spec_is_whitespace(ch) {
                assert(t.subrange(i, i + 1).drop_last() == Seq::<char>::empty());
                assert(t.subrange(i, i + 1).last() == ch);
                assert(strip_whitespace(Seq::<char>::empty()) == Seq::<char>::empty());
                assert(strip_whitespace(t.subrange(i, i + 1)) == Seq::<char>::empty());
                assert(out + Seq::<char>::empty() == out);
            } else {
                let base = if pending {
                    out.push(' ')
                } else {
                    out
                };
                if pending {
                    assert(out.push(' ').drop_last() == out);
                }
                assert(strip_whitespace(base) == strip_whitespace(out));
                assert(base.push(ch) == base + t.subrange(i, i + 1));
                lemma_strip_append_range(base, t, i, i + 1);
                if ch == '$' && dollar_tag_len(t, i) is Some {
                    let n = dollar_tag_len(t, i).unwrap();
                    lemma_strip_append_range(base.push(ch), t, i + 1, i + n);
                    lemma_strip_subrange_split(t, i, i + 1, i + n);
                }
            }
        },
        ScanMode::SingleQuoted | ScanMode::DoubleQuoted | ScanMode::BacktickQuoted => {
            if i2 == i + 2 {
                assert(o2 == out + t.subrange(i, i + 2));
                lemma_strip_append_range(out, t, i, i + 2);
            }
        },
        ScanMode::DollarQuoted => {
            if tag.len() > 0 && occurs_at(t, i, tag) {
                lemma_strip_append_range(out, t, i, i + tag.len());
            }
        },
        _ => {},
    }
}

proof fn lemma_collapse_run_visible(
    t: Seq<char>,
    i: int,
    mode: ScanMode,
    tag: Seq<char>,
    pending: bool,
    out: Seq<char>,
)
    requires
        0 <= i <= t.len(),
    ensures
        strip_whitespace(collapse_run(t, i, mode, tag, pending, out)) == strip_whitespace(out)
            + strip_whitespace(t.subrange(i, t.len() as int)),
    decreases t.len() - i,
{
    if i < t.len() {
        let (i2, m2, g2, p2, o2) = collapse_step(t, i, mode, tag, pending, out);
        lemma_collapse_step_advances(t, i, mode, tag, pending, out);
        lemma_collapse_step_visible(t, i, mode, tag, pending, out);
        lemma_collapse_run_visible(t, i2, m2, g2, p2, o2);
        lemma_strip_subrange_split(t, i, i2, t.len() as int);
    } else {
        assert(t.subrange(i, t.len() as int) == Seq::<char>::empty());
        assert(strip_whitespace(out) + Seq::<char>::empty() == strip_whitespace(out));
    }
}

/// Collapsing only ever rewrites whitespace: the visible (non-whitespace)
/// characters of the text come out unchanged and in order.
pub proof fn lemma_collapse_keeps_visible_text(t: Seq<char>)
    ensures
        strip_whitespace(spec_collapse(t)) == strip_whitespace(t),
{
    lemma_collapse_run_visible(t, 0, ScanMode::Normal, Seq::empty(), false, Seq::empty());
    assert(t.subrange(0, t.len() as int) == t);
    assert(Seq::<char>::empty() + strip_whitespace(t) == strip_whitespace(t));
}

proof fn lemma_trim_trailing_spaces_visible(s: Seq<char>)
    ensures
        strip_whitespace(trim_trailing_spaces(s)) == strip_whitespace(s),
    decreases s.len(),
{
    if s.len() > 0 && s.last() == ' ' {
        lemma_trim_trailing_spaces_visible(s.drop_last());
    }
}

proof fn lemma_line_break_visible(out: Seq<char>)
    ensures
        strip_whitespace(line_break(out)) == strip_whitespace(out),
{
    lemma_trim_trailing_spaces_visible(out);
    let o = trim_trailing_spaces(out);
    assert(o.push('\n').drop_last() == o);
}

proof fn lemma_format_step_visible(c: Seq<char>, i: int, mode: ScanMode, tag: Seq<char>, out: Seq<char>)
    requires
        0 <= i < c.len(),
    ensures
        strip_whitespace(format_step(c, i, mode, tag, out).3) == strip_whitespace(out)
            + strip_whitespace(c.subrange(i, format_step(c, i, mode, tag, out).0)),
{
    lemma_format_step_advances(c, i, mode, tag, out);
    lemma_dollar_tag_len_bounds(c, i);
    let (i2, m2, g2, o2) = format_step(c, i, mode, tag, out);
    let ch = c[i];
    let base = if mode is Normal && breaks_at(c, i, sql_keywords()) {
        line_break(out)
    } else {
        out
    };
    lemma_line_break_visible(out);
    assert(strip_whitespace(base) == strip_whitespace(out));
    assert(base.push(ch) == base + c.subrange(i, i + 1));
    lemma_strip_append_range(base, c, i, i + 1);
    let o = base.push(ch);
    match mode {
        ScanMode::Normal => {
            if ch == '$' && dollar_tag_len(c, i) is Some {
                let n = dollar_tag_len(c, i).unwrap();
                lemma_strip_append_range(o, c, i + 1, i + n);
                lemma_strip_subrange_split(c, i, i + 1, i + n);
            }
        },
        ScanMode::SingleQuoted | ScanMode::DoubleQuoted | ScanMode::BacktickQuoted => {
            if i2 == i + 2 {
                assert(o2 == base + c.subrange(i, i + 2));
                lemma_strip_append_range(base, c, i, i + 2);
            }
        },
        ScanMode::DollarQuoted => {
            if tag.len() > 0 && occurs_at(c, i, tag) {
                assert(c.subrange(i + 1, i + tag.len()) == tag.subrange(1, tag.len() as int));
                lemma_strip_append_range(o, c, i + 1, i + tag.len());
                lemma_strip_subrange_split(c, i, i + 1, i + tag.len());
            }
        },
        _ => {},
    }
}

proof fn lemma_format_run_visible(c: Seq<char>, i: int, mode: ScanMode, tag: Seq<char>, out: Seq<char>)
    requires
        0 <= i <= c.len(),
    ensures
        strip_whitespace(format_run(c, i, mode, tag, out)) == strip_whitespace(out)
            + strip_whitespace(c.subrange(i, c.len() as int)),
    decreases c.len() - i,
{
    if i < c.len() {
        let (i2, m2, g2, o2) = format_step(c, i, mode, tag, out);
        lemma_format_step_advances(c, i, mode, tag, out);
        lemma_format_step_visible(c, i, mode, tag, out);
        lemma_format_run_visible(c, i2, m2, g2, o2);
        lemma_strip_subrange_split(c, i, i2, c.len() as int);
    } else {
        assert(c.subrange(i, c.len() as int) == Seq::<char>::empty());
        assert(strip_whitespace(out) + Seq::<char>::empty() == strip_whitespace(out));
    }
}

/// Formatting for display is purely cosmetic: only whitespace is added,
/// removed or changed, so the visible characters of the SQL are exactly
/// those of the input, in the same order.
pub proof fn lemma_format_sql_keeps_visible_text(t: Seq<char>)
    ensures
        strip_whitespace(spec_format_sql(t)) == strip_whitespace(t),
{
    let c = spec_collapse(t);
    lemma_format_run_visible(c, 0, ScanMode::Normal, Seq::empty(), Seq::empty());
    assert(c.subrange(0, c.len() as int) == c);
    assert(Seq::<char>::empty() + strip_whitespace(c) == strip_whitespace(c));
    lemma_collapse_keeps_visible_text(t);
}

proof fn lemma_keyword_spaces(k: int, d: int)
    requires
        0 <= k < sql_keywords().len(),
        0 <= d < sql_keywords()[k].len(),
        ({
            let u = sql_keywords()[k][d] as u32;
            u == 9 || u == 10 || u == 12 || u == 13 || u == 32
        }),
    ensures
        sql_keywords()[k][d] == ' ',
        d + 1 < sql_keywords()[k].len(),
        sql_keywords()[k][d + 1] == 'J' || sql_keywords()[k][d + 1] == 'B' || sql_keywords()[k][d
            + 1] == 'A',
        d > 0,
        ({
            let u = sql_keywords()[k][d - 1] as u32;
            u == 0x54 || u == 0x52 || u == 0x4C || u == 0x53 || u == 0x50 || u == 0x4E
        }),
{
    reveal_strlit("LEFT JOIN");
    reveal_strlit("RIGHT JOIN");
    reveal_strlit("INNER JOIN");
    reveal_strlit("OUTER JOIN");
    reveal_strlit("FULL JOIN");
    reveal_strlit("CROSS JOIN");
    reveal_strlit("GROUP BY");
    reveal_strlit("ORDER BY");
    reveal_strlit("UNION ALL");
    reveal_strlit("FROM");
    reveal_strlit("WHERE");
    reveal_strlit("HAVING");
    reveal_strlit("LIMIT");
    reveal_strlit("OFFSET");
    reveal_strlit("JOIN");
    reveal_strlit("UNION");
    reveal_strlit("VALUES");
    reveal_strlit("RETURNING");
    let kw = sql_keywords()[k];
    if k == 0 {
        assert(kw == "LEFT JOIN"@);
    } else if k == 1 {
        assert(kw == "RIGHT JOIN"@);
    } else if k == 2 {
        assert(kw == "INNER JOIN"@);
    } else if k == 3 {
        assert(kw == "OUTER JOIN"@);
    } else if k == 4 {
        assert(kw == "FULL JOIN"@);
    } else if k == 5 {
        assert(kw == "CROSS JOIN"@);
    } else if k == 6 {
        assert(kw == "GROUP BY"@);
    } else if k == 7 {
        assert(kw == "ORDER BY"@);
    } else if k == 8 {
        assert(kw == "UNION ALL"@);
    } else if k == 9 {
        assert(kw == "FROM"@);
    } else if k == 10 {
        assert(kw == "WHERE"@);
    } else if k == 11 {
        assert(kw == "HAVING"@);
    } else if k == 12 {
        assert(kw == "LIMIT"@);
    } else if k == 13 {
        assert(kw == "OFFSET"@);
    } else if k == 14 {
        assert(kw == "JOIN"@);
    } else if k == 15 {
        assert(kw == "UNION"@);
    } else if k == 16 {
        assert(kw == "VALUES"@);
    } else if k == 17 {
        assert(kw == "RETURNING"@);
    }
}

/// No clause keyword that began earlier covers a position right after
/// whitespace unless its next word begins there, and every later word of a
/// multi-word clause keyword begins with `J`, `B` or `A`.
proof fn lemma_not_inside_keyword(c: Seq<char>, i: int)
    requires
        0 < i < c.len(),
        spec_is_ascii_whitespace(c[i - 1]),
        ({
            let u = c[i] as u32;
            u != 0x6A && u != 0x4A && u != 0x62 && u != 0x42 && u != 0x61 && u != 0x41
        }),
    ensures
        !inside_keyword(c, i, sql_keywords()),
{
    if inside_keyword(c, i, sql_keywords()) {
        let (k, p) = choose|k: int, p: int|
            0 <= k < sql_keywords().len() && #[trigger] keyword_covers(c, p, sql_keywords()[k], i);
        let kw = sql_keywords()[k];
        let w = c.subrange(p, p + kw.len() as int);
        assert(chars_eq_ignore_ascii_case(w[i - 1 - p], kw[i - 1 - p]));
        assert(w[i - 1 - p] == c[i - 1]);
        let u = c[i - 1] as u32;
        assert(u == 9 || u == 10 || u == 12 || u == 13 || u == 32);
        let v = kw[i - 1 - p] as u32;
        assert(v == 9 || v == 10 || v == 12 || v == 13 || v == 32);
        lemma_keyword_spaces(k, i - 1 - p);
        assert(chars_eq_ignore_ascii_case(w[i - p], kw[i - p]));
        assert(w[i - p] == c[i]);
        let z = kw[i - p] as u32;
        assert(z == 0x4A || z == 0x42 || z == 0x41);
    }
}

/// A whole-word clause keyword in plain SQL gets a line break before it:
/// `FROM`, `WHERE`, `HAVING`, `LIMIT`, `OFFSET`, `UNION`, `VALUES`,
/// `RETURNING`, and each multi-word keyword before its first word, matched
/// up to ASCII case where whitespace precedes it and whitespace or the end
/// follows it. The formatter's step there ends the line (trailing spaces
/// dropped) and starts the keyword on the next.
pub proof fn lemma_clause_keywords_break(c: Seq<char>, i: int, kw: Seq<char>, tag: Seq<char>, out: Seq<char>)
    requires
        kw == "FROM"@ || kw == "WHERE"@ || kw == "HAVING"@ || kw == "LIMIT"@ || kw == "OFFSET"@
            || kw == "UNION"@ || kw == "VALUES"@ || kw == "RETURNING"@ || kw == "GROUP BY"@ || kw
            == "ORDER BY"@ || kw == "UNION ALL"@ || kw == "LEFT JOIN"@ || kw == "RIGHT JOIN"@ || kw
            == "INNER JOIN"@ || kw == "OUTER JOIN"@ || kw == "FULL JOIN"@ || kw == "CROSS JOIN"@,
        0 < i < c.len(),
        spec_is_ascii_whitespace(c[i - 1]),
        keyword_matches_at(c, i, kw),
    ensures
        breaks_at(c, i, sql_keywords()),
        format_step(c, i, ScanMode::Normal, tag, out).3 == line_break(out).push(c[i]),
        line_break(out).last() == '\n',
{
    reveal_strlit("LEFT JOIN");
    reveal_strlit("RIGHT JOIN");
    reveal_strlit("INNER JOIN");
    reveal_strlit("OUTER JOIN");
    reveal_strlit("FULL JOIN");
    reveal_strlit("CROSS JOIN");
    reveal_strlit("GROUP BY");
    reveal_strlit("ORDER BY");
    reveal_strlit("UNION ALL");
    reveal_strlit("FROM");
    reveal_strlit("WHERE");
    reveal_strlit("HAVING");
    reveal_strlit("LIMIT");
    reveal_strlit("OFFSET");
    reveal_strlit("JOIN");
    reveal_strlit("UNION");
    reveal_strlit("VALUES");
    reveal_strlit("RETURNING");
    let k: int = if kw == "FROM"@ {
        9
    } else if kw == "WHERE"@ {
        10
    } else if kw == "HAVING"@ {
        11
    } else if kw == "LIMIT"@ {
        12
    } else if kw == "OFFSET"@ {
        13
    } else if kw == "UNION"@ {
        15
    } else if kw == "VALUES"@ {
        16
    } else if kw == "RETURNING"@ {
        17
    } else if kw == "GROUP BY"@ {
        6
    } else if kw == "ORDER BY"@ {
        7
    } else if kw == "UNION ALL"@ {
        8
    } else if kw == "LEFT JOIN"@ {
        0
    } else if kw == "RIGHT JOIN"@ {
        1
    } else if kw == "INNER JOIN"@ {
        2
    } else if kw == "OUTER JOIN"@ {
        3
    } else if kw == "FULL JOIN"@ {
        4
    } else {
        5
    };
    assert(sql_keywords()[k] == kw);
    assert(keyword_matches_at(c, i, sql_keywords()[k]));
    assert(spec_keyword_at(c, i, sql_keywords()));
    let w = c.subrange(i, i + kw.len() as int);
    assert(chars_eq_ignore_ascii_case(w[0], kw[0]));
    assert(w[0] == c[i]);
    lemma_not_inside_keyword(c, i);
}

/// A clause keyword that began earlier covers a position right after
/// whitespace only when the word before that whitespace ends in `T`, `R`,
/// `L`, `S`, `P` or `N` (up to case), as `LEFT`, `OUTER`, `FULL`, `CROSS`,
/// `GROUP` and `UNION` do.
proof fn lemma_not_inside_after_other_word(c: Seq<char>, i: int)
    requires
        0 < i < c.len(),
        spec_is_ascii_whitespace(c[i - 1]),
        i == 1 || ({
            let u = ascii_lower(c[i - 2] as u32);
            u != 0x74 && u != 0x72 && u != 0x6C && u != 0x73 && u != 0x70 && u != 0x6E
        }),
    ensures
        !inside_keyword(c, i, sql_keywords()),
{
    if inside_keyword(c, i, sql_keywords()) {
        let (k, p) = choose|k: int, p: int|
            0 <= k < sql_keywords().len() && #[trigger] keyword_covers(c, p, sql_keywords()[k], i);
        let kw = sql_keywords()[k];
        let w = c.subrange(p, p + kw.len() as int);
        assert(chars_eq_ignore_ascii_case(w[i - 1 - p], kw[i - 1 - p]));
        assert(w[i - 1 - p] == c[i - 1]);
        let u = c[i - 1] as u32;
        assert(u == 9 || u == 10 || u == 12 || u == 13 || u == 32);
        let v = kw[i - 1 - p] as u32;
        assert(v == 9 || v == 10 || v == 12 || v == 13 || v == 32);
        lemma_keyword_spaces(k, i - 1 - p);
        assert(i >= 2);
        assert(chars_eq_ignore_ascii_case(w[i - 2 - p], kw[i - 2 - p]));
        assert(w[i - 2 - p] == c[i - 2]);
        let z = kw[i - 2 - p] as u32;
        assert(z == 0x54 || z == 0x52 || z == 0x4C || z == 0x53 || z == 0x50 || z == 0x4E);
        assert(ascii_lower(z) == z + 0x20);
    }
}

/// A whole-word `JOIN` in plain SQL gets a line break before it unless it
/// continues a multi-word join keyword: whenever the word before it does
/// not end like `LEFT`, `RIGHT`, `INNER`, `OUTER`, `FULL` or `CROSS` (and
/// neither like `GROUP` or `UNION`), the formatter's step there ends the line
/// and starts `JOIN` on the next.
pub proof fn lemma_join_breaks_after_other_words(c: Seq<char>, i: int, tag: Seq<char>, out: Seq<char>)
    requires
        0 < i < c.len(),
        spec_is_ascii_whitespace(c[i - 1]),
        keyword_matches_at(c, i, "JOIN"@),
        i == 1 || ({
            let u = ascii_lower(c[i - 2] as u32);
            u != 0x74 && u != 0x72 && u != 0x6C && u != 0x73 && u != 0x70 && u != 0x6E
        }),
    ensures
        breaks_at(c, i, sql_keywords()),
        format_step(c, i, ScanMode::Normal, tag, out).3 == line_break(out).push(c[i]),
        line_break(out).last() == '\n',
{
    reveal_strlit("LEFT JOIN");
    reveal_strlit("RIGHT JOIN");
    reveal_strlit("INNER JOIN");
    reveal_strlit("OUTER JOIN");
    reveal_strlit("FULL JOIN");
    reveal_strlit("CROSS JOIN");
    reveal_strlit("GROUP BY");
    reveal_strlit("ORDER BY");
    reveal_strlit("UNION ALL");
    reveal_strlit("FROM");
    reveal_strlit("WHERE");
    reveal_strlit("HAVING");
    reveal_strlit("LIMIT");
    reveal_strlit("OFFSET");
    reveal_strlit("JOIN");
    reveal_strlit("UNION");
    reveal_strlit("VALUES");
    reveal_strlit("RETURNING");
    assert(sql_keywords()[14] == "JOIN"@);
    assert(keyword_matches_at(c, i, sql_keywords()[14]));
    assert(spec_keyword_at(c, i, sql_keywords()));
    let w = c.subrange(i, i + 4);
    assert(chars_eq_ignore_ascii_case(w[0], "JOIN"@[0]));
    assert(w[0] == c[i]);
    lemma_not_inside_after_other_word(c, i);
}

} // verus!
