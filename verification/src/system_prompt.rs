//! System prompt assembly for agent turns: the connection context, the
//! memory briefing (only when memory is assisted and reachable), the working
//! guidance, the answer contract, and the engine naming and dialect section.
//! The prompt is session-stable: it depends on the session's inputs alone,
//! and the per-turn last-SQL hint rides the user turn as a context block,
//! never the system prompt.

use vstd::prelude::*;

use crate::text::{push_str, spec_is_whitespace};

verus! {

/// The memory briefing included when assisted memory is active and
/// reachable.
pub const MEMORY_SYSTEM_PROMPT: &'static str = "\
SAYA maintains durable knowledge about the user's databases across sessions. \
Confirmed facts relevant to the question are already supplied in context; there is no need to fetch them. \
The `contract_search` and `contract_read` tools are available for objects discovered mid-turn that were not in the supplied set. \
When the user states something durable about their data — what a word means, which column counts, what a table's grain is — restate it explicitly and precisely in the answer. What SAYA records is drawn from the turn, so a vague restatement is recorded vaguely.";

/// Coaching that applies to every turn: multi-step work is the norm, a
/// failed query is not repeated, and a question no connected database can
/// answer ends with a stated reason rather than a loop.
pub const WORKING_GUIDANCE: &'static str = "Discover the schema before you query it; multi-step work is \
    expected. Do not repeat a query that already failed — change your approach instead. When the \
    question cannot be answered from this database, stop and say so, explaining what you tried and \
    what is missing: a missing table or column, data that is not present, or a question the schema \
    cannot express. Giving up with a reason is a correct outcome; looping is not.";

/// The shape an answer must take.
pub const ANSWER_CONTRACT: &'static str = "Answer the question exactly as asked:\n\
    - Return only the columns the question asks for; drop intermediate working columns.\n\
    - Do not round unless asked.\n\
    - Write dates as ISO YYYY-MM-DD.\n\
    - \"The highest\" or \"the top one\" means that single row, not the ranking it came from.\n\
    - Answer every quantity the question names; if it asks for two things, answer both.\n\
    - Read measure words literally: \"volume\" is units, \"revenue\" is money.\n\
    - A qualifier on a metric is not a qualifier on the population — filter the metric, not the rows.\n\
    - Keep every row tied at a cut-off; never drop a tie to fit a limit.\n\
    - When a period is named, enumerate that whole period, not only the rows that happen to appear in the data.";

/// Label for the last-SQL hint context block.
pub const LAST_SQL_BLOCK_LABEL: &'static str = "last-sql";

/// How durable memory is configured.
#[derive(PartialEq, Eq, Structural, Clone, Copy, Debug)]
pub enum MemoryMode {
    Off,
    Assisted,
}

/// A labelled block of untrusted context carried on the user turn.
#[derive(Debug, PartialEq)]
pub struct ContextBlock {
    pub label: String,
    pub body: String,
    pub truncated: bool,
}

/// Memory section for the system prompt, present only when assisted.
pub fn memory_section(mode: MemoryMode) -> (r: Option<&'static str>)
    ensures
        match r {
            Some(s) => mode == MemoryMode::Assisted && s@ == MEMORY_SYSTEM_PROMPT@,
            None => mode != MemoryMode::Assisted,
        },
{
    match mode {
        MemoryMode::Assisted => Some(MEMORY_SYSTEM_PROMPT),
        _ => None,
    }
}

/// Whether this turn can honour what the memory section promises: the state
/// store opened and the privacy gate is open.
pub fn memory_reachable(has_state_store: bool, allow_query_data: bool) -> (r: bool)
    ensures
        r == (has_state_store && allow_query_data),
{
    has_state_store && allow_query_data
}

/// `forms` with later repeats of an (engine, form) pair removed.
pub open spec fn dedupe_forms(forms: Seq<(Seq<char>, Seq<char>)>) -> Seq<(Seq<char>, Seq<char>)>
    decreases forms.len(),
{
    if forms.len() == 0 {
        forms
    } else {
        let d = dedupe_forms(forms.drop_last());
        if d.contains(forms.last()) {
            d
        } else {
            d.push(forms.last())
        }
    }
}

/// The naming and dialect sentence for a single connected engine.
pub open spec fn single_engine_text(engine: Seq<char>, form: Seq<char>) -> Seq<char> {
    "The SQL dialect is "@ + engine
        + "'s, whatever the DDL says — the declared column types in this database may come from another engine. Name objects as `"@
        + form
        + "` when writing SQL — the fullest form this engine accepts; an under-qualified name cannot be recorded against a real object and an over-qualified one is a syntax error."@
}

/// One list line of the multi-engine naming section.
pub open spec fn engine_line(engine: Seq<char>, form: Seq<char>) -> Seq<char> {
    "- "@ + engine + ": `"@ + form + "`"@
}

/// `parts` joined with `sep` between neighbours.
pub open spec fn join(parts: Seq<Seq<char>>, sep: Seq<char>) -> Seq<char>
    decreases parts.len(),
{
    if parts.len() == 0 {
        Seq::empty()
    } else if parts.len() == 1 {
        parts[0]
    } else {
        join(parts.drop_last(), sep) + sep + parts.last()
    }
}

/// The naming section for several connected engines.
pub open spec fn many_engines_text(forms: Seq<(Seq<char>, Seq<char>)>) -> Seq<char> {
    "Name objects with the fullest form the target engine accepts, and no more — an under-qualified name cannot be recorded against a real object, and an over-qualified one is a syntax error:\n"@
        + join(forms.map_values(|f: (Seq<char>, Seq<char>)| engine_line(f.0, f.1)), "\n"@)
        + "\nThe SQL dialect is the connected engine's, whatever the DDL says — the declared column types in a database may come from another engine."@
}

/// What `naming_section` returns for the connected engines' (name, name
/// form) pairs, in connection order.
pub open spec fn spec_naming_section(forms: Seq<(Seq<char>, Seq<char>)>) -> Option<Seq<char>> {
    let d = dedupe_forms(forms);
    if d.len() == 0 {
        None
    } else if d.len() == 1 {
        Some(single_engine_text(d[0].0, d[0].1))
    } else {
        Some(many_engines_text(d))
    }
}

fn pair_eq(a: &(String, String), b: &(String, String)) -> (r: bool)
    ensures
        r == ((a.0@, a.1@) == (b.0@, b.1@)),
{
    a.0 == b.0 && a.1 == b.1
}

/// The pairs' views.
pub open spec fn forms_view(forms: Seq<(String, String)>) -> Seq<(Seq<char>, Seq<char>)> {
    forms.map_values(|f: (String, String)| (f.0@, f.1@))
}

fn dedupe_form_pairs(forms: &[(String, String)]) -> (r: Vec<&(String, String)>)
    ensures
        r@.map_values(|f: &(String, String)| (f.0@, f.1@)) == dedupe_forms(forms_view(forms@)),
{
    let mut out: Vec<&(String, String)> = Vec::new();
    let ghost fv = forms_view(forms@);
    let mut i: usize = 0;
    while i < forms.len()
        invariant
            i <= forms.len(),
            fv == forms_view(forms@),
            out@.map_values(|f: &(String, String)| (f.0@, f.1@)) == dedupe_forms(fv.take(i as int)),
        decreases forms.len() - i,
    {
        let ghost ov = out@.map_values(|f: &(String, String)| (f.0@, f.1@));
        let mut seen = false;
        let mut q: usize = 0;
        while q < out.len()
            invariant
                q <= out.len(),
                ov == out@.map_values(|f: &(String, String)| (f.0@, f.1@)),
                seen == exists|k: int| 0 <= k < q && ov[k] == (forms@[i as int].0@, forms@[i as int].1@),
                i < forms.len(),
            decreases out.len() - q,
        {
            if pair_eq(out[q], &forms[i]) {
                assert(ov[q as int] == (forms@[i as int].0@, forms@[i as int].1@));
                seen = true;
            }
            q += 1;
        }
        assert(fv.take(i as int + 1).drop_last() =~= fv.take(i as int));
        assert(fv.take(i as int + 1).last() == fv[i as int]);
        assert(fv[i as int] == (forms@[i as int].0@, forms@[i as int].1@));
        assert(seen == ov.contains(fv[i as int]));
        if !seen {
            out.push(&forms[i]);
            assert(out@.map_values(|f: &(String, String)| (f.0@, f.1@)) =~= ov.push(fv[i as int]));
        }
        i += 1;
    }
    assert(fv.take(forms.len() as int) =~= fv);
    out
}

/// Joins `parts` with `sep` between neighbours.
pub fn join_lines(parts: &[String], sep: &str) -> (r: String)
    ensures
        r@ == join(parts@.map_values(|p: String| p@), sep@),
{
    let ghost pv = parts@.map_values(|p: String| p@);
    let mut r = String::new();
    let mut i: usize = 0;
    while i < parts.len()
        invariant
            i <= parts.len(),
            pv == parts@.map_values(|p: String| p@),
            r@ == join(pv.take(i as int), sep@),
        decreases parts.len() - i,
    {
        if i > 0 {
            push_str(&mut r, sep);
        }
        push_str(&mut r, parts[i].as_str());
        proof {
            assert(pv.take(i as int + 1).drop_last() =~= pv.take(i as int));
            assert(pv.take(i as int + 1).last() == pv[i as int]);
            if i == 0 {
                assert(pv.take(1) =~= seq![pv[0]]);
            }
        }
        i += 1;
    }
    assert(pv.take(parts.len() as int) =~= pv);
    r
}

/// How the connected engines want an object named in SQL, plus the dialect
/// statement that names each engine and pins the SQL dialect: each engine
/// is told the fullest name it actually accepts, and that the SQL dialect is
/// the connected engine's whatever the declared column types say. `forms`
/// holds each connection's (engine name, name form) in connection order.
pub fn naming_section(forms: &[(String, String)]) -> (r: Option<String>)
    ensures
        match r {
            Some(s) => spec_naming_section(forms_view(forms@)) == Some(s@),
            None => spec_naming_section(forms_view(forms@)) is None,
        },
{
    let d = dedupe_form_pairs(forms);
    let ghost dv = d@.map_values(|f: &(String, String)| (f.0@, f.1@));
    if d.len() == 0 {
        return None;
    }
    if d.len() == 1 {
        let mut s = "The SQL dialect is ".to_owned();
        push_str(&mut s, d[0].0.as_str());
        push_str(
            &mut s,
            "'s, whatever the DDL says — the declared column types in this database may come from another engine. Name objects as `",
        );
        push_str(&mut s, d[0].1.as_str());
        push_str(
            &mut s,
            "` when writing SQL — the fullest form this engine accepts; an under-qualified name cannot be recorded against a real object and an over-qualified one is a syntax error.",
        );
        assert(dv[0] == (d@[0].0@, d@[0].1@));
        return Some(s);
    }
    let mut lines: Vec<String> = Vec::new();
    let mut i: usize = 0;
    while i < d.len()
        invariant
            i <= d.len(),
            dv == d@.map_values(|f: &(String, String)| (f.0@, f.1@)),
            lines@.map_values(|p: String| p@) =~= dv.take(i as int).map_values(
                |f: (Seq<char>, Seq<char>)| engine_line(f.0, f.1),
            ),
        decreases d.len() - i,
    {
        let mut line = "- ".to_owned();
        push_str(&mut line, d[i].0.as_str());
        push_str(&mut line, ": `");
        push_str(&mut line, d[i].1.as_str());
        push_str(&mut line, "`");
        assert(dv[i as int] == (d@[i as int].0@, d@[i as int].1@));
        assert(line@ == engine_line(dv[i as int].0, dv[i as int].1));
        let ghost before = lines@;
        lines.push(line);
        assert(lines@.map_values(|p: String| p@) =~= before.map_values(|p: String| p@).push(line@));
        assert(dv.take(i as int + 1) =~= dv.take(i as int).push(dv[i as int]));
        assert(dv.take(i as int + 1).map_values(|f: (Seq<char>, Seq<char>)| engine_line(f.0, f.1))
            =~= dv.take(i as int).map_values(|f: (Seq<char>, Seq<char>)| engine_line(f.0, f.1)).push(
            engine_line(dv[i as int].0, dv[i as int].1),
        ));
        i += 1;
    }
    assert(dv.take(d.len() as int) =~= dv);
    let list = join_lines(lines.as_slice(), "\n");
    let mut s = "Name objects with the fullest form the target engine accepts, and no more — an under-qualified name cannot be recorded against a real object, and an over-qualified one is a syntax error:\n".to_owned();
    push_str(&mut s, list.as_str());
    push_str(
        &mut s,
        "\nThe SQL dialect is the connected engine's, whatever the DDL says — the declared column types in a database may come from another engine.",
    );
    Some(s)
}

/// The hint prose for adapting the most recent executed SQL query.
pub open spec fn spec_last_sql_hint(sql: Seq<char>) -> Seq<char> {
    "For context, the most recent SQL you ran was:\n"@ + sql
        + "\n\nIf the user's request refines, filters, sorts, or drills into that previous result, adapt this query instead of rediscovering the schema from scratch."@
}

/// Hint prose for adapting the most recent executed SQL query, carried on
/// the user turn.
pub fn last_sql_hint(sql: &str) -> (r: String)
    ensures
        r@ == spec_last_sql_hint(sql@),
{
    let mut s = "For context, the most recent SQL you ran was:\n".to_owned();
    push_str(&mut s, sql);
    push_str(
        &mut s,
        "\n\nIf the user's request refines, filters, sorts, or drills into that previous result, adapt this query instead of rediscovering the schema from scratch.",
    );
    s
}

/// Every character of `s` is whitespace (`s.trim()` is empty).
pub open spec fn all_whitespace(s: Seq<char>) -> bool {
    forall|k: int| 0 <= k < s.len() ==> spec_is_whitespace(#[trigger] s[k])
}

/// The user-turn context block carrying the most recent SQL, or `None` for
/// empty or whitespace-only SQL.
pub fn last_sql_hint_block(sql: &str) -> (r: Option<ContextBlock>)
    ensures
        match r {
            Some(b) => !all_whitespace(sql@) && b.label@ == LAST_SQL_BLOCK_LABEL@ && b.body@
                == spec_last_sql_hint(sql@) && !b.truncated,
            None => all_whitespace(sql@),
        },
{
    let chars = crate::text::chars_of(sql);
    let mut k: usize = 0;
    let mut blank = true;
    while k < chars.len()
        invariant
            k <= chars.len(),
            chars@ == sql@,
            blank == forall|q: int| 0 <= q < k ==> spec_is_whitespace(#[trigger] sql@[q]),
        decreases chars.len() - k,
    {
        if !crate::text::is_whitespace(chars[k]) {
            blank = false;
        }
        k += 1;
    }
    if blank {
        return None;
    }
    Some(
        ContextBlock {
            label: LAST_SQL_BLOCK_LABEL.to_owned(),
            body: last_sql_hint(sql),
            truncated: false,
        },
    )
}

/// The sections of the system prompt, in order.
pub open spec fn prompt_sections(
    base: Option<Seq<char>>,
    memory_mode: MemoryMode,
    memory_reachable: bool,
    forms: Seq<(Seq<char>, Seq<char>)>,
) -> Seq<Seq<char>> {
    (match base {
        Some(b) => seq![b],
        None => Seq::empty(),
    }) + (if memory_reachable && memory_mode == MemoryMode::Assisted {
        seq![MEMORY_SYSTEM_PROMPT@]
    } else {
        Seq::empty()
    }) + seq![WORKING_GUIDANCE@, ANSWER_CONTRACT@] + (match spec_naming_section(forms) {
        Some(n) => seq![n],
        None => Seq::empty(),
    })
}

/// Assembles the system prompt from the connection context `base`, the
/// memory briefing (if assisted and reachable), the working guidance, the
/// answer contract, and the engine naming and dialect section, separated by
/// blank lines. It takes no SQL: the per-turn hint never reaches it.
pub fn assemble_system_prompt(
    base: Option<String>,
    memory_mode: MemoryMode,
    memory_reachable: bool,
    forms: &[(String, String)],
) -> (r: Option<String>)
    ensures
        match r {
            Some(p) => p@ == join(
                prompt_sections(
                    crate::workspace_edit::opt_view(base),
                    memory_mode,
                    memory_reachable,
                    forms_view(forms@),
                ),
                "\n\n"@,
            ),
            None => false,
        },
{
    let ghost bv = crate::workspace_edit::opt_view(base);
    let memory = if memory_reachable {
        memory_section(memory_mode)
    } else {
        None
    };
    let mut sections: Vec<String> = Vec::new();
    match base {
        Some(b) => {
            sections.push(b);
        },
        None => {},
    }
    match memory {
        Some(m) => {
            sections.push(m.to_owned());
        },
        None => {},
    }
    sections.push(WORKING_GUIDANCE.to_owned());
    sections.push(ANSWER_CONTRACT.to_owned());
    match naming_section(forms) {
        Some(n) => {
            sections.push(n);
        },
        None => {},
    }
    assert(sections@.map_values(|p: String| p@) =~= prompt_sections(
        bv,
        memory_mode,
        memory_reachable,
        forms_view(forms@),
    ));
    Some(join_lines(sections.as_slice(), "\n\n"))
}

/// `needle` occurs in `hay` as a contiguous run.
pub open spec fn is_infix(hay: Seq<char>, needle: Seq<char>) -> bool {
    exists|i: int|
        0 <= i && i + needle.len() <= hay.len() && #[trigger] hay.subrange(i, i + needle.len())
            == needle
}

/// Every part occurs in the joined text.
pub proof fn lemma_join_contains_part(parts: Seq<Seq<char>>, sep: Seq<char>, k: int)
    requires
        0 <= k < parts.len(),
    ensures
        is_infix(join(parts, sep), parts[k]),
    decreases parts.len(),
{
    let j = join(parts, sep);
    let n = parts[k].len();
    if parts.len() == 1 {
        let w: int = 0;
        assert(j.subrange(w, w + n) =~= parts[k]);
    } else {
        let front = join(parts.drop_last(), sep);
        if k == parts.len() - 1 {
            let w: int = (front.len() + sep.len()) as int;
            assert(j.subrange(w, w + n) =~= parts[k]);
        } else {
            lemma_join_contains_part(parts.drop_last(), sep, k);
            assert(parts.drop_last()[k] == parts[k]);
            let w = choose|i: int|
                0 <= i && i + n <= front.len() && #[trigger] front.subrange(i, i + n)
                    == parts[k];
            assert(j.subrange(w, w + n) =~= front.subrange(w, w + n));
        }
    }
}

/// The answer contract and the working guidance are part of every
/// assembled prompt, whatever the connections and the memory setting.
pub proof fn lemma_prompt_always_carries_the_contract(
    base: Option<Seq<char>>,
    memory_mode: MemoryMode,
    memory_reachable: bool,
    forms: Seq<(Seq<char>, Seq<char>)>,
)
    ensures
        is_infix(
            join(prompt_sections(base, memory_mode, memory_reachable, forms), "\n\n"@),
            ANSWER_CONTRACT@,
        ),
        is_infix(
            join(prompt_sections(base, memory_mode, memory_reachable, forms), "\n\n"@),
            WORKING_GUIDANCE@,
        ),
{
    let sections = prompt_sections(base, memory_mode, memory_reachable, forms);
    let b: int = if base is Some {
        1
    } else {
        0
    };
    let m: int = if memory_reachable && memory_mode == MemoryMode::Assisted {
        1
    } else {
        0
    };
    assert(sections[b + m] == WORKING_GUIDANCE@);
    assert(sections[b + m + 1] == ANSWER_CONTRACT@);
    lemma_join_contains_part(sections, "\n\n"@, b + m);
    lemma_join_contains_part(sections, "\n\n"@, b + m + 1);
}

} // verus!
