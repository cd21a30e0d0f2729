//! The tool definitions the agent advertises to the model: each tool's name,
//! description, parameter schema, effect declaration and completion wording.
//! Which tools appear follows the privacy gate, the state store and the
//! workspace-write permit: a tool the model could see but never use is
//! hidden rather than advertised.

use vstd::prelude::*;

use crate::json::{
    json_get, member_keys, object_view, array_view, push_member, Json, JsonV,
};
use crate::tool_args::tool_shape;
use crate::contract_args::contract_tool_shape;
use crate::json::members_get;
use crate::workspace_edit::opt_view;

verus! {

/// What a tool may touch on the local machine.
#[derive(PartialEq, Eq, Structural, Clone, Copy, Debug)]
pub enum LocalStateEffect {
    Nothing,
    Read,
    WriteWorkspace,
    WriteCandidate,
}

/// A tool's declared effects, which the agent loop's gates key on.
#[derive(PartialEq, Eq, Structural, Clone, Copy, Debug)]
pub struct ToolEffect {
    pub database_data: bool,
    pub external_side_effect: bool,
    pub requires_approval: bool,
    pub local_state: LocalStateEffect,
}

/// One advertised tool.
#[derive(Debug, PartialEq)]
pub struct ToolDefinition {
    pub name: String,
    pub description: String,
    pub read_only: bool,
    pub parameters: Json,
    pub effect: ToolEffect,
    pub completion: Option<String>,
}

/// What the catalogue says of one tool: its description, effects,
/// completion wording, parameter names and schemas, and required parameters (`None`
/// where the schema names no `required` list).
pub struct Advertised {
    pub description: Seq<char>,
    pub read_only: bool,
    pub effect: ToolEffect,
    pub completion: Option<Seq<char>>,
    pub properties: Seq<Seq<char>>,
    /// The schema of each parameter, in parameter order.
    pub schemas: Seq<JsonV>,
    pub required: Option<Seq<Seq<char>>>,
    /// The alternative argument sets the schema lists under `oneOf`, if any.
    pub one_of: Option<JsonV>,
}

pub open spec fn effect(
    database_data: bool,
    external_side_effect: bool,
    requires_approval: bool,
    local_state: LocalStateEffect,
) -> ToolEffect {
    ToolEffect { database_data, external_side_effect, requires_approval, local_state }
}

/// The JSON array of the given strings.
pub open spec fn string_array(items: Seq<Seq<char>>) -> JsonV {
    JsonV::Array(items.map_values(|k: Seq<char>| JsonV::String(k)))
}

/// `p` is an object schema declaring exactly `properties`, in order, the
/// `required` list (or none), and no additional properties.
pub open spec fn parameters_declare(
    p: JsonV,
    properties: Seq<Seq<char>>,
    required: Option<Seq<Seq<char>>>,
) -> bool {
    &&& json_get(p, "type"@) == Some(JsonV::String("object"@))
    &&& json_get(p, "properties"@) matches Some(JsonV::Object(m)) && member_keys(m) == properties
    &&& match required {
        Some(req) => json_get(p, "required"@) == Some(string_array(req)),
        None => json_get(p, "required"@) is None,
    }
    &&& json_get(p, "additionalProperties"@) == Some(JsonV::Bool(false))
}

/// `d` is the definition of the tool `name` with the catalogue entry `a`.
pub open spec fn describes(d: ToolDefinition, name: Seq<char>, a: Advertised) -> bool {
    &&& d.name@ == name
    &&& d.description@ == a.description
    &&& d.read_only == a.read_only
    &&& d.effect == a.effect
    &&& opt_view(d.completion) == a.completion
    &&& parameters_declare(d.parameters@, a.properties, a.required)
    &&& properties_declared(d.parameters@, a.schemas)
    &&& json_get(d.parameters@, "oneOf"@) == a.one_of
    &&& d.parameters@ matches JsonV::Object(m) && member_keys(m) == top_keys(a)
}

/// The members a parameter schema has, in order: `type`, `properties`,
/// `required` when the entry lists one, `additionalProperties`, and
/// `oneOf` when the entry lists alternatives.
pub open spec fn top_keys(a: Advertised) -> Seq<Seq<char>> {
    schema_keys(a.required is Some) + if a.one_of is Some {
        seq!["oneOf"@]
    } else {
        Seq::empty()
    }
}

/// The schemas of an object's members, in order.
pub open spec fn member_schemas(m: Seq<(Seq<char>, JsonV)>) -> Seq<JsonV> {
    m.map_values(|e: (Seq<char>, JsonV)| e.1)
}

/// The parameter schema `p` declares the property schemas `schemas`, in
/// order.
pub open spec fn properties_declared(p: JsonV, schemas: Seq<JsonV>) -> bool {
    json_get(p, "properties"@) matches Some(JsonV::Object(m)) && member_schemas(m) == schemas
}

/// The database tools advertised under the privacy gate, the
/// workspace-write permit and the chart-save permit, in order, each with its
/// catalogue entry. `render_chart` offers `save_to` only when both permits
/// are given.
pub open spec fn database_catalog(
    allow_query_data: bool,
    permit_workspace_writes: bool,
    permit_chart_save: bool,
) -> Seq<(Seq<char>, Advertised)> {
    seq![
        ("schema_discovery"@, schema_discovery_entry()),
        ("workspace_read"@, workspace_read_entry()),
        ("workspace_list"@, workspace_list_entry()),
        ("glob"@, glob_entry()),
        ("grep"@, grep_entry()),
    ] + (if permit_workspace_writes {
        seq![("workspace_edit"@, workspace_edit_entry()), ("workspace_write"@, workspace_write_entry())]
    } else {
        Seq::empty()
    }) + (if allow_query_data {
        seq![
            ("bounded_sql_query"@, bounded_sql_query_entry()),
            ("bounded_sql_query_all"@, bounded_sql_query_all_entry()),
            ("result_shape"@, result_shape_entry()),
            ("column_health"@, column_health_entry()),
            ("join_check"@, join_check_entry()),
            ("render_chart"@, render_chart_entry(permit_workspace_writes && permit_chart_save)),
            ("designate_answer"@, designate_answer_entry()),
        ]
    } else {
        Seq::empty()
    })
}

/// The contract tools, advertised only with a state store and an open
/// privacy gate.
pub open spec fn contract_catalog(allow_query_data: bool, has_state_store: bool) -> Seq<
    (Seq<char>, Advertised),
> {
    if allow_query_data && has_state_store {
        seq![("contract_search"@, contract_search_entry()), ("contract_read"@, contract_read_entry())]
    } else {
        Seq::empty()
    }
}

/// The tool names of a catalogue, in order.
pub open spec fn catalog_names(c: Seq<(Seq<char>, Advertised)>) -> Seq<Seq<char>> {
    c.map_values(|e: (Seq<char>, Advertised)| e.0)
}

/// `defs` holds, in order, the definitions the catalogue `c` lists.
pub open spec fn defines(defs: Seq<ToolDefinition>, c: Seq<(Seq<char>, Advertised)>) -> bool {
    &&& defs.len() == c.len()
    &&& forall|i: int| 0 <= i < c.len() ==> describes(#[trigger] defs[i], c[i].0, c[i].1)
}

/// A JSON object with the given members.
fn object(members: Vec<(String, Json)>) -> (r: Json)
    ensures
        r@ == JsonV::Object(object_view(members@)),
{
    Json::Object(members)
}

/// `{"type": ty}`.
pub open spec fn typed_schema(ty: Seq<char>) -> JsonV {
    JsonV::Object(seq![("type"@, JsonV::String(ty))])
}

/// `{"type": ty, "description": description}`.
pub open spec fn described_schema(ty: Seq<char>, description: Seq<char>) -> JsonV {
    JsonV::Object(seq![("type"@, JsonV::String(ty)), ("description"@, JsonV::String(description))])
}

/// `{"type": "integer", "minimum": 0, "description": description}`.
pub open spec fn counter_schema(description: Seq<char>) -> JsonV {
    JsonV::Object(
        seq![
            ("type"@, JsonV::String("integer"@)),
            ("minimum"@, JsonV::Number(crate::json::NumberV::PosInt(0))),
            ("description"@, JsonV::String(description)),
        ],
    )
}

/// A new member list starting with `"type": ty`.
fn typed_members(ty: &str) -> (m: Vec<(String, Json)>)
    ensures
        object_view(m@) == seq![("type"@, JsonV::String(ty@))],
{
    let mut m: Vec<(String, Json)> = Vec::new();
    proof {
        crate::json::lemma_object_view_literal(m@);
        assert(object_view(m@) =~= Seq::empty());
    }
    push_member(&mut m, "type", Json::String(ty.to_owned()));
    assert(object_view(m@) =~= seq![("type"@, JsonV::String(ty@))]);
    m
}

/// `{"type": ty}`.
fn typed(ty: &str) -> (r: Json)
    ensures
        r@ == typed_schema(ty@),
{
    object(typed_members(ty))
}

/// `{"type": ty, "description": description}`.
fn described(ty: &str, description: &str) -> (r: Json)
    ensures
        r@ == described_schema(ty@, description@),
{
    let mut m = typed_members(ty);
    push_member(&mut m, "description", Json::String(description.to_owned()));
    assert(object_view(m@) =~= seq![
        ("type"@, JsonV::String(ty@)),
        ("description"@, JsonV::String(description@)),
    ]);
    object(m)
}

/// `{"type": "integer", "minimum": 0, "description": description}`.
fn counter(description: &str) -> (r: Json)
    ensures
        r@ == counter_schema(description@),
{
    let mut m = typed_members("integer");
    push_member(&mut m, "minimum", crate::json::json_uint(0));
    push_member(&mut m, "description", Json::String(description.to_owned()));
    assert(object_view(m@) =~= seq![
        ("type"@, JsonV::String("integer"@)),
        ("minimum"@, JsonV::Number(crate::json::NumberV::PosInt(0))),
        ("description"@, JsonV::String(description@)),
    ]);
    object(m)
}

/// A JSON array of strings.
fn strings(items: &[&str]) -> (r: Json)
    ensures
        r@ == string_array(items@.map_values(|s: &str| s@)),
{
    let mut v: Vec<Json> = Vec::new();
    let ghost items_v = items@.map_values(|s: &str| s@);
    let mut i: usize = 0;
    while i < items.len()
        invariant
            i <= items.len(),
            items_v == items@.map_values(|s: &str| s@),
            crate::json::array_view(v@) == items_v.subrange(0, i as int).map_values(
                |k: Seq<char>| JsonV::String(k),
            ),
        decreases items.len() - i,
    {
        let item = Json::String(items[i].to_owned());
        proof {
            crate::json::lemma_array_view_push(v@, item);
            assert(items_v.subrange(0, i as int + 1) =~= items_v.subrange(0, i as int).push(
                items_v[i as int],
            ));
            assert(items_v.subrange(0, i as int + 1).map_values(|k: Seq<char>| JsonV::String(k))
                =~= items_v.subrange(0, i as int).map_values(|k: Seq<char>| JsonV::String(k)).push(
                JsonV::String(items_v[i as int]),
            ));
        }
        v.push(item);
        i += 1;
    }
    assert(items_v.subrange(0, items.len() as int) =~= items_v);
    Json::Array(v)
}

/// The member names of a parameter schema.
pub open spec fn schema_keys(with_required: bool) -> Seq<Seq<char>> {
    if with_required {
        seq!["type"@, "properties"@, "required"@, "additionalProperties"@]
    } else {
        seq!["type"@, "properties"@, "additionalProperties"@]
    }
}

/// The object schema declaring `properties` in order, the `required` list
/// when one is given, and no additional properties.
fn parameters(properties: Vec<(String, Json)>, required: Option<&[&str]>) -> (r: Json)
    ensures
        r@ matches JsonV::Object(m) && member_keys(m) == schema_keys(required is Some),
        json_get(r@, "properties"@) == Some(JsonV::Object(object_view(properties@))),
        parameters_declare(
            r@,
            member_keys(object_view(properties@)),
            match required {
                Some(req) => Some(req@.map_values(|s: &str| s@)),
                None => None,
            },
        ),
        json_get(r@, "oneOf"@) is None,
{
    let ghost props = object_view(properties@);
    let mut m: Vec<(String, Json)> = Vec::new();
    proof {
        crate::json::lemma_object_view_literal(m@);
        assert(object_view(m@) =~= Seq::empty());
    }
    push_member(&mut m, "type", Json::String("object".to_owned()));
    push_member(&mut m, "properties", object(properties));
    let ghost req_json = match required {
        Some(req) => Some(string_array(req@.map_values(|s: &str| s@))),
        None => None,
    };
    match required {
        Some(req) => {
            push_member(&mut m, "required", strings(req));
        },
        None => {},
    }
    push_member(&mut m, "additionalProperties", Json::Bool(false));
    let r = object(m);
    proof {
        lemma_schema_keys_distinct();
        reveal_with_fuel(members_get, 5);
        let mv = object_view(m@);
        let t = ("type"@, JsonV::String("object"@));
        let p = ("properties"@, JsonV::Object(props));
        let a = ("additionalProperties"@, JsonV::Bool(false));
        match req_json {
            Some(rj) => {
                assert(mv =~= seq![t, p, ("required"@, rj), a]);
                assert(mv.drop_first() =~= seq![p, ("required"@, rj), a]);
                assert(mv.drop_first().drop_first() =~= seq![("required"@, rj), a]);
                assert(mv.drop_first().drop_first().drop_first() =~= seq![a]);
                let m2 = mv.drop_first().drop_first();
                assert(members_get(m2, "required"@) == Some(rj));
                assert(members_get(mv.drop_first(), "required"@) == Some(rj));
                assert(json_get(r@, "required"@) == Some(rj));
                let m3 = m2.drop_first();
                assert(members_get(m3, "additionalProperties"@) == Some(JsonV::Bool(false)));
                assert(members_get(m2, "additionalProperties"@) == Some(JsonV::Bool(false)));
                assert(members_get(mv.drop_first(), "additionalProperties"@) == Some(JsonV::Bool(false)));
                assert(json_get(r@, "additionalProperties"@) == Some(JsonV::Bool(false)));
                assert(member_keys(mv) =~= schema_keys(true));
            },
            None => {
                assert(mv =~= seq![t, p, a]);
                assert(mv.drop_first() =~= seq![p, a]);
                assert(mv.drop_first().drop_first() =~= seq![a]);
                assert(mv.drop_first().drop_first().drop_first() =~= Seq::empty());
                assert(json_get(r@, "required"@) is None);
                assert(json_get(r@, "additionalProperties"@) == Some(JsonV::Bool(false)));
                assert(member_keys(mv) =~= schema_keys(false));
            },
        }
        reveal_strlit("oneOf");
        reveal_strlit("type");
        reveal_strlit("properties");
        reveal_strlit("required");
        reveal_strlit("additionalProperties");
        assert("oneOf"@.len() == 5);
        assert("type"@.len() == 4);
        assert("properties"@.len() == 10);
        assert("required"@.len() == 8);
        assert("additionalProperties"@.len() == 20);
        assert forall|q: int| 0 <= q < mv.len() implies mv[q].0 != "oneOf"@ by {
            assert(member_keys(mv)[q] == mv[q].0);
        }
        crate::json::lemma_members_get_none(mv, "oneOf"@);
    }
    r
}

/// The member names of a parameter schema are distinct.
proof fn lemma_schema_keys_distinct()
    ensures
        "type"@ != "properties"@,
        "type"@ != "required"@,
        "type"@ != "additionalProperties"@,
        "properties"@ != "required"@,
        "properties"@ != "additionalProperties"@,
        "required"@ != "additionalProperties"@,
{
    reveal_strlit("type");
    reveal_strlit("properties");
    reveal_strlit("required");
    reveal_strlit("additionalProperties");
    assert("type"@.len() == 4);
    assert("properties"@.len() == 10);
    assert("required"@.len() == 8);
    assert("additionalProperties"@.len() == 20);
}

/// A definition with the given parts.
fn definition(
    name: &str,
    description: &str,
    read_only: bool,
    parameters: Json,
    effect: ToolEffect,
    completion: Option<&str>,
) -> (r: ToolDefinition)
    ensures
        r.name@ == name@,
        r.description@ == description@,
        r.read_only == read_only,
        r.parameters@ == parameters@,
        r.effect == effect,
        opt_view(r.completion) == match completion {
            Some(c) => Some(c@),
            None => None,
        },
{
    ToolDefinition {
        name: name.to_owned(),
        description: description.to_owned(),
        read_only,
        parameters,
        effect,
        completion: match completion {
            Some(c) => Some(c.to_owned()),
            None => None,
        },
    }
}

/// The description of `connection` on the database tools.
pub const CONNECTION_DESCRIPTION: &'static str = "Optional. Name of the database connection to target; defaults to the primary. Available connections and their dialects are listed in the system context.";

/// The description of `connection` on the contract tools.
pub const CONTRACT_CONNECTION_DESCRIPTION: &'static str = "Optional. Name of the database connection (profile) whose local contract \
            memory to read; defaults to the primary. Available connections are listed in the \
            system context.";

/// The description of a workspace file `path`.
pub const FILE_PATH_DESCRIPTION: &'static str = "File path relative to the workspace root.";

/// The description of `workspace_list`'s `path`.
pub const LIST_PATH_DESCRIPTION: &'static str = "Directory path relative to the workspace root; omit to list the root itself.";

/// The description of `workspace_write`'s `content`.
pub const CONTENT_DESCRIPTION: &'static str = "The full text to store in the file, replacing any previous content.";

/// The description of `workspace_edit`'s `old_text`.
pub const OLD_TEXT_DESCRIPTION: &'static str = "The exact text to find; must occur exactly once.";

/// The description of `workspace_edit`'s `new_text`.
pub const NEW_TEXT_DESCRIPTION: &'static str = "The replacement text stored in place of the anchor.";

/// The description of `workspace_edit`'s `offset`.
pub const OFFSET_DESCRIPTION: &'static str = "Append only. The file size in bytes the chunk continues from; must equal the current size.";

/// The description of `workspace_edit`'s `chunk`.
pub const CHUNK_DESCRIPTION: &'static str = "Append only. The bytes to store at the end of the file.";

/// The description of `workspace_edit`'s `expected_size`.
pub const EXPECTED_SIZE_DESCRIPTION: &'static str = "Optional. The file size in bytes the anchor was measured against; a mismatch refuses with no write.";

/// The description of `workspace_edit`'s `expected_digest`.
pub const EXPECTED_DIGEST_DESCRIPTION: &'static str = "Optional. The file's sha256 hex digest the anchor was measured against; a mismatch refuses with no write.";

/// The description of `glob`'s `pattern`.
pub const GLOB_PATTERN_DESCRIPTION: &'static str = "Glob pattern relative to the workspace root, e.g. `**/*.md` or `notes/*.txt`.";

/// The description of `grep`'s `pattern`.
pub const GREP_PATTERN_DESCRIPTION: &'static str = "Literal substring to search for, matched against each file's lines.";

/// The description of `grep`'s `case_insensitive`.
pub const CASE_INSENSITIVE_DESCRIPTION: &'static str = "Match ignoring letter case. Defaults to false.";

/// The description of a contract tool's `table`.
pub const TABLE_DESCRIPTION: &'static str = "Fully qualified object name: catalog.schema.object.";

/// The description of `contract_search`'s `terms`.
pub const TERMS_DESCRIPTION: &'static str = "Search terms (aliases, object names, or description text).";

/// The description of `contract_propose`'s `value`.
pub const CLAIM_VALUE_DESCRIPTION: &'static str = "The claim value.";

/// The description of `contract_propose`'s `column`.
pub const CLAIM_COLUMN_DESCRIPTION: &'static str = "Required for column-description and column-role; the column.";

/// The description of `contract_propose`'s `connection`.
pub const PROPOSE_CONNECTION_DESCRIPTION: &'static str = "Optional. Name of the database connection (profile) whose local contract memory to write to; defaults to the primary.";

/// The description of `render_chart`'s `save_to`.
pub const SAVE_TO_DESCRIPTION: &'static str = "Optional. Workspace path, relative to the workspace root, to also save the chart HTML to.";

/// The description of `contract_propose`'s `kind`.
pub const KIND_DESCRIPTION: &'static str = "The kind of contract claim to propose.";

/// The `schema_discovery` tool's description.
pub const SCHEMA_DISCOVERY_DESCRIPTION: &'static str = "Inspect the selected database schema without changing data.";

/// The `workspace_read` tool's description.
pub const WORKSPACE_READ_DESCRIPTION: &'static str = "Read one file from this run's workspace — the contained \
                directory holding this run's files. Pass `path` relative to the \
                workspace root; absolute paths, `..` escapes, and symlinks are \
                refused. Returns `content`, the file's full `size` in bytes, \
                `truncated`, and `digest` — the sha256 of the file's whole \
                bytes, so a truncated read still names the state an \
                `expected_digest` edit precondition can state. Read `truncated` \
                first: when it is true, `content` is only a prefix capped at \
                the read bound — use `size` to judge how much was cut, and \
                never present capped content as the whole file.";

/// The `workspace_list` tool's description.
pub const WORKSPACE_LIST_DESCRIPTION: &'static str = "List one directory of this run's workspace — the contained \
                directory holding this run's files. Pass `path` relative to the workspace \
                root; omit it to list the root itself. Returns sorted `entries`, each with \
                its `name`, `kind` (`file`, `dir`, `symlink`, or `other`), and `size` in \
                bytes. Symlinks are reported as entries and never followed, and a \
                directory holding more entries than the bound is refused rather than \
                silently shortened.";

/// The `workspace_write` tool's description.
pub const WORKSPACE_WRITE_DESCRIPTION: &'static str = "Write one file into this run's workspace — the contained \
                    directory holding this run's files. Pass `path` relative to the workspace \
                    root and `content` as the full text to store; the file is written \
                    atomically — replaced whole or not at all, never partially. Absolute \
                    paths, `..` escapes, and symlinks are refused, content over the write \
                    bound is refused whole, and existing files are replaced by the new \
                    content. Returns the `path` and `bytes_written`.";

/// The `workspace_edit` tool's description.
pub const WORKSPACE_EDIT_DESCRIPTION: &'static str = "Replace one anchored string in this run's workspace — the \
                    contained directory holding this run's files. Pass `path` relative \
                    to the workspace root, `old_text` as the exact text to find, and \
                    `new_text` as its replacement; the anchor must match exactly once \
                    — zero matches or multiple matches refuse and change nothing, \
                    never \"first wins\". Or append one chunk: pass `offset` (the \
                    file size you measured) and `chunk`; the offset must equal the \
                    current size — a mismatch refuses with the current size and \
                    digest so you resume from there — and offset 0 on an absent \
                    path creates the file. An empty anchor is rejected, anchor and \
                    replacement and chunk over the bound refuse whole, and a \
                    non-UTF-8 target is refused. Pass `expected_size` and/or \
                    `expected_digest` from a fresh read to guard a moved anchor: \
                    a mismatch refuses with no write. Concurrent writers are \
                    last-writer-wins unless `expected_*` is supplied. This tool \
                    never resumes a stopped response on its own: after an \
                    output-token cap, resume by appending from the reported size \
                    and digest. For small whole-file writes use `workspace_write` \
                    instead. Returns the `path`, `size`, \
                    and `digest` (the replace variant also reports \
                    `bytes_replaced` and `bytes_written`).";

/// The `glob` tool's description.
pub const GLOB_DESCRIPTION: &'static str = "Find paths in this run's workspace matching a glob pattern, \
                relative to the workspace root. `**` spans directory segments (and matches \
                zero of them), `*` stays inside one segment; directories match too, so \
                `notes/**` returns the `notes` directory itself plus everything under it. \
                Returns sorted `matches` — real, contained paths only: absolute patterns \
                and `..` prefixes can never match, and symlinks are neither matched nor \
                descended into. If the walk or the match list would exceed a bound, the \
                call fails with the reason instead of returning a shortened list.";

/// The `grep` tool's description.
pub const GREP_DESCRIPTION: &'static str = "Search this run's workspace files for a literal substring — no \
                regex. Returns `matches`, each with the file `path`, 1-based `line`, the \
                line's `text` (capped per line, with `truncated` when capped), plus two \
                coverage counts you must read before trusting a miss: `files_scanned` is \
                how many files were actually read and searched, and `files_skipped` is how \
                many were never searched (too large for the per-file bound, or not valid \
                UTF-8). `files_scanned == 0` with `files_skipped > 0` is NOT evidence the \
                text is absent — narrow the search and retry.";

/// The `bounded_sql_query` tool's description.
pub const BOUNDED_SQL_QUERY_DESCRIPTION: &'static str = "Run one bounded read-only SQL query against the selected database.";

/// The `bounded_sql_query_all` tool's description.
pub const BOUNDED_SQL_QUERY_ALL_DESCRIPTION: &'static str = "Run one bounded read-only SQL query against EVERY connected \
                    database at once and return the per-database results. Use this when the \
                    same question should be answered across all connected databases; each \
                    database runs independently, so a failure on one (e.g. a dialect \
                    mismatch) is reported alongside the successes rather than aborting the \
                    rest. Do not pass a `connection` argument.";

/// The `result_shape` tool's description.
pub const RESULT_SHAPE_DESCRIPTION: &'static str = "Run one bounded read-only SQL query and return its SHAPE only — \
                    the row count, whether the row cap was hit, and the column names with a \
                    type label — and never any row values. Use this instead of \
                    bounded_sql_query when you only need to know whether a query worked, \
                    roughly how many rows it returned, and what columns came back; it costs \
                    far less context than fetching the rows. Read `truncated` first: when it \
                    is true, `row_count` is a floor and not the real total, so a capped count \
                    read as the true count leads to a false conclusion.";

/// The `column_health` tool's description.
pub const COLUMN_HEALTH_DESCRIPTION: &'static str = "Run one bounded read-only SQL query and return per-column health \
                    statistics — null count, null percentage, distinct value count, and numeric \
                    zero count — and never any cell value. Use this to run your expression \
                    through the safety path BEFORE trusting it: a 100% null rate after a DATE() \
                    or CAST reveals that the function silently coerced every row (e.g. SQLite's \
                    DATE() returns NULL for '1/1/2021 12:01:36 AM', collapsing every group into \
                    one and turning a per-day average into a lifetime total). Read `truncated` \
                    first: when it is true, the stats are over a capped sample, not the full \
                    result, so a 100% null rate on a sample is still a strong signal but the \
                    counts are floors.";

/// The `join_check` tool's description.
pub const JOIN_CHECK_DESCRIPTION: &'static str = "Check whether a JOIN in your query multiplies or drops rows before \
                    you trust a SUM, AVG, or COUNT over it. Builds two COUNT(*) statements — one \
                    over the full join and one over the base table alone — and compares them. \
                    Returns {applicable, joined_rows, base_rows, fanned_out, dropped_rows}. When \
                    the join is on a non-unique key, joined_rows exceeds base_rows and \
                    fanned_out is true, meaning every aggregate over the base table is inflated. \
                    When joined_rows is less than base_rows, the join dropped rows and \
                    dropped_rows is true — just as corrupting. When no sound probe can be built \
                    (no join, no distortable aggregate, subquery in FROM, etc.), returns \
                    applicable: false with a reason — never a guess. Call this WHILE building a \
                    join query, not only after the fact.";

/// The `render_chart` tool's description.
pub const RENDER_CHART_DESCRIPTION: &'static str = "Visualize the results of a SQL query as an interactive chart the user can open \
                    in their browser. Call this whenever the user asks to chart, plot, graph, or visualize \
                    data. Provide the SQL to run and choose the chart_type that best fits the data: `bar` for \
                    comparing categories, `line` or `area` for trends over an ordered/time axis, `pie` or \
                    `doughnut` for a category's share of a total, `scatter` for the relationship between two \
                    numeric columns. Optionally name the x (label) column, the y (value) column(s), and a \
                    title. The chart is written to a file and opened; only the file path is returned.";

/// The `designate_answer` tool's description.
pub const DESIGNATE_ANSWER_DESCRIPTION: &'static str = "Designate the SQL query that answers the user's question — the \
                    statement that produced the answer, never an exploratory probe you ran to \
                    learn the schema or test a guess. Call this exactly once, in your final \
                    message, alongside your prose answer, with the SQL that produced it. This \
                    does not run a query — it records which of the queries you ran is the \
                    answering one. Omit it when no single query answers the question.";

/// The `contract_search` tool's description.
pub const CONTRACT_SEARCH_DESCRIPTION: &'static str = "Search the local contract memory (confirmed claims the user remembered \
                about their database objects) for objects matching the given terms. Returns \
                bounded, confirmed summaries — candidate claims are not included. A contract is \
                derived from the user's database, so this tool is unavailable when database \
                context sharing is disabled. Pass up to 16 search terms; matches on alias, the \
                qualified name, or description text are returned, most relevant first.";

/// The `contract_read` tool's description.
pub const CONTRACT_READ_DESCRIPTION: &'static str = "Read one object's exact contract from local memory by its fully \
                qualified `catalog.schema.table` name. Returns that object's confirmed claims \
                (each with its id, kind, origin, status, and value), schema state, and any \
                conflicts. A contract is derived from the user's database, so this tool is \
                unavailable when database context sharing is disabled. The `table` argument \
                must be exactly three dot-separated parts: catalog.schema.object.";

/// The catalogue entry of `schema_discovery`.
pub open spec fn schema_discovery_entry() -> Advertised {
    Advertised {
        description: SCHEMA_DISCOVERY_DESCRIPTION@,
        read_only: true,
        effect: effect(false, false, false, LocalStateEffect::Nothing),
        completion: None,
        properties: seq!["connection"@],
        schemas: seq![
            described_schema("string"@, CONNECTION_DESCRIPTION@),
        ],
        required: None,
        one_of: None,
    }
}

/// The catalogue entry of `workspace_read`.
pub open spec fn workspace_read_entry() -> Advertised {
    Advertised {
        description: WORKSPACE_READ_DESCRIPTION@,
        read_only: true,
        effect: effect(false, false, false, LocalStateEffect::Read),
        completion: Some("workspace file read"@),
        properties: seq!["path"@],
        schemas: seq![
            described_schema("string"@, FILE_PATH_DESCRIPTION@),
        ],
        required: Some(seq!["path"@]),
        one_of: None,
    }
}

/// The catalogue entry of `workspace_list`.
pub open spec fn workspace_list_entry() -> Advertised {
    Advertised {
        description: WORKSPACE_LIST_DESCRIPTION@,
        read_only: true,
        effect: effect(false, false, false, LocalStateEffect::Read),
        completion: Some("workspace directory listed"@),
        properties: seq!["path"@],
        schemas: seq![
            described_schema("string"@, LIST_PATH_DESCRIPTION@),
        ],
        required: Some(seq![]),
        one_of: None,
    }
}

/// The catalogue entry of `workspace_write`.
pub open spec fn workspace_write_entry() -> Advertised {
    Advertised {
        description: WORKSPACE_WRITE_DESCRIPTION@,
        read_only: false,
        effect: effect(false, false, false, LocalStateEffect::WriteWorkspace),
        completion: Some("workspace file written"@),
        properties: seq!["path"@, "content"@],
        schemas: seq![
            described_schema("string"@, FILE_PATH_DESCRIPTION@),
            described_schema("string"@, CONTENT_DESCRIPTION@),
        ],
        required: Some(seq!["path"@, "content"@]),
        one_of: None,
    }
}

/// The catalogue entry of `workspace_edit`.
pub open spec fn workspace_edit_entry() -> Advertised {
    Advertised {
        description: WORKSPACE_EDIT_DESCRIPTION@,
        read_only: false,
        effect: effect(false, false, false, LocalStateEffect::WriteWorkspace),
        completion: Some("workspace file edited"@),
        properties: seq!["path"@, "old_text"@, "new_text"@, "offset"@, "chunk"@, "expected_size"@, "expected_digest"@],
        schemas: seq![
            described_schema("string"@, FILE_PATH_DESCRIPTION@),
            described_schema("string"@, OLD_TEXT_DESCRIPTION@),
            described_schema("string"@, NEW_TEXT_DESCRIPTION@),
            counter_schema(OFFSET_DESCRIPTION@),
            described_schema("string"@, CHUNK_DESCRIPTION@),
            counter_schema(EXPECTED_SIZE_DESCRIPTION@),
            described_schema("string"@, EXPECTED_DIGEST_DESCRIPTION@),
        ],
        required: Some(seq!["path"@]),
        one_of: Some(edit_variants_view()),
    }
}

/// The catalogue entry of `glob`.
pub open spec fn glob_entry() -> Advertised {
    Advertised {
        description: GLOB_DESCRIPTION@,
        read_only: true,
        effect: effect(false, false, false, LocalStateEffect::Read),
        completion: Some("workspace paths matched"@),
        properties: seq!["pattern"@],
        schemas: seq![
            described_schema("string"@, GLOB_PATTERN_DESCRIPTION@),
        ],
        required: Some(seq!["pattern"@]),
        one_of: None,
    }
}

/// The catalogue entry of `grep`.
pub open spec fn grep_entry() -> Advertised {
    Advertised {
        description: GREP_DESCRIPTION@,
        read_only: true,
        effect: effect(false, false, false, LocalStateEffect::Read),
        completion: Some("workspace text searched"@),
        properties: seq!["pattern"@, "case_insensitive"@],
        schemas: seq![
            described_schema("string"@, GREP_PATTERN_DESCRIPTION@),
            described_schema("boolean"@, CASE_INSENSITIVE_DESCRIPTION@),
        ],
        required: Some(seq!["pattern"@]),
        one_of: None,
    }
}

/// The catalogue entry of `bounded_sql_query`.
pub open spec fn bounded_sql_query_entry() -> Advertised {
    Advertised {
        description: BOUNDED_SQL_QUERY_DESCRIPTION@,
        read_only: true,
        effect: effect(true, false, true, LocalStateEffect::Nothing),
        completion: None,
        properties: seq!["connection"@, "sql"@],
        schemas: seq![
            described_schema("string"@, CONNECTION_DESCRIPTION@),
            typed_schema("string"@),
        ],
        required: Some(seq!["sql"@]),
        one_of: None,
    }
}

/// The catalogue entry of `bounded_sql_query_all`.
pub open spec fn bounded_sql_query_all_entry() -> Advertised {
    Advertised {
        description: BOUNDED_SQL_QUERY_ALL_DESCRIPTION@,
        read_only: true,
        effect: effect(true, false, true, LocalStateEffect::Nothing),
        completion: None,
        properties: seq!["sql"@],
        schemas: seq![
            typed_schema("string"@),
        ],
        required: Some(seq!["sql"@]),
        one_of: None,
    }
}

/// The catalogue entry of `result_shape`.
pub open spec fn result_shape_entry() -> Advertised {
    Advertised {
        description: RESULT_SHAPE_DESCRIPTION@,
        read_only: true,
        effect: effect(false, false, true, LocalStateEffect::Nothing),
        completion: None,
        properties: seq!["connection"@, "sql"@],
        schemas: seq![
            described_schema("string"@, CONNECTION_DESCRIPTION@),
            typed_schema("string"@),
        ],
        required: Some(seq!["sql"@]),
        one_of: None,
    }
}

/// The catalogue entry of `column_health`.
pub open spec fn column_health_entry() -> Advertised {
    Advertised {
        description: COLUMN_HEALTH_DESCRIPTION@,
        read_only: true,
        effect: effect(false, false, true, LocalStateEffect::Nothing),
        completion: None,
        properties: seq!["connection"@, "sql"@],
        schemas: seq![
            described_schema("string"@, CONNECTION_DESCRIPTION@),
            typed_schema("string"@),
        ],
        required: Some(seq!["sql"@]),
        one_of: None,
    }
}

/// The catalogue entry of `join_check`.
pub open spec fn join_check_entry() -> Advertised {
    Advertised {
        description: JOIN_CHECK_DESCRIPTION@,
        read_only: true,
        effect: effect(false, false, true, LocalStateEffect::Nothing),
        completion: None,
        properties: seq!["connection"@, "sql"@],
        schemas: seq![
            described_schema("string"@, CONNECTION_DESCRIPTION@),
            typed_schema("string"@),
        ],
        required: Some(seq!["sql"@]),
        one_of: None,
    }
}

/// The catalogue entry of `render_chart`; with `save` it also offers
/// `save_to` and declares a workspace write.
pub open spec fn render_chart_entry(save: bool) -> Advertised {
    Advertised {
        description: RENDER_CHART_DESCRIPTION@,
        read_only: false,
        effect: effect(
            false,
            true,
            true,
            if save {
                LocalStateEffect::WriteWorkspace
            } else {
                LocalStateEffect::Nothing
            },
        ),
        completion: Some("chart written and opened"@),
        properties: seq!["connection"@, "sql"@, "chart_type"@, "x"@, "y"@, "title"@] + if save {
            seq!["save_to"@]
        } else {
            Seq::empty()
        },
        schemas: seq![
            described_schema("string"@, CONNECTION_DESCRIPTION@),
            typed_schema("string"@),
            chart_type_schema(),
            typed_schema("string"@),
            string_list_schema(),
            typed_schema("string"@),
        ] + if save {
            seq![described_schema("string"@, SAVE_TO_DESCRIPTION@)]
        } else {
            Seq::empty()
        },
        required: Some(seq!["sql"@, "chart_type"@]),
        one_of: None,
    }
}

/// The catalogue entry of `designate_answer`.
pub open spec fn designate_answer_entry() -> Advertised {
    Advertised {
        description: DESIGNATE_ANSWER_DESCRIPTION@,
        read_only: true,
        effect: effect(false, false, false, LocalStateEffect::Nothing),
        completion: None,
        properties: seq!["sql"@],
        schemas: seq![
            typed_schema("string"@),
        ],
        required: Some(seq!["sql"@]),
        one_of: None,
    }
}

/// The catalogue entry of `contract_search`.
pub open spec fn contract_search_entry() -> Advertised {
    Advertised {
        description: CONTRACT_SEARCH_DESCRIPTION@,
        read_only: true,
        effect: effect(true, false, false, LocalStateEffect::Nothing),
        completion: None,
        properties: seq!["connection"@, "terms"@],
        schemas: seq![
            described_schema("string"@, CONTRACT_CONNECTION_DESCRIPTION@),
            search_terms_schema(),
        ],
        required: Some(seq!["terms"@]),
        one_of: None,
    }
}

/// The catalogue entry of `contract_read`.
pub open spec fn contract_read_entry() -> Advertised {
    Advertised {
        description: CONTRACT_READ_DESCRIPTION@,
        read_only: true,
        effect: effect(true, false, false, LocalStateEffect::Nothing),
        completion: None,
        properties: seq!["connection"@, "table"@],
        schemas: seq![
            described_schema("string"@, CONTRACT_CONNECTION_DESCRIPTION@),
            described_schema("string"@, TABLE_DESCRIPTION@),
        ],
        required: Some(seq!["table"@]),
        one_of: None,
    }
}

/// The `schema_discovery` definition.
fn schema_discovery_tool() -> (r: ToolDefinition)
    ensures
        describes(r, "schema_discovery"@, schema_discovery_entry()),
{
    let mut props: Vec<(String, Json)> = Vec::new();
    proof {
        crate::json::lemma_object_view_literal(props@);
        assert(object_view(props@) =~= Seq::empty());
    }
    push_member(&mut props, "connection", described("string", CONNECTION_DESCRIPTION));
    assert(member_keys(object_view(props@)) =~= seq!["connection"@]);
    assert(member_schemas(object_view(props@)) =~= schema_discovery_entry().schemas);
    let params = parameters(props, None);
    definition(
        "schema_discovery",
        SCHEMA_DISCOVERY_DESCRIPTION,
        true,
        params,
        ToolEffect {
            database_data: false,
            external_side_effect: false,
            requires_approval: false,
            local_state: LocalStateEffect::Nothing,
        },
        None,
    )
}

/// The `workspace_read` definition.
fn workspace_read_tool() -> (r: ToolDefinition)
    ensures
        describes(r, "workspace_read"@, workspace_read_entry()),
{
    let mut props: Vec<(String, Json)> = Vec::new();
    proof {
        crate::json::lemma_object_view_literal(props@);
        assert(object_view(props@) =~= Seq::empty());
    }
    push_member(&mut props, "path", described("string", FILE_PATH_DESCRIPTION));
    assert(member_keys(object_view(props@)) =~= seq!["path"@]);
    assert(member_schemas(object_view(props@)) =~= workspace_read_entry().schemas);
    let required: [&str; 1] = ["path"];
    assert(required@.map_values(|s: &str| s@) =~= seq!["path"@]);
    let params = parameters(props, Some(required.as_slice()));
    definition(
        "workspace_read",
        WORKSPACE_READ_DESCRIPTION,
        true,
        params,
        ToolEffect {
            database_data: false,
            external_side_effect: false,
            requires_approval: false,
            local_state: LocalStateEffect::Read,
        },
        Some("workspace file read"),
    )
}

/// The `workspace_list` definition.
fn workspace_list_tool() -> (r: ToolDefinition)
    ensures
        describes(r, "workspace_list"@, workspace_list_entry()),
{
    let mut props: Vec<(String, Json)> = Vec::new();
    proof {
        crate::json::lemma_object_view_literal(props@);
        assert(object_view(props@) =~= Seq::empty());
    }
    push_member(&mut props, "path", described("string", LIST_PATH_DESCRIPTION));
    assert(member_keys(object_view(props@)) =~= seq!["path"@]);
    assert(member_schemas(object_view(props@)) =~= workspace_list_entry().schemas);
    let required: [&str; 0] = [];
    assert(required@.map_values(|s: &str| s@) =~= seq![]);
    let params = parameters(props, Some(required.as_slice()));
    definition(
        "workspace_list",
        WORKSPACE_LIST_DESCRIPTION,
        true,
        params,
        ToolEffect {
            database_data: false,
            external_side_effect: false,
            requires_approval: false,
            local_state: LocalStateEffect::Read,
        },
        Some("workspace directory listed"),
    )
}

/// The `workspace_write` definition.
fn workspace_write_tool() -> (r: ToolDefinition)
    ensures
        describes(r, "workspace_write"@, workspace_write_entry()),
{
    let mut props: Vec<(String, Json)> = Vec::new();
    proof {
        crate::json::lemma_object_view_literal(props@);
        assert(object_view(props@) =~= Seq::empty());
    }
    push_member(&mut props, "path", described("string", FILE_PATH_DESCRIPTION));
    push_member(&mut props, "content", described("string", CONTENT_DESCRIPTION));
    assert(member_keys(object_view(props@)) =~= seq!["path"@, "content"@]);
    assert(member_schemas(object_view(props@)) =~= workspace_write_entry().schemas);
    let required: [&str; 2] = ["path", "content"];
    assert(required@.map_values(|s: &str| s@) =~= seq!["path"@, "content"@]);
    let params = parameters(props, Some(required.as_slice()));
    definition(
        "workspace_write",
        WORKSPACE_WRITE_DESCRIPTION,
        false,
        params,
        ToolEffect {
            database_data: false,
            external_side_effect: false,
            requires_approval: false,
            local_state: LocalStateEffect::WriteWorkspace,
        },
        Some("workspace file written"),
    )
}

/// The two shapes a `workspace_edit` call takes: `replace` needs
/// `old_text` and `new_text`, `append` needs `offset` and `chunk`.
pub open spec fn edit_variants_view() -> JsonV {
    JsonV::Array(
        seq![
            JsonV::Object(seq![("required"@, string_array(seq!["old_text"@, "new_text"@]))]),
            JsonV::Object(seq![("required"@, string_array(seq!["offset"@, "chunk"@]))]),
        ],
    )
}

fn required_only(keys: &[&str]) -> (r: Json)
    ensures
        r@ == JsonV::Object(seq![("required"@, string_array(keys@.map_values(|s: &str| s@)))]),
{
    let mut m: Vec<(String, Json)> = Vec::new();
    proof {
        crate::json::lemma_object_view_literal(m@);
        assert(object_view(m@) =~= Seq::empty());
    }
    let list = strings(keys);
    let ghost lv = list@;
    push_member(&mut m, "required", list);
    assert(object_view(m@) =~= seq![("required"@, lv)]);
    object(m)
}

fn edit_variants() -> (r: Json)
    ensures
        r@ == edit_variants_view(),
{
    let replace: [&str; 2] = ["old_text", "new_text"];
    let append: [&str; 2] = ["offset", "chunk"];
    assert(replace@.map_values(|s: &str| s@) =~= seq!["old_text"@, "new_text"@]);
    assert(append@.map_values(|s: &str| s@) =~= seq!["offset"@, "chunk"@]);
    let a = required_only(replace.as_slice());
    let b = required_only(append.as_slice());
    let ghost av = a@;
    let ghost bv = b@;
    let mut v: Vec<Json> = Vec::new();
    proof {
        crate::json::lemma_array_view_push(v@, a);
    }
    v.push(a);
    proof {
        crate::json::lemma_array_view_push(v@, b);
        assert(crate::json::array_view(Seq::<Json>::empty()) =~= Seq::empty());
    }
    v.push(b);
    assert(crate::json::array_view(v@) =~= seq![av, bv]);
    Json::Array(v)
}

/// A member lookup after appending `(k, v)`: earlier members win.
proof fn lemma_members_get_push(m: Seq<(Seq<char>, JsonV)>, k: Seq<char>, v: JsonV, key: Seq<char>)
    ensures
        members_get(m.push((k, v)), key) == match members_get(m, key) {
            Some(x) => Some(x),
            None => if k == key {
                Some(v)
            } else {
                None
            },
        },
    decreases m.len(),
{
    let p = m.push((k, v));
    if m.len() > 0 {
        assert(p[0] == m[0]);
        assert(p.drop_first() =~= m.drop_first().push((k, v)));
        lemma_members_get_push(m.drop_first(), k, v, key);
        if m[0].0 != key {
            assert(members_get(p, key) == members_get(p.drop_first(), key));
            assert(members_get(m, key) == members_get(m.drop_first(), key));
        }
    } else {
        assert(m.push((k, v)).drop_first() =~= Seq::<(Seq<char>, JsonV)>::empty());
    }
}

/// `j`, an object, with the member `key: value` appended.
fn add_member(j: Json, key: &str, value: Json) -> (r: Json)
    requires
        j@ is Object,
    ensures
        r@ == JsonV::Object(j@->Object_0.push((key@, value@))),
        forall|k: Seq<char>|
            #![trigger json_get(r@, k)]
            json_get(r@, k) == match json_get(j@, k) {
                Some(x) => Some(x),
                None => if k == key@ {
                    Some(value@)
                } else {
                    None
                },
            },
{
    match j {
        Json::Object(mut m) => {
            let ghost before = object_view(m@);
            let ghost vv = value@;
            push_member(&mut m, key, value);
            proof {
                assert forall|k: Seq<char>| #![trigger members_get(object_view(m@), k)]
                    members_get(object_view(m@), k) == match members_get(before, k) {
                        Some(x) => Some(x),
                        None => if k == key@ {
                            Some(vv)
                        } else {
                            None
                        },
                    } by {
                    lemma_members_get_push(before, key@, vv, k);
                }
            }
            let r = Json::Object(m);
            assert(r@ == JsonV::Object(object_view(m@)));
            r
        },
        _ => {
            assert(false);
            j
        },
    }
}

/// The `workspace_edit` definition.
fn workspace_edit_tool() -> (r: ToolDefinition)
    ensures
        describes(r, "workspace_edit"@, workspace_edit_entry()),
        json_get(r.parameters@, "oneOf"@) == Some(edit_variants_view()),
{
    let mut props: Vec<(String, Json)> = Vec::new();
    proof {
        crate::json::lemma_object_view_literal(props@);
        assert(object_view(props@) =~= Seq::empty());
    }
    push_member(&mut props, "path", described("string", FILE_PATH_DESCRIPTION));
    push_member(&mut props, "old_text", described("string", OLD_TEXT_DESCRIPTION));
    push_member(&mut props, "new_text", described("string", NEW_TEXT_DESCRIPTION));
    push_member(&mut props, "offset", counter(OFFSET_DESCRIPTION));
    push_member(&mut props, "chunk", described("string", CHUNK_DESCRIPTION));
    push_member(&mut props, "expected_size", counter(EXPECTED_SIZE_DESCRIPTION));
    push_member(&mut props, "expected_digest", described("string", EXPECTED_DIGEST_DESCRIPTION));
    assert(member_keys(object_view(props@)) =~= seq!["path"@, "old_text"@, "new_text"@, "offset"@, "chunk"@, "expected_size"@, "expected_digest"@]);
    assert(member_schemas(object_view(props@)) =~= workspace_edit_entry().schemas);
    let required: [&str; 1] = ["path"];
    assert(required@.map_values(|s: &str| s@) =~= seq!["path"@]);
    let base = parameters(props, Some(required.as_slice()));
    let ghost bm = base@->Object_0;
    let params = add_member(base, "oneOf", edit_variants());
    proof {
        let pm = params@->Object_0;
        assert(pm == bm.push(("oneOf"@, edit_variants_view())));
        assert(member_keys(pm) =~= member_keys(bm).push("oneOf"@));
        assert(member_keys(pm) =~= top_keys(workspace_edit_entry()));
    }
    definition(
        "workspace_edit",
        WORKSPACE_EDIT_DESCRIPTION,
        false,
        params,
        ToolEffect {
            database_data: false,
            external_side_effect: false,
            requires_approval: false,
            local_state: LocalStateEffect::WriteWorkspace,
        },
        Some("workspace file edited"),
    )
}

/// The `glob` definition.
fn glob_tool() -> (r: ToolDefinition)
    ensures
        describes(r, "glob"@, glob_entry()),
{
    let mut props: Vec<(String, Json)> = Vec::new();
    proof {
        crate::json::lemma_object_view_literal(props@);
        assert(object_view(props@) =~= Seq::empty());
    }
    push_member(&mut props, "pattern", described("string", GLOB_PATTERN_DESCRIPTION));
    assert(member_keys(object_view(props@)) =~= seq!["pattern"@]);
    assert(member_schemas(object_view(props@)) =~= glob_entry().schemas);
    let required: [&str; 1] = ["pattern"];
    assert(required@.map_values(|s: &str| s@) =~= seq!["pattern"@]);
    let params = parameters(props, Some(required.as_slice()));
    definition(
        "glob",
        GLOB_DESCRIPTION,
        true,
        params,
        ToolEffect {
            database_data: false,
            external_side_effect: false,
            requires_approval: false,
            local_state: LocalStateEffect::Read,
        },
        Some("workspace paths matched"),
    )
}

/// The `grep` definition.
fn grep_tool() -> (r: ToolDefinition)
    ensures
        describes(r, "grep"@, grep_entry()),
{
    let mut props: Vec<(String, Json)> = Vec::new();
    proof {
        crate::json::lemma_object_view_literal(props@);
        assert(object_view(props@) =~= Seq::empty());
    }
    push_member(&mut props, "pattern", described("string", GREP_PATTERN_DESCRIPTION));
    push_member(&mut props, "case_insensitive", described("boolean", CASE_INSENSITIVE_DESCRIPTION));
    assert(member_keys(object_view(props@)) =~= seq!["pattern"@, "case_insensitive"@]);
    assert(member_schemas(object_view(props@)) =~= grep_entry().schemas);
    let required: [&str; 1] = ["pattern"];
    assert(required@.map_values(|s: &str| s@) =~= seq!["pattern"@]);
    let params = parameters(props, Some(required.as_slice()));
    definition(
        "grep",
        GREP_DESCRIPTION,
        true,
        params,
        ToolEffect {
            database_data: false,
            external_side_effect: false,
            requires_approval: false,
            local_state: LocalStateEffect::Read,
        },
        Some("workspace text searched"),
    )
}

/// The `bounded_sql_query` definition.
fn bounded_sql_query_tool() -> (r: ToolDefinition)
    ensures
        describes(r, "bounded_sql_query"@, bounded_sql_query_entry()),
{
    let mut props: Vec<(String, Json)> = Vec::new();
    proof {
        crate::json::lemma_object_view_literal(props@);
        assert(object_view(props@) =~= Seq::empty());
    }
    push_member(&mut props, "connection", described("string", CONNECTION_DESCRIPTION));
    push_member(&mut props, "sql", typed("string"));
    assert(member_keys(object_view(props@)) =~= seq!["connection"@, "sql"@]);
    assert(member_schemas(object_view(props@)) =~= bounded_sql_query_entry().schemas);
    let required: [&str; 1] = ["sql"];
    assert(required@.map_values(|s: &str| s@) =~= seq!["sql"@]);
    let params = parameters(props, Some(required.as_slice()));
    definition(
        "bounded_sql_query",
        BOUNDED_SQL_QUERY_DESCRIPTION,
        true,
        params,
        ToolEffect {
            database_data: true,
            external_side_effect: false,
            requires_approval: true,
            local_state: LocalStateEffect::Nothing,
        },
        None,
    )
}

/// The `bounded_sql_query_all` definition.
fn bounded_sql_query_all_tool() -> (r: ToolDefinition)
    ensures
        describes(r, "bounded_sql_query_all"@, bounded_sql_query_all_entry()),
{
    let mut props: Vec<(String, Json)> = Vec::new();
    proof {
        crate::json::lemma_object_view_literal(props@);
        assert(object_view(props@) =~= Seq::empty());
    }
    push_member(&mut props, "sql", typed("string"));
    assert(member_keys(object_view(props@)) =~= seq!["sql"@]);
    assert(member_schemas(object_view(props@)) =~= bounded_sql_query_all_entry().schemas);
    let required: [&str; 1] = ["sql"];
    assert(required@.map_values(|s: &str| s@) =~= seq!["sql"@]);
    let params = parameters(props, Some(required.as_slice()));
    definition(
        "bounded_sql_query_all",
        BOUNDED_SQL_QUERY_ALL_DESCRIPTION,
        true,
        params,
        ToolEffect {
            database_data: true,
            external_side_effect: false,
            requires_approval: true,
            local_state: LocalStateEffect::Nothing,
        },
        None,
    )
}

/// The `result_shape` definition.
fn result_shape_tool() -> (r: ToolDefinition)
    ensures
        describes(r, "result_shape"@, result_shape_entry()),
{
    let mut props: Vec<(String, Json)> = Vec::new();
    proof {
        crate::json::lemma_object_view_literal(props@);
        assert(object_view(props@) =~= Seq::empty());
    }
    push_member(&mut props, "connection", described("string", CONNECTION_DESCRIPTION));
    push_member(&mut props, "sql", typed("string"));
    assert(member_keys(object_view(props@)) =~= seq!["connection"@, "sql"@]);
    assert(member_schemas(object_view(props@)) =~= result_shape_entry().schemas);
    let required: [&str; 1] = ["sql"];
    assert(required@.map_values(|s: &str| s@) =~= seq!["sql"@]);
    let params = parameters(props, Some(required.as_slice()));
    definition(
        "result_shape",
        RESULT_SHAPE_DESCRIPTION,
        true,
        params,
        ToolEffect {
            database_data: false,
            external_side_effect: false,
            requires_approval: true,
            local_state: LocalStateEffect::Nothing,
        },
        None,
    )
}

/// The `column_health` definition.
fn column_health_tool() -> (r: ToolDefinition)
    ensures
        describes(r, "column_health"@, column_health_entry()),
{
    let mut props: Vec<(String, Json)> = Vec::new();
    proof {
        crate::json::lemma_object_view_literal(props@);
        assert(object_view(props@) =~= Seq::empty());
    }
    push_member(&mut props, "connection", described("string", CONNECTION_DESCRIPTION));
    push_member(&mut props, "sql", typed("string"));
    assert(member_keys(object_view(props@)) =~= seq!["connection"@, "sql"@]);
    assert(member_schemas(object_view(props@)) =~= column_health_entry().schemas);
    let required: [&str; 1] = ["sql"];
    assert(required@.map_values(|s: &str| s@) =~= seq!["sql"@]);
    let params = parameters(props, Some(required.as_slice()));
    definition(
        "column_health",
        COLUMN_HEALTH_DESCRIPTION,
        true,
        params,
        ToolEffect {
            database_data: false,
            external_side_effect: false,
            requires_approval: true,
            local_state: LocalStateEffect::Nothing,
        },
        None,
    )
}

/// The `join_check` definition.
fn join_check_tool() -> (r: ToolDefinition)
    ensures
        describes(r, "join_check"@, join_check_entry()),
{
    let mut props: Vec<(String, Json)> = Vec::new();
    proof {
        crate::json::lemma_object_view_literal(props@);
        assert(object_view(props@) =~= Seq::empty());
    }
    push_member(&mut props, "connection", described("string", CONNECTION_DESCRIPTION));
    push_member(&mut props, "sql", typed("string"));
    assert(member_keys(object_view(props@)) =~= seq!["connection"@, "sql"@]);
    assert(member_schemas(object_view(props@)) =~= join_check_entry().schemas);
    let required: [&str; 1] = ["sql"];
    assert(required@.map_values(|s: &str| s@) =~= seq!["sql"@]);
    let params = parameters(props, Some(required.as_slice()));
    definition(
        "join_check",
        JOIN_CHECK_DESCRIPTION,
        true,
        params,
        ToolEffect {
            database_data: false,
            external_side_effect: false,
            requires_approval: true,
            local_state: LocalStateEffect::Nothing,
        },
        None,
    )
}

/// The `render_chart` definition.
fn render_chart_tool(save: bool) -> (r: ToolDefinition)
    ensures
        describes(r, "render_chart"@, render_chart_entry(save)),
{
    let mut props: Vec<(String, Json)> = Vec::new();
    proof {
        crate::json::lemma_object_view_literal(props@);
        assert(object_view(props@) =~= Seq::empty());
    }
    push_member(&mut props, "connection", described("string", CONNECTION_DESCRIPTION));
    push_member(&mut props, "sql", typed("string"));
    push_member(&mut props, "chart_type", chart_type_property());
    push_member(&mut props, "x", typed("string"));
    push_member(&mut props, "y", string_list_property());
    push_member(&mut props, "title", typed("string"));
    if save {
        push_member(&mut props, "save_to", described("string", SAVE_TO_DESCRIPTION));
    }
    assert(member_keys(object_view(props@)) =~= render_chart_entry(save).properties);
    assert(member_schemas(object_view(props@)) =~= render_chart_entry(save).schemas);
    let required: [&str; 2] = ["sql", "chart_type"];
    assert(required@.map_values(|s: &str| s@) =~= seq!["sql"@, "chart_type"@]);
    let params = parameters(props, Some(required.as_slice()));
    definition(
        "render_chart",
        RENDER_CHART_DESCRIPTION,
        false,
        params,
        ToolEffect {
            database_data: false,
            external_side_effect: true,
            requires_approval: true,
            local_state: if save {
                LocalStateEffect::WriteWorkspace
            } else {
                LocalStateEffect::Nothing
            },
        },
        Some("chart written and opened"),
    )
}

/// The `designate_answer` definition.
fn designate_answer_tool() -> (r: ToolDefinition)
    ensures
        describes(r, "designate_answer"@, designate_answer_entry()),
{
    let mut props: Vec<(String, Json)> = Vec::new();
    proof {
        crate::json::lemma_object_view_literal(props@);
        assert(object_view(props@) =~= Seq::empty());
    }
    push_member(&mut props, "sql", typed("string"));
    assert(member_keys(object_view(props@)) =~= seq!["sql"@]);
    assert(member_schemas(object_view(props@)) =~= designate_answer_entry().schemas);
    let required: [&str; 1] = ["sql"];
    assert(required@.map_values(|s: &str| s@) =~= seq!["sql"@]);
    let params = parameters(props, Some(required.as_slice()));
    definition(
        "designate_answer",
        DESIGNATE_ANSWER_DESCRIPTION,
        true,
        params,
        ToolEffect {
            database_data: false,
            external_side_effect: false,
            requires_approval: false,
            local_state: LocalStateEffect::Nothing,
        },
        None,
    )
}

/// The `contract_search` definition.
fn contract_search_tool() -> (r: ToolDefinition)
    ensures
        describes(r, "contract_search"@, contract_search_entry()),
{
    let mut props: Vec<(String, Json)> = Vec::new();
    proof {
        crate::json::lemma_object_view_literal(props@);
        assert(object_view(props@) =~= Seq::empty());
    }
    push_member(&mut props, "connection", described("string", CONTRACT_CONNECTION_DESCRIPTION));
    push_member(&mut props, "terms", search_terms_property());
    assert(member_keys(object_view(props@)) =~= seq!["connection"@, "terms"@]);
    assert(member_schemas(object_view(props@)) =~= contract_search_entry().schemas);
    let required: [&str; 1] = ["terms"];
    assert(required@.map_values(|s: &str| s@) =~= seq!["terms"@]);
    let params = parameters(props, Some(required.as_slice()));
    definition(
        "contract_search",
        CONTRACT_SEARCH_DESCRIPTION,
        true,
        params,
        ToolEffect {
            database_data: true,
            external_side_effect: false,
            requires_approval: false,
            local_state: LocalStateEffect::Nothing,
        },
        None,
    )
}

/// The `contract_read` definition.
fn contract_read_tool() -> (r: ToolDefinition)
    ensures
        describes(r, "contract_read"@, contract_read_entry()),
{
    let mut props: Vec<(String, Json)> = Vec::new();
    proof {
        crate::json::lemma_object_view_literal(props@);
        assert(object_view(props@) =~= Seq::empty());
    }
    push_member(&mut props, "connection", described("string", CONTRACT_CONNECTION_DESCRIPTION));
    push_member(&mut props, "table", described("string", TABLE_DESCRIPTION));
    assert(member_keys(object_view(props@)) =~= seq!["connection"@, "table"@]);
    assert(member_schemas(object_view(props@)) =~= contract_read_entry().schemas);
    let required: [&str; 1] = ["table"];
    assert(required@.map_values(|s: &str| s@) =~= seq!["table"@]);
    let params = parameters(props, Some(required.as_slice()));
    definition(
        "contract_read",
        CONTRACT_READ_DESCRIPTION,
        true,
        params,
        ToolEffect {
            database_data: true,
            external_side_effect: false,
            requires_approval: false,
            local_state: LocalStateEffect::Nothing,
        },
        None,
    )
}
/// The chart kinds `render_chart` accepts.
pub open spec fn chart_kinds() -> Seq<Seq<char>> {
    seq!["bar"@, "line"@, "area"@, "pie"@, "doughnut"@, "scatter"@]
}

/// `{"type": "string", "enum": [the chart kinds]}`.
pub open spec fn chart_type_schema() -> JsonV {
    JsonV::Object(seq![("type"@, JsonV::String("string"@)), ("enum"@, string_array(chart_kinds()))])
}

/// `{"type": "array", "items": {"type": "string"}}`.
pub open spec fn string_list_schema() -> JsonV {
    JsonV::Object(seq![("type"@, JsonV::String("array"@)), ("items"@, typed_schema("string"@))])
}

/// The contract search `terms` schema: a described list of strings.
pub open spec fn search_terms_schema() -> JsonV {
    JsonV::Object(
        seq![
            ("type"@, JsonV::String("array"@)),
            ("items"@, typed_schema("string"@)),
            ("description"@, JsonV::String(TERMS_DESCRIPTION@)),
        ],
    )
}

/// `{"type": "string", "enum": [the chart kinds]}`.
fn chart_type_property() -> (r: Json)
    ensures
        r@ == chart_type_schema(),
{
    let kinds: [&str; 6] = ["bar", "line", "area", "pie", "doughnut", "scatter"];
    assert(kinds@.map_values(|s: &str| s@) =~= chart_kinds());
    let mut m = typed_members("string");
    let list = strings(kinds.as_slice());
    let ghost lv = list@;
    push_member(&mut m, "enum", list);
    assert(object_view(m@) =~= seq![("type"@, JsonV::String("string"@)), ("enum"@, lv)]);
    object(m)
}

/// `{"type": "array", "items": {"type": "string"}}`.
fn string_list_property() -> (r: Json)
    ensures
        r@ == string_list_schema(),
{
    let mut m = typed_members("array");
    push_member(&mut m, "items", typed("string"));
    assert(object_view(m@) =~= seq![
        ("type"@, JsonV::String("array"@)),
        ("items"@, typed_schema("string"@)),
    ]);
    object(m)
}

/// The contract search `terms` property.
fn search_terms_property() -> (r: Json)
    ensures
        r@ == search_terms_schema(),
{
    let mut m = typed_members("array");
    push_member(&mut m, "items", typed("string"));
    push_member(&mut m, "description", Json::String(TERMS_DESCRIPTION.to_owned()));
    assert(object_view(m@) =~= seq![
        ("type"@, JsonV::String("array"@)),
        ("items"@, typed_schema("string"@)),
        ("description"@, JsonV::String(TERMS_DESCRIPTION@)),
    ]);
    object(m)
}

/// Appends `d`, the definition of `name` with entry `a`, to `tools`.
fn push_tool(
    tools: &mut Vec<ToolDefinition>,
    d: ToolDefinition,
    Ghost(c): Ghost<Seq<(Seq<char>, Advertised)>>,
    Ghost(name): Ghost<Seq<char>>,
    Ghost(a): Ghost<Advertised>,
)
    requires
        defines(old(tools)@, c),
        describes(d, name, a),
    ensures
        defines(final(tools)@, c.push((name, a))),
{
    tools.push(d);
    assert forall|i: int| 0 <= i < c.push((name, a)).len() implies describes(
        #[trigger] tools@[i],
        c.push((name, a))[i].0,
        c.push((name, a))[i].1,
    ) by {
        if i < c.len() {
            assert(tools@[i] == old(tools)@[i]);
        }
    }
}

/// The contract tool definitions: both are advertised only when a state
/// store is present and database context is allowed; when the privacy gate
/// forbids database context they are hidden rather than advertised as
/// always-empty.
pub fn contract_definitions(allow_query_data: bool, has_state_store: bool) -> (r: Vec<ToolDefinition>)
    ensures
        defines(r@, contract_catalog(allow_query_data, has_state_store)),
{
    let mut tools: Vec<ToolDefinition> = Vec::new();
    if !allow_query_data || !has_state_store {
        return tools;
    }
    let ghost c: Seq<(Seq<char>, Advertised)> = Seq::empty();
    push_tool(&mut tools, contract_search_tool(), Ghost(c), Ghost("contract_search"@), Ghost(contract_search_entry()));
    let ghost c = c.push(("contract_search"@, contract_search_entry()));
    push_tool(&mut tools, contract_read_tool(), Ghost(c), Ghost("contract_read"@), Ghost(contract_read_entry()));
    let ghost c = c.push(("contract_read"@, contract_read_entry()));
    assert(c =~= contract_catalog(allow_query_data, has_state_store));
    tools
}

/// Appends each definition of `more` to `tools`.
fn append_tools(
    tools: &mut Vec<ToolDefinition>,
    more: Vec<ToolDefinition>,
    Ghost(c): Ghost<Seq<(Seq<char>, Advertised)>>,
    Ghost(d): Ghost<Seq<(Seq<char>, Advertised)>>,
)
    requires
        defines(old(tools)@, c),
        defines(more@, d),
    ensures
        defines(final(tools)@, c + d),
{
    let ghost before = tools@;
    let mut more = more;
    let ghost m = more@;
    tools.append(&mut more);
    assert forall|i: int| 0 <= i < (c + d).len() implies describes(
        #[trigger] tools@[i],
        (c + d)[i].0,
        (c + d)[i].1,
    ) by {
        if i < c.len() {
            assert(tools@[i] == before[i]);
        } else {
            assert(tools@[i] == m[i - c.len()]);
        }
    }
}

/// The tool definitions the agent advertises: the database tools, then the
/// contract tools. The workspace read and search tools touch no database
/// data and are always listed; the workspace write tools only with the
/// write permit; the query tools only when database context is allowed; the
/// contract tools only with a state store too. `permit_candidate_writes`
/// gates nothing here: no listed tool declares a candidate write. The
/// chart save is not offered.
pub fn definitions(
    allow_query_data: bool,
    has_state_store: bool,
    permit_candidate_writes: bool,
    permit_workspace_writes: bool,
) -> (r: Vec<ToolDefinition>)
    ensures
        defines(
            r@,
            database_catalog(allow_query_data, permit_workspace_writes, false) + contract_catalog(
                allow_query_data,
                has_state_store,
            ),
        ),
{
    definitions_with_chart_save(
        allow_query_data,
        has_state_store,
        permit_candidate_writes,
        permit_workspace_writes,
        false,
    )
}

/// The tool definitions as `definitions` gives them, with `render_chart`
/// offering its workspace `save_to` when the chart-save permit is given
/// together with the workspace-write permit.
pub fn definitions_with_chart_save(
    allow_query_data: bool,
    has_state_store: bool,
    permit_candidate_writes: bool,
    permit_workspace_writes: bool,
    permit_chart_save: bool,
) -> (r: Vec<ToolDefinition>)
    ensures
        defines(
            r@,
            database_catalog(allow_query_data, permit_workspace_writes, permit_chart_save)
                + contract_catalog(allow_query_data, has_state_store),
        ),
{
    let mut tools = database_definitions(
        allow_query_data,
        permit_workspace_writes,
        permit_workspace_writes && permit_chart_save,
    );
    let contract = contract_definitions(allow_query_data, has_state_store);
    append_tools(
        &mut tools,
        contract,
        Ghost(database_catalog(allow_query_data, permit_workspace_writes, permit_chart_save)),
        Ghost(contract_catalog(allow_query_data, has_state_store)),
    );
    tools
}

/// The database tools' definitions, in catalogue order.
fn database_definitions(allow_query_data: bool, permit_workspace_writes: bool, save: bool) -> (r:
    Vec<ToolDefinition>)
    requires
        save ==> permit_workspace_writes,
    ensures
        forall|chart_save: bool|
            (permit_workspace_writes && chart_save) == save ==> defines(
                r@,
                #[trigger] database_catalog(allow_query_data, permit_workspace_writes, chart_save),
            ),
{
    let mut tools: Vec<ToolDefinition> = Vec::new();
    let ghost c: Seq<(Seq<char>, Advertised)> = Seq::empty();
    push_tool(&mut tools, schema_discovery_tool(), Ghost(c), Ghost("schema_discovery"@), Ghost(schema_discovery_entry()));
    let ghost c = c.push(("schema_discovery"@, schema_discovery_entry()));
    push_tool(&mut tools, workspace_read_tool(), Ghost(c), Ghost("workspace_read"@), Ghost(workspace_read_entry()));
    let ghost c = c.push(("workspace_read"@, workspace_read_entry()));
    push_tool(&mut tools, workspace_list_tool(), Ghost(c), Ghost("workspace_list"@), Ghost(workspace_list_entry()));
    let ghost c = c.push(("workspace_list"@, workspace_list_entry()));
    push_tool(&mut tools, glob_tool(), Ghost(c), Ghost("glob"@), Ghost(glob_entry()));
    let ghost c = c.push(("glob"@, glob_entry()));
    push_tool(&mut tools, grep_tool(), Ghost(c), Ghost("grep"@), Ghost(grep_entry()));
    let ghost mut c = c.push(("grep"@, grep_entry()));
    if permit_workspace_writes {
        push_tool(&mut tools, workspace_edit_tool(), Ghost(c), Ghost("workspace_edit"@), Ghost(workspace_edit_entry()));
        proof {
            c = c.push(("workspace_edit"@, workspace_edit_entry()));
        }
        push_tool(&mut tools, workspace_write_tool(), Ghost(c), Ghost("workspace_write"@), Ghost(workspace_write_entry()));
        proof {
            c = c.push(("workspace_write"@, workspace_write_entry()));
        }
    }
    if allow_query_data {
        push_tool(&mut tools, bounded_sql_query_tool(), Ghost(c), Ghost("bounded_sql_query"@), Ghost(bounded_sql_query_entry()));
        proof {
            c = c.push(("bounded_sql_query"@, bounded_sql_query_entry()));
        }
        push_tool(&mut tools, bounded_sql_query_all_tool(), Ghost(c), Ghost("bounded_sql_query_all"@), Ghost(bounded_sql_query_all_entry()));
        proof {
            c = c.push(("bounded_sql_query_all"@, bounded_sql_query_all_entry()));
        }
        push_tool(&mut tools, result_shape_tool(), Ghost(c), Ghost("result_shape"@), Ghost(result_shape_entry()));
        proof {
            c = c.push(("result_shape"@, result_shape_entry()));
        }
        push_tool(&mut tools, column_health_tool(), Ghost(c), Ghost("column_health"@), Ghost(column_health_entry()));
        proof {
            c = c.push(("column_health"@, column_health_entry()));
        }
        push_tool(&mut tools, join_check_tool(), Ghost(c), Ghost("join_check"@), Ghost(join_check_entry()));
        proof {
            c = c.push(("join_check"@, join_check_entry()));
        }
        push_tool(&mut tools, render_chart_tool(save), Ghost(c), Ghost("render_chart"@), Ghost(render_chart_entry(save)));
        proof {
            c = c.push(("render_chart"@, render_chart_entry(save)));
        }
        push_tool(&mut tools, designate_answer_tool(), Ghost(c), Ghost("designate_answer"@), Ghost(designate_answer_entry()));
        proof {
            c = c.push(("designate_answer"@, designate_answer_entry()));
        }
    }
    assert forall|chart_save: bool|
        (permit_workspace_writes && chart_save) == save implies defines(
        tools@,
        #[trigger] database_catalog(allow_query_data, permit_workspace_writes, chart_save),
    ) by {
        assert(c =~= database_catalog(allow_query_data, permit_workspace_writes, chart_save));
    }
    tools
}

/// The database tool names are pairwise distinct, and `sql` is none of the
/// other required argument names.
proof fn lemma_tool_names_distinct()
    ensures
        "schema_discovery"@ != "workspace_read"@,
        "schema_discovery"@ != "workspace_list"@,
        "schema_discovery"@ != "workspace_write"@,
        "schema_discovery"@ != "workspace_edit"@,
        "schema_discovery"@ != "glob"@,
        "schema_discovery"@ != "grep"@,
        "schema_discovery"@ != "bounded_sql_query"@,
        "schema_discovery"@ != "bounded_sql_query_all"@,
        "schema_discovery"@ != "result_shape"@,
        "schema_discovery"@ != "column_health"@,
        "schema_discovery"@ != "join_check"@,
        "schema_discovery"@ != "render_chart"@,
        "schema_discovery"@ != "designate_answer"@,
        "workspace_read"@ != "workspace_list"@,
        "workspace_read"@ != "workspace_write"@,
        "workspace_read"@ != "workspace_edit"@,
        "workspace_read"@ != "glob"@,
        "workspace_read"@ != "grep"@,
        "workspace_read"@ != "bounded_sql_query"@,
        "workspace_read"@ != "bounded_sql_query_all"@,
        "workspace_read"@ != "result_shape"@,
        "workspace_read"@ != "column_health"@,
        "workspace_read"@ != "join_check"@,
        "workspace_read"@ != "render_chart"@,
        "workspace_read"@ != "designate_answer"@,
        "workspace_list"@ != "workspace_write"@,
        "workspace_list"@ != "workspace_edit"@,
        "workspace_list"@ != "glob"@,
        "workspace_list"@ != "grep"@,
        "workspace_list"@ != "bounded_sql_query"@,
        "workspace_list"@ != "bounded_sql_query_all"@,
        "workspace_list"@ != "result_shape"@,
        "workspace_list"@ != "column_health"@,
        "workspace_list"@ != "join_check"@,
        "workspace_list"@ != "render_chart"@,
        "workspace_list"@ != "designate_answer"@,
        "workspace_write"@ != "workspace_edit"@,
        "workspace_write"@ != "glob"@,
        "workspace_write"@ != "grep"@,
        "workspace_write"@ != "bounded_sql_query"@,
        "workspace_write"@ != "bounded_sql_query_all"@,
        "workspace_write"@ != "result_shape"@,
        "workspace_write"@ != "column_health"@,
        "workspace_write"@ != "join_check"@,
        "workspace_write"@ != "render_chart"@,
        "workspace_write"@ != "designate_answer"@,
        "workspace_edit"@ != "glob"@,
        "workspace_edit"@ != "grep"@,
        "workspace_edit"@ != "bounded_sql_query"@,
        "workspace_edit"@ != "bounded_sql_query_all"@,
        "workspace_edit"@ != "result_shape"@,
        "workspace_edit"@ != "column_health"@,
        "workspace_edit"@ != "join_check"@,
        "workspace_edit"@ != "render_chart"@,
        "workspace_edit"@ != "designate_answer"@,
        "glob"@ != "grep"@,
        "glob"@ != "bounded_sql_query"@,
        "glob"@ != "bounded_sql_query_all"@,
        "glob"@ != "result_shape"@,
        "glob"@ != "column_health"@,
        "glob"@ != "join_check"@,
        "glob"@ != "render_chart"@,
        "glob"@ != "designate_answer"@,
        "grep"@ != "bounded_sql_query"@,
        "grep"@ != "bounded_sql_query_all"@,
        "grep"@ != "result_shape"@,
        "grep"@ != "column_health"@,
        "grep"@ != "join_check"@,
        "grep"@ != "render_chart"@,
        "grep"@ != "designate_answer"@,
        "bounded_sql_query"@ != "bounded_sql_query_all"@,
        "bounded_sql_query"@ != "result_shape"@,
        "bounded_sql_query"@ != "column_health"@,
        "bounded_sql_query"@ != "join_check"@,
        "bounded_sql_query"@ != "render_chart"@,
        "bounded_sql_query"@ != "designate_answer"@,
        "bounded_sql_query_all"@ != "result_shape"@,
        "bounded_sql_query_all"@ != "column_health"@,
        "bounded_sql_query_all"@ != "join_check"@,
        "bounded_sql_query_all"@ != "render_chart"@,
        "bounded_sql_query_all"@ != "designate_answer"@,
        "result_shape"@ != "column_health"@,
        "result_shape"@ != "join_check"@,
        "result_shape"@ != "render_chart"@,
        "result_shape"@ != "designate_answer"@,
        "column_health"@ != "join_check"@,
        "column_health"@ != "render_chart"@,
        "column_health"@ != "designate_answer"@,
        "join_check"@ != "render_chart"@,
        "join_check"@ != "designate_answer"@,
        "render_chart"@ != "designate_answer"@,
        "sql"@ != "path"@,
        "sql"@ != "content"@,
        "sql"@ != "old_text"@,
        "sql"@ != "new_text"@,
        "sql"@ != "pattern"@,
{
    reveal_strlit("schema_discovery");
    reveal_strlit("workspace_read");
    reveal_strlit("workspace_list");
    reveal_strlit("workspace_write");
    reveal_strlit("workspace_edit");
    reveal_strlit("glob");
    reveal_strlit("grep");
    reveal_strlit("bounded_sql_query");
    reveal_strlit("bounded_sql_query_all");
    reveal_strlit("result_shape");
    reveal_strlit("column_health");
    reveal_strlit("join_check");
    reveal_strlit("render_chart");
    reveal_strlit("designate_answer");
    reveal_strlit("sql");
    reveal_strlit("path");
    reveal_strlit("content");
    reveal_strlit("old_text");
    reveal_strlit("new_text");
    reveal_strlit("pattern");
    assert("schema_discovery"@.len() == 16);
    assert("workspace_read"@.len() == 14);
    assert("workspace_list"@.len() == 14);
    assert("workspace_write"@.len() == 15);
    assert("workspace_edit"@.len() == 14);
    assert("glob"@.len() == 4);
    assert("grep"@.len() == 4);
    assert("bounded_sql_query"@.len() == 17);
    assert("bounded_sql_query_all"@.len() == 21);
    assert("result_shape"@.len() == 12);
    assert("column_health"@.len() == 13);
    assert("join_check"@.len() == 10);
    assert("render_chart"@.len() == 12);
    assert("designate_answer"@.len() == 16);
    assert("sql"@.len() == 3);
    assert("path"@.len() == 4);
    assert("content"@.len() == 7);
    assert("old_text"@.len() == 8);
    assert("new_text"@.len() == 8);
    assert("pattern"@.len() == 7);
    assert("designate_answer"@[0] == 'd');
    assert("glob"@[1] == 'l');
    assert("grep"@[1] == 'r');
    assert("render_chart"@[2] == 'n');
    assert("result_shape"@[2] == 's');
    assert("schema_discovery"@[0] == 's');
    assert("workspace_edit"@[10] == 'e');
    assert("workspace_list"@[10] == 'l');
    assert("workspace_read"@[10] == 'r');
}

/// The catalogue entry `a` of the tool `name` declares the argument names
/// that argument validation accepts for it, in the same order — all of
/// them, or all but a trailing `save_to` that is not offered — and lists
/// `sql` as required exactly when validation demands a `sql` string.
pub open spec fn entry_accepted(name: Seq<char>, a: Advertised) -> bool {
    tool_shape(name) matches Some((keys, requires_sql)) && (a.properties == keys || a.properties.push(
        "save_to"@,
    ) == keys) && (requires_sql <==> (a.required matches Some(req) && req.contains("sql"@)))
}

proof fn lemma_entries_accepted(save: bool)
    ensures
        entry_accepted("schema_discovery"@, schema_discovery_entry()),
        entry_accepted("workspace_read"@, workspace_read_entry()),
        entry_accepted("workspace_list"@, workspace_list_entry()),
        entry_accepted("glob"@, glob_entry()),
        entry_accepted("grep"@, grep_entry()),
        entry_accepted("workspace_edit"@, workspace_edit_entry()),
        entry_accepted("workspace_write"@, workspace_write_entry()),
        entry_accepted("bounded_sql_query"@, bounded_sql_query_entry()),
        entry_accepted("bounded_sql_query_all"@, bounded_sql_query_all_entry()),
        entry_accepted("result_shape"@, result_shape_entry()),
        entry_accepted("column_health"@, column_health_entry()),
        entry_accepted("join_check"@, join_check_entry()),
        entry_accepted("render_chart"@, render_chart_entry(save)),
        entry_accepted("designate_answer"@, designate_answer_entry()),
{
    lemma_tool_names_distinct();
    assert(bounded_sql_query_entry().required.unwrap()[0] == "sql"@);
    assert(bounded_sql_query_all_entry().required.unwrap()[0] == "sql"@);
    assert(result_shape_entry().required.unwrap()[0] == "sql"@);
    assert(column_health_entry().required.unwrap()[0] == "sql"@);
    assert(join_check_entry().required.unwrap()[0] == "sql"@);
    assert(render_chart_entry(save).required.unwrap()[0] == "sql"@);
    if save {
        assert(render_chart_entry(save).properties =~= tool_shape("render_chart"@).unwrap().0);
    } else {
        assert(render_chart_entry(save).properties.push("save_to"@) =~= tool_shape(
            "render_chart"@,
        ).unwrap().0);
    }
    assert(designate_answer_entry().required.unwrap()[0] == "sql"@);
}

/// Every database tool the catalogue advertises, under any privacy gate and
/// write permit, declares exactly the argument names that argument
/// validation accepts for it, in the same order, and lists `sql` as
/// required exactly when validation demands a `sql` string.
pub proof fn lemma_advertised_parameters_are_accepted(
    allow_query_data: bool,
    permit_workspace_writes: bool,
    permit_chart_save: bool,
    i: int,
)
    requires
        0 <= i < database_catalog(allow_query_data, permit_workspace_writes, permit_chart_save).len(),
    ensures
        entry_accepted(
            database_catalog(allow_query_data, permit_workspace_writes, permit_chart_save)[i].0,
            database_catalog(allow_query_data, permit_workspace_writes, permit_chart_save)[i].1,
        ),
{
    lemma_entries_accepted(permit_workspace_writes && permit_chart_save);
    let c = database_catalog(allow_query_data, permit_workspace_writes, permit_chart_save);
    let s1 = seq![
        ("schema_discovery"@, schema_discovery_entry()),
        ("workspace_read"@, workspace_read_entry()),
        ("workspace_list"@, workspace_list_entry()),
        ("glob"@, glob_entry()),
        ("grep"@, grep_entry()),
    ];
    let s2: Seq<(Seq<char>, Advertised)> = if permit_workspace_writes {
        seq![("workspace_edit"@, workspace_edit_entry()), ("workspace_write"@, workspace_write_entry())]
    } else {
        Seq::empty()
    };
    let s3: Seq<(Seq<char>, Advertised)> = if allow_query_data {
        seq![
            ("bounded_sql_query"@, bounded_sql_query_entry()),
            ("bounded_sql_query_all"@, bounded_sql_query_all_entry()),
            ("result_shape"@, result_shape_entry()),
            ("column_health"@, column_health_entry()),
            ("join_check"@, join_check_entry()),
            ("render_chart"@, render_chart_entry(permit_workspace_writes && permit_chart_save)),
            ("designate_answer"@, designate_answer_entry()),
        ]
    } else {
        Seq::empty()
    };
    assert(c == s1 + s2 + s3);
    if i < 5 {
        assert(c[i] == s1[i]);
    } else if i < 5 + s2.len() {
        assert(c[i] == s2[i - 5]);
    } else {
        assert(c[i] == s3[i - 5 - s2.len()]);
    }
}

/// What is hidden stays hidden: under any privacy gate, state store,
/// write permit and chart-save permit, no advertised tool reads database
/// data while database context is forbidden, none writes the workspace
/// without the write permit, and none writes a candidate claim.
pub proof fn lemma_hidden_tools_are_not_advertised(
    allow_query_data: bool,
    has_state_store: bool,
    permit_workspace_writes: bool,
    permit_chart_save: bool,
    i: int,
)
    requires
        0 <= i < (database_catalog(allow_query_data, permit_workspace_writes, permit_chart_save) + contract_catalog(
            allow_query_data,
            has_state_store,
        )).len(),
    ensures
        ({
            let e = (database_catalog(allow_query_data, permit_workspace_writes, permit_chart_save) + contract_catalog(
                allow_query_data,
                has_state_store,
            ))[i].1.effect;
            &&& e.database_data ==> allow_query_data
            &&& e.local_state == LocalStateEffect::WriteWorkspace ==> permit_workspace_writes
            &&& e.local_state != LocalStateEffect::WriteCandidate
        }),
{
    let d = database_catalog(allow_query_data, permit_workspace_writes, permit_chart_save);
    let k = contract_catalog(allow_query_data, has_state_store);
    let s1 = seq![
        ("schema_discovery"@, schema_discovery_entry()),
        ("workspace_read"@, workspace_read_entry()),
        ("workspace_list"@, workspace_list_entry()),
        ("glob"@, glob_entry()),
        ("grep"@, grep_entry()),
    ];
    let s2: Seq<(Seq<char>, Advertised)> = if permit_workspace_writes {
        seq![("workspace_edit"@, workspace_edit_entry()), ("workspace_write"@, workspace_write_entry())]
    } else {
        Seq::empty()
    };
    let s3: Seq<(Seq<char>, Advertised)> = if allow_query_data {
        seq![
            ("bounded_sql_query"@, bounded_sql_query_entry()),
            ("bounded_sql_query_all"@, bounded_sql_query_all_entry()),
            ("result_shape"@, result_shape_entry()),
            ("column_health"@, column_health_entry()),
            ("join_check"@, join_check_entry()),
            ("render_chart"@, render_chart_entry(permit_workspace_writes && permit_chart_save)),
            ("designate_answer"@, designate_answer_entry()),
        ]
    } else {
        Seq::empty()
    };
    assert(d == s1 + s2 + s3);
    let c = d + k;
    if i < 5 {
        assert(c[i] == s1[i]);
    } else if i < 5 + s2.len() {
        assert(c[i] == s2[i - 5]);
    } else if i < d.len() {
        assert(c[i] == s3[i - 5 - s2.len()]);
    } else {
        assert(c[i] == k[i - d.len()]);
    }
}

/// Every contract tool the catalogue advertises declares exactly the
/// argument names that contract argument validation accepts for it.
pub proof fn lemma_contract_parameters_are_accepted(
    allow_query_data: bool,
    has_state_store: bool,
    i: int,
)
    requires
        0 <= i < contract_catalog(allow_query_data, has_state_store).len(),
    ensures
        contract_tool_shape(contract_catalog(allow_query_data, has_state_store)[i].0) == Some(
            contract_catalog(allow_query_data, has_state_store)[i].1.properties,
        ),
{
    reveal_strlit("contract_search");
    reveal_strlit("contract_read");
    assert("contract_search"@.len() == 15);
    assert("contract_read"@.len() == 13);
}

/// The `contract_propose` tool's description.
pub const CONTRACT_PROPOSE_DESCRIPTION: &'static str = "Propose one candidate contract claim about a database object, derived from \
            what you observed this turn. The claim is stored as a candidate — inert until a human \
            confirms it; you cannot confirm a claim yourself. Use this when the user's question or \
            your queries reveal a durable fact about a table or column (an alias, a grain, a \
            default time column, a description, or a column role). Pass `table` as exactly three \
            dot-separated parts: catalog.schema.object. `kind` is one of: description, alias, \
            grain, time-column, column-description (needs `column`), column-role (needs \
            `column`, value is the role: identifier, dimension, measure, timestamp, sensitive). \
            At most eight proposals are stored per turn; the ninth is refused.";

/// The `kind` values `contract_propose` advertises, in declaration order.
pub open spec fn kind_enum() -> Seq<Seq<char>> {
    seq![
        "description"@,
        "alias"@,
        "grain"@,
        "time-column"@,
        "column-description"@,
        "column-role"@,
    ]
}

/// The catalogue entry of `contract_propose`: the first tool that writes
/// local state (a candidate claim), database-derived, and not approved per
/// call — the permission gate is the candidate-write permit.
pub open spec fn contract_propose_entry() -> Advertised {
    Advertised {
        description: CONTRACT_PROPOSE_DESCRIPTION@,
        read_only: false,
        effect: effect(true, false, false, LocalStateEffect::WriteCandidate),
        completion: None,
        properties: seq!["table"@, "kind"@, "value"@, "column"@, "connection"@],
        schemas: seq![
            described_schema("string"@, TABLE_DESCRIPTION@),
            kind_schema(),
            described_schema("string"@, CLAIM_VALUE_DESCRIPTION@),
            described_schema("string"@, CLAIM_COLUMN_DESCRIPTION@),
            described_schema("string"@, PROPOSE_CONNECTION_DESCRIPTION@),
        ],
        required: Some(seq!["table"@, "kind"@, "value"@]),
        one_of: None,
    }
}

/// The `kind` property of a `contract_propose` schema lists `kinds`.
pub open spec fn kind_property_lists(p: JsonV, kinds: Seq<Seq<char>>) -> bool {
    json_get(p, "properties"@) matches Some(props) && json_get(props, "kind"@) matches Some(k)
        && json_get(k, "enum"@) == Some(string_array(kinds))
}

/// The `kind` schema of `contract_propose`: a described string limited to
/// the claim kinds.
pub open spec fn kind_schema() -> JsonV {
    JsonV::Object(
        seq![
            ("type"@, JsonV::String("string"@)),
            ("enum"@, string_array(kind_enum())),
            ("description"@, JsonV::String(KIND_DESCRIPTION@)),
        ],
    )
}

/// `{"type": "string", "enum": kinds, "description": ...}` for `kind`.
fn kind_property() -> (r: Json)
    ensures
        r@ == kind_schema(),
        json_get(r@, "enum"@) == Some(string_array(kind_enum())),
{
    let kinds: [&str; 6] = [
        "description",
        "alias",
        "grain",
        "time-column",
        "column-description",
        "column-role",
    ];
    assert(kinds@.map_values(|s: &str| s@) =~= kind_enum());
    let mut m = typed_members("string");
    push_member(&mut m, "enum", strings(kinds.as_slice()));
    push_member(&mut m, "description", Json::String(KIND_DESCRIPTION.to_owned()));
    let ghost mv = object_view(m@);
    assert(mv =~= seq![
        ("type"@, JsonV::String("string"@)),
        ("enum"@, string_array(kind_enum())),
        ("description"@, JsonV::String(KIND_DESCRIPTION@)),
    ]);
    let r = object(m);
    proof {
        reveal_strlit("type");
        reveal_strlit("enum");
        assert("type"@.len() == 4);
        assert("enum"@.len() == 4);
        assert("type"@[0] == 't');
        reveal_with_fuel(members_get, 3);
        assert(mv.drop_first()[0].0 == "enum"@);
    }
    r
}

/// The `contract_propose` definition, its `kind` enum built from the one
/// vocabulary list.
pub fn propose_definition() -> (r: ToolDefinition)
    ensures
        describes(r, "contract_propose"@, contract_propose_entry()),
        kind_property_lists(r.parameters@, kind_enum()),
{
    let mut props: Vec<(String, Json)> = Vec::new();
    proof {
        crate::json::lemma_object_view_literal(props@);
        assert(object_view(props@) =~= Seq::empty());
    }
    push_member(
        &mut props,
        "table",
        described("string", TABLE_DESCRIPTION),
    );
    let kind = kind_property();
    let ghost kind_v = kind@;
    push_member(&mut props, "kind", kind);
    push_member(&mut props, "value", described("string", CLAIM_VALUE_DESCRIPTION));
    push_member(
        &mut props,
        "column",
        described("string", CLAIM_COLUMN_DESCRIPTION),
    );
    push_member(
        &mut props,
        "connection",
        described("string", PROPOSE_CONNECTION_DESCRIPTION),
    );
    let ghost pv = object_view(props@);
    assert(member_keys(pv) =~= seq!["table"@, "kind"@, "value"@, "column"@, "connection"@]);
    assert(member_schemas(pv) =~= contract_propose_entry().schemas);
    proof {
        reveal_strlit("table");
        reveal_strlit("kind");
        assert("table"@.len() == 5);
        assert("kind"@.len() == 4);
        reveal_with_fuel(members_get, 3);
        assert(pv.drop_first()[0] == ("kind"@, kind_v));
        assert(members_get(pv, "kind"@) == Some(kind_v));
    }
    let required: [&str; 3] = ["table", "kind", "value"];
    assert(required@.map_values(|s: &str| s@) =~= seq!["table"@, "kind"@, "value"@]);
    let params = parameters(props, Some(required.as_slice()));
    definition(
        "contract_propose",
        CONTRACT_PROPOSE_DESCRIPTION,
        false,
        params,
        ToolEffect {
            database_data: true,
            external_side_effect: false,
            requires_approval: false,
            local_state: LocalStateEffect::WriteCandidate,
        },
        None,
    )
}

/// The `contract_propose` schema declares exactly the properties its
/// argument validation accepts, in the same order.
pub proof fn lemma_propose_parameters_are_accepted()
    ensures
        contract_propose_entry().properties == crate::propose::allowed_properties(),
{
}

} // verus!
