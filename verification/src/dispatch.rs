//! How a read-only database tool call is dispatched: contract tools go to
//! their own executor and record nothing; every other call is validated; a
//! tool that runs SQL under a closed data-sharing gate is denied before it
//! touches a database; the fan-out query goes to every connection; the
//! workspace tools go to their handlers with no connection resolved; the
//! rest go to the connection the call names. Also the fan-out's
//! per-database report.

use vstd::prelude::*;

use crate::json::{array_view, get_str, object_view, push_member, str_eq, Json, JsonV};
use crate::logs::{ObservationOutcome, ToolObservation};
use crate::tool_args::{spec_validate_arguments, validate_arguments};
use crate::tool_error::ToolError;

verus! {

/// Where a read-only call goes once it is admitted.
#[derive(Debug, PartialEq)]
pub enum ReadOnlyRoute {
    /// A contract tool: its own validation and executor, no observation.
    Contract,
    /// A query tool under a closed data-sharing gate: record the denial and
    /// refuse with `DataSharingDisabled`.
    Denied,
    /// The fan-out query over every connection.
    QueryAll { sql: String },
    /// Schema discovery on the named connection.
    Schema,
    /// One bounded query on the named connection.
    Query { sql: String },
    /// A chart rendered from one query on the named connection.
    Chart { sql: String },
    /// The value-free shape of one query's result.
    ResultShape { sql: String },
    /// The value-free per-column health of one query's result.
    ColumnHealth { sql: String },
    /// The fan-out probe of one query's joins.
    JoinCheck { sql: String },
    /// A workspace tool: handed to its handler, with no connection resolved.
    Workspace(WorkspaceTool),
    /// A validated name this dispatch does not serve.
    Unsupported,
}

/// The workspace tools.
#[derive(PartialEq, Eq, Structural, Clone, Copy, Debug)]
pub enum WorkspaceTool {
    Read,
    List,
    Write,
    Edit,
    Glob,
    Grep,
}

/// The workspace tool a name calls, if it calls one.
pub open spec fn workspace_tool(name: Seq<char>) -> Option<WorkspaceTool> {
    if name == "workspace_read"@ {
        Some(WorkspaceTool::Read)
    } else if name == "workspace_list"@ {
        Some(WorkspaceTool::List)
    } else if name == "workspace_write"@ {
        Some(WorkspaceTool::Write)
    } else if name == "workspace_edit"@ {
        Some(WorkspaceTool::Edit)
    } else if name == "glob"@ {
        Some(WorkspaceTool::Glob)
    } else if name == "grep"@ {
        Some(WorkspaceTool::Grep)
    } else {
        None
    }
}

/// The tools the data-sharing gate refuses: every tool that runs SQL.
pub open spec fn gated(name: Seq<char>) -> bool {
    name == "bounded_sql_query"@ || name == "bounded_sql_query_all"@ || name == "render_chart"@
        || name == "result_shape"@ || name == "column_health"@ || name == "join_check"@
}

/// `r` routes the SQL tool `name` with the call's `sql`, or refuses a call
/// without a string `sql`.
pub open spec fn sql_routed(r: Result<ReadOnlyRoute, ToolError>, name: Seq<char>, j: JsonV) -> bool {
    match get_str(j, "sql"@) {
        Some(sql) => match r {
            Ok(ReadOnlyRoute::QueryAll { sql: s }) => name == "bounded_sql_query_all"@ && s@ == sql,
            Ok(ReadOnlyRoute::Query { sql: s }) => name == "bounded_sql_query"@ && s@ == sql,
            Ok(ReadOnlyRoute::Chart { sql: s }) => name == "render_chart"@ && s@ == sql,
            Ok(ReadOnlyRoute::ResultShape { sql: s }) => name == "result_shape"@ && s@ == sql,
            Ok(ReadOnlyRoute::ColumnHealth { sql: s }) => name == "column_health"@ && s@ == sql,
            Ok(ReadOnlyRoute::JoinCheck { sql: s }) => name == "join_check"@ && s@ == sql,
            _ => false,
        },
        None => r == Err::<ReadOnlyRoute, ToolError>(ToolError::InvalidQueryArguments),
    }
}

/// `r` is the route the dispatch picks for `name` called with `j`.
pub open spec fn routes(r: Result<ReadOnlyRoute, ToolError>, name: Seq<char>, j: JsonV, allow_query_data: bool) -> bool {
    if name == "contract_search"@ || name == "contract_read"@ {
        r matches Ok(ReadOnlyRoute::Contract)
    } else if spec_validate_arguments(name, j) is Err {
        r == Err::<ReadOnlyRoute, ToolError>(spec_validate_arguments(name, j)->Err_0)
    } else if gated(name) && !allow_query_data {
        r matches Ok(ReadOnlyRoute::Denied)
    } else if gated(name) {
        sql_routed(r, name, j)
    } else if name == "schema_discovery"@ {
        r matches Ok(ReadOnlyRoute::Schema)
    } else if workspace_tool(name) is Some {
        r == Ok::<ReadOnlyRoute, ToolError>(ReadOnlyRoute::Workspace(workspace_tool(name).unwrap()))
    } else {
        r matches Ok(ReadOnlyRoute::Unsupported)
    }
}

fn sql_of(arguments: &Json) -> (r: Result<String, ToolError>)
    ensures
        match get_str(arguments@, "sql"@) {
            Some(sql) => r matches Ok(s) && s@ == sql,
            None => r == Err::<String, ToolError>(ToolError::InvalidQueryArguments),
        },
{
    match arguments.get_str("sql") {
        Some(s) => Ok(s.to_owned()),
        None => Err(ToolError::InvalidQueryArguments),
    }
}

/// Decides where a read-only call goes.
pub fn read_only_route(name: &str, arguments: &Json, allow_query_data: bool) -> (r: Result<
    ReadOnlyRoute,
    ToolError,
>)
    ensures
        routes(r, name@, arguments@, allow_query_data),
{
    if str_eq(name, "contract_search") || str_eq(name, "contract_read") {
        return Ok(ReadOnlyRoute::Contract);
    }
    match validate_arguments(name, arguments) {
        Ok(()) => {},
        Err(e) => {
            return Err(e);
        },
    }
    let is_all = str_eq(name, "bounded_sql_query_all");
    let is_query = str_eq(name, "bounded_sql_query");
    let is_chart = str_eq(name, "render_chart");
    let is_shape = str_eq(name, "result_shape");
    let is_health = str_eq(name, "column_health");
    let is_join = str_eq(name, "join_check");
    if is_all || is_query || is_chart || is_shape || is_health || is_join {
        if !allow_query_data {
            return Ok(ReadOnlyRoute::Denied);
        }
        let sql = match sql_of(arguments) {
            Ok(sql) => sql,
            Err(e) => {
                return Err(e);
            },
        };
        return Ok(
            if is_all {
                ReadOnlyRoute::QueryAll { sql }
            } else if is_query {
                ReadOnlyRoute::Query { sql }
            } else if is_chart {
                ReadOnlyRoute::Chart { sql }
            } else if is_shape {
                ReadOnlyRoute::ResultShape { sql }
            } else if is_health {
                ReadOnlyRoute::ColumnHealth { sql }
            } else {
                ReadOnlyRoute::JoinCheck { sql }
            },
        );
    }
    if str_eq(name, "schema_discovery") {
        return Ok(ReadOnlyRoute::Schema);
    }
    if str_eq(name, "workspace_read") {
        return Ok(ReadOnlyRoute::Workspace(WorkspaceTool::Read));
    }
    if str_eq(name, "workspace_list") {
        return Ok(ReadOnlyRoute::Workspace(WorkspaceTool::List));
    }
    if str_eq(name, "workspace_write") {
        return Ok(ReadOnlyRoute::Workspace(WorkspaceTool::Write));
    }
    if str_eq(name, "workspace_edit") {
        return Ok(ReadOnlyRoute::Workspace(WorkspaceTool::Edit));
    }
    if str_eq(name, "glob") {
        return Ok(ReadOnlyRoute::Workspace(WorkspaceTool::Glob));
    }
    if str_eq(name, "grep") {
        return Ok(ReadOnlyRoute::Workspace(WorkspaceTool::Grep));
    }
    Ok(ReadOnlyRoute::Unsupported)
}

/// The observation a denied call leaves: the tool and `Denied`, and no
/// positive evidence — no profile, objects, columns or rows.
pub fn denied_observation(name: &str) -> (o: ToolObservation)
    ensures
        o.tool@ == name@,
        o.outcome == ObservationOutcome::Denied,
        o.profile is None,
        o.objects@.len() == 0,
        o.columns@.len() == 0,
        o.row_count is None,
        o.truncated is None,
        !o.references_partial,
{
    ToolObservation {
        tool: name.to_owned(),
        outcome: ObservationOutcome::Denied,
        profile: None,
        objects: Vec::new(),
        columns: Vec::new(),
        row_count: None,
        truncated: None,
        references_partial: false,
    }
}

/// One database's part of a fan-out: its position in connection order, its
/// name and dialect, and its result or error text.
#[derive(Debug, PartialEq)]
pub struct FanOutOutcome {
    pub index: usize,
    pub name: String,
    pub dialect: String,
    pub outcome: Result<Json, String>,
}

/// The record of one database in the fan-out report.
pub open spec fn fan_out_record(o: FanOutOutcome) -> JsonV {
    JsonV::Object(
        seq![("connection"@, JsonV::String(o.name@)), ("dialect"@, JsonV::String(o.dialect@))]
            + match o.outcome {
            Ok(v) => seq![("result"@, v@)],
            Err(e) => seq![("error"@, JsonV::String(e@))],
        },
    )
}

/// `s` is ordered by connection position.
pub open spec fn in_connection_order(s: Seq<FanOutOutcome>) -> bool {
    forall|i: int, j: int| 0 <= i < j < s.len() ==> s[i].index <= s[j].index
}

/// `slice::sort_by_key` on the position: afterwards the outcomes are in
/// connection order and are the same outcomes as before. The sort is
/// stable; that equal positions keep their order is left unstated.
#[verifier::external_body]
fn sort_by_position(outcomes: &mut Vec<FanOutOutcome>)
    ensures
        in_connection_order(final(outcomes)@),
        final(outcomes)@.to_multiset() == old(outcomes)@.to_multiset(),
{
    outcomes.sort_by_key(|o| o.index);
}

/// The record of one database: its connection name and dialect, and its
/// `result` or its `error`.
pub fn fan_out_record_of(o: FanOutOutcome) -> (r: Json)
    ensures
        r@ == fan_out_record(o),
{
    let ghost ov = fan_out_record(o);
    let ghost head = seq![("connection"@, JsonV::String(o.name@)), ("dialect"@, JsonV::String(o.dialect@))];
    let ghost tail = if o.outcome is Ok {
        seq![("result"@, o.outcome->Ok_0@)]
    } else {
        seq![("error"@, JsonV::String(o.outcome->Err_0@))]
    };
    let mut m: Vec<(String, Json)> = Vec::new();
    proof {
        crate::json::lemma_object_view_literal(m@);
        assert(object_view(m@) =~= Seq::empty());
    }
    push_member(&mut m, "connection", Json::String(o.name));
    push_member(&mut m, "dialect", Json::String(o.dialect));
    assert(object_view(m@) =~= head);
    match o.outcome {
        Ok(v) => {
            push_member(&mut m, "result", v);
        },
        Err(e) => {
            push_member(&mut m, "error", Json::String(e));
        },
    }
    assert(object_view(m@) =~= head + tail);
    Json::Object(m)
}

/// The fan-out report: one record per database, in connection order
/// whatever order the queries finished in.
pub fn fan_out_report(outcomes: Vec<FanOutOutcome>) -> (r: Json)
    ensures
        exists|sorted: Seq<FanOutOutcome>|
            #![trigger sorted.to_multiset()]
            in_connection_order(sorted) && sorted.to_multiset() == outcomes@.to_multiset() && r@
                == JsonV::Object(
                seq![
                    (
                        "databases"@,
                        JsonV::Array(sorted.map_values(|o: FanOutOutcome| fan_out_record(o))),
                    ),
                ],
            ),
{
    let mut outcomes = outcomes;
    sort_by_position(&mut outcomes);
    let ghost sorted = outcomes@;
    let mut records: Vec<Json> = Vec::new();
    let n = outcomes.len();
    let mut i: usize = 0;
    while outcomes.len() > 0
        invariant
            n == sorted.len(),
            outcomes@ == sorted.subrange(i as int, n as int),
            i + outcomes@.len() == n,
            array_view(records@) =~= sorted.take(i as int).map_values(
                |o: FanOutOutcome| fan_out_record(o),
            ),
        decreases outcomes.len(),
    {
        let o = outcomes.remove(0);
        assert(o == sorted[i as int]);
        let rec = fan_out_record_of(o);
        proof {
            crate::json::lemma_array_view_push(records@, rec);
            assert(sorted.take(i as int + 1) =~= sorted.take(i as int).push(sorted[i as int]));
        }
        records.push(rec);
        i += 1;
        assert(outcomes@ =~= sorted.subrange(i as int, n as int));
    }
    assert(sorted.take(n as int) =~= sorted);
    let mut m: Vec<(String, Json)> = Vec::new();
    proof {
        crate::json::lemma_object_view_literal(m@);
        assert(object_view(m@) =~= Seq::empty());
    }
    let ghost rv = array_view(records@);
    push_member(&mut m, "databases", Json::Array(records));
    let r = Json::Object(m);
    assert(object_view(m@) =~= seq![("databases"@, JsonV::Array(rv))]);
    r
}

/// The fan-out's answer when no connection is selected.
pub const NO_PROFILE_SELECTED: &'static str = "no database profile is selected";

/// The error text of a fan-out query that ran out of time.
pub const QUERY_TIMED_OUT: &'static str = "read-only query timed out";

} // verus!
