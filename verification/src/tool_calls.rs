//! What a tool call shows the user before it runs: a short detail naming
//! the key fact (the file written, the program run, the SQL with its target)
//! and, for the query tools, the SQL formatted across lines. No argument
//! value beyond the key fact ever reaches the detail.

use vstd::prelude::*;

use crate::json::{get_str, str_eq, Json, JsonV};
use crate::sql_format::{collapse_whitespace, format_sql, spec_collapse, spec_format_sql};
use crate::text::push_str;

verus! {

/// The text of `key`'s member when it is a non-empty string.
pub open spec fn nonempty_str(j: JsonV, key: Seq<char>) -> Option<Seq<char>> {
    match get_str(j, key) {
        Some(s) => if s.len() > 0 {
            Some(s)
        } else {
            None
        },
        None => None,
    }
}

/// The tools that run SQL.
pub open spec fn is_sql_tool(name: Seq<char>) -> bool {
    name == "bounded_sql_query"@ || name == "bounded_sql_query_all"@ || name == "render_chart"@
        || name == "result_shape"@ || name == "column_health"@ || name == "join_check"@
}

/// The detail of a query tool call over the displayed SQL `s`.
pub open spec fn sql_detail(name: Seq<char>, j: JsonV, s: Seq<char>) -> Seq<char> {
    let connection = nonempty_str(j, "connection"@);
    if name == "render_chart"@ {
        match (connection, nonempty_str(j, "chart_type"@)) {
            (Some(c), Some(t)) => s + "  (@"@ + c + ") (chart: "@ + t + ")"@,
            (Some(c), None) => s + "  (@"@ + c + ")"@,
            (None, Some(t)) => s + "  (chart: "@ + t + ")"@,
            (None, None) => s,
        }
    } else {
        match connection {
            Some(c) => s + "  (@"@ + c + ")"@,
            None => if name == "bounded_sql_query_all"@ {
                s + "  (all connected databases)"@
            } else {
                s
            },
        }
    }
}

/// What `tool_call_detail` returns for the tool `name` called with `j`.
pub open spec fn spec_tool_call_detail(name: Seq<char>, j: JsonV) -> Option<Seq<char>> {
    if name == "workspace_write"@ {
        nonempty_str(j, "path"@)
    } else if name == "run_command"@ {
        nonempty_str(j, "program"@)
    } else if is_sql_tool(name) {
        match get_str(j, "sql"@) {
            Some(sql) => {
                let s = spec_collapse(sql);
                if s.len() == 0 {
                    None
                } else {
                    Some(sql_detail(name, j, s))
                }
            },
            None => None,
        }
    } else {
        None
    }
}

fn nonempty_member<'a>(arguments: &'a Json, key: &str) -> (r: Option<&'a str>)
    ensures
        match r {
            Some(s) => nonempty_str(arguments@, key@) == Some(s@),
            None => nonempty_str(arguments@, key@) is None,
        },
{
    match arguments.get_str(key) {
        Some(s) => {
            if s.is_empty() {
                None
            } else {
                Some(s)
            }
        },
        None => None,
    }
}

fn is_sql_tool_name(name: &str) -> (r: bool)
    ensures
        r == is_sql_tool(name@),
{
    str_eq(name, "bounded_sql_query") || str_eq(name, "bounded_sql_query_all") || str_eq(
        name,
        "render_chart",
    ) || str_eq(name, "result_shape") || str_eq(name, "column_health") || str_eq(
        name,
        "join_check",
    )
}

/// A short, human-readable detail for a tool call, surfaced in approval
/// prompts and the transcript: the file path for `workspace_write`, the
/// program for `run_command`, and for the query tools the SQL with its
/// whitespace collapsed, annotated with the target connection, the chart
/// type, or "all connected databases" for the fan-out tool. `None` for
/// tools with nothing worth showing.
pub fn tool_call_detail(name: &str, arguments: &Json) -> (r: Option<String>)
    ensures
        match r {
            Some(d) => spec_tool_call_detail(name@, arguments@) == Some(d@),
            None => spec_tool_call_detail(name@, arguments@) is None,
        },
{
    if str_eq(name, "workspace_write") {
        return match nonempty_member(arguments, "path") {
            Some(p) => Some(p.to_owned()),
            None => None,
        };
    }
    if str_eq(name, "run_command") {
        return match nonempty_member(arguments, "program") {
            Some(p) => Some(p.to_owned()),
            None => None,
        };
    }
    if !is_sql_tool_name(name) {
        return None;
    }
    let raw = match arguments.get_str("sql") {
        Some(s) => s,
        None => {
            return None;
        },
    };
    let mut sql = collapse_whitespace(raw);
    if sql.as_str().is_empty() {
        return None;
    }
    let ghost s = sql@;
    let connection = nonempty_member(arguments, "connection");
    if str_eq(name, "render_chart") {
        let chart_type = nonempty_member(arguments, "chart_type");
        match (connection, chart_type) {
            (Some(c), Some(t)) => {
                push_str(&mut sql, "  (@");
                push_str(&mut sql, c);
                push_str(&mut sql, ") (chart: ");
                push_str(&mut sql, t);
                push_str(&mut sql, ")");
            },
            (Some(c), None) => {
                push_str(&mut sql, "  (@");
                push_str(&mut sql, c);
                push_str(&mut sql, ")");
            },
            (None, Some(t)) => {
                push_str(&mut sql, "  (chart: ");
                push_str(&mut sql, t);
                push_str(&mut sql, ")");
            },
            (None, None) => {},
        }
        return Some(sql);
    }
    match connection {
        Some(c) => {
            push_str(&mut sql, "  (@");
            push_str(&mut sql, c);
            push_str(&mut sql, ")");
        },
        None => {
            if str_eq(name, "bounded_sql_query_all") {
                push_str(&mut sql, "  (all connected databases)");
            }
        },
    }
    Some(sql)
}

/// A query tool call ready for display: the target label (`None` for the
/// primary connection) and the SQL formatted across lines.
#[derive(Debug, PartialEq)]
pub struct SqlCall {
    pub target: Option<String>,
    pub sql: String,
}

/// What `sql_tool_call` returns: for a query tool with a `sql` string whose
/// formatted form is not empty, the target and the formatted SQL.
pub open spec fn spec_sql_tool_call(name: Seq<char>, j: JsonV) -> Option<(Option<Seq<char>>, Seq<char>)> {
    if !is_sql_tool(name) {
        None
    } else {
        match get_str(j, "sql"@) {
            Some(raw) => {
                let sql = spec_format_sql(raw);
                if sql.len() == 0 {
                    None
                } else {
                    let target = match nonempty_str(j, "connection"@) {
                        Some(c) => Some("@"@ + c),
                        None => if name == "bounded_sql_query_all"@ {
                            Some("all connected databases"@)
                        } else {
                            None
                        },
                    };
                    Some((target, sql))
                }
            },
            None => None,
        }
    }
}

/// If this tool call runs SQL, its target label and the SQL formatted for
/// display; `None` for other tools or without a non-empty `sql` argument.
pub fn sql_tool_call(name: &str, arguments: &Json) -> (r: Option<SqlCall>)
    ensures
        match r {
            Some(call) => spec_sql_tool_call(name@, arguments@) == Some(
                (crate::workspace_edit::opt_view(call.target), call.sql@),
            ),
            None => spec_sql_tool_call(name@, arguments@) is None,
        },
{
    if !is_sql_tool_name(name) {
        return None;
    }
    let raw = match arguments.get_str("sql") {
        Some(s) => s,
        None => {
            return None;
        },
    };
    let sql = format_sql(raw);
    if sql.as_str().is_empty() {
        return None;
    }
    let target = match nonempty_member(arguments, "connection") {
        Some(c) => {
            let mut t = "@".to_owned();
            push_str(&mut t, c);
            Some(t)
        },
        None => {
            if str_eq(name, "bounded_sql_query_all") {
                Some("all connected databases".to_owned())
            } else {
                None
            }
        },
    };
    Some(SqlCall { target, sql })
}

} // verus!
