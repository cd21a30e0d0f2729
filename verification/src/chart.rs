//! The `render_chart` tool's own decisions: the save target's workspace
//! requirement, the chart choices the call overrides, the save bound, and
//! the result naming the file (never the rows).

use vstd::prelude::*;

use crate::contract_tools::strings_of;
use crate::json::{get_str, json_get, object_view, push_member, Json, JsonV};
use crate::text::{push_decimal, push_str, spec_decimal};
use crate::tool_error::ToolError;

verus! {

/// What a `render_chart` call asks of the chart besides its SQL: the chart
/// type as written, the x column, the y columns (none when the call names
/// no non-empty list) and the title.
#[derive(Debug, PartialEq)]
pub struct ChartOverrides {
    pub chart_type: Option<String>,
    pub x: Option<String>,
    pub y: Vec<String>,
    pub title: Option<String>,
}

/// The strings of `key`'s member when it is an array.
pub open spec fn string_items(j: JsonV, key: Seq<char>) -> Seq<Seq<char>> {
    match json_get(j, key) {
        Some(JsonV::Array(items)) => strings_of(items),
        _ => Seq::empty(),
    }
}

/// The SQL and the save path of a `render_chart` call: a named `save_to`
/// needs an attached workspace (checked first), and the SQL must be a
/// string.
pub fn chart_request(arguments: &Json, workspace_attached: bool) -> (r: Result<
    (String, Option<String>),
    ToolError,
>)
    ensures
        if get_str(arguments@, "save_to"@) is Some && !workspace_attached {
            r == Err::<(String, Option<String>), ToolError>(ToolError::WorkspaceUnavailable)
        } else {
            match get_str(arguments@, "sql"@) {
                None => r == Err::<(String, Option<String>), ToolError>(
                    ToolError::InvalidQueryArguments,
                ),
                Some(sql) => r matches Ok((s, p)) && s@ == sql && crate::workspace_edit::opt_view(p)
                    == get_str(arguments@, "save_to"@),
            }
        },
{
    let saved = arguments.get_str("save_to");
    if saved.is_some() && !workspace_attached {
        return Err(ToolError::WorkspaceUnavailable);
    }
    let sql = match arguments.get_str("sql") {
        Some(s) => s.to_owned(),
        None => {
            return Err(ToolError::InvalidQueryArguments);
        },
    };
    let path = match saved {
        Some(p) => Some(p.to_owned()),
        None => None,
    };
    Ok((sql, path))
}

fn owned_str(s: Option<&str>) -> (r: Option<String>)
    ensures
        crate::workspace_edit::opt_view(r) == match s {
            Some(t) => Some(t@),
            None => None,
        },
{
    match s {
        Some(t) => Some(t.to_owned()),
        None => None,
    }
}

/// The chart choices a `render_chart` call overrides.
pub fn chart_overrides(arguments: &Json) -> (o: ChartOverrides)
    ensures
        crate::workspace_edit::opt_view(o.chart_type) == get_str(arguments@, "chart_type"@),
        crate::workspace_edit::opt_view(o.x) == get_str(arguments@, "x"@),
        o.y@.map_values(|s: String| s@) == string_items(arguments@, "y"@),
        crate::workspace_edit::opt_view(o.title) == get_str(arguments@, "title"@),
{
    let mut y: Vec<String> = Vec::new();
    match arguments.get("y") {
        Some(Json::Array(items)) => {
            y = columns_of(items);
        },
        _ => {},
    }
    ChartOverrides {
        chart_type: owned_str(arguments.get_str("chart_type")),
        x: owned_str(arguments.get_str("x")),
        y,
        title: owned_str(arguments.get_str("title")),
    }
}

/// The y columns a chart plots: those the call named, when it named at least
/// one string column, and otherwise the suggested ones.
pub fn chart_y_columns(suggested: Vec<String>, requested: Vec<String>) -> (r: Vec<String>)
    ensures
        r@ == if requested@.len() > 0 {
            requested@
        } else {
            suggested@
        },
{
    if requested.len() > 0 {
        requested
    } else {
        suggested
    }
}

fn columns_of(items: &Vec<Json>) -> (r: Vec<String>)
    ensures
        r@.map_values(|s: String| s@) == strings_of(crate::json::array_view(items@)),
{
    let ghost iv = crate::json::array_view(items@);
    proof {
        crate::json::lemma_array_view_len(items@);
    }
    let mut out: Vec<String> = Vec::new();
    let mut i: usize = 0;
    while i < items.len()
        invariant
            i <= items.len(),
            iv == crate::json::array_view(items@),
            iv.len() == items@.len(),
            out@.map_values(|s: String| s@) =~= strings_of(iv.take(i as int)),
        decreases items.len() - i,
    {
        proof {
            crate::json::lemma_array_view_index(items@, i as int);
        }
        assert(iv.take(i as int + 1).drop_last() =~= iv.take(i as int));
        assert(iv.take(i as int + 1).last() == iv[i as int]);
        match items[i].as_str() {
            Some(s) => {
                let ghost before = out@;
                out.push(s.to_owned());
                assert(out@.map_values(|s: String| s@) =~= before.map_values(|s: String| s@).push(s@));
            },
            None => {},
        }
        i += 1;
    }
    assert(iv.take(items.len() as int) =~= iv);
    out
}

/// The refusal of a chart too large for one workspace write.
pub open spec fn over_bound_message(max_io_bytes: u64) -> Seq<char> {
    "content is over the "@ + spec_decimal(max_io_bytes as nat) + "-byte workspace write bound"@
}

/// The save bound: chart HTML over the workspace's per-write bound is
/// refused whole.
pub fn check_chart_save(html_len: usize, max_io_bytes: u64) -> (r: Result<(), ToolError>)
    ensures
        if html_len > max_io_bytes {
            r matches Err(ToolError::WorkspaceWrite(m)) && m@ == over_bound_message(max_io_bytes)
        } else {
            r is Ok
        },
{
    if html_len as u64 > max_io_bytes {
        let mut m = "content is over the ".to_owned();
        push_decimal(&mut m, max_io_bytes);
        push_str(&mut m, "-byte workspace write bound");
        return Err(ToolError::WorkspaceWrite(m));
    }
    Ok(())
}

pub const SAVED_NOTE: &'static str = "The same chart HTML was saved to the workspace path and opened from a private temporary copy.";

pub const TEMP_NOTE: &'static str = "Interactive chart written to a private temporary file and opened in the browser.";

/// The `render_chart` result for a saved path (if any) and the temporary
/// file.
pub open spec fn spec_chart_result(saved: Option<Seq<char>>, temp: Seq<char>) -> JsonV {
    let path = match saved {
        Some(p) => p,
        None => temp,
    };
    let note = if saved is Some {
        SAVED_NOTE@
    } else {
        TEMP_NOTE@
    };
    JsonV::Object(seq![("path"@, JsonV::String(path)), ("note"@, JsonV::String(note))])
}

/// The `render_chart` result: the saved workspace path when the call named
/// one, else the temporary file, and a note saying which.
pub fn chart_result(saved_path: Option<&str>, temp_path: &str) -> (r: Json)
    ensures
        r@ == spec_chart_result(
            match saved_path {
                Some(p) => Some(p@),
                None => None,
            },
            temp_path@,
        ),
{
    let path = match saved_path {
        Some(p) => p.to_owned(),
        None => temp_path.to_owned(),
    };
    let note = match saved_path {
        Some(_) => SAVED_NOTE,
        None => TEMP_NOTE,
    };
    assert(note@ == if saved_path is Some {
        SAVED_NOTE@
    } else {
        TEMP_NOTE@
    });
    let mut m: Vec<(String, Json)> = Vec::new();
    proof {
        crate::json::lemma_object_view_literal(m@);
        assert(object_view(m@) =~= Seq::empty());
    }
    let ghost pv = path@;
    push_member(&mut m, "path", Json::String(path));
    push_member(&mut m, "note", Json::String(note.to_owned()));
    assert(pv == match saved_path {
        Some(p) => p@,
        None => temp_path@,
    });
    assert(object_view(m@) =~= seq![("path"@, JsonV::String(pv)), ("note"@, JsonV::String(note@))]);
    let r = Json::Object(m);
    assert(r@ == JsonV::Object(object_view(m@)));
    r
}

} // verus!
