//! Argument validation for the database tools: each tool names the argument
//! keys it accepts and whether it needs a `sql` string, and each malformed
//! argument names its own typed error so the model can fix the right one.

use vstd::prelude::*;

use crate::json::{bool_of, get_str, has_key, json_get, str_of, u64_of, str_eq, Json, JsonV};
use crate::tool_error::ToolError;
use crate::workspace_edit::{keys_within, member_keys_within};

verus! {

/// The argument keys each database tool accepts, and whether it requires a
/// `sql` string; `None` for a name that is no database tool.
pub open spec fn tool_shape(name: Seq<char>) -> Option<(Seq<Seq<char>>, bool)> {
    if name == "schema_discovery"@ {
        Some((seq!["connection"@], false))
    } else if name == "workspace_read"@ {
        Some((seq!["path"@], false))
    } else if name == "workspace_list"@ {
        Some((seq!["path"@], false))
    } else if name == "workspace_write"@ {
        Some((seq!["path"@, "content"@], false))
    } else if name == "workspace_edit"@ {
        Some(
            (
                seq![
                    "path"@,
                    "old_text"@,
                    "new_text"@,
                    "offset"@,
                    "chunk"@,
                    "expected_size"@,
                    "expected_digest"@,
                ],
                false,
            ),
        )
    } else if name == "glob"@ {
        Some((seq!["pattern"@], false))
    } else if name == "grep"@ {
        Some((seq!["pattern"@, "case_insensitive"@], false))
    } else if name == "bounded_sql_query"@ {
        Some((seq!["connection"@, "sql"@], true))
    } else if name == "bounded_sql_query_all"@ {
        Some((seq!["sql"@], true))
    } else if name == "result_shape"@ {
        Some((seq!["connection"@, "sql"@], true))
    } else if name == "column_health"@ {
        Some((seq!["connection"@, "sql"@], true))
    } else if name == "join_check"@ {
        Some((seq!["connection"@, "sql"@], true))
    } else if name == "render_chart"@ {
        Some((seq!["connection"@, "sql"@, "chart_type"@, "x"@, "y"@, "title"@, "save_to"@], true))
    } else if name == "designate_answer"@ {
        Some((seq!["sql"@], true))
    } else {
        None
    }
}

/// A present, non-null member that is not an unsigned integer.
pub open spec fn present_not_uint(j: JsonV, key: Seq<char>) -> bool {
    json_get(j, key) matches Some(v) && !(v is Null) && u64_of(v) is None
}

/// A present, non-null member that is not a string.
pub open spec fn present_not_string(j: JsonV, key: Seq<char>) -> bool {
    json_get(j, key) matches Some(v) && !(v is Null) && str_of(v) is None
}

/// The `workspace_edit` shape: `path` plus either the `replace` half
/// (`old_text` + `new_text`) or the `append` half (`offset` + `chunk`),
/// never a mix, then the optional `expected_*` precondition.
pub open spec fn edit_shape_error(j: JsonV) -> Option<ToolError> {
    if get_str(j, "path"@) is None {
        Some(ToolError::PathNotString)
    } else if has_key(j, "offset"@) || has_key(j, "chunk"@) {
        if !(json_get(j, "offset"@) matches Some(v) && u64_of(v) is Some) {
            Some(ToolError::OffsetNotUint)
        } else if get_str(j, "chunk"@) is None {
            Some(ToolError::ChunkNotString)
        } else if has_key(j, "old_text"@) || has_key(j, "new_text"@) {
            Some(ToolError::UnsupportedProperty)
        } else {
            expected_shape_error(j)
        }
    } else if get_str(j, "old_text"@) is None {
        Some(ToolError::OldTextNotString)
    } else if get_str(j, "new_text"@) is None {
        Some(ToolError::NewTextNotString)
    } else {
        expected_shape_error(j)
    }
}

/// The optional `expected_size` / `expected_digest` precondition's shape.
pub open spec fn expected_shape_error(j: JsonV) -> Option<ToolError> {
    if present_not_uint(j, "expected_size"@) {
        Some(ToolError::ExpectedSizeNotUint)
    } else if present_not_string(j, "expected_digest"@) {
        Some(ToolError::ExpectedDigestNotString)
    } else {
        None
    }
}

/// The per-tool argument checks after the common ones.
pub open spec fn tool_specific_error(name: Seq<char>, j: JsonV) -> Option<ToolError> {
    if name == "workspace_read"@ {
        if get_str(j, "path"@) is None {
            Some(ToolError::PathNotString)
        } else {
            None
        }
    } else if name == "workspace_edit"@ {
        edit_shape_error(j)
    } else if name == "workspace_write"@ {
        if get_str(j, "path"@) is None {
            Some(ToolError::PathNotString)
        } else if get_str(j, "content"@) is None {
            Some(ToolError::ContentNotString)
        } else {
            None
        }
    } else if name == "workspace_list"@ {
        if json_get(j, "path"@) matches Some(v) && str_of(v) is None {
            Some(ToolError::PathNotString)
        } else {
            None
        }
    } else if name == "glob"@ || name == "grep"@ {
        if get_str(j, "pattern"@) is None {
            Some(ToolError::PatternNotString)
        } else if name == "grep"@ && (json_get(j, "case_insensitive"@) matches Some(v) && bool_of(
            v,
        ) is None) {
            Some(ToolError::CaseInsensitiveNotBool)
        } else {
            None
        }
    } else {
        None
    }
}

/// What `validate_arguments` answers for the tool `name` called with `j`.
pub open spec fn spec_validate_arguments(name: Seq<char>, j: JsonV) -> Result<(), ToolError> {
    match j {
        JsonV::Object(m) => match tool_shape(name) {
            None => Err(ToolError::UnsupportedTool),
            Some((allowed, requires_sql)) => {
                if !keys_within(m, allowed) {
                    Err(ToolError::UnsupportedProperty)
                } else if json_get(j, "connection"@) matches Some(v) && str_of(v) is None {
                    Err(ToolError::ConnectionNotString)
                } else if requires_sql && get_str(j, "sql"@) is None {
                    Err(ToolError::SqlNotString)
                } else {
                    match tool_specific_error(name, j) {
                        Some(e) => Err(e),
                        None => Ok(()),
                    }
                }
            },
        },
        _ => Err(ToolError::ArgumentsNotObject),
    }
}

/// The accepted keys and the `sql` requirement of the tool `name`.
fn shape_of_tool(name: &str) -> (r: Option<(Vec<&'static str>, bool)>)
    ensures
        match r {
            Some((keys, sql)) => tool_shape(name@) == Some((keys@.map_values(|s: &str| s@), sql)),
            None => tool_shape(name@) is None,
        },
{
    let (keys, sql): (Vec<&'static str>, bool) = if str_eq(name, "schema_discovery") {
        (vec!["connection"], false)
    } else if str_eq(name, "workspace_read") {
        (vec!["path"], false)
    } else if str_eq(name, "workspace_list") {
        (vec!["path"], false)
    } else if str_eq(name, "workspace_write") {
        (vec!["path", "content"], false)
    } else if str_eq(name, "workspace_edit") {
        (
            vec![
                "path",
                "old_text",
                "new_text",
                "offset",
                "chunk",
                "expected_size",
                "expected_digest",
            ],
            false,
        )
    } else if str_eq(name, "glob") {
        (vec!["pattern"], false)
    } else if str_eq(name, "grep") {
        (vec!["pattern", "case_insensitive"], false)
    } else if str_eq(name, "bounded_sql_query") {
        (vec!["connection", "sql"], true)
    } else if str_eq(name, "bounded_sql_query_all") {
        (vec!["sql"], true)
    } else if str_eq(name, "result_shape") {
        (vec!["connection", "sql"], true)
    } else if str_eq(name, "column_health") {
        (vec!["connection", "sql"], true)
    } else if str_eq(name, "join_check") {
        (vec!["connection", "sql"], true)
    } else if str_eq(name, "render_chart") {
        (vec!["connection", "sql", "chart_type", "x", "y", "title", "save_to"], true)
    } else if str_eq(name, "designate_answer") {
        (vec!["sql"], true)
    } else {
        return None;
    };
    let ghost shape = tool_shape(name@);
    assert(shape is Some);
    assert(keys@.map_values(|s: &str| s@) =~= shape.unwrap().0);
    Some((keys, sql))
}

/// A present member of `arguments` named `key` that is not a string.
fn member_not_string(arguments: &Json, key: &str) -> (r: bool)
    ensures
        r == (json_get(arguments@, key@) matches Some(v) && str_of(v) is None),
{
    match arguments.get(key) {
        Some(v) => !v.is_string(),
        None => false,
    }
}

/// A present, non-null member that is not an unsigned integer.
fn member_present_not_uint(arguments: &Json, key: &str) -> (r: bool)
    ensures
        r == present_not_uint(arguments@, key@),
{
    match arguments.get(key) {
        Some(v) => !v.is_null() && v.as_u64().is_none(),
        None => false,
    }
}

/// A present, non-null member that is not a string.
fn member_present_not_string(arguments: &Json, key: &str) -> (r: bool)
    ensures
        r == present_not_string(arguments@, key@),
{
    match arguments.get(key) {
        Some(v) => !v.is_null() && !v.is_string(),
        None => false,
    }
}

fn check_edit_shape(arguments: &Json) -> (r: Option<ToolError>)
    ensures
        r == edit_shape_error(arguments@),
{
    if arguments.get_str("path").is_none() {
        return Some(ToolError::PathNotString);
    }
    let has_old = arguments.contains_key("old_text");
    let has_new = arguments.contains_key("new_text");
    let has_offset = arguments.contains_key("offset");
    let has_chunk = arguments.contains_key("chunk");
    if has_offset || has_chunk {
        let offset_ok = match arguments.get("offset") {
            Some(v) => !v.is_null() && v.as_u64().is_some(),
            None => false,
        };
        if !offset_ok {
            return Some(ToolError::OffsetNotUint);
        }
        if arguments.get_str("chunk").is_none() {
            return Some(ToolError::ChunkNotString);
        }
        if has_old || has_new {
            return Some(ToolError::UnsupportedProperty);
        }
    } else {
        if arguments.get_str("old_text").is_none() {
            return Some(ToolError::OldTextNotString);
        }
        if arguments.get_str("new_text").is_none() {
            return Some(ToolError::NewTextNotString);
        }
    }
    if member_present_not_uint(arguments, "expected_size") {
        return Some(ToolError::ExpectedSizeNotUint);
    }
    if member_present_not_string(arguments, "expected_digest") {
        return Some(ToolError::ExpectedDigestNotString);
    }
    None
}

fn check_tool_specific(name: &str, arguments: &Json) -> (r: Option<ToolError>)
    ensures
        r == tool_specific_error(name@, arguments@),
{
    if str_eq(name, "workspace_read") {
        if arguments.get_str("path").is_none() {
            return Some(ToolError::PathNotString);
        }
        return None;
    }
    if str_eq(name, "workspace_edit") {
        return check_edit_shape(arguments);
    }
    if str_eq(name, "workspace_write") {
        if arguments.get_str("path").is_none() {
            return Some(ToolError::PathNotString);
        }
        if arguments.get_str("content").is_none() {
            return Some(ToolError::ContentNotString);
        }
        return None;
    }
    if str_eq(name, "workspace_list") {
        if member_not_string(arguments, "path") {
            return Some(ToolError::PathNotString);
        }
        return None;
    }
    let is_grep = str_eq(name, "grep");
    if str_eq(name, "glob") || is_grep {
        if arguments.get_str("pattern").is_none() {
            return Some(ToolError::PatternNotString);
        }
        if is_grep {
            let bad = match arguments.get("case_insensitive") {
                Some(v) => v.as_bool().is_none(),
                None => false,
            };
            if bad {
                return Some(ToolError::CaseInsensitiveNotBool);
            }
        }
        return None;
    }
    None
}

/// Validates a database tool call's arguments before dispatch: an object,
/// a known tool, only the keys that tool accepts, a string `connection` when
/// one is named, a string `sql` where the tool runs a query, and the
/// tool's own typed argument checks.
pub fn validate_arguments(name: &str, arguments: &Json) -> (r: Result<(), ToolError>)
    ensures
        r == spec_validate_arguments(name@, arguments@),
{
    let members = match arguments {
        Json::Object(m) => m,
        _ => {
            return Err(ToolError::ArgumentsNotObject);
        },
    };
    let (allowed, requires_sql) = match shape_of_tool(name) {
        Some(shape) => shape,
        None => {
            return Err(ToolError::UnsupportedTool);
        },
    };
    if !member_keys_within(members, allowed.as_slice()) {
        return Err(ToolError::UnsupportedProperty);
    }
    if member_not_string(arguments, "connection") {
        return Err(ToolError::ConnectionNotString);
    }
    if requires_sql && arguments.get_str("sql").is_none() {
        return Err(ToolError::SqlNotString);
    }
    match check_tool_specific(name, arguments) {
        Some(e) => Err(e),
        None => Ok(()),
    }
}

} // verus!
