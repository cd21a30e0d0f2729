//! Argument validation for the read-only contract tools. An unknown property
//! is `UnsupportedProperty` and a non-string `connection` is
//! `ConnectionNotString`; every other shape failure (a non-array `terms`, a
//! non-string element, more than `MAX_TERMS` entries, a non-string `table`)
//! is `InvalidQueryArguments`.

use vstd::prelude::*;

use crate::json::{array_view, json_get, str_of, str_eq, Json, JsonV};
use crate::tool_error::ToolError;
use crate::workspace_edit::{keys_within, member_keys_within};

verus! {

/// Maximum number of search terms a single `contract_search` call accepts.
pub const MAX_TERMS: usize = 16;

/// The argument keys each contract tool accepts; `None` for any other name.
pub open spec fn contract_tool_shape(name: Seq<char>) -> Option<Seq<Seq<char>>> {
    if name == "contract_search"@ {
        Some(seq!["connection"@, "terms"@])
    } else if name == "contract_read"@ {
        Some(seq!["connection"@, "table"@])
    } else {
        None
    }
}

/// What `validate_terms` answers: a missing `terms` is an empty search; a
/// present one must be an array of at most `MAX_TERMS` strings.
pub open spec fn spec_validate_terms(terms: Option<JsonV>) -> Result<(), ToolError> {
    match terms {
        None => Ok(()),
        Some(JsonV::Array(items)) => {
            if items.len() > MAX_TERMS {
                Err(ToolError::InvalidQueryArguments)
            } else if exists|k: int| 0 <= k < items.len() && !(#[trigger] items[k] is String) {
                Err(ToolError::InvalidQueryArguments)
            } else {
                Ok(())
            }
        },
        Some(_) => Err(ToolError::InvalidQueryArguments),
    }
}

/// What `validate_table` answers: `table` must be a present string.
pub open spec fn spec_validate_table(table: Option<JsonV>) -> Result<(), ToolError> {
    match table {
        Some(JsonV::String(_)) => Ok(()),
        _ => Err(ToolError::InvalidQueryArguments),
    }
}

/// What `validate_arguments` answers for the contract tool `name` called
/// with `j`.
pub open spec fn spec_validate_contract_arguments(name: Seq<char>, j: JsonV) -> Result<
    (),
    ToolError,
> {
    match j {
        JsonV::Object(m) => match contract_tool_shape(name) {
            None => Err(ToolError::UnsupportedTool),
            Some(allowed) => {
                if !keys_within(m, allowed) {
                    Err(ToolError::UnsupportedProperty)
                } else if json_get(j, "connection"@) matches Some(v) && str_of(v) is None {
                    Err(ToolError::ConnectionNotString)
                } else if name == "contract_search"@ {
                    spec_validate_terms(json_get(j, "terms"@))
                } else {
                    spec_validate_table(json_get(j, "table"@))
                }
            },
        },
        _ => Err(ToolError::ArgumentsNotObject),
    }
}

/// Checks a `contract_search` call's `terms`. A missing `terms` is treated
/// as an empty search rather than an error: the schema marks it required
/// for the model, and an empty search is a safe no-op.
pub fn validate_terms(terms: Option<&Json>) -> (r: Result<(), ToolError>)
    ensures
        r == spec_validate_terms(
            match terms {
                Some(t) => Some(t@),
                None => None,
            },
        ),
{
    let t = match terms {
        None => {
            return Ok(());
        },
        Some(t) => t,
    };
    let items = match t {
        Json::Array(items) => items,
        _ => {
            return Err(ToolError::InvalidQueryArguments);
        },
    };
    proof {
        crate::json::lemma_array_view_len(items@);
    }
    if items.len() > MAX_TERMS {
        return Err(ToolError::InvalidQueryArguments);
    }
    let mut i: usize = 0;
    while i < items.len()
        invariant
            i <= items.len(),
            array_view(items@).len() == items@.len(),
            *t == Json::Array(*items),
            terms == Some(t),
            items.len() <= MAX_TERMS,
            forall|k: int| 0 <= k < i ==> (#[trigger] array_view(items@)[k]) is String,
        decreases items.len() - i,
    {
        proof {
            crate::json::lemma_array_view_index(items@, i as int);
        }
        if !items[i].is_string() {
            let ghost av = array_view(items@);
            assert(t@ == JsonV::Array(av));
            assert(!(av[i as int] is String));
            assert(exists|k: int| 0 <= k < av.len() && !(#[trigger] av[k] is String));
            return Err(ToolError::InvalidQueryArguments);
        }
        i += 1;
    }
    Ok(())
}

/// Checks a `contract_read` call's `table`: a missing or non-string value
/// is a shape violation.
pub fn validate_table(table: Option<&Json>) -> (r: Result<(), ToolError>)
    ensures
        r == spec_validate_table(
            match table {
                Some(t) => Some(t@),
                None => None,
            },
        ),
{
    match table {
        Some(value) => {
            if value.is_string() {
                Ok(())
            } else {
                Err(ToolError::InvalidQueryArguments)
            }
        },
        None => Err(ToolError::InvalidQueryArguments),
    }
}

/// Validates a contract tool call's arguments before dispatch.
pub fn validate_arguments(name: &str, arguments: &Json) -> (r: Result<(), ToolError>)
    ensures
        r == spec_validate_contract_arguments(name@, arguments@),
{
    let members = match arguments {
        Json::Object(m) => m,
        _ => {
            return Err(ToolError::ArgumentsNotObject);
        },
    };
    let is_search = str_eq(name, "contract_search");
    let allowed: Vec<&str> = if is_search {
        vec!["connection", "terms"]
    } else if str_eq(name, "contract_read") {
        vec!["connection", "table"]
    } else {
        return Err(ToolError::UnsupportedTool);
    };
    assert(allowed@.map_values(|s: &str| s@) =~= contract_tool_shape(name@).unwrap());
    if !member_keys_within(members, allowed.as_slice()) {
        return Err(ToolError::UnsupportedProperty);
    }
    let bad_connection = match arguments.get("connection") {
        Some(v) => !v.is_string(),
        None => false,
    };
    if bad_connection {
        return Err(ToolError::ConnectionNotString);
    }
    if is_search {
        validate_terms(arguments.get("terms"))
    } else {
        validate_table(arguments.get("table"))
    }
}

} // verus!
