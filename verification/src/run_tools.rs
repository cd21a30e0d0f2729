//! The run-tool composite's own decisions: the host lane's argv admission
//! (count, per-argument bytes, aggregate bytes, checked on the raw JSON
//! before anything is cloned or journalled), the host call's argument
//! parsing, and how a call is routed to the member that serves it. A member
//! a surface did not compose refuses its names as unknown tools.

use vstd::prelude::*;
use vstd::utf8::encode_utf8;

use crate::json::{array_view, json_get, str_eq, str_of, u64_of, Json, JsonV};
use crate::tool_error::ToolError;
use crate::workspace_edit::{keys_within, member_keys_within};

verus! {

/// The process lane's argv bounds.
#[derive(Clone, Copy)]
pub struct ArgvLimits {
    pub max_arg_count: usize,
    pub max_arg_bytes: usize,
    pub max_argv_bytes: usize,
}

pub const TOO_MANY_ARGUMENTS: &'static str = "run_command refused: too many arguments";

pub const ARGUMENT_TOO_LONG: &'static str = "run_command refused: an argument exceeds the per-argument byte limit";

pub const ARGV_TOO_LONG: &'static str = "run_command refused: arguments exceed the aggregate byte limit";

/// A string's length in bytes, as `str::len` reports it.
pub open spec fn byte_len(s: Seq<char>) -> usize {
    encode_utf8(s).len() as usize
}

/// The saturating sum of two byte counts.
pub open spec fn sat_add(a: usize, b: usize) -> usize {
    if a + b > usize::MAX {
        usize::MAX
    } else {
        (a + b) as usize
    }
}

/// Why a host call is refused.
#[derive(PartialEq, Eq, Structural, Clone, Copy, Debug)]
pub enum HostRefusal {
    ArgumentsNotObject,
    UnsupportedProperty,
    TooManyArguments,
    ArgumentTooLong,
    ArgvTooLong,
}

/// `e` is the typed error of the refusal `h`.
pub open spec fn refusal_error(e: ToolError, h: HostRefusal) -> bool {
    match h {
        HostRefusal::ArgumentsNotObject => e == ToolError::ArgumentsNotObject,
        HostRefusal::UnsupportedProperty => e == ToolError::UnsupportedProperty,
        HostRefusal::TooManyArguments => e matches ToolError::Runner(m) && m@ == TOO_MANY_ARGUMENTS@,
        HostRefusal::ArgumentTooLong => e matches ToolError::Runner(m) && m@ == ARGUMENT_TOO_LONG@,
        HostRefusal::ArgvTooLong => e matches ToolError::Runner(m) && m@ == ARGV_TOO_LONG@,
    }
}

/// The verdict of scanning `items` from index `k` with `total` bytes seen.
pub open spec fn argv_scan(items: Seq<JsonV>, k: int, total: usize, limits: ArgvLimits) -> Result<
    (),
    HostRefusal,
>
    decreases items.len() - k,
{
    if k < 0 || k >= items.len() {
        Ok(())
    } else {
        match str_of(items[k]) {
            None => Err(HostRefusal::UnsupportedProperty),
            Some(s) => {
                if byte_len(s) > limits.max_arg_bytes {
                    Err(HostRefusal::ArgumentTooLong)
                } else if sat_add(total, byte_len(s)) > limits.max_argv_bytes {
                    Err(HostRefusal::ArgvTooLong)
                } else {
                    argv_scan(items, k + 1, sat_add(total, byte_len(s)), limits)
                }
            },
        }
    }
}

/// The verdict on a raw JSON argv: too many items, then per item in order a
/// non-string, an over-long argument, or the running total over the
/// aggregate bound.
pub open spec fn spec_validate_argv(items: Seq<JsonV>, limits: ArgvLimits) -> Result<(), HostRefusal> {
    if items.len() > limits.max_arg_count {
        Err(HostRefusal::TooManyArguments)
    } else {
        argv_scan(items, 0, 0, limits)
    }
}

/// Validates raw JSON argv against the process-lane bounds before any
/// cloning into owned strings: count, per-item bytes, and aggregate bytes.
#[verifier::loop_isolation(false)]
pub fn validate_host_json_argv(items: &[Json], limits: ArgvLimits) -> (r: Result<(), ToolError>)
    ensures
        match spec_validate_argv(items@.map_values(|j: Json| j@), limits) {
            Ok(()) => r is Ok,
            Err(h) => r matches Err(e) && refusal_error(e, h),
        },
{
    let ghost iv = items@.map_values(|j: Json| j@);
    if items.len() > limits.max_arg_count {
        return Err(ToolError::Runner(TOO_MANY_ARGUMENTS.to_owned()));
    }
    let mut total: usize = 0;
    let mut i: usize = 0;
    while i < items.len()
        invariant
            i <= items.len(),
            iv == items@.map_values(|j: Json| j@),
            argv_scan(iv, 0, 0, limits) == argv_scan(iv, i as int, total, limits),
        decreases items.len() - i,
    {
        assert(iv[i as int] == items@[i as int]@);
        assert(iv.len() == items@.len());
        let value = match items[i].as_str() {
            Some(v) => v,
            None => {
                return Err(ToolError::UnsupportedProperty);
            },
        };
        if value.len() > limits.max_arg_bytes {
            return Err(ToolError::Runner(ARGUMENT_TOO_LONG.to_owned()));
        }
        total = total.saturating_add(value.len());
        if total > limits.max_argv_bytes {
            return Err(ToolError::Runner(ARGV_TOO_LONG.to_owned()));
        }
        i += 1;
    }
    Ok(())
}

/// One parsed host call: the bare program, its typed argv, and the call's
/// own timeout.
#[derive(Debug, PartialEq)]
pub struct ParsedHostCall {
    pub program: String,
    pub argv: Vec<String>,
    pub timeout_seconds: Option<u64>,
}

/// The argument names a host call may carry.
pub open spec fn host_call_keys() -> Seq<Seq<char>> {
    seq!["program"@, "args"@, "timeout_seconds"@]
}

/// Every item is a string.
pub open spec fn all_strings(items: Seq<JsonV>) -> bool {
    forall|k: int| 0 <= k < items.len() ==> (#[trigger] items[k]) is String
}

/// What `parse` answers for a host call's arguments; on success the
/// program, the argv's strings, and the timeout.
pub open spec fn spec_parse_host_call(j: JsonV, limits: ArgvLimits) -> Result<
    (Seq<char>, Seq<Seq<char>>, Option<u64>),
    HostRefusal,
> {
    match j {
        JsonV::Object(m) => {
            if !keys_within(m, host_call_keys()) {
                Err(HostRefusal::UnsupportedProperty)
            } else if !(json_get(j, "program"@) matches Some(p) && str_of(p) is Some) {
                Err(HostRefusal::UnsupportedProperty)
            } else {
                let program = str_of(json_get(j, "program"@).unwrap()).unwrap();
                let argv: Result<Seq<Seq<char>>, HostRefusal> = match json_get(j, "args"@) {
                    None => Ok(Seq::empty()),
                    Some(JsonV::Array(items)) => match spec_validate_argv(items, limits) {
                        Err(e) => Err(e),
                        Ok(()) => if all_strings(items) {
                            Ok(items.map_values(|v: JsonV| str_of(v).unwrap()))
                        } else {
                            Err(HostRefusal::UnsupportedProperty)
                        },
                    },
                    Some(_) => Err(HostRefusal::UnsupportedProperty),
                };
                match argv {
                    Err(e) => Err(e),
                    Ok(args) => match json_get(j, "timeout_seconds"@) {
                        None => Ok((program, args, None)),
                        Some(JsonV::Number(n)) => match u64_of(JsonV::Number(n)) {
                            Some(t) => Ok((program, args, Some(t))),
                            None => Err(HostRefusal::UnsupportedProperty),
                        },
                        Some(_) => Err(HostRefusal::UnsupportedProperty),
                    },
                }
            }
        },
        _ => Err(HostRefusal::ArgumentsNotObject),
    }
}

/// Parses a `run_command` call: only `program`, `args` and
/// `timeout_seconds`; a string program; an argv admitted by the bounds
/// before any item is cloned, every item a string; an unsigned timeout.
#[verifier::loop_isolation(false)]
pub fn parse_host_call(arguments: &Json, limits: ArgvLimits) -> (r: Result<ParsedHostCall, ToolError>)
    ensures
        match spec_parse_host_call(arguments@, limits) {
            Ok((program, argv, timeout)) => r matches Ok(p) && p.program@ == program
                && p.argv@.map_values(|s: String| s@) == argv && p.timeout_seconds == timeout,
            Err(h) => r matches Err(e) && refusal_error(e, h),
        },
{
    let members = match arguments {
        Json::Object(m) => m,
        _ => {
            return Err(ToolError::ArgumentsNotObject);
        },
    };
    let allowed: [&str; 3] = ["program", "args", "timeout_seconds"];
    assert(allowed@.map_values(|s: &str| s@) =~= host_call_keys());
    if !member_keys_within(members, allowed.as_slice()) {
        return Err(ToolError::UnsupportedProperty);
    }
    let program = match arguments.get_str("program") {
        Some(p) => p.to_owned(),
        None => {
            return Err(ToolError::UnsupportedProperty);
        },
    };
    let mut argv: Vec<String> = Vec::new();
    match arguments.get("args") {
        None => {},
        Some(Json::Array(items)) => {
            let ghost iv = array_view(items@);
            proof {
                crate::json::lemma_array_view_len(items@);
                assert forall|k: int| 0 <= k < items@.len() implies items@.map_values(
                    |j: Json| j@,
                )[k] == iv[k] by {
                    crate::json::lemma_array_view_index(items@, k);
                }
                assert(items@.map_values(|j: Json| j@) =~= iv);
            }
            match validate_host_json_argv(items.as_slice(), limits) {
                Ok(()) => {},
                Err(e) => {
                    return Err(e);
                },
            }
            let mut i: usize = 0;
            while i < items.len()
                invariant
                    i <= items.len(),
                    iv == array_view(items@),
                    iv.len() == items@.len(),
                    argv@.map_values(|s: String| s@) =~= iv.take(i as int).map_values(
                        |v: JsonV| str_of(v).unwrap(),
                    ),
                    forall|k: int| 0 <= k < i ==> (#[trigger] iv[k]) is String,
                decreases items.len() - i,
            {
                proof {
                    crate::json::lemma_array_view_index(items@, i as int);
                }
                match items[i].as_str() {
                    Some(s) => {
                        let ghost before = argv@;
                        argv.push(s.to_owned());
                        assert(argv@.map_values(|s: String| s@) =~= before.map_values(|s: String| s@).push(s@));
                        assert(iv.take(i as int + 1) =~= iv.take(i as int).push(iv[i as int]));
                    },
                    None => {
                        assert(!all_strings(iv)) by {
                            assert(!(iv[i as int] is String));
                        }
                        return Err(ToolError::UnsupportedProperty);
                    },
                }
                i += 1;
            }
            assert(iv.take(items.len() as int) =~= iv);
        },
        Some(_) => {
            return Err(ToolError::UnsupportedProperty);
        },
    }
    let timeout_seconds = match arguments.get("timeout_seconds") {
        None => None,
        Some(v) => match v {
            Json::Number(_) => match v.as_u64() {
                Some(t) => Some(t),
                None => {
                    return Err(ToolError::UnsupportedProperty);
                },
            },
            _ => {
                return Err(ToolError::UnsupportedProperty);
            },
        },
    };
    Ok(ParsedHostCall { program, argv, timeout_seconds })
}

/// Where the composite sends a call.
#[derive(PartialEq, Eq, Structural, Clone, Copy, Debug)]
pub enum RunRoute {
    Scratch,
    Fetch,
    Runner,
    Host,
    Tasks,
    Database,
}

/// Which members a surface composed.
#[derive(Clone, Copy)]
pub struct RunMembers {
    pub scratch: bool,
    pub fetch: bool,
    pub runner: bool,
    pub host: bool,
    pub tasks: bool,
}

/// Where the call `name` goes: its member when composed, an unknown-tool
/// refusal when not, and every other name to the database tools.
pub open spec fn spec_route(name: Seq<char>, members: RunMembers) -> Result<RunRoute, ToolError> {
    if name == "scratch_sql"@ || name == "scratch_import"@ {
        if members.scratch {
            Ok(RunRoute::Scratch)
        } else {
            Err(ToolError::UnsupportedTool)
        }
    } else if name == "http_fetch"@ || name == "http_download"@ {
        if members.fetch {
            Ok(RunRoute::Fetch)
        } else {
            Err(ToolError::UnsupportedTool)
        }
    } else if name == "run_program"@ {
        if members.runner {
            Ok(RunRoute::Runner)
        } else {
            Err(ToolError::UnsupportedTool)
        }
    } else if name == "run_command"@ {
        if members.host {
            Ok(RunRoute::Host)
        } else {
            Err(ToolError::UnsupportedTool)
        }
    } else if name == "tasks_set"@ {
        if members.tasks {
            Ok(RunRoute::Tasks)
        } else {
            Err(ToolError::UnsupportedTool)
        }
    } else {
        Ok(RunRoute::Database)
    }
}

/// Routes a call to the member that serves it.
pub fn route(name: &str, members: RunMembers) -> (r: Result<RunRoute, ToolError>)
    ensures
        r == spec_route(name@, members),
{
    if str_eq(name, "scratch_sql") || str_eq(name, "scratch_import") {
        if members.scratch {
            Ok(RunRoute::Scratch)
        } else {
            Err(ToolError::UnsupportedTool)
        }
    } else if str_eq(name, "http_fetch") || str_eq(name, "http_download") {
        if members.fetch {
            Ok(RunRoute::Fetch)
        } else {
            Err(ToolError::UnsupportedTool)
        }
    } else if str_eq(name, "run_program") {
        if members.runner {
            Ok(RunRoute::Runner)
        } else {
            Err(ToolError::UnsupportedTool)
        }
    } else if str_eq(name, "run_command") {
        if members.host {
            Ok(RunRoute::Host)
        } else {
            Err(ToolError::UnsupportedTool)
        }
    } else if str_eq(name, "tasks_set") {
        if members.tasks {
            Ok(RunRoute::Tasks)
        } else {
            Err(ToolError::UnsupportedTool)
        }
    } else {
        Ok(RunRoute::Database)
    }
}

pub const CHART_SAVE_REFUSAL: &'static str = "workspace-write is not permitted for this step";

/// The chart-save gate: a `render_chart` call naming `save_to` is refused
/// unless this composite holds the save permit.
pub fn chart_save_gate(name: &str, arguments: &Json, chart_save_permit: bool) -> (r: Result<
    (),
    ToolError,
>)
    ensures
        if name@ == "render_chart"@ && json_get(arguments@, "save_to"@) is Some
            && !chart_save_permit {
            r matches Err(ToolError::WorkspaceWrite(m)) && m@ == CHART_SAVE_REFUSAL@
        } else {
            r is Ok
        },
{
    if str_eq(name, "render_chart") && arguments.get("save_to").is_some() && !chart_save_permit {
        return Err(ToolError::WorkspaceWrite(CHART_SAVE_REFUSAL.to_owned()));
    }
    Ok(())
}

} // verus!
