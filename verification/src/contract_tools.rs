//! The read-only contract tools' own decisions: which profile name a result
//! carries, when a call answers empty (and with which reason, so the model
//! does not retry an unproductive call), and the shapes of the results. The
//! opaque profile identity never appears in a result; store failure and a
//! closed privacy gate answer empty with a reason, never with an error.

use vstd::prelude::*;

use crate::json::{array_view, get_str, json_get, object_view, push_member, str_eq, str_of, Json, JsonV};
use crate::tool_error::ToolError;

verus! {

/// Maximum claims a `contract_read` result carries.
pub const MAX_READ_CLAIMS: usize = 12;

pub const REASON_PRIVACY: &'static str = "database context is disabled for this provider";

pub const REASON_NO_IDENTITY: &'static str = "no profile identity is associated with this connection";

pub const REASON_STORE: &'static str = "local contract store is unavailable";

pub const REASON_NO_MATCH: &'static str = "no contract matches the given terms";

pub const REASON_NO_CONTRACT: &'static str = "no contract is stored for this object";

pub const REASON_STALE: &'static str = "every matching contract is stale against the cached schema";

/// The connection name the model passed, or the primary when it passed none
/// or an empty one: the profile name a result carries.
pub fn resolve_name(primary: &str, connection: Option<&str>) -> (r: String)
    ensures
        r@ == match connection {
            Some(name) => if name@.len() > 0 {
                name@
            } else {
                primary@
            },
            None => primary@,
        },
{
    match connection {
        Some(name) => {
            if !name.is_empty() {
                name.to_owned()
            } else {
                primary.to_owned()
            }
        },
        None => primary.to_owned(),
    }
}

/// The empty-result shape of a contract tool.
#[derive(PartialEq, Eq, Structural, Clone, Copy, Debug)]
pub enum EmptyShape {
    /// `{"contracts": [], "reason": ...}`
    Search,
    /// `{"reason": ...}`
    Read,
}

/// The empty-result shape for a tool: `contract_read` answers with a reason
/// alone, so a missing contract is never mistaken for an empty one; every
/// other name answers with an empty `contracts` list and a reason.
pub fn empty_for(name: &str) -> (r: EmptyShape)
    ensures
        r == if name@ == "contract_read"@ {
            EmptyShape::Read
        } else {
            EmptyShape::Search
        },
{
    if str_eq(name, "contract_read") {
        EmptyShape::Read
    } else {
        EmptyShape::Search
    }
}

/// The empty result of the given shape.
pub open spec fn spec_empty(shape: EmptyShape, reason: Seq<char>) -> JsonV {
    match shape {
        EmptyShape::Search => JsonV::Object(
            seq![("contracts"@, JsonV::Array(Seq::empty())), ("reason"@, JsonV::String(reason))],
        ),
        EmptyShape::Read => JsonV::Object(seq![("reason"@, JsonV::String(reason))]),
    }
}

fn new_object() -> (m: Vec<(String, Json)>)
    ensures
        object_view(m@) == Seq::<(Seq<char>, JsonV)>::empty(),
{
    let m: Vec<(String, Json)> = Vec::new();
    proof {
        crate::json::lemma_object_view_literal(m@);
        assert(object_view(m@) =~= Seq::empty());
    }
    m
}

/// An empty result of `shape` carrying `reason`.
pub fn empty_result(shape: EmptyShape, reason: &str) -> (r: Json)
    ensures
        r@ == spec_empty(shape, reason@),
{
    let mut m = new_object();
    match shape {
        EmptyShape::Search => {
            let list: Vec<Json> = Vec::new();
            assert(array_view(list@) =~= Seq::empty());
            push_member(&mut m, "contracts", Json::Array(list));
        },
        EmptyShape::Read => {},
    }
    push_member(&mut m, "reason", Json::String(reason.to_owned()));
    let ghost mv = object_view(m@);
    let r = Json::Object(m);
    assert(mv =~= match shape {
        EmptyShape::Search => seq![("contracts"@, JsonV::Array(Seq::empty())), ("reason"@, JsonV::String(reason@))],
        EmptyShape::Read => seq![("reason"@, JsonV::String(reason@))],
    });
    r
}

/// A non-empty `contract_search` result.
pub fn contracts(payloads: Vec<Json>) -> (r: Json)
    ensures
        r@ == JsonV::Object(seq![("contracts"@, JsonV::Array(array_view(payloads@)))]),
{
    let mut m = new_object();
    let ghost pv = array_view(payloads@);
    push_member(&mut m, "contracts", Json::Array(payloads));
    let ghost mv = object_view(m@);
    assert(mv =~= seq![("contracts"@, JsonV::Array(pv))]);
    Json::Object(m)
}

/// A non-empty `contract_read` result.
pub fn contract(payload: Json) -> (r: Json)
    ensures
        r@ == JsonV::Object(seq![("contract"@, payload@)]),
{
    let mut m = new_object();
    let ghost pv = payload@;
    push_member(&mut m, "contract", payload);
    let ghost mv = object_view(m@);
    assert(mv =~= seq![("contract"@, pv)]);
    Json::Object(m)
}

/// What a contract tool decides ahead of its store call.
#[derive(Debug, PartialEq)]
pub enum ContractGate {
    /// Answer at once with this empty result.
    Empty(Json),
    /// Go on to the store.
    Proceed,
}

/// The check ahead of the store call: no profile identity answers empty, a
/// malformed identity is an argument error, a closed privacy gate or a
/// missing store answers empty — in that order.
pub fn contract_gate(
    shape: EmptyShape,
    identity: Option<bool>,
    allow_query_data: bool,
    has_state_store: bool,
) -> (r: Result<ContractGate, ToolError>)
    ensures
        match identity {
            None => r matches Ok(ContractGate::Empty(e)) && e@ == spec_empty(shape, REASON_NO_IDENTITY@),
            Some(false) => r matches Err(ToolError::InvalidQueryArguments),
            Some(true) => if !allow_query_data {
                r matches Ok(ContractGate::Empty(e)) && e@ == spec_empty(shape, REASON_PRIVACY@)
            } else if !has_state_store {
                r matches Ok(ContractGate::Empty(e)) && e@ == spec_empty(shape, REASON_STORE@)
            } else {
                r matches Ok(ContractGate::Proceed)
            },
        },
{
    match identity {
        None => Ok(ContractGate::Empty(empty_result(shape, REASON_NO_IDENTITY))),
        Some(false) => Err(ToolError::InvalidQueryArguments),
        Some(true) => {
            if !allow_query_data {
                Ok(ContractGate::Empty(empty_result(shape, REASON_PRIVACY)))
            } else if !has_state_store {
                Ok(ContractGate::Empty(empty_result(shape, REASON_STORE)))
            } else {
                Ok(ContractGate::Proceed)
            }
        },
    }
}

/// The search terms of a `contract_search` call: the strings of its
/// `terms` array, in order, skipping anything else; none without an array.
pub open spec fn spec_search_terms(j: JsonV) -> Seq<Seq<char>> {
    match json_get(j, "terms"@) {
        Some(JsonV::Array(items)) => strings_of(items),
        _ => Seq::empty(),
    }
}

/// The strings among `items`, in order.
pub open spec fn strings_of(items: Seq<JsonV>) -> Seq<Seq<char>>
    decreases items.len(),
{
    if items.len() == 0 {
        Seq::empty()
    } else {
        let rest = strings_of(items.drop_last());
        match str_of(items.last()) {
            Some(s) => rest.push(s),
            None => rest,
        }
    }
}

/// Reads the search terms of a `contract_search` call.
pub fn search_terms(arguments: &Json) -> (r: Vec<String>)
    ensures
        r@.map_values(|s: String| s@) == spec_search_terms(arguments@),
{
    let mut out: Vec<String> = Vec::new();
    match arguments.get("terms") {
        Some(Json::Array(items)) => {
            let ghost iv = array_view(items@);
            proof {
                crate::json::lemma_array_view_len(items@);
            }
            let mut i: usize = 0;
            while i < items.len()
                invariant
                    i <= items.len(),
                    iv == array_view(items@),
                    iv.len() == items@.len(),
                    out@.map_values(|s: String| s@) =~= strings_of(iv.take(i as int)),
                decreases items.len() - i,
            {
                proof {
                    crate::json::lemma_array_view_index(items@, i as int);
                }
                assert(iv.take(i as int + 1).drop_last() =~= iv.take(i as int));
                assert(iv.take(i as int + 1).last() == iv[i as int]);
                match items[i].as_str() {
                    Some(s) => {
                        let ghost before = out@;
                        out.push(s.to_owned());
                        assert(out@.map_values(|s: String| s@) =~= before.map_values(|s: String| s@).push(s@));
                    },
                    None => {},
                }
                i += 1;
            }
            assert(iv.take(items.len() as int) =~= iv);
        },
        _ => {},
    }
    out
}

/// What recall answered a search: whether the store was unavailable, how
/// many matches were dropped as stale, and the payloads of the rest.
pub fn search_answer(store_unavailable: bool, excluded_by_schema: usize, payloads: Vec<Json>) -> (r:
    Json)
    ensures
        r@ == if store_unavailable {
            spec_empty(EmptyShape::Search, REASON_STORE@)
        } else if payloads@.len() == 0 {
            if excluded_by_schema > 0 {
                spec_empty(EmptyShape::Search, REASON_STALE@)
            } else {
                spec_empty(EmptyShape::Search, REASON_NO_MATCH@)
            }
        } else {
            JsonV::Object(seq![("contracts"@, JsonV::Array(array_view(payloads@)))])
        },
{
    if store_unavailable {
        return empty_result(EmptyShape::Search, REASON_STORE);
    }
    if payloads.len() == 0 {
        if excluded_by_schema > 0 {
            return empty_result(EmptyShape::Search, REASON_STALE);
        }
        return empty_result(EmptyShape::Search, REASON_NO_MATCH);
    }
    contracts(payloads)
}

/// What the store answered a read.
#[derive(Debug, PartialEq)]
pub enum ReadOutcome {
    Found(Json),
    Missing,
    StoreFailed,
}

/// The answer to a `contract_read`: the contract, or an empty result saying
/// why there is none.
pub fn read_answer(outcome: ReadOutcome) -> (r: Json)
    ensures
        r@ == match outcome {
            ReadOutcome::Found(p) => JsonV::Object(seq![("contract"@, p@)]),
            ReadOutcome::Missing => spec_empty(EmptyShape::Read, REASON_NO_CONTRACT@),
            ReadOutcome::StoreFailed => spec_empty(EmptyShape::Read, REASON_STORE@),
        },
{
    match outcome {
        ReadOutcome::Found(p) => contract(p),
        ReadOutcome::Missing => empty_result(EmptyShape::Read, REASON_NO_CONTRACT),
        ReadOutcome::StoreFailed => empty_result(EmptyShape::Read, REASON_STORE),
    }
}

/// Caps a read's claims at `MAX_READ_CLAIMS`, flagging `truncated` when the
/// object had more.
pub fn cap_read_claims<T>(claims: &mut Vec<T>, truncated: &mut bool)
    ensures
        final(claims)@ == if old(claims)@.len() > MAX_READ_CLAIMS {
            old(claims)@.take(MAX_READ_CLAIMS as int)
        } else {
            old(claims)@
        },
        *final(truncated) == (*old(truncated) || old(claims)@.len() > MAX_READ_CLAIMS),
{
    if claims.len() > MAX_READ_CLAIMS {
        claims.truncate(MAX_READ_CLAIMS);
        *truncated = true;
    }
}

} // verus!
