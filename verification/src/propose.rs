//! The `contract_propose` tool's own decisions: argument shape validation,
//! the per-turn proposal bound, the profile name a proposal reports, the
//! evidence kind it attaches, and the model-facing result. Every proposal is
//! an assistant-inferred candidate, inert until a human confirms it; a
//! duplicate reports the existing id and its real status.

use vstd::prelude::*;

use crate::json::{get_str, json_get, str_of, push_member, str_eq, object_view, Json, JsonV};
use crate::text::eq_ignore_ascii_case;
use crate::tool_error::ToolError;
use crate::workspace_edit::{keys_within, member_keys_within, opt_view};

verus! {

/// The properties a `contract_propose` call may carry, in declaration order.
pub open spec fn allowed_properties() -> Seq<Seq<char>> {
    seq!["table"@, "kind"@, "value"@, "column"@, "connection"@]
}

/// The shape-validated `contract_propose` arguments.
#[derive(Debug, PartialEq)]
pub struct ProposeArgs {
    pub table: String,
    pub kind: String,
    pub value: String,
    pub column: Option<String>,
    pub connection: Option<String>,
}

/// The mathematical form of `ProposeArgs`.
pub struct ProposeArgsV {
    pub table: Seq<char>,
    pub kind: Seq<char>,
    pub value: Seq<char>,
    pub column: Option<Seq<char>>,
    pub connection: Option<Seq<char>>,
}

impl View for ProposeArgs {
    type V = ProposeArgsV;

    open spec fn view(&self) -> ProposeArgsV {
        ProposeArgsV {
            table: self.table@,
            kind: self.kind@,
            value: self.value@,
            column: opt_view(self.column),
            connection: opt_view(self.connection),
        }
    }
}

/// What `parse_arguments` returns for the JSON arguments `j`: unknown
/// properties and a non-string `connection` name their own errors; a
/// missing or non-string `table`, `kind` or `value` is
/// `InvalidQueryArguments`; a non-string `column` reads as absent.
pub open spec fn spec_parse_propose(j: JsonV) -> Result<ProposeArgsV, ToolError> {
    match j {
        JsonV::Object(m) => {
            if !keys_within(m, allowed_properties()) {
                Err(ToolError::UnsupportedProperty)
            } else if json_get(j, "connection"@) matches Some(v) && str_of(v) is None {
                Err(ToolError::ConnectionNotString)
            } else if get_str(j, "table"@) is None || get_str(j, "kind"@) is None || get_str(
                j,
                "value"@,
            ) is None {
                Err(ToolError::InvalidQueryArguments)
            } else {
                Ok(
                    ProposeArgsV {
                        table: get_str(j, "table"@).unwrap(),
                        kind: get_str(j, "kind"@).unwrap(),
                        value: get_str(j, "value"@).unwrap(),
                        column: get_str(j, "column"@),
                        connection: get_str(j, "connection"@),
                    },
                )
            }
        },
        _ => Err(ToolError::ArgumentsNotObject),
    }
}

fn owned(s: Option<&str>) -> (r: Option<String>)
    ensures
        opt_view(r) == match s {
            Some(t) => Some(t@),
            None => None,
        },
{
    match s {
        Some(t) => Some(t.to_owned()),
        None => None,
    }
}

/// Extracts and shape-validates the `contract_propose` arguments. Shape
/// failures map to payload-free errors; the offending value is never echoed.
pub fn parse_arguments(arguments: &Json) -> (r: Result<ProposeArgs, ToolError>)
    ensures
        crate::workspace_edit::parse_outcome_is(r, spec_parse_propose(arguments@)),
{
    let members = match arguments {
        Json::Object(m) => m,
        _ => {
            return Err(ToolError::ArgumentsNotObject);
        },
    };
    let allowed: [&str; 5] = ["table", "kind", "value", "column", "connection"];
    assert(allowed@.map_values(|s: &str| s@) =~= allowed_properties());
    if !member_keys_within(members, allowed.as_slice()) {
        return Err(ToolError::UnsupportedProperty);
    }
    let bad_connection = match arguments.get("connection") {
        Some(v) => !v.is_string(),
        None => false,
    };
    if bad_connection {
        return Err(ToolError::ConnectionNotString);
    }
    let table = match arguments.get_str("table") {
        Some(t) => t.to_owned(),
        None => {
            return Err(ToolError::InvalidQueryArguments);
        },
    };
    let kind = match arguments.get_str("kind") {
        Some(t) => t.to_owned(),
        None => {
            return Err(ToolError::InvalidQueryArguments);
        },
    };
    let value = match arguments.get_str("value") {
        Some(t) => t.to_owned(),
        None => {
            return Err(ToolError::InvalidQueryArguments);
        },
    };
    let column = owned(arguments.get_str("column"));
    let connection = owned(arguments.get_str("connection"));
    Ok(ProposeArgs { table, kind, value, column, connection })
}

/// The per-request-scope count of proposal attempts: the ninth and every
/// later attempt is refused before anything is persisted, never silently
/// dropped.
#[derive(Debug, PartialEq)]
pub struct ProposalBudget {
    pub attempts: usize,
}

/// Whether an attempt made after `attempts` earlier ones is admitted.
pub open spec fn admits(attempts: nat) -> bool {
    attempts < crate::logs::MAX_CANDIDATES_PER_TURN
}

impl ProposalBudget {
    pub fn new() -> (r: Self)
        ensures
            r.attempts == 0,
    {
        ProposalBudget { attempts: 0 }
    }

    /// Counts one attempt and answers whether it is within the bound.
    pub fn try_take(&mut self) -> (admitted: bool)
        ensures
            admitted == admits(old(self).attempts as nat),
            final(self).attempts == if old(self).attempts < usize::MAX {
                old(self).attempts + 1
            } else {
                old(self).attempts as int
            },
    {
        let previous = self.attempts;
        if self.attempts < usize::MAX {
            self.attempts = self.attempts + 1;
        }
        previous < crate::logs::MAX_CANDIDATES_PER_TURN
    }
}

/// The budget step of a proposal, once its arguments are parsed and its
/// object resolved: the attempt is counted, and an attempt past the
/// per-turn bound answers `QueryFailed` and hands nothing on to be stored;
/// an admitted one hands its arguments on unchanged. The caller stores only
/// what comes back `Ok`.
pub fn admit_proposal(budget: &mut ProposalBudget, args: ProposeArgs) -> (r: Result<
    ProposeArgs,
    ToolError,
>)
    ensures
        admits(old(budget).attempts as nat) ==> r == Ok::<ProposeArgs, ToolError>(args),
        !admits(old(budget).attempts as nat) ==> r == Err::<ProposeArgs, ToolError>(
            ToolError::QueryFailed,
        ),
        final(budget).attempts == if old(budget).attempts < usize::MAX {
            old(budget).attempts + 1
        } else {
            old(budget).attempts as int
        },
{
    if budget.try_take() {
        Ok(args)
    } else {
        Err(ToolError::QueryFailed)
    }
}

/// Of the attempts made from a fresh budget, the first eight are admitted
/// and every later one is refused.
pub proof fn lemma_budget_admits_exactly_the_first_eight(k: nat)
    ensures
        admits(k) <==> k < 8,
{
}

/// The profile name a proposal reports: the connection the model named, or
/// the primary when it left `connection` absent or blank. Never the opaque
/// profile identity.
pub fn profile_name(connection: Option<&str>, primary: &str) -> (r: String)
    ensures
        r@ == match connection {
            Some(c) => if c@.len() > 0 {
                c@
            } else {
                primary@
            },
            None => primary@,
        },
{
    match connection {
        Some(c) => {
            if !c.is_empty() {
                c.to_owned()
            } else {
                primary.to_owned()
            }
        },
        None => primary.to_owned(),
    }
}

/// The evidence a stored claim carries.
#[derive(PartialEq, Eq, Structural, Clone, Copy, Debug)]
pub enum EvidenceKind {
    ExplicitUserStatement,
    SuccessfulReadQuery,
    RepeatedObservation,
}

/// The kind for a proposal about an object a succeeded read touched this
/// turn.
pub const TOUCHED: EvidenceKind = EvidenceKind::SuccessfulReadQuery;

/// The kind for a proposal about an object the turn never touched, or
/// whose claims were supplied to the model this turn.
pub const UNTOUCHED: EvidenceKind = EvidenceKind::RepeatedObservation;

/// Decides the evidence kind for a proposal: `TOUCHED` only when a query
/// touched the object this turn and no claims for it were supplied (a
/// supplied claim must not become its own evidence); otherwise `UNTOUCHED`.
pub fn decide_evidence_kind(touched: bool, supplied: bool) -> (k: EvidenceKind)
    ensures
        k == if touched && !supplied {
            TOUCHED
        } else {
            UNTOUCHED
        },
{
    if touched && !supplied {
        TOUCHED
    } else {
        UNTOUCHED
    }
}

/// Whether `proposed` names one of the supplied objects, ignoring ASCII
/// case.
pub fn is_supplied_object(supplied_objects: &[String], proposed: &str) -> (r: bool)
    ensures
        r == exists|k: int|
            0 <= k < supplied_objects@.len() && eq_ignore_ascii_case(
                (#[trigger] supplied_objects@[k])@,
                proposed@,
            ),
{
    let p = crate::text::chars_of(proposed);
    let mut k: usize = 0;
    while k < supplied_objects.len()
        invariant
            k <= supplied_objects.len(),
            p@ == proposed@,
            forall|q: int|
                0 <= q < k ==> !eq_ignore_ascii_case((#[trigger] supplied_objects@[q])@, proposed@),
        decreases supplied_objects.len() - k,
    {
        let s = crate::text::chars_of(supplied_objects[k].as_str());
        if crate::text::slice_eq_ignore_ascii_case(s.as_slice(), p.as_slice()) {
            return true;
        }
        k += 1;
    }
    false
}

/// The qualified name `catalog.schema.object`.
pub open spec fn qualified(catalog: Seq<char>, schema: Seq<char>, object: Seq<char>) -> Seq<char> {
    catalog + "."@ + schema + "."@ + object
}

/// The evidence kind for a proposal about `catalog.schema.object`, given
/// whether a succeeded observation touched it and the objects whose claims
/// were supplied this turn.
pub fn evidence_kind(
    catalog: &str,
    schema: &str,
    object: &str,
    observations: Option<&crate::logs::ObservationLog>,
    supplied_objects: &[String],
) -> (k: EvidenceKind)
    ensures
        k == if (match observations {
            Some(log) => crate::logs::spec_touched(log.held(), catalog@, schema@, object@),
            None => false,
        }) && !(exists|q: int|
            0 <= q < supplied_objects@.len() && eq_ignore_ascii_case(
                (#[trigger] supplied_objects@[q])@,
                qualified(catalog@, schema@, object@),
            )) {
            TOUCHED
        } else {
            UNTOUCHED
        },
{
    let mut proposed = catalog.to_owned();
    crate::text::push_str(&mut proposed, ".");
    crate::text::push_str(&mut proposed, schema);
    crate::text::push_str(&mut proposed, ".");
    crate::text::push_str(&mut proposed, object);
    let supplied = is_supplied_object(supplied_objects, proposed.as_str());
    let touched = match observations {
        Some(log) => log.touched(catalog, schema, object),
        None => false,
    };
    decide_evidence_kind(touched, supplied)
}

/// What the store answered a proposal.
#[derive(Debug, PartialEq)]
pub enum ProposeOutcome {
    /// A new candidate was stored under this id.
    Stored { claim_id: String },
    /// The claim already exists, with this id and status.
    Duplicate { claim_id: String, status: String },
}

/// The model-facing result of a proposal: the claim id, the action and the
/// status — never the opaque profile identity.
pub fn outcome_payload(outcome: ProposeOutcome) -> (r: Json)
    ensures
        r@ == match outcome {
            ProposeOutcome::Stored { claim_id } => JsonV::Object(
                seq![
                    ("claim_id"@, JsonV::String(claim_id@)),
                    ("action"@, JsonV::String("proposed"@)),
                    ("status"@, JsonV::String("candidate"@)),
                ],
            ),
            ProposeOutcome::Duplicate { claim_id, status } => JsonV::Object(
                seq![
                    ("claim_id"@, JsonV::String(claim_id@)),
                    ("action"@, JsonV::String("duplicate"@)),
                    ("status"@, JsonV::String(status@)),
                ],
            ),
        },
{
    let (id, action, status) = match outcome {
        ProposeOutcome::Stored { claim_id } => (claim_id, "proposed", "candidate".to_owned()),
        ProposeOutcome::Duplicate { claim_id, status } => (claim_id, "duplicate", status),
    };
    let mut m: Vec<(String, Json)> = Vec::new();
    proof {
        crate::json::lemma_object_view_literal(m@);
        assert(object_view(m@) =~= Seq::empty());
    }
    push_member(&mut m, "claim_id", Json::String(id));
    push_member(&mut m, "action", Json::String(action.to_owned()));
    push_member(&mut m, "status", Json::String(status));
    let r = Json::Object(m);
    assert(object_view(m@) =~= seq![
        ("claim_id"@, JsonV::String(id@)),
        ("action"@, JsonV::String(action@)),
        ("status"@, JsonV::String(status@)),
    ]);
    r
}

/// The status every proposal is stored with.
pub const CANDIDATE_STATUS: &'static str = "candidate";

/// The claim the turn reports for a proposal: only a newly stored
/// candidate is recorded — a duplicate is not a new proposal — and it is
/// always reported as a candidate, inert until a human confirms it.
pub fn proposal_record(
    outcome: &ProposeOutcome,
    profile: String,
    object: String,
    kind: String,
    value: String,
    column: Option<String>,
) -> (r: Option<crate::logs::ProposedClaimDto>)
    ensures
        match *outcome {
            ProposeOutcome::Stored { claim_id } => r matches Some(d) && d.claim_id@ == claim_id@
                && d.profile@ == profile@ && d.object@ == object@ && d.kind@ == kind@ && d.value@
                == value@ && opt_view(d.column) == opt_view(column) && d.status@
                == CANDIDATE_STATUS@,
            ProposeOutcome::Duplicate { .. } => r is None,
        },
{
    match outcome {
        ProposeOutcome::Stored { claim_id } => Some(
            crate::logs::ProposedClaimDto {
                claim_id: claim_id.clone(),
                profile,
                object,
                kind,
                value,
                column,
                status: CANDIDATE_STATUS.to_owned(),
            },
        ),
        ProposeOutcome::Duplicate { .. } => None,
    }
}

/// The check ahead of parsing a proposal: the tool is hidden under a closed
/// privacy gate, and a call made by name anyway is refused — a proposal is
/// database-derived.
pub fn proposal_gate(allow_query_data: bool) -> (r: Result<(), ToolError>)
    ensures
        r == if allow_query_data {
            Ok::<(), ToolError>(())
        } else {
            Err(ToolError::DataSharingDisabled)
        },
{
    if !allow_query_data {
        return Err(ToolError::DataSharingDisabled);
    }
    Ok(())
}

/// `std::time::SystemTime`, carried through opaque.
#[verifier::external_type_specification]
#[verifier::external_body]
pub struct ExSystemTime(std::time::SystemTime);

/// `SystemTime::now`: the current wall-clock time. Nothing is stated of it:
/// it depends on the clock.
#[verifier::external_body]
fn system_now() -> (t: std::time::SystemTime) {
    std::time::SystemTime::now()
}

/// `SystemTime::duration_since(UNIX_EPOCH)`: the time elapsed since the
/// Unix epoch, `None` when `t` is earlier. Nothing is stated of the value:
/// it depends on the clock.
#[verifier::external_body]
fn since_unix_epoch(t: &std::time::SystemTime) -> (d: Option<std::time::Duration>) {
    t.duration_since(std::time::UNIX_EPOCH).ok()
}

/// `Duration::as_millis`: the whole milliseconds of `d`. The duration is
/// opaque here, so nothing is stated of the count.
#[verifier::external_body]
fn whole_millis(d: &std::time::Duration) -> (ms: u128) {
    d.as_millis()
}

/// The evidence timestamp for a clock reading: the milliseconds since the
/// Unix epoch as an `i64` (the `as` cast truncates), or
/// 0 for a clock before the epoch.
pub fn unix_ms_of(elapsed_ms: Option<u128>) -> (r: i64)
    ensures
        r == match elapsed_ms {
            Some(ms) => ms as i64,
            None => 0,
        },
{
    match elapsed_ms {
        Some(ms) => ms as i64,
        None => 0,
    }
}

/// The current wall-clock time in milliseconds since the Unix epoch, or 0
/// if the clock is before the epoch. What it returns rests on the clock;
/// `unix_ms_of` states the conversion.
pub fn now_unix_ms() -> i64 {
    let now = system_now();
    let elapsed = match since_unix_epoch(&now) {
        Some(d) => Some(whole_millis(&d)),
        None => None,
    };
    unix_ms_of(elapsed)
}

} // verus!
