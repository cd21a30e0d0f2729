//! Request-scoped, bounded logs a turn appends to and the runtime drains
//! once: what each tool call touched (observations), the candidate claims
//! persisted (proposals), and the confirmed claims the turn's SQL
//! contradicted (override findings). Each collects only; a second drain
//! returns nothing, so a turn cannot double-count or double-emit.

use vstd::prelude::*;

use crate::json::{bool_of, json_get, u64_of, Json};

verus! {

/// The bound on observations per turn; further records are dropped.
pub const MAX_OBSERVATIONS: usize = 32;

/// At most this many candidate proposals are stored per request scope.
pub const MAX_CANDIDATES_PER_TURN: usize = 8;

/// The bound on override findings per turn.
pub const MAX_FINDINGS: usize = 64;

/// `s` with `x` appended while it holds fewer than `cap` entries; unchanged
/// once full.
pub open spec fn capped_push<T>(s: Seq<T>, x: T, cap: nat) -> Seq<T> {
    if s.len() < cap {
        s.push(x)
    } else {
        s
    }
}

/// `s` after recording each of `xs` in order under the bound `cap`.
pub open spec fn record_all<T>(s: Seq<T>, xs: Seq<T>, cap: nat) -> Seq<T>
    decreases xs.len(),
{
    if xs.len() == 0 {
        s
    } else {
        capped_push(record_all(s, xs.drop_last(), cap), xs.last(), cap)
    }
}

/// The smaller of two naturals.
pub open spec fn min_nat(a: nat, b: nat) -> nat {
    if a <= b {
        a
    } else {
        b
    }
}

/// A bounded log keeps the first `cap` records in recording order and
/// drops every later one, however many are recorded.
pub proof fn lemma_bounded_log_keeps_first<T>(s: Seq<T>, xs: Seq<T>, cap: nat)
    requires
        s.len() <= cap,
    ensures
        record_all(s, xs, cap) == (s + xs).take(min_nat(cap, s.len() + xs.len()) as int),
        record_all(s, xs, cap).len() <= cap,
    decreases xs.len(),
{
    if xs.len() == 0 {
        assert((s + xs).take(s.len() as int) =~= s);
    } else {
        lemma_bounded_log_keeps_first(s, xs.drop_last(), cap);
        let prev = record_all(s, xs.drop_last(), cap);
        assert((s + xs.drop_last()) =~= (s + xs).drop_last());
        if prev.len() < cap {
            assert(prev.push(xs.last()) =~= (s + xs).take(min_nat(cap, s.len() + xs.len()) as int));
        } else {
            assert(prev =~= (s + xs).take(min_nat(cap, s.len() + xs.len()) as int));
        }
    }
}

/// Whether recording each of `xs` in order, from a log holding `s` whose
/// drop flag is `dropped`, leaves the flag set: each record sets it when the
/// log already holds `cap` entries, as `ObservationLog::record` does.
pub open spec fn record_all_dropped<T>(dropped: bool, s: Seq<T>, xs: Seq<T>, cap: nat) -> bool
    decreases xs.len(),
{
    if xs.len() == 0 {
        dropped
    } else {
        record_all_dropped(dropped, s, xs.drop_last(), cap) || record_all(s, xs.drop_last(), cap).len()
            >= cap
    }
}

/// A turn's observation log, recorded from fresh (or from a drain) with the
/// observations `xs` in order, holds the first 32 of them in recording order
/// and reports truncation exactly when more than 32 were recorded.
pub proof fn lemma_observation_turn(xs: Seq<ToolObservation>)
    ensures
        record_all(Seq::empty(), xs, MAX_OBSERVATIONS as nat) == xs.take(
            min_nat(MAX_OBSERVATIONS as nat, xs.len()) as int,
        ),
        record_all_dropped(false, Seq::empty(), xs, MAX_OBSERVATIONS as nat) == (xs.len()
            > MAX_OBSERVATIONS),
    decreases xs.len(),
{
    let e = Seq::<ToolObservation>::empty();
    lemma_bounded_log_keeps_first(e, xs, MAX_OBSERVATIONS as nat);
    assert(e + xs =~= xs);
    if xs.len() > 0 {
        lemma_observation_turn(xs.drop_last());
        lemma_bounded_log_keeps_first(e, xs.drop_last(), MAX_OBSERVATIONS as nat);
        assert(e + xs.drop_last() =~= xs.drop_last());
    }
}

/// How a tool call ended. The outcome is an enum and never a message: a
/// connector error can carry a value from the query.
#[derive(PartialEq, Eq, Structural, Clone, Copy, Debug)]
pub enum ObservationOutcome {
    Succeeded,
    Failed,
    Denied,
}

/// What a tool call contributed to the turn's evidence: tool name, outcome,
/// profile, object and column references, row count and truncation, and
/// nothing else — no SQL and no result values.
#[derive(Debug, PartialEq)]
pub struct ToolObservation {
    pub tool: String,
    pub outcome: ObservationOutcome,
    pub profile: Option<String>,
    /// Fully qualified objects the statement touched, as written.
    pub objects: Vec<Vec<String>>,
    pub columns: Vec<String>,
    pub row_count: Option<usize>,
    pub truncated: Option<bool>,
    /// True when extraction could not model part of the statement.
    pub references_partial: bool,
}

/// The object and column names a statement references, and whether the
/// extraction was partial.
#[derive(Debug, PartialEq)]
pub struct SqlReferences {
    pub objects: Vec<Vec<String>>,
    pub columns: Vec<String>,
    pub partial: bool,
}

/// The drained observation log plus whether the cap dropped records.
#[derive(Debug, PartialEq)]
pub struct DrainedObservations {
    pub observations: Vec<ToolObservation>,
    pub truncated: bool,
}

/// A request-scoped, bounded log of tool observations.
#[derive(Debug, PartialEq)]
pub struct ObservationLog {
    observations: Vec<ToolObservation>,
    /// The cap refused a record since the last drain.
    dropped: bool,
}

/// `o` names the object `catalog.schema.object` exactly.
pub open spec fn names_object(o: Seq<String>, catalog: Seq<char>, schema: Seq<char>, object: Seq<char>) -> bool {
    o.len() == 3 && o[0]@ == catalog && o[1]@ == schema && o[2]@ == object
}

/// Some succeeded observation referenced `catalog.schema.object`.
pub open spec fn spec_touched(
    obs: Seq<ToolObservation>,
    catalog: Seq<char>,
    schema: Seq<char>,
    object: Seq<char>,
) -> bool {
    exists|k: int, m: int|
        #![trigger obs[k].objects@[m]]
        0 <= k < obs.len() && obs[k].outcome == ObservationOutcome::Succeeded && 0 <= m
            < obs[k].objects@.len() && names_object(obs[k].objects@[m]@, catalog, schema, object)
}

impl Default for ObservationLog {
    fn default() -> (r: Self)
        ensures
            r.held() == Seq::<ToolObservation>::empty(),
            !r.dropped(),
    {
        Self::new()
    }
}

impl ObservationLog {
    /// The observations held, in recording order.
    pub closed spec fn held(&self) -> Seq<ToolObservation> {
        self.observations@
    }

    /// Whether the cap refused a record since the log was made or drained.
    pub closed spec fn dropped(&self) -> bool {
        self.dropped
    }

    pub fn new() -> (r: Self)
        ensures
            r.held() == Seq::<ToolObservation>::empty(),
            !r.dropped(),
    {
        ObservationLog { observations: Vec::new(), dropped: false }
    }

    /// Appends an observation, dropping it once 32 are held this turn.
    pub fn record(&mut self, observation: ToolObservation)
        ensures
            final(self).held() == capped_push(old(self).held(), observation, MAX_OBSERVATIONS as nat),
            final(self).dropped() == (old(self).dropped() || old(self).held().len()
                >= MAX_OBSERVATIONS),
    {
        if self.observations.len() < MAX_OBSERVATIONS {
            self.observations.push(observation);
        } else {
            self.dropped = true;
        }
    }

    /// Returns and clears the turn's observations, reporting whether the cap
    /// dropped any. A second call returns nothing and reports no truncation.
    pub fn drain(&mut self) -> (r: DrainedObservations)
        ensures
            r.observations@ == old(self).held(),
            r.truncated == old(self).dropped(),
            final(self).held() == Seq::<ToolObservation>::empty(),
            !final(self).dropped(),
    {
        let mut observations: Vec<ToolObservation> = Vec::new();
        std::mem::swap(&mut observations, &mut self.observations);
        let truncated = self.dropped;
        self.dropped = false;
        DrainedObservations { observations, truncated }
    }

    /// Whether a succeeded observation this turn referenced
    /// `catalog.schema.object`.
    pub fn touched(&self, catalog: &str, schema: &str, object: &str) -> (r: bool)
        ensures
            r == spec_touched(self.held(), catalog@, schema@, object@),
    {
        let mut k: usize = 0;
        while k < self.observations.len()
            invariant
                k <= self.observations.len(),
                forall|kk: int, m: int|
                    #![trigger self.observations@[kk].objects@[m]]
                    0 <= kk < k && self.observations@[kk].outcome == ObservationOutcome::Succeeded
                        && 0 <= m < self.observations@[kk].objects@.len() ==> !names_object(
                        self.observations@[kk].objects@[m]@,
                        catalog@,
                        schema@,
                        object@,
                    ),
            decreases self.observations.len() - k,
        {
            let o = &self.observations[k];
            if o.outcome == ObservationOutcome::Succeeded {
                let mut m: usize = 0;
                while m < o.objects.len()
                    invariant
                        m <= o.objects.len(),
                        k < self.observations.len(),
                        *o == self.observations@[k as int],
                        o.outcome == ObservationOutcome::Succeeded,
                        forall|mm: int|
                            0 <= mm < m ==> !names_object(
                                #[trigger] o.objects@[mm]@,
                                catalog@,
                                schema@,
                                object@,
                            ),
                    decreases o.objects.len() - m,
                {
                    let parts = &o.objects[m];
                    if parts.len() == 3 && crate::json::str_eq(parts[0].as_str(), catalog)
                        && crate::json::str_eq(parts[1].as_str(), schema) && crate::json::str_eq(
                        parts[2].as_str(),
                        object,
                    ) {
                        assert(names_object(o.objects@[m as int]@, catalog@, schema@, object@));
                        assert(self.observations@[k as int].objects@[m as int] == o.objects@[m as int]);
                        return true;
                    }
                    m += 1;
                }
            }
            k += 1;
        }
        false
    }

    /// Records a query-tool observation: the references the statement named
    /// (none when it did not parse), the resolved profile, and on success the
    /// result's `row_count` and `truncated`. A failure records the objects
    /// the statement named and nothing else.
    pub fn record_query(
        &mut self,
        tool: &str,
        refs: Option<SqlReferences>,
        profile: Option<String>,
        result: Option<&Json>,
    )
        ensures
            old(self).held().len() < MAX_OBSERVATIONS ==> final(self).held().len() == old(
                self,
            ).held().len() + 1 && final(self).held().drop_last() == old(self).held()
                && query_observation_is(
                final(self).held().last(),
                tool@,
                refs,
                profile,
                match result {
                    Some(v) => Some(v@),
                    None => None,
                },
            ),
            old(self).held().len() >= MAX_OBSERVATIONS ==> final(self).held() == old(self).held(),
            final(self).dropped() == (old(self).dropped() || old(self).held().len()
                >= MAX_OBSERVATIONS),
    {
        let observation = query_observation(tool, refs, profile, result);
        self.record(observation);
        proof {
            if old(self).held().len() < MAX_OBSERVATIONS {
                assert(self.held().drop_last() =~= old(self).held());
            }
        }
    }

    /// Records a schema-discovery observation: it touches no specific table,
    /// so it carries no objects or columns.
    pub fn record_schema(&mut self, tool: &str, profile: Option<String>, succeeded: bool)
        ensures
            old(self).held().len() < MAX_OBSERVATIONS ==> final(self).held().len() == old(
                self,
            ).held().len() + 1 && final(self).held().drop_last() == old(self).held() && ({
                let o = final(self).held().last();
                &&& o.tool@ == tool@
                &&& o.outcome == (if succeeded {
                    ObservationOutcome::Succeeded
                } else {
                    ObservationOutcome::Failed
                })
                &&& o.profile == profile
                &&& o.objects@.len() == 0
                &&& o.columns@.len() == 0
                &&& o.row_count is None
                &&& o.truncated is None
                &&& !o.references_partial
            }),
            old(self).held().len() >= MAX_OBSERVATIONS ==> final(self).held() == old(self).held(),
            final(self).dropped() == (old(self).dropped() || old(self).held().len()
                >= MAX_OBSERVATIONS),
    {
        let observation = ToolObservation {
            tool: tool.to_owned(),
            outcome: if succeeded {
                ObservationOutcome::Succeeded
            } else {
                ObservationOutcome::Failed
            },
            profile,
            objects: Vec::new(),
            columns: Vec::new(),
            row_count: None,
            truncated: None,
            references_partial: false,
        };
        self.record(observation);
        proof {
            if old(self).held().len() < MAX_OBSERVATIONS {
                assert(self.held().drop_last() =~= old(self).held());
            }
        }
    }
}

/// `o` is the observation of a query tool call with the given references,
/// profile and result.
pub open spec fn query_observation_is(
    o: ToolObservation,
    tool: Seq<char>,
    refs: Option<SqlReferences>,
    profile: Option<String>,
    result: Option<crate::json::JsonV>,
) -> bool {
    &&& o.tool@ == tool
    &&& o.profile == profile
    &&& match refs {
        Some(r) => o.objects == r.objects && o.columns == r.columns && o.references_partial
            == r.partial,
        None => o.objects@.len() == 0 && o.columns@.len() == 0 && !o.references_partial,
    }
    &&& match result {
        Some(v) => {
            &&& o.outcome == ObservationOutcome::Succeeded
            &&& o.row_count == match json_get(v, "row_count"@) {
                Some(n) => match u64_of(n) {
                    Some(u) => Some(u as usize),
                    None => None,
                },
                None => None,
            }
            &&& o.truncated == match json_get(v, "truncated"@) {
                Some(b) => bool_of(b),
                None => None,
            }
        },
        None => o.outcome == ObservationOutcome::Failed && o.row_count is None && o.truncated is None,
    }
}

/// The observation of a query tool call.
pub fn query_observation(
    tool: &str,
    refs: Option<SqlReferences>,
    profile: Option<String>,
    result: Option<&Json>,
) -> (o: ToolObservation)
    ensures
        query_observation_is(
            o,
            tool@,
            refs,
            profile,
            match result {
                Some(v) => Some(v@),
                None => None,
            },
        ),
{
    let (objects, columns, references_partial) = match refs {
        Some(r) => (r.objects, r.columns, r.partial),
        None => (Vec::new(), Vec::new(), false),
    };
    let (outcome, row_count, truncated) = match result {
        Some(value) => {
            let row_count = match value.get("row_count") {
                Some(n) => match n.as_u64() {
                    Some(u) => Some(u as usize),
                    None => None,
                },
                None => None,
            };
            let truncated = match value.get("truncated") {
                Some(b) => b.as_bool(),
                None => None,
            };
            (ObservationOutcome::Succeeded, row_count, truncated)
        },
        None => (ObservationOutcome::Failed, None, None),
    };
    ToolObservation {
        tool: tool.to_owned(),
        outcome,
        profile,
        objects,
        columns,
        row_count,
        truncated,
        references_partial,
    }
}

/// A candidate claim persisted this turn, as the runtime reports it.
#[derive(Debug, PartialEq)]
pub struct ProposedClaimDto {
    pub claim_id: String,
    pub profile: String,
    pub object: String,
    pub kind: String,
    pub value: String,
    pub column: Option<String>,
    pub status: String,
}

/// A request-scoped log of the candidate claims persisted this turn.
#[derive(Debug, PartialEq)]
pub struct ProposedClaimsLog {
    claims: Vec<ProposedClaimDto>,
}

impl Default for ProposedClaimsLog {
    fn default() -> (r: Self)
        ensures
            r.held() == Seq::<ProposedClaimDto>::empty(),
    {
        Self::new()
    }
}

impl ProposedClaimsLog {
    /// The claims held, in storage order.
    pub closed spec fn held(&self) -> Seq<ProposedClaimDto> {
        self.claims@
    }

    pub fn new() -> (r: Self)
        ensures
            r.held() == Seq::<ProposedClaimDto>::empty(),
    {
        ProposedClaimsLog { claims: Vec::new() }
    }

    /// Appends a persisted claim; never past the per-turn bound.
    pub fn record(&mut self, claim: ProposedClaimDto)
        ensures
            final(self).held() == capped_push(old(self).held(), claim, MAX_CANDIDATES_PER_TURN as nat),
    {
        if self.claims.len() < MAX_CANDIDATES_PER_TURN {
            self.claims.push(claim);
        }
    }

    /// Returns and clears the turn's persisted claims, in storage order.
    pub fn drain(&mut self) -> (r: Vec<ProposedClaimDto>)
        ensures
            r@ == old(self).held(),
            final(self).held() == Seq::<ProposedClaimDto>::empty(),
    {
        let mut claims: Vec<ProposedClaimDto> = Vec::new();
        std::mem::swap(&mut claims, &mut self.claims);
        claims
    }
}

/// A confirmed claim the turn's SQL contradicted.
#[derive(Debug, PartialEq)]
pub struct OverrideFindingDto {
    pub claim_id: String,
    pub kind: String,
    pub claimed_value: String,
    pub observed_columns: Vec<String>,
}

/// Some finding of `s` names the claim `id`.
pub open spec fn has_claim(s: Seq<OverrideFindingDto>, id: Seq<char>) -> bool {
    exists|k: int| 0 <= k < s.len() && (#[trigger] s[k]).claim_id@ == id
}

/// The first finding of each claim, in recording order.
pub open spec fn spec_dedupe(s: Seq<OverrideFindingDto>) -> Seq<OverrideFindingDto>
    decreases s.len(),
{
    if s.len() == 0 {
        s
    } else {
        let d = spec_dedupe(s.drop_last());
        if has_claim(d, s.last().claim_id@) {
            d
        } else {
            d.push(s.last())
        }
    }
}

/// Deduplication names each claim once, names every claim of its input, and
/// keeps only findings of its input, each the first of its claim.
pub proof fn lemma_dedupe_names_each_claim_once(s: Seq<OverrideFindingDto>)
    ensures
        forall|i: int, j: int|
            0 <= i < j < spec_dedupe(s).len() ==> (#[trigger] spec_dedupe(s)[i]).claim_id@
                != (#[trigger] spec_dedupe(s)[j]).claim_id@,
        forall|k: int| 0 <= k < s.len() ==> has_claim(spec_dedupe(s), (#[trigger] s[k]).claim_id@),
        forall|i: int|
            0 <= i < spec_dedupe(s).len() ==> exists|k: int|
                0 <= k < s.len() && s[k] == #[trigger] spec_dedupe(s)[i] && !has_claim(
                    s.take(k),
                    s[k].claim_id@,
                ),
    decreases s.len(),
{
    if s.len() > 0 {
        let p = s.drop_last();
        lemma_dedupe_names_each_claim_once(p);
        let d = spec_dedupe(p);
        let x = s.last();
        assert forall|k: int| 0 <= k < s.len() implies has_claim(
            spec_dedupe(s),
            (#[trigger] s[k]).claim_id@,
        ) by {
            if k < p.len() {
                assert(s[k] == p[k]);
                assert(has_claim(d, p[k].claim_id@));
                let w = choose|w: int| 0 <= w < d.len() && (#[trigger] d[w]).claim_id@ == p[k].claim_id@;
                if !has_claim(d, x.claim_id@) {
                    assert(d.push(x)[w] == d[w]);
                }
            } else {
                if !has_claim(d, x.claim_id@) {
                    assert(d.push(x)[d.len() as int] == x);
                }
            }
        }
        assert forall|i: int|
            0 <= i < spec_dedupe(s).len() implies exists|k: int|
                0 <= k < s.len() && s[k] == #[trigger] spec_dedupe(s)[i] && !has_claim(
                    s.take(k),
                    s[k].claim_id@,
                ) by {
            if i < d.len() {
                let k = choose|k: int|
                    0 <= k < p.len() && p[k] == #[trigger] d[i] && !has_claim(p.take(k), p[k].claim_id@);
                assert(s.take(k) =~= p.take(k));
                assert(s[k] == p[k]);
                if !has_claim(d, x.claim_id@) {
                    assert(d.push(x)[i] == d[i]);
                }
            } else {
                assert(!has_claim(d, x.claim_id@));
                assert(spec_dedupe(s)[i] == x);
                assert(s.take(p.len() as int) =~= p);
                if has_claim(p, x.claim_id@) {
                    let k = choose|k: int| 0 <= k < p.len() && (#[trigger] p[k]).claim_id@ == x.claim_id@;
                    assert(has_claim(d, p[k].claim_id@));
                }
                assert(s[p.len() as int] == x);
            }
        }
    }
}

/// Keeps the first occurrence of each `claim_id`, preserving order: a claim
/// contradicted in several statements is reported once.
pub fn dedupe_by_claim(findings: Vec<OverrideFindingDto>) -> (kept: Vec<OverrideFindingDto>)
    ensures
        kept@ == spec_dedupe(findings@),
{
    let ghost all = findings@;
    let mut seen: Vec<String> = Vec::new();
    let mut kept: Vec<OverrideFindingDto> = Vec::new();
    let mut rest = findings;
    let mut i: usize = 0;
    let n = rest.len();
    while rest.len() > 0
        invariant
            n == all.len(),
            rest@.len() + i == n,
            rest@ =~= all.subrange(i as int, n as int),
            kept@ == spec_dedupe(all.take(i as int)),
            seen@.len() == kept@.len(),
            forall|q: int| 0 <= q < seen@.len() ==> #[trigger] seen@[q]@ == kept@[q].claim_id@,
        decreases rest.len(),
    {
        let finding = rest.remove(0);
        assert(finding == all[i as int]);
        let key = finding.claim_id.clone();
        let mut dup = false;
        let mut q: usize = 0;
        while q < seen.len()
            invariant
                q <= seen.len(),
                seen@.len() == kept@.len(),
                forall|qq: int| 0 <= qq < seen@.len() ==> #[trigger] seen@[qq]@ == kept@[qq].claim_id@,
                dup == exists|qq: int| 0 <= qq < q && (#[trigger] kept@[qq]).claim_id@ == key@,
            decreases seen.len() - q,
        {
            if seen[q] == key {
                assert(kept@[q as int].claim_id@ == key@);
                dup = true;
            }
            q += 1;
        }
        assert(all.take(i as int + 1).drop_last() =~= all.take(i as int));
        assert(all.take(i as int + 1).last() == finding);
        if !dup {
            seen.push(key);
            kept.push(finding);
        }
        i += 1;
        proof {
            assert(rest@ =~= all.subrange(i as int, n as int));
        }
    }
    assert(all.take(n as int) =~= all);
    kept
}

/// A request-scoped log of the override findings raised this turn.
#[derive(Debug, PartialEq)]
pub struct OverrideLog {
    findings: Vec<OverrideFindingDto>,
}

impl Default for OverrideLog {
    fn default() -> (r: Self)
        ensures
            r.held() == Seq::<OverrideFindingDto>::empty(),
    {
        Self::new()
    }
}

impl OverrideLog {
    /// The findings held, in recording order.
    pub closed spec fn held(&self) -> Seq<OverrideFindingDto> {
        self.findings@
    }

    pub fn new() -> (r: Self)
        ensures
            r.held() == Seq::<OverrideFindingDto>::empty(),
    {
        OverrideLog { findings: Vec::new() }
    }

    /// Appends a finding for one statement, never past the cap.
    pub fn record(&mut self, finding: OverrideFindingDto)
        ensures
            final(self).held() == capped_push(old(self).held(), finding, MAX_FINDINGS as nat),
    {
        if self.findings.len() < MAX_FINDINGS {
            self.findings.push(finding);
        }
    }

    /// Returns and clears the turn's findings, deduplicated by claim (first
    /// occurrence wins, in recording order).
    pub fn drain(&mut self) -> (r: Vec<OverrideFindingDto>)
        ensures
            r@ == spec_dedupe(old(self).held()),
            final(self).held() == Seq::<OverrideFindingDto>::empty(),
    {
        let mut all: Vec<OverrideFindingDto> = Vec::new();
        std::mem::swap(&mut all, &mut self.findings);
        dedupe_by_claim(all)
    }
}

} // verus!
