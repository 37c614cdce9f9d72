//! M11 hardening matrix contracts for security, chaos, performance, and operator readiness.
//!
//! Scenarios are registered once; each gets at most one outcome status
//! (re-recording the same status only refreshes its evidence); readiness is
//! GO only when no required critical scenario failed and every required
//! scenario has passed.
use vstd::prelude::*;
use crate::strmap::StrMap;
use crate::text::{is_blank, is_blank_seq, str_views};

verus! {

/// Stable reason marker when readiness evaluates to GO.
pub const DATA_LAYER_M11_READINESS_GO_REASON_CODE: &'static str = "m11_operator_readiness_go";
/// Stable reason marker when readiness is blocked by critical failures.
pub const DATA_LAYER_M11_BLOCK_CRITICAL_FAILURE_REASON_CODE: &'static str = "m11_blocking_critical_failure";
/// Stable reason marker when readiness is blocked by missing/incomplete required scenarios.
pub const DATA_LAYER_M11_BLOCK_REQUIRED_INCOMPLETE_REASON_CODE: &'static str =
    "m11_blocking_required_incomplete";
/// Stable reason marker for illegal scenario status transitions.
pub const DATA_LAYER_M11_INVALID_TRANSITION_REASON_CODE: &'static str = "m11_invalid_status_transition";

/// Hardening scenario domain categories for M11.
#[derive(Debug, Clone, Copy, PartialEq, Eq, Structural, PartialOrd, Ord)]
pub enum DataLayerM11ScenarioDomain {
    Security,
    Chaos,
    Performance,
    Operations,
}

/// Hardening scenario severity level.
#[derive(Debug, Clone, Copy, PartialEq, Eq, Structural, PartialOrd, Ord)]
pub enum DataLayerM11ScenarioSeverity {
    Critical,
    High,
    Medium,
    Low,
}

/// Execution status for one hardening scenario.
#[derive(Debug, Clone, Copy, PartialEq, Eq, Structural, PartialOrd, Ord)]
pub enum DataLayerM11ScenarioStatus {
    Passed,
    Failed,
    Skipped,
}

/// Scenario registration input/definition.
#[derive(Debug, Clone, PartialEq, Eq)]
pub struct DataLayerM11ScenarioDefinition {
    pub scenario_id: String,
    pub domain: DataLayerM11ScenarioDomain,
    pub severity: DataLayerM11ScenarioSeverity,
    pub required: bool,
}

/// Scenario outcome recording input.
#[derive(Debug, Clone, PartialEq, Eq)]
pub struct DataLayerM11ScenarioOutcomeInput {
    pub scenario_id: String,
    pub status: DataLayerM11ScenarioStatus,
    pub evidence_marker: String,
}

/// Persisted scenario outcome record.
#[derive(Debug, Clone, PartialEq, Eq)]
pub struct DataLayerM11ScenarioOutcomeRecord {
    pub scenario_id: String,
    pub status: DataLayerM11ScenarioStatus,
    pub evidence_marker: String,
}

/// Operator readiness decision outcome.
#[derive(Debug, Clone, Copy, PartialEq, Eq, Structural)]
pub enum DataLayerM11OperatorReadinessDecision {
    Go,
    NoGo,
}

/// Readiness projection with deterministic reasons.
#[derive(Debug, Clone, PartialEq, Eq)]
pub struct DataLayerM11OperatorReadinessReport {
    pub decision: DataLayerM11OperatorReadinessDecision,
    pub reason_codes: Vec<&'static str>,
    pub missing_required_scenario_ids: Vec<String>,
    pub failing_critical_scenario_ids: Vec<String>,
    pub total_required_scenarios: u16,
    pub passed_required_scenarios: u16,
}

/// Fail-closed error taxonomy for M11 hardening matrix contracts.
#[derive(Debug, Clone, PartialEq, Eq)]
pub enum DataLayerM11HardeningMatrixError {
    EmptyField(&'static str),
    DuplicateScenarioId(String),
    ScenarioNotFound(String),
    EmptyScenarioCatalog,
    InvalidStatusTransition {
        scenario_id: String,
        from_status: DataLayerM11ScenarioStatus,
        to_status: DataLayerM11ScenarioStatus,
        reason_code: &'static str,
    },
}

// ---------------------------------------------------------------------------
// Model
// ---------------------------------------------------------------------------

/// The status's name as written in messages.
pub open spec fn status_name(s: DataLayerM11ScenarioStatus) -> Seq<char> {
    match s {
        DataLayerM11ScenarioStatus::Passed => "Passed"@,
        DataLayerM11ScenarioStatus::Failed => "Failed"@,
        DataLayerM11ScenarioStatus::Skipped => "Skipped"@,
    }
}

fn status_name_str(s: DataLayerM11ScenarioStatus) -> (r: &'static str)
    ensures
        r@ == status_name(s),
{
    match s {
        DataLayerM11ScenarioStatus::Passed => "Passed",
        DataLayerM11ScenarioStatus::Failed => "Failed",
        DataLayerM11ScenarioStatus::Skipped => "Skipped",
    }
}

/// A scenario as values.
pub struct ScenarioModel {
    pub domain: DataLayerM11ScenarioDomain,
    pub severity: DataLayerM11ScenarioSeverity,
    pub required: bool,
}

/// A recorded outcome as values.
pub struct OutcomeModel {
    pub status: DataLayerM11ScenarioStatus,
    pub evidence_marker: Seq<char>,
}

pub open spec fn scenario_model(d: DataLayerM11ScenarioDefinition) -> ScenarioModel {
    ScenarioModel { domain: d.domain, severity: d.severity, required: d.required }
}

pub open spec fn outcome_model(o: DataLayerM11ScenarioOutcomeRecord) -> OutcomeModel {
    OutcomeModel { status: o.status, evidence_marker: o.evidence_marker@ }
}

/// Walk of the required scenarios in id order: (missing ids, failing
/// critical ids, passed count saturating at `u16::MAX`, required count).
pub open spec fn readiness_walk(
    catalog: Seq<(Seq<char>, ScenarioModel)>,
    outcomes: Map<Seq<char>, OutcomeModel>,
) -> (Seq<Seq<char>>, Seq<Seq<char>>, u16, nat)
    decreases catalog.len(),
{
    if catalog.len() == 0 {
        (Seq::empty(), Seq::empty(), 0, 0)
    } else {
        let (missing, failing, passed, total) = readiness_walk(catalog.drop_last(), outcomes);
        let (id, sc) = catalog.last();
        if !sc.required {
            (missing, failing, passed, total)
        } else if outcomes.dom().contains(id) {
            let o = outcomes[id];
            (
                missing,
                if sc.severity == DataLayerM11ScenarioSeverity::Critical && o.status
                    == DataLayerM11ScenarioStatus::Failed {
                    failing.push(id)
                } else {
                    failing
                },
                if o.status == DataLayerM11ScenarioStatus::Passed {
                    if passed == u16::MAX {
                        passed
                    } else {
                        (passed + 1) as u16
                    }
                } else {
                    passed
                },
                total + 1,
            )
        } else {
            (missing.push(id), failing, passed, total + 1)
        }
    }
}

/// The required-scenario count as reported (capped at `u16::MAX`).
pub open spec fn capped_total(total: nat) -> u16 {
    if total > u16::MAX {
        u16::MAX
    } else {
        total as u16
    }
}

/// The readiness decision and its reason code.
pub open spec fn readiness_decision(
    catalog: Seq<(Seq<char>, ScenarioModel)>,
    outcomes: Map<Seq<char>, OutcomeModel>,
) -> (DataLayerM11OperatorReadinessDecision, &'static str) {
    let (missing, failing, passed, total) = readiness_walk(catalog, outcomes);
    if failing.len() > 0 {
        (DataLayerM11OperatorReadinessDecision::NoGo, DATA_LAYER_M11_BLOCK_CRITICAL_FAILURE_REASON_CODE)
    } else if missing.len() > 0 || passed != capped_total(total) {
        (DataLayerM11OperatorReadinessDecision::NoGo, DATA_LAYER_M11_BLOCK_REQUIRED_INCOMPLETE_REASON_CODE)
    } else {
        (DataLayerM11OperatorReadinessDecision::Go, DATA_LAYER_M11_READINESS_GO_REASON_CODE)
    }
}

/// Under GO every required scenario has a passed outcome (when the number
/// of required scenarios fits the reported `u16` count).
pub proof fn lemma_go_means_all_required_passed(
    catalog: Seq<(Seq<char>, ScenarioModel)>,
    outcomes: Map<Seq<char>, OutcomeModel>,
)
    requires
        readiness_walk(catalog, outcomes).3 <= u16::MAX,
        readiness_decision(catalog, outcomes).0 == DataLayerM11OperatorReadinessDecision::Go,
    ensures
        forall|i: int|
            0 <= i < catalog.len() && (#[trigger] catalog[i]).1.required ==> outcomes.dom().contains(
                catalog[i].0,
            ) && outcomes[catalog[i].0].status == DataLayerM11ScenarioStatus::Passed,
{
    lemma_walk_counts(catalog, outcomes);
}

proof fn lemma_walk_counts(catalog: Seq<(Seq<char>, ScenarioModel)>, outcomes: Map<Seq<char>, OutcomeModel>)
    ensures
        readiness_walk(catalog, outcomes).2 <= readiness_walk(catalog, outcomes).3,
        readiness_walk(catalog, outcomes).3 <= u16::MAX && readiness_walk(catalog, outcomes).2
            == readiness_walk(catalog, outcomes).3 ==> forall|i: int|
            0 <= i < catalog.len() && (#[trigger] catalog[i]).1.required ==> outcomes.dom().contains(
                catalog[i].0,
            ) && outcomes[catalog[i].0].status == DataLayerM11ScenarioStatus::Passed,
    decreases catalog.len(),
{
    if catalog.len() > 0 {
        let prev = catalog.drop_last();
        lemma_walk_counts(prev, outcomes);
        let w = readiness_walk(catalog, outcomes);
        let pw = readiness_walk(prev, outcomes);
        if w.3 <= u16::MAX && w.2 == w.3 {
            assert forall|i: int| 0 <= i < catalog.len() && (#[trigger] catalog[i]).1.required implies outcomes.dom().contains(
                catalog[i].0,
            ) && outcomes[catalog[i].0].status == DataLayerM11ScenarioStatus::Passed by {
                if i < catalog.len() - 1 {
                    assert(catalog[i] == prev[i]);
                    assert(pw.2 == pw.3);
                }
            }
        }
    }
}

/// Deterministic in-memory registry for M11 hardening scenario contracts.
#[derive(Debug, PartialEq, Eq)]
pub struct DataLayerM11HardeningMatrix {
    scenario_catalog: StrMap<DataLayerM11ScenarioDefinition>,
    scenario_outcomes: StrMap<DataLayerM11ScenarioOutcomeRecord>,
}

fn copy_definition(d: &DataLayerM11ScenarioDefinition) -> (r: DataLayerM11ScenarioDefinition)
    ensures
        r == *d,
{
    DataLayerM11ScenarioDefinition {
        scenario_id: d.scenario_id.clone(),
        domain: d.domain,
        severity: d.severity,
        required: d.required,
    }
}

fn copy_record(o: &DataLayerM11ScenarioOutcomeRecord) -> (r: DataLayerM11ScenarioOutcomeRecord)
    ensures
        r == *o,
{
    DataLayerM11ScenarioOutcomeRecord {
        scenario_id: o.scenario_id.clone(),
        status: o.status,
        evidence_marker: o.evidence_marker.clone(),
    }
}

fn validate_non_empty(value: &str, field_name: &'static str) -> (r: Result<(), DataLayerM11HardeningMatrixError>)
    ensures
        !is_blank_seq(value@) ==> r is Ok,
        is_blank_seq(value@) ==> r == Err::<(), _>(DataLayerM11HardeningMatrixError::EmptyField(field_name)),
{
    if is_blank(value) {
        return Err(DataLayerM11HardeningMatrixError::EmptyField(field_name));
    }
    Ok(())
}

impl DataLayerM11HardeningMatrix {
    #[verifier::type_invariant]
    closed spec fn inv(&self) -> bool {
        &&& self.scenario_catalog.wf()
        &&& self.scenario_outcomes.wf()
        &&& forall|k: Seq<char>| #[trigger] self.scenario_catalog.map().dom().contains(k)
            ==> self.scenario_catalog.map()[k].scenario_id@ == k
        &&& forall|k: Seq<char>| #[trigger] self.scenario_outcomes.map().dom().contains(k)
            ==> self.scenario_outcomes.map()[k].scenario_id@ == k
    }

    /// Registered scenarios by id.
    pub closed spec fn catalog(&self) -> Map<Seq<char>, ScenarioModel> {
        self.scenario_catalog.map().map_values(|d: DataLayerM11ScenarioDefinition| scenario_model(d))
    }

    /// Registered scenarios in id order.
    pub closed spec fn catalog_entries(&self) -> Seq<(Seq<char>, ScenarioModel)> {
        self.scenario_catalog.pairs().map_values(
            |e: (Seq<char>, DataLayerM11ScenarioDefinition)| (e.0, scenario_model(e.1)),
        )
    }

    /// Recorded outcomes by scenario id.
    pub closed spec fn outcomes(&self) -> Map<Seq<char>, OutcomeModel> {
        self.scenario_outcomes.map().map_values(|o: DataLayerM11ScenarioOutcomeRecord| outcome_model(o))
    }

    /// Creates an empty hardening matrix.
    pub fn new() -> (m: Self)
        ensures
            m.catalog() == Map::<Seq<char>, ScenarioModel>::empty(),
            m.outcomes() == Map::<Seq<char>, OutcomeModel>::empty(),
    {
        let m = DataLayerM11HardeningMatrix { scenario_catalog: StrMap::new(), scenario_outcomes: StrMap::new() };
        assert(m.catalog() =~= Map::<Seq<char>, ScenarioModel>::empty());
        assert(m.outcomes() =~= Map::<Seq<char>, OutcomeModel>::empty());
        m
    }

    /// Registers one hardening scenario definition; its id must be non-blank and new.
    pub fn register_scenario(&mut self, definition: DataLayerM11ScenarioDefinition) -> (r: Result<
        DataLayerM11ScenarioDefinition,
        DataLayerM11HardeningMatrixError,
    >)
        ensures
            final(self).outcomes() == old(self).outcomes(),
            is_blank_seq(definition.scenario_id@) ==> (r == Err::<DataLayerM11ScenarioDefinition, _>(
                DataLayerM11HardeningMatrixError::EmptyField("scenario_id"),
            ) && final(self).catalog() == old(self).catalog()),
            !is_blank_seq(definition.scenario_id@) && old(self).catalog().dom().contains(definition.scenario_id@)
                ==> (r matches Err(e) && e matches DataLayerM11HardeningMatrixError::DuplicateScenarioId(
                id,
            ) && id@ == definition.scenario_id@ && final(self).catalog() == old(self).catalog()),
            !is_blank_seq(definition.scenario_id@) && !old(self).catalog().dom().contains(
                definition.scenario_id@,
            ) ==> (r == Ok::<_, DataLayerM11HardeningMatrixError>(definition) && final(self).catalog()
                == old(self).catalog().insert(definition.scenario_id@, scenario_model(definition))),
    {
        proof {
            use_type_invariant(&*self);
        }
        validate_non_empty(definition.scenario_id.as_str(), "scenario_id")?;
        if self.scenario_catalog.contains(definition.scenario_id.as_str()) {
            return Err(DataLayerM11HardeningMatrixError::DuplicateScenarioId(definition.scenario_id));
        }
        let ghost old_catalog = self.catalog();
        let ghost old_map = self.scenario_catalog.map();
        let stored = copy_definition(&definition);
        let mut catalog: StrMap<DataLayerM11ScenarioDefinition> = StrMap::new();
        std::mem::swap(&mut catalog, &mut self.scenario_catalog);
        catalog.insert(definition.scenario_id.clone(), stored);
        self.scenario_catalog = catalog;
        proof {
            assert(self.catalog() =~= old_catalog.insert(definition.scenario_id@, scenario_model(definition)));
        }
        Ok(definition)
    }

    /// Lists registered scenarios in identifier order.
    pub fn list_scenarios(&self) -> (r: Vec<DataLayerM11ScenarioDefinition>)
        ensures
            r@.map_values(|d: DataLayerM11ScenarioDefinition| (d.scenario_id@, scenario_model(d)))
                == self.catalog_entries(),
    {
        proof {
            use_type_invariant(self);
            self.scenario_catalog.lemma_well_formed();
        }
        let n = self.scenario_catalog.len();
        let mut out: Vec<DataLayerM11ScenarioDefinition> = Vec::new();
        let mut i: usize = 0;
        while i < n
            invariant
                self.scenario_catalog.wf(),
                n == self.scenario_catalog.pairs().len(),
                i <= n,
                out@.len() == i,
                self.catalog_entries().len() == n,
                forall|j: int|
                    0 <= j < self.scenario_catalog.pairs().len() ==> #[trigger] self.scenario_catalog.map().dom().contains(
                        self.scenario_catalog.pairs()[j].0,
                    ) && self.scenario_catalog.map()[self.scenario_catalog.pairs()[j].0]
                        == self.scenario_catalog.pairs()[j].1,
                forall|k: Seq<char>| #[trigger] self.scenario_catalog.map().dom().contains(k)
                    ==> self.scenario_catalog.map()[k].scenario_id@ == k,
                out@.map_values(|d: DataLayerM11ScenarioDefinition| (d.scenario_id@, scenario_model(d)))
                    == self.catalog_entries().take(i as int),
            decreases n - i,
        {
            let d = copy_definition(self.scenario_catalog.value_at(i));
            let ghost before = out@;
            proof {
                assert(self.scenario_catalog.map().dom().contains(self.scenario_catalog.pairs()[i as int].0));
            }
            out.push(d);
            proof {
                let p = self.scenario_catalog.pairs()[i as int];
                assert(d.scenario_id@ == p.0);
                assert(self.catalog_entries()[i as int] == (p.0, scenario_model(p.1)));
                let f = |d: DataLayerM11ScenarioDefinition| (d.scenario_id@, scenario_model(d));
                assert forall|j: int| 0 <= j < i + 1 implies #[trigger] out@.map_values(f)[j]
                    == self.catalog_entries().take(i + 1)[j] by {
                    if j < i {
                        assert(out@[j] == before[j]);
                        assert(before.map_values(f)[j] == self.catalog_entries().take(i as int)[j]);
                    }
                }
                assert(out@.map_values(|d: DataLayerM11ScenarioDefinition| (d.scenario_id@, scenario_model(d)))
                    =~= self.catalog_entries().take(i + 1));
            }
            i = i + 1;
        }
        proof {
            assert(self.catalog_entries().take(n as int) =~= self.catalog_entries());
        }
        out
    }

    /// Records one scenario outcome. A scenario keeps the status first
    /// recorded for it; recording the same status again replaces the evidence.
    pub fn record_outcome(&mut self, input: DataLayerM11ScenarioOutcomeInput) -> (r: Result<
        DataLayerM11ScenarioOutcomeRecord,
        DataLayerM11HardeningMatrixError,
    >)
        ensures
            final(self).catalog() == old(self).catalog(),
            is_blank_seq(input.scenario_id@) ==> (r == Err::<DataLayerM11ScenarioOutcomeRecord, _>(
                DataLayerM11HardeningMatrixError::EmptyField("scenario_id"),
            ) && final(self).outcomes() == old(self).outcomes()),
            !is_blank_seq(input.scenario_id@) && is_blank_seq(input.evidence_marker@) ==> (r == Err::<
                DataLayerM11ScenarioOutcomeRecord,
                _,
            >(DataLayerM11HardeningMatrixError::EmptyField("evidence_marker")) && final(self).outcomes()
                == old(self).outcomes()),
            !is_blank_seq(input.scenario_id@) && !is_blank_seq(input.evidence_marker@) && !old(
                self,
            ).catalog().dom().contains(input.scenario_id@) ==> (r matches Err(e)
                && e matches DataLayerM11HardeningMatrixError::ScenarioNotFound(id) && id@
                == input.scenario_id@ && final(self).outcomes() == old(self).outcomes()),
            !is_blank_seq(input.scenario_id@) && !is_blank_seq(input.evidence_marker@) && old(
                self,
            ).catalog().dom().contains(input.scenario_id@) && old(self).outcomes().dom().contains(
                input.scenario_id@,
            ) && old(self).outcomes()[input.scenario_id@].status != input.status ==> (r matches Err(e)
                && e matches DataLayerM11HardeningMatrixError::InvalidStatusTransition {
                scenario_id,
                from_status,
                to_status,
                reason_code,
            } && scenario_id@ == input.scenario_id@ && from_status == old(self).outcomes()[input.scenario_id@].status
                && to_status == input.status && reason_code == DATA_LAYER_M11_INVALID_TRANSITION_REASON_CODE
                && final(self).outcomes() == old(self).outcomes()),
            !is_blank_seq(input.scenario_id@) && !is_blank_seq(input.evidence_marker@) && old(
                self,
            ).catalog().dom().contains(input.scenario_id@) && !(old(self).outcomes().dom().contains(
                input.scenario_id@,
            ) && old(self).outcomes()[input.scenario_id@].status != input.status) ==> (r matches Ok(rec)
                && rec.scenario_id@ == input.scenario_id@ && rec.status == input.status
                && rec.evidence_marker@ == input.evidence_marker@ && final(self).outcomes() == old(
                self,
            ).outcomes().insert(
                input.scenario_id@,
                OutcomeModel { status: input.status, evidence_marker: input.evidence_marker@ },
            )),
            forall|k: Seq<char>| #[trigger] old(self).outcomes().dom().contains(k) ==> final(self).outcomes().dom().contains(k)
                && final(self).outcomes()[k].status == old(self).outcomes()[k].status,
    {
        proof {
            use_type_invariant(&*self);
            self.scenario_outcomes.lemma_well_formed();
        }
        validate_non_empty(input.scenario_id.as_str(), "scenario_id")?;
        validate_non_empty(input.evidence_marker.as_str(), "evidence_marker")?;
        if !self.scenario_catalog.contains(input.scenario_id.as_str()) {
            return Err(DataLayerM11HardeningMatrixError::ScenarioNotFound(input.scenario_id));
        }
        match self.scenario_outcomes.find(input.scenario_id.as_str()) {
            Some(i) => {
                let existing = self.scenario_outcomes.value_at(i);
                proof {
                    assert(self.scenario_outcomes.map().dom().contains(self.scenario_outcomes.pairs()[i as int].0));
                }
                if existing.status != input.status {
                    return Err(
                        DataLayerM11HardeningMatrixError::InvalidStatusTransition {
                            scenario_id: input.scenario_id,
                            from_status: existing.status,
                            to_status: input.status,
                            reason_code: DATA_LAYER_M11_INVALID_TRANSITION_REASON_CODE,
                        },
                    );
                }
            },
            None => {},
        }
        let record = DataLayerM11ScenarioOutcomeRecord {
            scenario_id: input.scenario_id.clone(),
            status: input.status,
            evidence_marker: input.evidence_marker,
        };
        let ghost old_outcomes = self.outcomes();
        let ghost old_map = self.scenario_outcomes.map();
        let stored = copy_record(&record);
        let mut outcomes: StrMap<DataLayerM11ScenarioOutcomeRecord> = StrMap::new();
        std::mem::swap(&mut outcomes, &mut self.scenario_outcomes);
        outcomes.insert(input.scenario_id, stored);
        self.scenario_outcomes = outcomes;
        proof {
            assert(self.outcomes() =~= old_outcomes.insert(
                record.scenario_id@,
                OutcomeModel { status: record.status, evidence_marker: record.evidence_marker@ },
            ));
        }
        Ok(record)
    }

    /// Evaluates operator readiness from the required scenarios' outcomes,
    /// walking the catalog in id order.
    pub fn evaluate_operator_readiness(&self) -> (r: Result<
        DataLayerM11OperatorReadinessReport,
        DataLayerM11HardeningMatrixError,
    >)
        ensures
            self.catalog_entries().len() == 0 ==> r == Err::<DataLayerM11OperatorReadinessReport, _>(
                DataLayerM11HardeningMatrixError::EmptyScenarioCatalog,
            ),
            self.catalog_entries().len() > 0 ==> (r matches Ok(rep) && {
                let w = readiness_walk(self.catalog_entries(), self.outcomes());
                let d = readiness_decision(self.catalog_entries(), self.outcomes());
                &&& str_views(rep.missing_required_scenario_ids@) == w.0
                &&& str_views(rep.failing_critical_scenario_ids@) == w.1
                &&& rep.passed_required_scenarios == w.2
                &&& rep.total_required_scenarios == capped_total(w.3)
                &&& rep.decision == d.0
                &&& rep.reason_codes@ == seq![d.1]
            }),
    {
        proof {
            use_type_invariant(self);
            self.scenario_catalog.lemma_well_formed();
            self.scenario_outcomes.lemma_well_formed();
        }
        let n = self.scenario_catalog.len();
        if n == 0 {
            return Err(DataLayerM11HardeningMatrixError::EmptyScenarioCatalog);
        }
        let ghost entries = self.catalog_entries();
        let ghost outs = self.outcomes();
        let mut missing: Vec<String> = Vec::new();
        let mut failing: Vec<String> = Vec::new();
        let mut passed: u16 = 0;
        let mut total: usize = 0;
        let mut i: usize = 0;
        while i < n
            invariant
                self.scenario_catalog.wf(),
                self.scenario_outcomes.wf(),
                n == self.scenario_catalog.pairs().len(),
                entries == self.catalog_entries(),
                outs == self.outcomes(),
                entries.len() == n,
                i <= n,
                total <= i,
                forall|j: int|
                    0 <= j < self.scenario_catalog.pairs().len() ==> #[trigger] self.scenario_catalog.map().dom().contains(
                        self.scenario_catalog.pairs()[j].0,
                    ) && self.scenario_catalog.map()[self.scenario_catalog.pairs()[j].0]
                        == self.scenario_catalog.pairs()[j].1,
                forall|k: Seq<char>| #[trigger] self.scenario_catalog.map().dom().contains(k)
                    ==> self.scenario_catalog.map()[k].scenario_id@ == k,
                (str_views(missing@), str_views(failing@), passed, total as nat) == readiness_walk(
                    entries.take(i as int),
                    outs,
                ),
            decreases n - i,
        {
            let d = self.scenario_catalog.value_at(i);
            let ghost p = self.scenario_catalog.pairs()[i as int];
            proof {
                assert(self.scenario_catalog.map().dom().contains(p.0));
                assert(d.scenario_id@ == p.0);
                assert(entries[i as int] == (p.0, scenario_model(p.1)));
                assert(entries.take(i + 1).drop_last() =~= entries.take(i as int));
                assert(entries.take(i + 1).last() == entries[i as int]);
            }
            if d.required {
                match self.scenario_outcomes.get(d.scenario_id.as_str()) {
                    Some(o) => {
                        if o.status == DataLayerM11ScenarioStatus::Passed {
                            passed = passed.saturating_add(1);
                        }
                        if d.severity == DataLayerM11ScenarioSeverity::Critical && o.status
                            == DataLayerM11ScenarioStatus::Failed {
                            let ghost before = failing@;
                            failing.push(d.scenario_id.clone());
                            proof {
                                assert(str_views(failing@) =~= str_views(before).push(d.scenario_id@));
                            }
                        }
                    },
                    None => {
                        let ghost before = missing@;
                        missing.push(d.scenario_id.clone());
                        proof {
                            assert(str_views(missing@) =~= str_views(before).push(d.scenario_id@));
                        }
                    },
                }
                total = total + 1;
            }
            i = i + 1;
        }
        proof {
            assert(entries.take(n as int) =~= entries);
        }
        let total_required: u16 = if total > 65535 {
            u16::MAX
        } else {
            total as u16
        };
        let decision;
        let reason: &'static str;
        if failing.len() > 0 {
            decision = DataLayerM11OperatorReadinessDecision::NoGo;
            reason = DATA_LAYER_M11_BLOCK_CRITICAL_FAILURE_REASON_CODE;
        } else if missing.len() > 0 || passed != total_required {
            decision = DataLayerM11OperatorReadinessDecision::NoGo;
            reason = DATA_LAYER_M11_BLOCK_REQUIRED_INCOMPLETE_REASON_CODE;
        } else {
            decision = DataLayerM11OperatorReadinessDecision::Go;
            reason = DATA_LAYER_M11_READINESS_GO_REASON_CODE;
        }
        let mut reason_codes: Vec<&'static str> = Vec::new();
        reason_codes.push(reason);
        proof {
            assert(reason_codes@ =~= seq![reason]);
        }
        Ok(
            DataLayerM11OperatorReadinessReport {
                decision,
                reason_codes,
                missing_required_scenario_ids: missing,
                failing_critical_scenario_ids: failing,
                total_required_scenarios: total_required,
                passed_required_scenarios: passed,
            },
        )
    }
}

/// The error's message text.
pub open spec fn m11_error_message(e: DataLayerM11HardeningMatrixError) -> Seq<char> {
    match e {
        DataLayerM11HardeningMatrixError::EmptyField(field) => field@ + " must not be empty"@,
        DataLayerM11HardeningMatrixError::DuplicateScenarioId(scenario_id) => "duplicate scenario id "@ + scenario_id@,
        DataLayerM11HardeningMatrixError::ScenarioNotFound(scenario_id) => "scenario not found: "@ + scenario_id@,
        DataLayerM11HardeningMatrixError::EmptyScenarioCatalog => "scenario catalog must not be empty"@,
        DataLayerM11HardeningMatrixError::InvalidStatusTransition { scenario_id, from_status, to_status, reason_code } => "invalid status transition for "@ + scenario_id@ + ": "@ + status_name(from_status) + "->"@ + status_name(to_status) + " ("@ + reason_code@ + ")"@,
    }
}

impl DataLayerM11HardeningMatrixError {
    /// The error's message text.
    pub fn message(&self) -> (r: String)
        ensures
            r@ == m11_error_message(*self),
    {
        match self {
            DataLayerM11HardeningMatrixError::EmptyField(field) => {
                let mut out = String::new();
                out.append(*field);
                out.append(" must not be empty");
                proof {
                    assert(out@ =~= field@ + " must not be empty"@);
                }
                out
            },
            DataLayerM11HardeningMatrixError::DuplicateScenarioId(scenario_id) => {
                let mut out = String::new();
                out.append("duplicate scenario id ");
                out.append(scenario_id.as_str());
                proof {
                    assert(out@ =~= "duplicate scenario id "@ + scenario_id@);
                }
                out
            },
            DataLayerM11HardeningMatrixError::ScenarioNotFound(scenario_id) => {
                let mut out = String::new();
                out.append("scenario not found: ");
                out.append(scenario_id.as_str());
                proof {
                    assert(out@ =~= "scenario not found: "@ + scenario_id@);
                }
                out
            },
            DataLayerM11HardeningMatrixError::EmptyScenarioCatalog => {
                let mut out = String::new();
                out.append("scenario catalog must not be empty");
                proof {
                    assert(out@ =~= "scenario catalog must not be empty"@);
                }
                out
            },
            DataLayerM11HardeningMatrixError::InvalidStatusTransition { scenario_id, from_status, to_status, reason_code } => {
                let mut out = String::new();
                out.append("invalid status transition for ");
                out.append(scenario_id.as_str());
                out.append(": ");
                out.append(status_name_str(*from_status));
                out.append("->");
                out.append(status_name_str(*to_status));
                out.append(" (");
                out.append(*reason_code);
                out.append(")");
                proof {
                    assert(out@ =~= "invalid status transition for "@ + scenario_id@ + ": "@ + status_name(*from_status) + "->"@ + status_name(*to_status) + " ("@ + reason_code@ + ")"@);
                }
                out
            },
        }
    }
}

} // verus!
