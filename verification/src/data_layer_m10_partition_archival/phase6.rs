//! Phase-6 scheduler reason markers, the reason code a failed cycle is
//! recorded under, and the scheduler runtime's cycle bookkeeping.
use vstd::prelude::*;
use crate::data_layer_m10_partition_archival::error::DataLayerM10PartitionLifecycleError;
use crate::text::str_eq;

verus! {

/// Stable reason marker for owner-scope projection denials.
pub const DATA_LAYER_M10_COMPLIANCE_OWNER_SCOPE_DENIED_REASON_CODE: &'static str =
    "m10_partition_compliance_owner_scope_denied";
/// Stable reason marker when a Phase-6 retention/archival orchestration tick completes.
pub const DATA_LAYER_M10_PHASE6_EXECUTION_APPLIED_REASON_CODE: &'static str = "m10_phase6_execution_applied";
/// Stable reason marker when Phase-6 orchestration fails owner-scope authorization.
pub const DATA_LAYER_M10_PHASE6_EXECUTION_OWNER_SCOPE_DENIED_REASON_CODE: &'static str =
    "m10_phase6_execution_owner_scope_denied";
/// Stable reason marker when Phase-6 orchestration encounters legal-hold blocking.
pub const DATA_LAYER_M10_PHASE6_EXECUTION_LEGAL_HOLD_ACTIVE_REASON_CODE: &'static str =
    "m10_phase6_execution_legal_hold_active";
/// Stable reason marker when Phase-6 orchestration input is invalid.
pub const DATA_LAYER_M10_PHASE6_EXECUTION_INPUT_INVALID_REASON_CODE: &'static str =
    "m10_phase6_execution_input_invalid";
/// Stable reason marker when Phase-6 orchestration projection input is invalid.
pub const DATA_LAYER_M10_PHASE6_EXECUTION_PROJECTION_INPUT_INVALID_REASON_CODE: &'static str =
    "m10_phase6_execution_projection_input_invalid";
/// Stable reason marker when Phase-6 orchestration projection fails.
pub const DATA_LAYER_M10_PHASE6_EXECUTION_PROJECTION_FAILED_REASON_CODE: &'static str =
    "m10_phase6_execution_projection_failed";
/// Stable reason marker when a Phase-6 execution tick budget is within configured limits.
pub const DATA_LAYER_M10_PHASE6_EXECUTION_BUDGET_WITHIN_LIMIT_REASON_CODE: &'static str =
    "m10_phase6_execution_budget_within_limit";
/// Stable reason marker when the Phase-6 due candidate count exceeds budget.
pub const DATA_LAYER_M10_PHASE6_EXECUTION_BUDGET_DUE_CANDIDATES_EXCEEDED_REASON_CODE: &'static str =
    "m10_phase6_execution_budget_due_candidates_exceeded";
/// Stable reason marker when the Phase-6 shred operation count exceeds budget.
pub const DATA_LAYER_M10_PHASE6_EXECUTION_BUDGET_SHREDDED_MESSAGES_EXCEEDED_REASON_CODE: &'static str =
    "m10_phase6_execution_budget_shredded_messages_exceeded";
/// Stable reason marker when the Phase-6 projection count exceeds budget.
pub const DATA_LAYER_M10_PHASE6_EXECUTION_BUDGET_PROJECTIONS_EXCEEDED_REASON_CODE: &'static str =
    "m10_phase6_execution_budget_projections_exceeded";
/// Stable reason marker when the Phase-6 archive entry count exceeds budget.
pub const DATA_LAYER_M10_PHASE6_EXECUTION_BUDGET_ARCHIVE_ENTRIES_EXCEEDED_REASON_CODE: &'static str =
    "m10_phase6_execution_budget_archive_entries_exceeded";
/// Stable reason marker when the Phase-6 execution budget configuration is invalid.
pub const DATA_LAYER_M10_PHASE6_EXECUTION_BUDGET_INVALID_REASON_CODE: &'static str =
    "m10_phase6_execution_budget_invalid";
/// Stable reason marker when the Phase-6 scheduler trigger decision is deferred.
pub const DATA_LAYER_M10_PHASE6_SCHEDULER_TRIGGER_DEFERRED_REASON_CODE: &'static str =
    "m10_phase6_scheduler_trigger_deferred";
/// Stable reason marker when the Phase-6 scheduler trigger fires on the due-candidate threshold.
pub const DATA_LAYER_M10_PHASE6_SCHEDULER_TRIGGER_DUE_THRESHOLD_REASON_CODE: &'static str =
    "m10_phase6_scheduler_trigger_due_threshold";
/// Stable reason marker when the Phase-6 scheduler trigger fires on an elapsed tick interval.
pub const DATA_LAYER_M10_PHASE6_SCHEDULER_TRIGGER_INTERVAL_ELAPSED_REASON_CODE: &'static str =
    "m10_phase6_scheduler_trigger_interval_elapsed";
/// Stable reason marker when the Phase-6 scheduler policy configuration is invalid.
pub const DATA_LAYER_M10_PHASE6_SCHEDULER_POLICY_INVALID_REASON_CODE: &'static str =
    "m10_phase6_scheduler_policy_invalid";
/// Stable reason marker when Phase-6 scheduler signal metadata is invalid.
pub const DATA_LAYER_M10_PHASE6_SCHEDULER_SIGNAL_INVALID_REASON_CODE: &'static str =
    "m10_phase6_scheduler_signal_invalid";
/// Stable reason marker when a Phase-6 scheduler cycle returns deferred without execution.
pub const DATA_LAYER_M10_PHASE6_SCHEDULER_CYCLE_DEFERRED_REASON_CODE: &'static str =
    "m10_phase6_scheduler_cycle_deferred";
/// Stable reason marker when a Phase-6 scheduler cycle executes within budget.
pub const DATA_LAYER_M10_PHASE6_SCHEDULER_CYCLE_APPLIED_REASON_CODE: &'static str =
    "m10_phase6_scheduler_cycle_applied";
/// Stable reason marker when the Phase-6 stateful scheduler runtime is initialized.
pub const DATA_LAYER_M10_PHASE6_SCHEDULER_RUNTIME_INITIALIZED_REASON_CODE: &'static str =
    "m10_phase6_scheduler_runtime_initialized";
/// Stable reason marker when Phase-6 runtime evidence projection succeeds for an applied cycle.
pub const DATA_LAYER_M10_PHASE6_RUNTIME_EVIDENCE_APPLIED_REASON_CODE: &'static str =
    "m10_phase6_runtime_evidence_applied";
/// Stable reason marker when Phase-6 runtime evidence projection succeeds for a deferred cycle.
pub const DATA_LAYER_M10_PHASE6_RUNTIME_EVIDENCE_DEFERRED_REASON_CODE: &'static str =
    "m10_phase6_runtime_evidence_deferred";
/// Stable reason marker when Phase-6 runtime evidence projection input is invalid.
pub const DATA_LAYER_M10_PHASE6_RUNTIME_EVIDENCE_INPUT_INVALID_REASON_CODE: &'static str =
    "m10_phase6_runtime_evidence_input_invalid";

// ---------------------------------------------------------------------------
// Reason code of a failed cycle
// ---------------------------------------------------------------------------

/// The reason code an error carries, if it carries one.
pub open spec fn carried_reason_code(e: DataLayerM10PartitionLifecycleError) -> Option<&'static str> {
    match e {
        DataLayerM10PartitionLifecycleError::OwnerScopeViolation { reason_code } => Some(reason_code),
        DataLayerM10PartitionLifecycleError::InvalidRetryPolicy { reason_code, .. } => Some(reason_code),
        DataLayerM10PartitionLifecycleError::InvalidRetryAttempt { reason_code, .. } => Some(reason_code),
        DataLayerM10PartitionLifecycleError::InvalidPhase6SchedulerPolicy { reason_code, .. } => Some(reason_code),
        DataLayerM10PartitionLifecycleError::InvalidPhase6SchedulerSignal { reason_code, .. } => Some(reason_code),
        DataLayerM10PartitionLifecycleError::InvalidPhase6ExecutionBudget { reason_code, .. } => Some(reason_code),
        DataLayerM10PartitionLifecycleError::Phase6SchedulerBudgetPreflightExceeded { reason_code, .. } => Some(
            reason_code,
        ),
        DataLayerM10PartitionLifecycleError::InvalidPhase6RuntimeEvidenceInput { reason_code, .. } => Some(
            reason_code,
        ),
        DataLayerM10PartitionLifecycleError::ComplianceProjectionFailed { reason_code, .. } => Some(reason_code),
        DataLayerM10PartitionLifecycleError::Phase6ExecutionFailed { reason_code, .. } => Some(reason_code),
        _ => None,
    }
}

/// The reason code a failed scheduler cycle is recorded under: the one the
/// error carries, else the invalid-input marker.
pub open spec fn scheduler_failure_reason_code(e: DataLayerM10PartitionLifecycleError) -> &'static str {
    match carried_reason_code(e) {
        Some(c) => c,
        None => DATA_LAYER_M10_PHASE6_EXECUTION_INPUT_INVALID_REASON_CODE,
    }
}

fn basic_scheduler_error_reason_code(error: &DataLayerM10PartitionLifecycleError) -> (r: Option<&'static str>)
    ensures
        r is Some ==> r == carried_reason_code(*error),
        r is None ==> !(error is OwnerScopeViolation || error is InvalidRetryPolicy || error is InvalidRetryAttempt
            || error is InvalidPhase6SchedulerPolicy || error is InvalidPhase6SchedulerSignal),
{
    match error {
        DataLayerM10PartitionLifecycleError::OwnerScopeViolation { reason_code } => Some(*reason_code),
        DataLayerM10PartitionLifecycleError::InvalidRetryPolicy { reason_code, .. } => Some(*reason_code),
        DataLayerM10PartitionLifecycleError::InvalidRetryAttempt { reason_code, .. } => Some(*reason_code),
        DataLayerM10PartitionLifecycleError::InvalidPhase6SchedulerPolicy { reason_code, .. } => Some(*reason_code),
        DataLayerM10PartitionLifecycleError::InvalidPhase6SchedulerSignal { reason_code, .. } => Some(*reason_code),
        _ => None,
    }
}

fn budget_scheduler_error_reason_code(error: &DataLayerM10PartitionLifecycleError) -> (r: Option<&'static str>)
    ensures
        r is Some ==> r == carried_reason_code(*error),
        r is None ==> !(error is InvalidPhase6ExecutionBudget || error is Phase6SchedulerBudgetPreflightExceeded
            || error is InvalidPhase6RuntimeEvidenceInput),
{
    match error {
        DataLayerM10PartitionLifecycleError::InvalidPhase6ExecutionBudget { reason_code, .. } => Some(*reason_code),
        DataLayerM10PartitionLifecycleError::Phase6SchedulerBudgetPreflightExceeded { reason_code, .. } => Some(
            *reason_code,
        ),
        DataLayerM10PartitionLifecycleError::InvalidPhase6RuntimeEvidenceInput { reason_code, .. } => Some(
            *reason_code,
        ),
        _ => None,
    }
}

fn simple_scheduler_error_reason_code(error: &DataLayerM10PartitionLifecycleError) -> (r: Option<&'static str>)
    ensures
        r is Some ==> r == carried_reason_code(*error),
        r is None ==> !(error is OwnerScopeViolation || error is InvalidRetryPolicy || error is InvalidRetryAttempt
            || error is InvalidPhase6SchedulerPolicy || error is InvalidPhase6SchedulerSignal
            || error is InvalidPhase6ExecutionBudget || error is Phase6SchedulerBudgetPreflightExceeded
            || error is InvalidPhase6RuntimeEvidenceInput),
{
    match basic_scheduler_error_reason_code(error) {
        Some(reason_code) => Some(reason_code),
        None => budget_scheduler_error_reason_code(error),
    }
}

fn complex_scheduler_error_reason_code(error: &DataLayerM10PartitionLifecycleError) -> (r: Option<&'static str>)
    ensures
        r is Some ==> r == carried_reason_code(*error),
        r is None ==> !(error is ComplianceProjectionFailed || error is Phase6ExecutionFailed),
{
    match error {
        DataLayerM10PartitionLifecycleError::ComplianceProjectionFailed { reason_code, .. } => Some(*reason_code),
        DataLayerM10PartitionLifecycleError::Phase6ExecutionFailed { reason_code, .. } => Some(*reason_code),
        _ => None,
    }
}

fn structured_scheduler_error_reason_code(error: &DataLayerM10PartitionLifecycleError) -> (r: Option<&'static str>)
    ensures
        r == carried_reason_code(*error),
{
    match simple_scheduler_error_reason_code(error) {
        Some(reason_code) => Some(reason_code),
        None => complex_scheduler_error_reason_code(error),
    }
}

/// The reason code a failed scheduler cycle is recorded under.
pub fn phase6_scheduler_error_reason_code(error: &DataLayerM10PartitionLifecycleError) -> (r: &'static str)
    ensures
        r == scheduler_failure_reason_code(*error),
{
    match structured_scheduler_error_reason_code(error) {
        Some(reason_code) => reason_code,
        None => DATA_LAYER_M10_PHASE6_EXECUTION_INPUT_INVALID_REASON_CODE,
    }
}

// ---------------------------------------------------------------------------
// Runtime cycle bookkeeping
// ---------------------------------------------------------------------------

/// Stateful runtime snapshot for Phase-6 scheduler continuity and checkpointing.
#[derive(Debug, Clone, PartialEq, Eq)]
pub struct DataLayerM10Phase6SchedulerRuntimeState {
    /// Last successful execution-tick timestamp.
    pub last_successful_tick_epoch_seconds: Option<u64>,
    /// Last observed scheduler timestamp (successful, deferred, or failed attempt).
    pub last_observed_now_epoch_seconds: Option<u64>,
    /// Total scheduler cycles attempted.
    pub total_cycles: u64,
    /// Scheduler cycles that executed orchestration successfully.
    pub executed_cycles: u64,
    /// Scheduler cycles deferred by the trigger policy.
    pub deferred_cycles: u64,
    /// Scheduler cycles that failed closed.
    pub fail_closed_cycles: u64,
    /// Reason marker of the most recent cycle outcome.
    pub last_reason_code: &'static str,
}

/// `n + 1`, saturating at `u64::MAX`.
pub open spec fn bump(n: u64) -> u64 {
    if n == u64::MAX {
        n
    } else {
        (n + 1) as u64
    }
}

/// The state after a cycle starts.
pub open spec fn cycle_started(s: DataLayerM10Phase6SchedulerRuntimeState) -> DataLayerM10Phase6SchedulerRuntimeState {
    DataLayerM10Phase6SchedulerRuntimeState { total_cycles: bump(s.total_cycles), ..s }
}

/// The state after the cycle's clock reading `now` is accepted.
pub open spec fn clock_accepted(s: DataLayerM10Phase6SchedulerRuntimeState, now: u64) -> DataLayerM10Phase6SchedulerRuntimeState {
    DataLayerM10Phase6SchedulerRuntimeState { last_observed_now_epoch_seconds: Some(now), ..s }
}

/// The state after a cycle fails closed with `e`.
pub open spec fn cycle_failed(
    s: DataLayerM10Phase6SchedulerRuntimeState,
    e: DataLayerM10PartitionLifecycleError,
) -> DataLayerM10Phase6SchedulerRuntimeState {
    DataLayerM10Phase6SchedulerRuntimeState {
        fail_closed_cycles: bump(s.fail_closed_cycles),
        last_reason_code: scheduler_failure_reason_code(e),
        ..s
    }
}

/// The state after a cycle completes with report reason `code`: applied
/// cycles advance the success checkpoint to the observed clock, others count
/// as deferred.
pub open spec fn cycle_completed(s: DataLayerM10Phase6SchedulerRuntimeState, code: &'static str) -> DataLayerM10Phase6SchedulerRuntimeState {
    if code@ == DATA_LAYER_M10_PHASE6_SCHEDULER_CYCLE_APPLIED_REASON_CODE@ {
        DataLayerM10Phase6SchedulerRuntimeState {
            executed_cycles: bump(s.executed_cycles),
            last_successful_tick_epoch_seconds: s.last_observed_now_epoch_seconds,
            last_reason_code: code,
            ..s
        }
    } else {
        DataLayerM10Phase6SchedulerRuntimeState {
            deferred_cycles: bump(s.deferred_cycles),
            last_reason_code: code,
            ..s
        }
    }
}

/// Sum of the outcome counters.
pub open spec fn settled_cycles(s: DataLayerM10Phase6SchedulerRuntimeState) -> int {
    s.executed_cycles + s.deferred_cycles + s.fail_closed_cycles
}

/// Every cycle that runs to an outcome (a clock failure, or an accepted
/// clock followed by a failure or a completed report) adds one to the total
/// and one to exactly one outcome counter, when no counter is saturated.
pub proof fn lemma_cycle_settles_once(
    s: DataLayerM10Phase6SchedulerRuntimeState,
    now: u64,
    e: DataLayerM10PartitionLifecycleError,
    code: &'static str,
)
    requires
        s.total_cycles < u64::MAX,
        s.executed_cycles < u64::MAX,
        s.deferred_cycles < u64::MAX,
        s.fail_closed_cycles < u64::MAX,
    ensures
        cycle_failed(cycle_started(s), e).total_cycles == s.total_cycles + 1,
        settled_cycles(cycle_failed(cycle_started(s), e)) == settled_cycles(s) + 1,
        settled_cycles(cycle_failed(clock_accepted(cycle_started(s), now), e)) == settled_cycles(s) + 1,
        settled_cycles(cycle_completed(clock_accepted(cycle_started(s), now), code)) == settled_cycles(s) + 1,
        cycle_completed(clock_accepted(cycle_started(s), now), code).total_cycles == s.total_cycles + 1,
        code@ == DATA_LAYER_M10_PHASE6_SCHEDULER_CYCLE_APPLIED_REASON_CODE@ ==> cycle_completed(
            clock_accepted(cycle_started(s), now),
            code,
        ).last_successful_tick_epoch_seconds == Some(now),
{
}

impl DataLayerM10Phase6SchedulerRuntimeState {
    /// The state of a freshly initialized runtime: no checkpoints, zeroed counters.
    pub fn initial() -> (s: Self)
        ensures
            s.last_successful_tick_epoch_seconds is None,
            s.last_observed_now_epoch_seconds is None,
            s.total_cycles == 0,
            s.executed_cycles == 0,
            s.deferred_cycles == 0,
            s.fail_closed_cycles == 0,
            s.last_reason_code == DATA_LAYER_M10_PHASE6_SCHEDULER_RUNTIME_INITIALIZED_REASON_CODE,
    {
        DataLayerM10Phase6SchedulerRuntimeState {
            last_successful_tick_epoch_seconds: None,
            last_observed_now_epoch_seconds: None,
            total_cycles: 0,
            executed_cycles: 0,
            deferred_cycles: 0,
            fail_closed_cycles: 0,
            last_reason_code: DATA_LAYER_M10_PHASE6_SCHEDULER_RUNTIME_INITIALIZED_REASON_CODE,
        }
    }

    /// Counts a cycle attempt.
    pub fn begin_cycle(&mut self)
        ensures
            *final(self) == cycle_started(*old(self)),
    {
        self.total_cycles = self.total_cycles.saturating_add(1);
    }

    /// Records the accepted clock reading of the current cycle.
    pub fn accept_clock(&mut self, now_epoch_seconds: u64)
        ensures
            *final(self) == clock_accepted(*old(self), now_epoch_seconds),
    {
        self.last_observed_now_epoch_seconds = Some(now_epoch_seconds);
    }

    /// Records a cycle that failed closed.
    pub fn record_cycle_failure(&mut self, error: &DataLayerM10PartitionLifecycleError)
        ensures
            *final(self) == cycle_failed(*old(self), *error),
    {
        self.fail_closed_cycles = self.fail_closed_cycles.saturating_add(1);
        self.last_reason_code = phase6_scheduler_error_reason_code(error);
    }

    /// Records a completed cycle by its report's reason marker.
    pub fn apply_cycle_report_reason(&mut self, reason_code: &'static str)
        ensures
            *final(self) == cycle_completed(*old(self), reason_code),
    {
        if str_eq(reason_code, DATA_LAYER_M10_PHASE6_SCHEDULER_CYCLE_APPLIED_REASON_CODE) {
            self.executed_cycles = self.executed_cycles.saturating_add(1);
            self.last_successful_tick_epoch_seconds = self.last_observed_now_epoch_seconds;
        } else {
            self.deferred_cycles = self.deferred_cycles.saturating_add(1);
        }
        self.last_reason_code = reason_code;
    }
}

} // verus!
