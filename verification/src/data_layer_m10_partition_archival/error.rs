//! Error taxonomy for M10 partition lifecycle contracts.
use vstd::prelude::*;
use crate::text::{dec_seq, dec_string};

verus! {

/// Error taxonomy for M10 partition lifecycle contracts.
///
/// A lifecycle-transition error is not part of this taxonomy: it names
/// partition statuses, which are a type of the data-layer crate that this
/// library does not depend on, and only that crate's registry raises it.
#[derive(Debug, Clone, PartialEq, Eq)]
pub enum DataLayerM10PartitionLifecycleError {
    /// Required field was empty.
    EmptyField(&'static str),
    /// Partition month id failed `YYYYMM` validation.
    InvalidPartitionMonthId(u32),
    /// Duplicate partition month id registration.
    DuplicatePartitionMonthId(u32),
    /// Named partition does not exist in registry.
    PartitionNotFound(String),
    /// Owner-scope projection request was denied.
    OwnerScopeViolation { reason_code: &'static str },
    /// Compliance projection failed before partition update could be applied.
    ComplianceProjectionFailed { reason_code: &'static str, detail: String },
    /// Archival retry policy configuration is invalid.
    InvalidRetryPolicy { field: &'static str, reason_code: &'static str },
    /// Current retry attempt metadata is invalid.
    InvalidRetryAttempt { field: &'static str, value: u8, reason_code: &'static str },
    /// Phase-6 orchestration failed before completing execution.
    Phase6ExecutionFailed { reason_code: &'static str, detail: String },
    /// Phase-6 execution budget configuration is invalid.
    InvalidPhase6ExecutionBudget { field: &'static str, reason_code: &'static str },
    /// Phase-6 scheduler policy configuration is invalid.
    InvalidPhase6SchedulerPolicy { field: &'static str, reason_code: &'static str },
    /// Phase-6 scheduler signal metadata is invalid.
    InvalidPhase6SchedulerSignal { field: &'static str, reason_code: &'static str },
    /// Phase-6 scheduler preflight budget check exceeded limits and failed closed.
    Phase6SchedulerBudgetPreflightExceeded { reason_code: &'static str, detail: String },
    /// Phase-6 runtime evidence input payload is invalid.
    InvalidPhase6RuntimeEvidenceInput { field: &'static str, reason_code: &'static str },
}

/// The error's message text.
pub open spec fn m10_error_message(e: DataLayerM10PartitionLifecycleError) -> Seq<char> {
    match e {
        DataLayerM10PartitionLifecycleError::EmptyField(field) => "field must not be empty: "@ + field@,
        DataLayerM10PartitionLifecycleError::InvalidPartitionMonthId(value) => "invalid partition month id: "@ + dec_seq(value as nat),
        DataLayerM10PartitionLifecycleError::DuplicatePartitionMonthId(value) => "duplicate partition month id: "@ + dec_seq(value as nat),
        DataLayerM10PartitionLifecycleError::PartitionNotFound(value) => "partition not found: "@ + value@,
        DataLayerM10PartitionLifecycleError::OwnerScopeViolation { reason_code } => "owner scope violation: "@ + reason_code@,
        DataLayerM10PartitionLifecycleError::ComplianceProjectionFailed { reason_code, detail } => "compliance projection failed: "@ + reason_code@ + " ("@ + detail@ + ")"@,
        DataLayerM10PartitionLifecycleError::InvalidRetryPolicy { field, reason_code } => "invalid archival retry policy field "@ + field@ + " ("@ + reason_code@ + ")"@,
        DataLayerM10PartitionLifecycleError::InvalidRetryAttempt { field, value, reason_code } => "invalid archival retry attempt for "@ + field@ + ": "@ + dec_seq(value as nat) + " ("@ + reason_code@ + ")"@,
        DataLayerM10PartitionLifecycleError::Phase6ExecutionFailed { reason_code, detail } => "phase6 execution failed: "@ + reason_code@ + " ("@ + detail@ + ")"@,
        DataLayerM10PartitionLifecycleError::InvalidPhase6ExecutionBudget { field, reason_code } => "invalid phase6 execution budget field "@ + field@ + " ("@ + reason_code@ + ")"@,
        DataLayerM10PartitionLifecycleError::InvalidPhase6SchedulerPolicy { field, reason_code } => "invalid phase6 scheduler policy field "@ + field@ + " ("@ + reason_code@ + ")"@,
        DataLayerM10PartitionLifecycleError::InvalidPhase6SchedulerSignal { field, reason_code } => "invalid phase6 scheduler signal field "@ + field@ + " ("@ + reason_code@ + ")"@,
        DataLayerM10PartitionLifecycleError::Phase6SchedulerBudgetPreflightExceeded { reason_code, detail } => "phase6 scheduler budget preflight exceeded: "@ + reason_code@ + " ("@ + detail@ + ")"@,
        DataLayerM10PartitionLifecycleError::InvalidPhase6RuntimeEvidenceInput { field, reason_code } => "invalid phase6 runtime evidence input field "@ + field@ + " ("@ + reason_code@ + ")"@,
    }
}

impl DataLayerM10PartitionLifecycleError {
    /// The error's message text.
    pub fn message(&self) -> (r: String)
        ensures
            r@ == m10_error_message(*self),
    {
        match self {
            DataLayerM10PartitionLifecycleError::EmptyField(field) => {
                let mut out = String::new();
                out.append("field must not be empty: ");
                out.append(*field);
                proof {
                    assert(out@ =~= "field must not be empty: "@ + field@);
                }
                out
            },
            DataLayerM10PartitionLifecycleError::InvalidPartitionMonthId(value) => {
                let mut out = String::new();
                out.append("invalid partition month id: ");
                out.append(dec_string(*value as u64).as_str());
                proof {
                    assert(out@ =~= "invalid partition month id: "@ + dec_seq(value as nat));
                }
                out
            },
            DataLayerM10PartitionLifecycleError::DuplicatePartitionMonthId(value) => {
                let mut out = String::new();
                out.append("duplicate partition month id: ");
                out.append(dec_string(*value as u64).as_str());
                proof {
                    assert(out@ =~= "duplicate partition month id: "@ + dec_seq(value as nat));
                }
                out
            },
            DataLayerM10PartitionLifecycleError::PartitionNotFound(value) => {
                let mut out = String::new();
                out.append("partition not found: ");
                out.append(value.as_str());
                proof {
                    assert(out@ =~= "partition not found: "@ + value@);
                }
                out
            },
            DataLayerM10PartitionLifecycleError::OwnerScopeViolation { reason_code } => {
                let mut out = String::new();
                out.append("owner scope violation: ");
                out.append(*reason_code);
                proof {
                    assert(out@ =~= "owner scope violation: "@ + reason_code@);
                }
                out
            },
            DataLayerM10PartitionLifecycleError::ComplianceProjectionFailed { reason_code, detail } => {
                let mut out = String::new();
                out.append("compliance projection failed: ");
                out.append(*reason_code);
                out.append(" (");
                out.append(detail.as_str());
                out.append(")");
                proof {
                    assert(out@ =~= "compliance projection failed: "@ + reason_code@ + " ("@ + detail@ + ")"@);
                }
                out
            },
            DataLayerM10PartitionLifecycleError::InvalidRetryPolicy { field, reason_code } => {
                let mut out = String::new();
                out.append("invalid archival retry policy field ");
                out.append(*field);
                out.append(" (");
                out.append(*reason_code);
                out.append(")");
                proof {
                    assert(out@ =~= "invalid archival retry policy field "@ + field@ + " ("@ + reason_code@ + ")"@);
                }
                out
            },
            DataLayerM10PartitionLifecycleError::InvalidRetryAttempt { field, value, reason_code } => {
                let mut out = String::new();
                out.append("invalid archival retry attempt for ");
                out.append(*field);
                out.append(": ");
                out.append(dec_string(*value as u64).as_str());
                out.append(" (");
                out.append(*reason_code);
                out.append(")");
                proof {
                    assert(out@ =~= "invalid archival retry attempt for "@ + field@ + ": "@ + dec_seq(value as nat) + " ("@ + reason_code@ + ")"@);
                }
                out
            },
            DataLayerM10PartitionLifecycleError::Phase6ExecutionFailed { reason_code, detail } => {
                let mut out = String::new();
                out.append("phase6 execution failed: ");
                out.append(*reason_code);
                out.append(" (");
                out.append(detail.as_str());
                out.append(")");
                proof {
                    assert(out@ =~= "phase6 execution failed: "@ + reason_code@ + " ("@ + detail@ + ")"@);
                }
                out
            },
            DataLayerM10PartitionLifecycleError::InvalidPhase6ExecutionBudget { field, reason_code } => {
                let mut out = String::new();
                out.append("invalid phase6 execution budget field ");
                out.append(*field);
                out.append(" (");
                out.append(*reason_code);
                out.append(")");
                proof {
                    assert(out@ =~= "invalid phase6 execution budget field "@ + field@ + " ("@ + reason_code@ + ")"@);
                }
                out
            },
            DataLayerM10PartitionLifecycleError::InvalidPhase6SchedulerPolicy { field, reason_code } => {
                let mut out = String::new();
                out.append("invalid phase6 scheduler policy field ");
                out.append(*field);
                out.append(" (");
                out.append(*reason_code);
                out.append(")");
                proof {
                    assert(out@ =~= "invalid phase6 scheduler policy field "@ + field@ + " ("@ + reason_code@ + ")"@);
                }
                out
            },
            DataLayerM10PartitionLifecycleError::InvalidPhase6SchedulerSignal { field, reason_code } => {
                let mut out = String::new();
                out.append("invalid phase6 scheduler signal field ");
                out.append(*field);
                out.append(" (");
                out.append(*reason_code);
                out.append(")");
                proof {
                    assert(out@ =~= "invalid phase6 scheduler signal field "@ + field@ + " ("@ + reason_code@ + ")"@);
                }
                out
            },
            DataLayerM10PartitionLifecycleError::Phase6SchedulerBudgetPreflightExceeded { reason_code, detail } => {
                let mut out = String::new();
                out.append("phase6 scheduler budget preflight exceeded: ");
                out.append(*reason_code);
                out.append(" (");
                out.append(detail.as_str());
                out.append(")");
                proof {
                    assert(out@ =~= "phase6 scheduler budget preflight exceeded: "@ + reason_code@ + " ("@ + detail@ + ")"@);
                }
                out
            },
            DataLayerM10PartitionLifecycleError::InvalidPhase6RuntimeEvidenceInput { field, reason_code } => {
                let mut out = String::new();
                out.append("invalid phase6 runtime evidence input field ");
                out.append(*field);
                out.append(" (");
                out.append(*reason_code);
                out.append(")");
                proof {
                    assert(out@ =~= "invalid phase6 runtime evidence input field "@ + field@ + " ("@ + reason_code@ + ")"@);
                }
                out
            },
        }
    }
}

} // verus!
