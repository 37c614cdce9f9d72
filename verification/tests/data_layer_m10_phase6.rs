use kamn_core::data_layer_m10_partition_archival::phase6::{
    DATA_LAYER_M10_PHASE6_EXECUTION_INPUT_INVALID_REASON_CODE, DATA_LAYER_M10_PHASE6_SCHEDULER_CYCLE_APPLIED_REASON_CODE,
    DATA_LAYER_M10_PHASE6_SCHEDULER_CYCLE_DEFERRED_REASON_CODE,
    DATA_LAYER_M10_PHASE6_SCHEDULER_RUNTIME_INITIALIZED_REASON_CODE,
    DATA_LAYER_M10_PHASE6_SCHEDULER_SIGNAL_INVALID_REASON_CODE,
};
use kamn_core::data_layer_m10_partition_archival::{
    phase6_scheduler_error_reason_code, DataLayerM10PartitionLifecycleError, DataLayerM10Phase6SchedulerRuntimeState,
};

#[test]
fn m10_phase6_error_reason_codes() {
    assert_eq!(
        phase6_scheduler_error_reason_code(&DataLayerM10PartitionLifecycleError::InvalidPhase6SchedulerSignal {
            field: "now_epoch_seconds",
            reason_code: DATA_LAYER_M10_PHASE6_SCHEDULER_SIGNAL_INVALID_REASON_CODE,
        }),
        DATA_LAYER_M10_PHASE6_SCHEDULER_SIGNAL_INVALID_REASON_CODE
    );
    assert_eq!(
        phase6_scheduler_error_reason_code(&DataLayerM10PartitionLifecycleError::Phase6ExecutionFailed {
            reason_code: "custom_reason",
            detail: "boom".to_owned(),
        }),
        "custom_reason"
    );
    assert_eq!(
        phase6_scheduler_error_reason_code(&DataLayerM10PartitionLifecycleError::EmptyField("owner_did")),
        DATA_LAYER_M10_PHASE6_EXECUTION_INPUT_INVALID_REASON_CODE
    );
    assert_eq!(
        phase6_scheduler_error_reason_code(&DataLayerM10PartitionLifecycleError::PartitionNotFound("p".to_owned())),
        DATA_LAYER_M10_PHASE6_EXECUTION_INPUT_INVALID_REASON_CODE
    );
}

#[test]
fn m10_phase6_runtime_state_counts_each_cycle_once() {
    let mut state = DataLayerM10Phase6SchedulerRuntimeState::initial();
    assert_eq!(state.last_reason_code, DATA_LAYER_M10_PHASE6_SCHEDULER_RUNTIME_INITIALIZED_REASON_CODE);

    state.begin_cycle();
    state.accept_clock(100);
    state.apply_cycle_report_reason(DATA_LAYER_M10_PHASE6_SCHEDULER_CYCLE_APPLIED_REASON_CODE);
    assert_eq!(state.total_cycles, 1);
    assert_eq!(state.executed_cycles, 1);
    assert_eq!(state.last_successful_tick_epoch_seconds, Some(100));

    state.begin_cycle();
    state.accept_clock(200);
    state.apply_cycle_report_reason(DATA_LAYER_M10_PHASE6_SCHEDULER_CYCLE_DEFERRED_REASON_CODE);
    assert_eq!(state.deferred_cycles, 1);
    assert_eq!(state.last_successful_tick_epoch_seconds, Some(100));
    assert_eq!(state.last_observed_now_epoch_seconds, Some(200));
    assert_eq!(state.last_reason_code, DATA_LAYER_M10_PHASE6_SCHEDULER_CYCLE_DEFERRED_REASON_CODE);

    state.begin_cycle();
    state.record_cycle_failure(&DataLayerM10PartitionLifecycleError::EmptyField("now"));
    assert_eq!(state.total_cycles, 3);
    assert_eq!(state.fail_closed_cycles, 1);
    assert_eq!(state.last_reason_code, DATA_LAYER_M10_PHASE6_EXECUTION_INPUT_INVALID_REASON_CODE);
    assert_eq!(state.executed_cycles + state.deferred_cycles + state.fail_closed_cycles, state.total_cycles);

    let mut saturated = state.clone();
    saturated.total_cycles = u64::MAX;
    saturated.begin_cycle();
    assert_eq!(saturated.total_cycles, u64::MAX);
}
