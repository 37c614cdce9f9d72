use kamn_core::cross_store_replay_consistency::{
    cross_store_replay_reason_codes_csv, cross_store_replay_reason_taxonomy_version,
    evaluate_cross_store_replay_consistency, render_opt, CrossStoreReplayConsistencyStatus,
    CrossStoreReplayDivergenceClass, CrossStoreSchemaVersions, RuntimeSnapshotSummary,
    StoreSnapshotSummary, CROSS_STORE_REPLAY_REASON_TAXONOMY_VERSION,
};

#[test]
fn unit_cross_store_replay_reason_taxonomy_marker_is_stable() {
    assert_eq!(cross_store_replay_reason_taxonomy_version(), CROSS_STORE_REPLAY_REASON_TAXONOMY_VERSION);
}

#[test]
fn unit_cross_store_replay_reason_codes_include_expected_presence_drift_reason() {
    assert!(cross_store_replay_reason_codes_csv()
        .contains("cross_store_replay_divergence_runtime_snapshot_missing"));
}

#[test]
fn unit_cross_store_replay_render_opt_outputs_none_for_missing_values() {
    assert_eq!(render_opt::<u64>(None), "none");
}

const VERSIONS: CrossStoreSchemaVersions = CrossStoreSchemaVersions { channel: 1, message: 1, task: 1 };

fn store(schema_version: u16, record_count: usize) -> Option<StoreSnapshotSummary> {
    Some(StoreSnapshotSummary { schema_version, record_count })
}

fn runtime(state_version: u64, cursor: u64) -> Option<RuntimeSnapshotSummary> {
    Some(RuntimeSnapshotSummary { state_version, cursor })
}

#[test]
fn consistent_snapshots_report_fingerprint() {
    let report = evaluate_cross_store_replay_consistency(runtime(2, 5), store(1, 1), store(1, 2), store(1, 0), VERSIONS);
    assert_eq!(report.status(), CrossStoreReplayConsistencyStatus::Consistent);
    assert_eq!(report.reason_code(), "none");
    assert_eq!(report.divergence_class(), CrossStoreReplayDivergenceClass::Consistent);
    assert_eq!(report.aggregate_record_count(), Some(3));
    assert_eq!(report.source_marker(), "cross_store_replay_consistency_checker");
    assert_eq!(
        report.consistency_fingerprint(),
        "runtime:2:5|channel:1:1|message:1:2|task:1:0|aggregate:3|reason:none"
    );
    assert_eq!(render_opt(Some(42u16)), "42");
}

#[test]
fn divergences_follow_check_order() {
    let all_missing = evaluate_cross_store_replay_consistency(None, None, None, None, VERSIONS);
    assert_eq!(all_missing.reason_code(), "cross_store_replay_divergence_all_snapshots_missing");
    assert_eq!(
        all_missing.consistency_fingerprint(),
        "runtime:none:none|channel:none:none|message:none:none|task:none:none|aggregate:none|reason:cross_store_replay_divergence_all_snapshots_missing"
    );
    let no_task = evaluate_cross_store_replay_consistency(runtime(1, 1), store(9, 0), store(1, 0), None, VERSIONS);
    assert_eq!(no_task.reason_code(), "cross_store_replay_divergence_task_snapshot_missing");
    assert_eq!(no_task.divergence_class(), CrossStoreReplayDivergenceClass::PresenceDrift);
    let schema = evaluate_cross_store_replay_consistency(runtime(1, 1), store(1, 0), store(2, 0), store(3, 0), VERSIONS);
    assert_eq!(schema.reason_code(), "cross_store_replay_divergence_message_schema_version_mismatch");
    let cursor = evaluate_cross_store_replay_consistency(runtime(5, 4), store(1, 1), store(1, 1), store(1, 1), VERSIONS);
    assert_eq!(cursor.divergence_class(), CrossStoreReplayDivergenceClass::RuntimeContinuityDrift);
    let empty = evaluate_cross_store_replay_consistency(runtime(2, 4), store(1, 0), store(1, 0), store(1, 0), VERSIONS);
    assert_eq!(empty.reason_code(), "cross_store_replay_divergence_aggregate_records_missing_for_advanced_runtime_state");
    let over = evaluate_cross_store_replay_consistency(runtime(1, 2), store(1, 1), store(1, 1), store(1, 1), VERSIONS);
    assert_eq!(over.reason_code(), "cross_store_replay_divergence_aggregate_records_exceed_runtime_cursor");
    assert_eq!(over.status(), CrossStoreReplayConsistencyStatus::Divergent);
}

#[test]
fn reason_code_list_names_every_verdict_once() {
    let codes: Vec<&str> = cross_store_replay_reason_codes_csv().split(',').collect();
    assert_eq!(codes.len(), 12);
    assert_eq!(codes[0], "none");
    for i in 0..codes.len() {
        for j in (i + 1)..codes.len() {
            assert_ne!(codes[i], codes[j]);
        }
    }
    let report = evaluate_cross_store_replay_consistency(None, store(1, 1), None, None, VERSIONS);
    assert!(codes.contains(&report.reason_code()));
}
