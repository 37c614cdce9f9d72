use kamn_core::data_layer_m11_hardening_readiness::{
    DataLayerM11HardeningMatrix, DataLayerM11HardeningMatrixError, DataLayerM11OperatorReadinessDecision,
    DataLayerM11ScenarioDefinition, DataLayerM11ScenarioDomain, DataLayerM11ScenarioOutcomeInput,
    DataLayerM11ScenarioSeverity, DataLayerM11ScenarioStatus, DATA_LAYER_M11_BLOCK_CRITICAL_FAILURE_REASON_CODE,
    DATA_LAYER_M11_BLOCK_REQUIRED_INCOMPLETE_REASON_CODE, DATA_LAYER_M11_INVALID_TRANSITION_REASON_CODE,
    DATA_LAYER_M11_READINESS_GO_REASON_CODE,
};

fn scenario(id: &str, severity: DataLayerM11ScenarioSeverity, required: bool) -> DataLayerM11ScenarioDefinition {
    DataLayerM11ScenarioDefinition {
        scenario_id: id.to_string(),
        domain: DataLayerM11ScenarioDomain::Security,
        severity,
        required,
    }
}

fn outcome(id: &str, status: DataLayerM11ScenarioStatus, evidence: &str) -> DataLayerM11ScenarioOutcomeInput {
    DataLayerM11ScenarioOutcomeInput {
        scenario_id: id.to_string(),
        status,
        evidence_marker: evidence.to_string(),
    }
}

#[test]
fn m11_empty_catalog_is_rejected() {
    let matrix = DataLayerM11HardeningMatrix::new();
    assert_eq!(
        matrix.evaluate_operator_readiness(),
        Err(DataLayerM11HardeningMatrixError::EmptyScenarioCatalog)
    );
}

#[test]
fn m11_register_rejects_blank_and_duplicate_ids() {
    let mut matrix = DataLayerM11HardeningMatrix::new();
    assert_eq!(
        matrix.register_scenario(scenario("  ", DataLayerM11ScenarioSeverity::Low, true)),
        Err(DataLayerM11HardeningMatrixError::EmptyField("scenario_id"))
    );
    let first = scenario("sec-1", DataLayerM11ScenarioSeverity::Critical, true);
    assert_eq!(matrix.register_scenario(first.clone()), Ok(first));
    assert_eq!(
        matrix.register_scenario(scenario("sec-1", DataLayerM11ScenarioSeverity::Low, false)),
        Err(DataLayerM11HardeningMatrixError::DuplicateScenarioId("sec-1".to_string()))
    );
}

#[test]
fn m11_list_scenarios_is_in_id_order() {
    let mut matrix = DataLayerM11HardeningMatrix::new();
    for id in ["perf-2", "chaos-1", "sec-1"] {
        matrix
            .register_scenario(scenario(id, DataLayerM11ScenarioSeverity::High, true))
            .unwrap();
    }
    let ids: Vec<String> = matrix.list_scenarios().into_iter().map(|s| s.scenario_id).collect();
    assert_eq!(ids, vec!["chaos-1".to_string(), "perf-2".to_string(), "sec-1".to_string()]);
}

#[test]
fn m11_record_outcome_errors() {
    let mut matrix = DataLayerM11HardeningMatrix::new();
    matrix
        .register_scenario(scenario("sec-1", DataLayerM11ScenarioSeverity::Critical, true))
        .unwrap();
    assert_eq!(
        matrix.record_outcome(outcome(" ", DataLayerM11ScenarioStatus::Passed, "ev")),
        Err(DataLayerM11HardeningMatrixError::EmptyField("scenario_id"))
    );
    assert_eq!(
        matrix.record_outcome(outcome("sec-1", DataLayerM11ScenarioStatus::Passed, "")),
        Err(DataLayerM11HardeningMatrixError::EmptyField("evidence_marker"))
    );
    assert_eq!(
        matrix.record_outcome(outcome("nope", DataLayerM11ScenarioStatus::Passed, "ev")),
        Err(DataLayerM11HardeningMatrixError::ScenarioNotFound("nope".to_string()))
    );
    let rec = matrix
        .record_outcome(outcome("sec-1", DataLayerM11ScenarioStatus::Passed, "ev-1"))
        .unwrap();
    assert_eq!(rec.evidence_marker, "ev-1");
    let again = matrix
        .record_outcome(outcome("sec-1", DataLayerM11ScenarioStatus::Passed, "ev-2"))
        .unwrap();
    assert_eq!(again.evidence_marker, "ev-2");
    assert_eq!(
        matrix.record_outcome(outcome("sec-1", DataLayerM11ScenarioStatus::Failed, "ev-3")),
        Err(DataLayerM11HardeningMatrixError::InvalidStatusTransition {
            scenario_id: "sec-1".to_string(),
            from_status: DataLayerM11ScenarioStatus::Passed,
            to_status: DataLayerM11ScenarioStatus::Failed,
            reason_code: DATA_LAYER_M11_INVALID_TRANSITION_REASON_CODE,
        })
    );
}

#[test]
fn m11_readiness_go_when_all_required_passed() {
    let mut matrix = DataLayerM11HardeningMatrix::new();
    matrix
        .register_scenario(scenario("sec-1", DataLayerM11ScenarioSeverity::Critical, true))
        .unwrap();
    matrix
        .register_scenario(scenario("ops-1", DataLayerM11ScenarioSeverity::Low, false))
        .unwrap();
    matrix
        .record_outcome(outcome("sec-1", DataLayerM11ScenarioStatus::Passed, "ev"))
        .unwrap();
    let report = matrix.evaluate_operator_readiness().unwrap();
    assert_eq!(report.decision, DataLayerM11OperatorReadinessDecision::Go);
    assert_eq!(report.reason_codes, vec![DATA_LAYER_M11_READINESS_GO_REASON_CODE]);
    assert_eq!(report.total_required_scenarios, 1);
    assert_eq!(report.passed_required_scenarios, 1);
    assert!(report.missing_required_scenario_ids.is_empty());
    assert!(report.failing_critical_scenario_ids.is_empty());
}

#[test]
fn m11_readiness_blocks_on_critical_failure_then_missing() {
    let mut matrix = DataLayerM11HardeningMatrix::new();
    matrix
        .register_scenario(scenario("sec-1", DataLayerM11ScenarioSeverity::Critical, true))
        .unwrap();
    matrix
        .register_scenario(scenario("chaos-1", DataLayerM11ScenarioSeverity::High, true))
        .unwrap();
    let report = matrix.evaluate_operator_readiness().unwrap();
    assert_eq!(report.decision, DataLayerM11OperatorReadinessDecision::NoGo);
    assert_eq!(report.reason_codes, vec![DATA_LAYER_M11_BLOCK_REQUIRED_INCOMPLETE_REASON_CODE]);
    assert_eq!(
        report.missing_required_scenario_ids,
        vec!["chaos-1".to_string(), "sec-1".to_string()]
    );
    assert_eq!(report.total_required_scenarios, 2);
    assert_eq!(report.passed_required_scenarios, 0);

    matrix
        .record_outcome(outcome("sec-1", DataLayerM11ScenarioStatus::Failed, "ev"))
        .unwrap();
    let report = matrix.evaluate_operator_readiness().unwrap();
    assert_eq!(report.decision, DataLayerM11OperatorReadinessDecision::NoGo);
    assert_eq!(report.reason_codes, vec![DATA_LAYER_M11_BLOCK_CRITICAL_FAILURE_REASON_CODE]);
    assert_eq!(report.failing_critical_scenario_ids, vec!["sec-1".to_string()]);
    assert_eq!(report.missing_required_scenario_ids, vec!["chaos-1".to_string()]);
}

#[test]
fn m11_skipped_required_scenario_is_incomplete() {
    let mut matrix = DataLayerM11HardeningMatrix::new();
    matrix
        .register_scenario(scenario("perf-1", DataLayerM11ScenarioSeverity::Medium, true))
        .unwrap();
    matrix
        .record_outcome(outcome("perf-1", DataLayerM11ScenarioStatus::Skipped, "ev"))
        .unwrap();
    let report = matrix.evaluate_operator_readiness().unwrap();
    assert_eq!(report.decision, DataLayerM11OperatorReadinessDecision::NoGo);
    assert_eq!(report.reason_codes, vec![DATA_LAYER_M11_BLOCK_REQUIRED_INCOMPLETE_REASON_CODE]);
    assert_eq!(report.total_required_scenarios, 1);
    assert_eq!(report.passed_required_scenarios, 0);
}
