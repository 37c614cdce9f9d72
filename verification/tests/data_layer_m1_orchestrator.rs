use kamn_core::data_layer_m1::{
    DataLayerM1AnchorOutcome, DataLayerM1AnchorReceipt, DataLayerM1AnchorResult, DataLayerM1AnchorRetryClass,
    DataLayerM1Error, KolmeCommitReceiptFinality,
};
use kamn_core::data_layer_m1_anchoring_orchestrator::{
    assemble_batch_for_pending_messages, plan_tick_from_anchor_result, prepare_tick_batch, project_assignments,
    project_follow_up_policy, DataLayerM1AnchoringConfirmationMetadata, DataLayerM1AnchoringFollowUpAction,
    DataLayerM1AnchoringOrchestratorError, DataLayerM1AnchoringTickOutcome, DataLayerM1PendingBatchMessage,
    DATA_LAYER_M1_ANCHORING_CONFIRMATION_HINT_REQUIRED_REASON_CODE,
    DATA_LAYER_M1_ANCHORING_FOLLOW_UP_NO_RETRY_CONFLICT_REASON_CODE,
    DATA_LAYER_M1_ANCHORING_FOLLOW_UP_NO_RETRY_FAILED_REASON_CODE,
    DATA_LAYER_M1_ANCHORING_FOLLOW_UP_NO_RETRY_FINAL_REASON_CODE,
    DATA_LAYER_M1_ANCHORING_FOLLOW_UP_POLL_PENDING_REASON_CODE,
    DATA_LAYER_M1_ANCHORING_FOLLOW_UP_RETRY_IN_FLIGHT_REASON_CODE, DATA_LAYER_M1_ANCHORING_TICK_PLANNED_REASON_CODE,
    DATA_LAYER_M1_ANCHORING_TICK_REJECTED_REASON_CODE,
};

fn pending(id: &str, created: u64) -> DataLayerM1PendingBatchMessage {
    DataLayerM1PendingBatchMessage {
        message_id: id.to_owned(),
        content_hash: format!("sha256:{id}"),
        created_at_unix_seconds: created,
    }
}

fn result(retry_class: DataLayerM1AnchorRetryClass, outcome: DataLayerM1AnchorOutcome) -> DataLayerM1AnchorResult {
    DataLayerM1AnchorResult {
        batch_id: "batch".to_owned(),
        idempotency_key: "key".to_owned(),
        retry_class,
        outcome,
    }
}

fn receipt(finality: KolmeCommitReceiptFinality) -> DataLayerM1AnchorReceipt {
    DataLayerM1AnchorReceipt {
        provider: "kolme".to_owned(),
        transaction_id: "tx-1".to_owned(),
        finality,
    }
}

#[test]
fn m1_follow_up_policy_covers_each_branch() {
    let retry = project_follow_up_policy(
        &result(
            DataLayerM1AnchorRetryClass::RetryableInFlight,
            DataLayerM1AnchorOutcome::Duplicate(receipt(KolmeCommitReceiptFinality::Pending)),
        ),
        1_000,
    );
    assert_eq!(retry.action, DataLayerM1AnchoringFollowUpAction::Retry);
    assert_eq!(retry.reason_code, DATA_LAYER_M1_ANCHORING_FOLLOW_UP_RETRY_IN_FLIGHT_REASON_CODE);
    assert_eq!(retry.retry_after_unix_seconds, Some(1_060));
    assert_eq!(retry.poll_after_unix_seconds, None);
    assert_eq!(retry.receipt_finality, Some(KolmeCommitReceiptFinality::Pending));

    let saturated = project_follow_up_policy(
        &result(
            DataLayerM1AnchorRetryClass::RetryableInFlight,
            DataLayerM1AnchorOutcome::Rejected { reason: "busy".to_owned() },
        ),
        u64::MAX - 5,
    );
    assert_eq!(saturated.retry_after_unix_seconds, Some(u64::MAX));
    assert_eq!(saturated.receipt_finality, None);

    let poll = project_follow_up_policy(
        &result(
            DataLayerM1AnchorRetryClass::NewSubmission,
            DataLayerM1AnchorOutcome::Submitted(receipt(KolmeCommitReceiptFinality::Pending)),
        ),
        1_000,
    );
    assert_eq!(poll.action, DataLayerM1AnchoringFollowUpAction::PollConfirmation);
    assert_eq!(poll.reason_code, DATA_LAYER_M1_ANCHORING_FOLLOW_UP_POLL_PENDING_REASON_CODE);
    assert_eq!(poll.poll_after_unix_seconds, Some(1_030));
    assert_eq!(poll.retry_after_unix_seconds, None);

    let fin = project_follow_up_policy(
        &result(
            DataLayerM1AnchorRetryClass::FinalizedNoRetry,
            DataLayerM1AnchorOutcome::Duplicate(receipt(KolmeCommitReceiptFinality::Final)),
        ),
        5,
    );
    assert_eq!(fin.action, DataLayerM1AnchoringFollowUpAction::NoRetry);
    assert_eq!(fin.reason_code, DATA_LAYER_M1_ANCHORING_FOLLOW_UP_NO_RETRY_FINAL_REASON_CODE);

    let failed = project_follow_up_policy(
        &result(
            DataLayerM1AnchorRetryClass::FinalizedNoRetry,
            DataLayerM1AnchorOutcome::Submitted(receipt(KolmeCommitReceiptFinality::Failed)),
        ),
        5,
    );
    assert_eq!(failed.reason_code, DATA_LAYER_M1_ANCHORING_FOLLOW_UP_NO_RETRY_FAILED_REASON_CODE);

    let conflict = project_follow_up_policy(
        &result(
            DataLayerM1AnchorRetryClass::ConflictNoRetry,
            DataLayerM1AnchorOutcome::Rejected { reason: "conflict".to_owned() },
        ),
        5,
    );
    assert_eq!(conflict.action, DataLayerM1AnchoringFollowUpAction::NoRetry);
    assert_eq!(conflict.reason_code, DATA_LAYER_M1_ANCHORING_FOLLOW_UP_NO_RETRY_CONFLICT_REASON_CODE);
    assert_eq!(conflict.retry_class, DataLayerM1AnchorRetryClass::ConflictNoRetry);
}

#[test]
fn m1_pending_messages_are_batched_by_creation_time_then_id() {
    let batch = assemble_batch_for_pending_messages(&[pending("c", 20), pending("b", 10), pending("a", 20)])
        .expect("batch");
    let ids: Vec<(String, u32)> = batch
        .leaves()
        .iter()
        .map(|l| (l.message_id.clone(), l.leaf_index))
        .collect();
    assert_eq!(ids, vec![("b".to_owned(), 0), ("a".to_owned(), 1), ("c".to_owned(), 2)]);
    assert_eq!(batch.message_count, 3);
    assert_eq!(batch.first_message_id, "b");
    assert_eq!(batch.last_message_id, "c");
    let assignments = project_assignments(&batch).expect("assignments");
    assert_eq!(assignments.len(), 3);
    assert_eq!(assignments[2].message_id, "c");
    assert_eq!(assignments[2].leaf_index, 2);
}

#[test]
fn m1_pending_batch_errors() {
    assert_eq!(
        assemble_batch_for_pending_messages(&[]),
        Err(DataLayerM1AnchoringOrchestratorError::M1(DataLayerM1Error::EmptyBatch))
    );
    let mut bad = pending("x", 1);
    bad.content_hash = "md5:zz".to_owned();
    assert_eq!(
        assemble_batch_for_pending_messages(&[bad]),
        Err(DataLayerM1AnchoringOrchestratorError::M1(DataLayerM1Error::InvalidContentHash(
            "md5:zz".to_owned()
        )))
    );
    assert_eq!(
        assemble_batch_for_pending_messages(&[pending("x", 1), pending("x", 2)]),
        Err(DataLayerM1AnchoringOrchestratorError::M1(DataLayerM1Error::DuplicateMessageId(
            "x".to_owned()
        )))
    );
}

#[test]
fn m1_plan_tick_validates_timestamps_and_confirmation() {
    let batch = || assemble_batch_for_pending_messages(&[pending("a", 1)]).unwrap();
    let final_result = || {
        result(
            DataLayerM1AnchorRetryClass::NewSubmission,
            DataLayerM1AnchorOutcome::Submitted(receipt(KolmeCommitReceiptFinality::Final)),
        )
    };
    assert_eq!(
        plan_tick_from_anchor_result(batch(), final_result(), 10, 0, 5, None),
        Err(DataLayerM1AnchoringOrchestratorError::InvalidInput {
            field: "scheduled_at_unix_seconds",
            detail: "must be greater than zero".to_owned(),
        })
    );
    assert_eq!(
        plan_tick_from_anchor_result(batch(), final_result(), 10, 5, -1, None),
        Err(DataLayerM1AnchoringOrchestratorError::InvalidInput {
            field: "submitted_at_unix_seconds",
            detail: "must be greater than zero".to_owned(),
        })
    );
    assert_eq!(
        plan_tick_from_anchor_result(batch(), final_result(), 10, 5, 6, None),
        Err(DataLayerM1AnchoringOrchestratorError::MissingConfirmationMetadata {
            reason_code: DATA_LAYER_M1_ANCHORING_CONFIRMATION_HINT_REQUIRED_REASON_CODE,
            transaction_id: "tx-1".to_owned(),
        })
    );
    assert_eq!(
        plan_tick_from_anchor_result(
            batch(),
            final_result(),
            10,
            5,
            6,
            Some(DataLayerM1AnchoringConfirmationMetadata {
                kolme_block_height: -1,
                confirmed_at_unix_seconds: 9,
            })
        ),
        Err(DataLayerM1AnchoringOrchestratorError::InvalidInput {
            field: "kolme_block_height",
            detail: "must be greater than or equal to zero".to_owned(),
        })
    );
    assert_eq!(
        plan_tick_from_anchor_result(
            batch(),
            final_result(),
            10,
            5,
            6,
            Some(DataLayerM1AnchoringConfirmationMetadata {
                kolme_block_height: 3,
                confirmed_at_unix_seconds: 0,
            })
        ),
        Err(DataLayerM1AnchoringOrchestratorError::InvalidInput {
            field: "confirmed_at_unix_seconds",
            detail: "must be greater than zero".to_owned(),
        })
    );
}

#[test]
fn m1_plan_tick_projects_planned_and_rejected_outcomes() {
    let batch = assemble_batch_for_pending_messages(&[pending("b", 2), pending("a", 1)]).unwrap();
    let expected_id = batch.batch_id.clone();
    let expected_root = batch.merkle_root.clone();
    let confirmation = DataLayerM1AnchoringConfirmationMetadata {
        kolme_block_height: 7,
        confirmed_at_unix_seconds: 99,
    };
    let outcome = plan_tick_from_anchor_result(
        batch,
        result(
            DataLayerM1AnchorRetryClass::FinalizedNoRetry,
            DataLayerM1AnchorOutcome::Duplicate(receipt(KolmeCommitReceiptFinality::Final)),
        ),
        100,
        50,
        60,
        Some(confirmation),
    )
    .unwrap();
    match outcome {
        DataLayerM1AnchoringTickOutcome::Planned {
            reason_code,
            persistence_plan,
            follow_up_policy,
            ..
        } => {
            assert_eq!(reason_code, DATA_LAYER_M1_ANCHORING_TICK_PLANNED_REASON_CODE);
            assert_eq!(persistence_plan.batch_id, expected_id);
            assert_eq!(persistence_plan.merkle_root, expected_root);
            assert_eq!(persistence_plan.leaf_count, 2);
            assert_eq!(persistence_plan.scheduled_at_unix_seconds, 50);
            assert_eq!(persistence_plan.assignments[0].message_id, "a");
            assert_eq!(persistence_plan.assignments[1].leaf_index, 1);
            let submission = persistence_plan.submission.clone().unwrap();
            assert_eq!(submission.kolme_tx_hash, "tx-1");
            assert_eq!(submission.submitted_at_unix_seconds, 60);
            assert_eq!(persistence_plan.confirmation, Some(confirmation));
            assert_eq!(follow_up_policy.reason_code, DATA_LAYER_M1_ANCHORING_FOLLOW_UP_NO_RETRY_FINAL_REASON_CODE);
        }
        other => panic!("unexpected outcome {other:?}"),
    }

    let pending_batch = assemble_batch_for_pending_messages(&[pending("a", 1)]).unwrap();
    let outcome = plan_tick_from_anchor_result(
        pending_batch,
        result(
            DataLayerM1AnchorRetryClass::NewSubmission,
            DataLayerM1AnchorOutcome::Submitted(receipt(KolmeCommitReceiptFinality::Pending)),
        ),
        100,
        50,
        60,
        Some(confirmation),
    )
    .unwrap();
    match outcome {
        DataLayerM1AnchoringTickOutcome::Planned { persistence_plan, .. } => {
            assert_eq!(persistence_plan.confirmation, None);
        }
        other => panic!("unexpected outcome {other:?}"),
    }

    let rejected_batch = assemble_batch_for_pending_messages(&[pending("a", 1)]).unwrap();
    let outcome = plan_tick_from_anchor_result(
        rejected_batch,
        result(
            DataLayerM1AnchorRetryClass::ConflictNoRetry,
            DataLayerM1AnchorOutcome::Rejected { reason: "conflict".to_owned() },
        ),
        100,
        50,
        60,
        None,
    )
    .unwrap();
    match outcome {
        DataLayerM1AnchoringTickOutcome::Rejected {
            reason_code,
            rejection_reason,
            follow_up_policy,
            ..
        } => {
            assert_eq!(reason_code, DATA_LAYER_M1_ANCHORING_TICK_REJECTED_REASON_CODE);
            assert_eq!(rejection_reason, "conflict");
            assert_eq!(follow_up_policy.action, DataLayerM1AnchoringFollowUpAction::NoRetry);
        }
        other => panic!("unexpected outcome {other:?}"),
    }
}

#[test]
fn m1_prepare_tick_batch_checks_times_before_assembling() {
    let messages = [pending("b", 2), pending("a", 1)];
    assert_eq!(
        prepare_tick_batch(&messages, 0, 1),
        Err(DataLayerM1AnchoringOrchestratorError::InvalidInput {
            field: "scheduled_at_unix_seconds",
            detail: "must be greater than zero".to_owned(),
        })
    );
    assert_eq!(
        prepare_tick_batch(&[], 1, -1),
        Err(DataLayerM1AnchoringOrchestratorError::InvalidInput {
            field: "submitted_at_unix_seconds",
            detail: "must be greater than zero".to_owned(),
        })
    );
    assert_eq!(
        prepare_tick_batch(&[], 1, 1),
        Err(DataLayerM1AnchoringOrchestratorError::M1(DataLayerM1Error::EmptyBatch))
    );
    assert_eq!(prepare_tick_batch(&messages, 1, 1), assemble_batch_for_pending_messages(&messages));
}
