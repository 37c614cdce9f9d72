use kamn_core::data_layer_m1::{
    evaluate_data_layer_m1_anchor_failure_matrix, evaluate_data_layer_m1_inclusion_proof,
    verify_data_layer_m1_inclusion_proof, DataLayerM1AnchorFailureMatrixCase,
    DataLayerM1AnchorFailureMatrixDecision, DataLayerM1AnchorOutcome,
    DataLayerM1AnchorOutcomeKind, DataLayerM1AnchorReceipt, DataLayerM1AnchorResult,
    DataLayerM1AnchorRetryClass, DataLayerM1Error, DataLayerM1MerkleBatch, DataLayerM1MerkleLeaf,
    DataLayerM1ProofSiblingSide, DataLayerM1ProofVerificationDecision,
    KolmeCommitReceiptFinality, DATA_LAYER_M1_ANCHOR_FAILURE_MATRIX_DRIFT_REASON_CODE,
    DATA_LAYER_M1_ANCHOR_FAILURE_MATRIX_STABLE_REASON_CODE,
    DATA_LAYER_M1_PROOF_VERIFICATION_INVALID_REASON_CODE,
    DATA_LAYER_M1_PROOF_VERIFICATION_VALID_REASON_CODE,
};
use kamn_core::digest::tagged_sha256;

fn leaf(id: &str, index: u32, hash: &str) -> DataLayerM1MerkleLeaf {
    DataLayerM1MerkleLeaf {
        message_id: id.to_owned(),
        leaf_index: index,
        content_hash: hash.to_owned(),
    }
}

fn fixture_leaves() -> Vec<DataLayerM1MerkleLeaf> {
    vec![leaf("msg-1", 0, "sha256:a1"), leaf("msg-2", 1, "sha256:b2")]
}

#[test]
fn unit_data_layer_m1_merkle_batch_proof_verifies() {
    let batch = DataLayerM1MerkleBatch::assemble(fixture_leaves())
        .expect("merkle batch should assemble deterministically");
    let proof = batch
        .inclusion_proof("msg-1")
        .expect("inclusion proof should build for known message");
    verify_data_layer_m1_inclusion_proof(&proof).expect("freshly generated proof should verify");
}

#[test]
fn unit_data_layer_m1_merkle_batch_rejects_tampered_root() {
    let batch = DataLayerM1MerkleBatch::assemble(fixture_leaves())
        .expect("merkle batch should assemble deterministically");
    let mut proof = batch
        .inclusion_proof("msg-1")
        .expect("inclusion proof should build for known message");
    proof.merkle_root = "sha256:tampered".to_owned();
    let error = verify_data_layer_m1_inclusion_proof(&proof)
        .expect_err("tampered proof root must fail verification");
    assert!(matches!(error, DataLayerM1Error::InvalidMerkleProof(_)));
}

#[test]
fn tagged_digest_is_labelled_sha256_hex() {
    assert_eq!(
        tagged_sha256("abc", "sha256"),
        "sha256:ba7816bf8f01cfea414140de5dae2223b00361a396177a9cb410ff61f20015ad"
    );
}

#[test]
fn assemble_orders_leaves_and_builds_root() {
    let batch = DataLayerM1MerkleBatch::assemble(vec![
        leaf("msg-3", 2, "sha256:c3"),
        leaf("msg-1", 0, "sha256:a1"),
        leaf("msg-2", 1, "sha256:b2"),
    ])
    .expect("batch should assemble");
    assert_eq!(batch.message_count, 3);
    assert_eq!(batch.first_message_id, "msg-1");
    assert_eq!(batch.last_message_id, "msg-3");
    assert_eq!(batch.tree_height, 3);
    let ids: Vec<&str> = batch.leaves().iter().map(|l| l.message_id.as_str()).collect();
    assert_eq!(ids, vec!["msg-1", "msg-2", "msg-3"]);
    assert!(batch.merkle_root.starts_with("sha256:"));
    assert!(batch.batch_id.starts_with("sha256:"));
    assert_ne!(batch.batch_id, batch.merkle_root);
    for id in ["msg-1", "msg-2", "msg-3"] {
        let proof = batch.inclusion_proof(id).expect("proof should build");
        assert_eq!(proof.steps.len(), 2);
        assert_eq!(verify_data_layer_m1_inclusion_proof(&proof), Ok(()));
        assert_eq!(
            evaluate_data_layer_m1_inclusion_proof(&proof),
            DataLayerM1ProofVerificationDecision::Valid {
                reason_code: DATA_LAYER_M1_PROOF_VERIFICATION_VALID_REASON_CODE
            }
        );
    }
    let last = batch.inclusion_proof("msg-3").expect("proof should build");
    assert_eq!(last.steps[0].sibling_side, DataLayerM1ProofSiblingSide::Right);
    assert_eq!(last.steps[0].sibling_hash, last.leaf_hash);
    assert_eq!(
        batch.inclusion_proof("msg-9"),
        Err(DataLayerM1Error::UnknownMessageId("msg-9".to_owned()))
    );
}

#[test]
fn single_leaf_batch_root_is_leaf_hash() {
    let batch = DataLayerM1MerkleBatch::assemble(vec![leaf("only", 0, "sha256:x")])
        .expect("batch should assemble");
    let proof = batch.inclusion_proof("only").expect("proof should build");
    assert!(proof.steps.is_empty());
    assert_eq!(proof.leaf_hash, batch.merkle_root);
    assert_eq!(batch.tree_height, 1);
}

#[test]
fn assemble_reports_first_invalid_leaf() {
    assert_eq!(DataLayerM1MerkleBatch::assemble(vec![]), Err(DataLayerM1Error::EmptyBatch));
    assert_eq!(
        DataLayerM1MerkleBatch::assemble(vec![leaf(" ", 0, "sha256:a")]),
        Err(DataLayerM1Error::EmptyField("message_id"))
    );
    assert_eq!(
        DataLayerM1MerkleBatch::assemble(vec![leaf("a", 0, "md5:a")]),
        Err(DataLayerM1Error::InvalidContentHash("md5:a".to_owned()))
    );
    assert_eq!(
        DataLayerM1MerkleBatch::assemble(vec![leaf("a", 0, " sha256: ")]),
        Err(DataLayerM1Error::InvalidContentHash(" sha256: ".to_owned()))
    );
    assert_eq!(
        DataLayerM1MerkleBatch::assemble(vec![leaf("b", 0, "sha256:b"), leaf("a", 0, "sha256:a")]),
        Err(DataLayerM1Error::DuplicateLeafIndex { leaf_index: 0 })
    );
    assert_eq!(
        DataLayerM1MerkleBatch::assemble(vec![leaf("a", 0, "sha256:a"), leaf("a", 1, "sha256:b")]),
        Err(DataLayerM1Error::DuplicateMessageId("a".to_owned()))
    );
    assert_eq!(
        DataLayerM1MerkleBatch::assemble(vec![leaf("a", 0, "sha256:a"), leaf("b", 2, "sha256:b")]),
        Err(DataLayerM1Error::NonContiguousLeafIndexes { expected: 1, found: 2 })
    );
    assert_eq!(
        DataLayerM1MerkleBatch::assemble(vec![leaf("a", 0, "bad"), leaf("a", 0, "sha256:a")]),
        Err(DataLayerM1Error::InvalidContentHash("bad".to_owned()))
    );
}

#[test]
fn verification_reports_each_fault() {
    let batch = DataLayerM1MerkleBatch::assemble(fixture_leaves()).expect("batch should assemble");
    let good = batch.inclusion_proof("msg-2").expect("proof should build");
    let mut p = good.clone();
    p.batch_id = " ".to_owned();
    assert_eq!(
        verify_data_layer_m1_inclusion_proof(&p),
        Err(DataLayerM1Error::EmptyField("batch_id"))
    );
    let mut p = good.clone();
    p.leaf_index = 5;
    assert_eq!(
        verify_data_layer_m1_inclusion_proof(&p),
        Err(DataLayerM1Error::InvalidMerkleProof("leaf hash mismatch"))
    );
    let mut p = good.clone();
    p.steps[0].sibling_hash = String::new();
    assert_eq!(
        verify_data_layer_m1_inclusion_proof(&p),
        Err(DataLayerM1Error::InvalidMerkleProof("proof sibling hash must not be empty"))
    );
    let mut p = good.clone();
    p.steps[0].sibling_side = DataLayerM1ProofSiblingSide::Right;
    assert_eq!(
        evaluate_data_layer_m1_inclusion_proof(&p),
        DataLayerM1ProofVerificationDecision::Invalid {
            reason_code: DATA_LAYER_M1_PROOF_VERIFICATION_INVALID_REASON_CODE,
            error: DataLayerM1Error::InvalidMerkleProof("proof root mismatch"),
        }
    );
}

fn result(retry: DataLayerM1AnchorRetryClass, outcome: DataLayerM1AnchorOutcome) -> DataLayerM1AnchorResult {
    DataLayerM1AnchorResult {
        batch_id: "batch-1".to_owned(),
        idempotency_key: "key-1".to_owned(),
        retry_class: retry,
        outcome,
    }
}

#[test]
fn anchor_failure_matrix_projects_decisions() {
    let receipt = DataLayerM1AnchorReceipt {
        provider: "kolme".to_owned(),
        transaction_id: "tx-1".to_owned(),
        finality: KolmeCommitReceiptFinality::Final,
    };
    let stable = vec![DataLayerM1AnchorFailureMatrixCase {
        case_id: "m-1".to_owned(),
        result: result(
            DataLayerM1AnchorRetryClass::NewSubmission,
            DataLayerM1AnchorOutcome::Submitted(receipt.clone()),
        ),
        expected_retry_class: DataLayerM1AnchorRetryClass::NewSubmission,
        expected_outcome_kind: DataLayerM1AnchorOutcomeKind::Submitted,
    }];
    let report = evaluate_data_layer_m1_anchor_failure_matrix(&stable).expect("report");
    assert_eq!(
        report.decision,
        DataLayerM1AnchorFailureMatrixDecision::Stable {
            reason_code: DATA_LAYER_M1_ANCHOR_FAILURE_MATRIX_STABLE_REASON_CODE
        }
    );
    assert!(!report.evidence[0].mismatch);
    let drift = vec![DataLayerM1AnchorFailureMatrixCase {
        case_id: "m-2".to_owned(),
        result: result(
            DataLayerM1AnchorRetryClass::ConflictNoRetry,
            DataLayerM1AnchorOutcome::Rejected { reason: "conflict".to_owned() },
        ),
        expected_retry_class: DataLayerM1AnchorRetryClass::ConflictNoRetry,
        expected_outcome_kind: DataLayerM1AnchorOutcomeKind::Duplicate,
    }];
    let report = evaluate_data_layer_m1_anchor_failure_matrix(&drift).expect("report");
    assert_eq!(
        report.decision,
        DataLayerM1AnchorFailureMatrixDecision::DriftDetected {
            reason_code: DATA_LAYER_M1_ANCHOR_FAILURE_MATRIX_DRIFT_REASON_CODE
        }
    );
    assert_eq!(report.evidence[0].observed_outcome_kind, DataLayerM1AnchorOutcomeKind::Rejected);
    assert!(report.evidence[0].mismatch);
    assert_eq!(
        evaluate_data_layer_m1_anchor_failure_matrix(&[]),
        Err(DataLayerM1Error::InvalidFailureMatrixInput("cases"))
    );
}

#[test]
fn m1_inclusion_proofs_take_one_step_per_level_below_the_root() {
    let leaves: Vec<DataLayerM1MerkleLeaf> = (0u32..5)
        .map(|i| DataLayerM1MerkleLeaf {
            message_id: format!("msg-{i}"),
            leaf_index: i,
            content_hash: format!("sha256:{:064x}", i),
        })
        .collect();
    let batch = DataLayerM1MerkleBatch::assemble(leaves).expect("assemble");
    assert_eq!(batch.tree_height(), 4);
    assert_eq!(batch.tree_height(), batch.tree_height);
    for i in 0..5 {
        let proof = batch.inclusion_proof(&format!("msg-{i}")).expect("proof");
        assert_eq!(proof.steps.len(), usize::from(batch.tree_height) - 1);
    }
}
