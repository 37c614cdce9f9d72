use kamn_core::data_layer_m1::anchoring::{
    anchor_payload, DataLayerM1KolmeAnchoringWorker, KolmeRuntimeCommitOutcome, KolmeRuntimeCommitReceipt,
};
use kamn_core::data_layer_m1::{
    DataLayerM1AnchorOutcome, DataLayerM1AnchorRetryClass, DataLayerM1Error, DataLayerM1MerkleBatch,
    DataLayerM1MerkleLeaf, KolmeCommitReceiptFinality,
};

fn batch() -> DataLayerM1MerkleBatch {
    DataLayerM1MerkleBatch::assemble(vec![
        DataLayerM1MerkleLeaf {
            message_id: "m-1".to_owned(),
            leaf_index: 0,
            content_hash: "sha256:aa".to_owned(),
        },
        DataLayerM1MerkleLeaf {
            message_id: "m-2".to_owned(),
            leaf_index: 1,
            content_hash: "sha256:bb".to_owned(),
        },
    ])
    .expect("batch")
}

fn receipt(finality: KolmeCommitReceiptFinality) -> KolmeRuntimeCommitReceipt {
    KolmeRuntimeCommitReceipt {
        provider: "kolme".to_owned(),
        commit_id: "commit-1".to_owned(),
        finality,
    }
}

#[test]
fn m1_worker_new_validates_inputs() {
    assert!(matches!(
        DataLayerM1KolmeAnchoringWorker::new("kamn:did:agent:anchor", " "),
        Err(DataLayerM1Error::EmptyField("state_root_prefix"))
    ));
    assert!(matches!(
        DataLayerM1KolmeAnchoringWorker::new("bad", "root"),
        Err(DataLayerM1Error::InvalidActorDid(v)) if v == "bad"
    ));
    let worker = DataLayerM1KolmeAnchoringWorker::new("kamn:did:agent:anchor", "root").unwrap();
    assert_eq!(worker.next_nonce(), 1);
}

#[test]
fn m1_worker_nonces_are_stable_per_batch() {
    let mut worker = DataLayerM1KolmeAnchoringWorker::new("kamn:did:agent:anchor", "root").unwrap();
    assert_eq!(worker.assign_or_resolve_nonce("b-1"), 1);
    assert_eq!(worker.assign_or_resolve_nonce("b-2"), 2);
    assert_eq!(worker.assign_or_resolve_nonce("b-1"), 1);
    assert_eq!(worker.next_nonce(), 3);
}

#[test]
fn m1_worker_refuses_conflicting_idempotency_keys() {
    let mut worker = DataLayerM1KolmeAnchoringWorker::new("kamn:did:agent:anchor", "root").unwrap();
    assert_eq!(worker.upsert_idempotency("b-1", "key-1"), Ok(()));
    assert_eq!(worker.upsert_idempotency("b-1", "key-1"), Ok(()));
    assert_eq!(
        worker.upsert_idempotency("b-1", "key-2"),
        Err(DataLayerM1Error::ConflictingAnchoringIdempotencyKey {
            batch_id: "b-1".to_owned(),
            existing_key: "key-1".to_owned(),
            provided_key: "key-2".to_owned(),
        })
    );
}

#[test]
fn m1_worker_replays_accepted_receipts_as_duplicates() {
    let b = batch();
    let mut worker = DataLayerM1KolmeAnchoringWorker::new("kamn:did:agent:anchor", "root").unwrap();
    assert_eq!(worker.existing_receipt_result(&b), Ok(None));
    worker.upsert_idempotency(&b.batch_id, "key-1").unwrap();
    let first = worker.record_submit_outcome(
        &b,
        "key-1".to_owned(),
        KolmeRuntimeCommitOutcome::Submitted(receipt(KolmeCommitReceiptFinality::Pending)),
    );
    assert_eq!(first.retry_class, DataLayerM1AnchorRetryClass::NewSubmission);
    assert!(matches!(first.outcome, DataLayerM1AnchorOutcome::Submitted(ref r) if r.transaction_id == "commit-1"));
    let replay = worker.existing_receipt_result(&b).unwrap().expect("recorded receipt");
    assert_eq!(replay.retry_class, DataLayerM1AnchorRetryClass::FinalizedNoRetry);
    assert_eq!(replay.idempotency_key, "key-1");
    assert!(matches!(replay.outcome, DataLayerM1AnchorOutcome::Duplicate(ref r) if r.transaction_id == "commit-1"));
}

#[test]
fn m1_worker_maps_duplicate_and_rejected_replies() {
    let b = batch();
    let mut worker = DataLayerM1KolmeAnchoringWorker::new("kamn:did:agent:anchor", "root").unwrap();
    let pending = worker.record_submit_outcome(
        &b,
        "k".to_owned(),
        KolmeRuntimeCommitOutcome::Duplicate(receipt(KolmeCommitReceiptFinality::Pending)),
    );
    assert_eq!(pending.retry_class, DataLayerM1AnchorRetryClass::RetryableInFlight);
    let fin = worker.record_submit_outcome(
        &b,
        "k".to_owned(),
        KolmeRuntimeCommitOutcome::Duplicate(receipt(KolmeCommitReceiptFinality::Final)),
    );
    assert_eq!(fin.retry_class, DataLayerM1AnchorRetryClass::FinalizedNoRetry);
    let rejected = worker.record_submit_outcome(
        &b,
        "k".to_owned(),
        KolmeRuntimeCommitOutcome::Rejected { reason: "nope".to_owned() },
    );
    assert_eq!(rejected.retry_class, DataLayerM1AnchorRetryClass::ConflictNoRetry);
    assert_eq!(rejected.outcome, DataLayerM1AnchorOutcome::Rejected { reason: "nope".to_owned() });
    assert_eq!(
        worker.existing_receipt_result(&b),
        Err(DataLayerM1Error::InvalidAnchoringState("missing idempotency key for accepted receipt"))
    );
}

#[test]
fn m1_worker_request_inputs_are_deterministic() {
    let b = batch();
    let worker = DataLayerM1KolmeAnchoringWorker::new("kamn:did:agent:anchor", "root").unwrap();
    let inputs = worker.anchor_request_inputs(&b, 7);
    assert_eq!(inputs.operation_id, format!("data-layer-m1-anchor-{}", b.batch_id));
    assert_eq!(inputs.state_root, format!("root:{}", b.merkle_root));
    assert_eq!(inputs.actor_did, "kamn:did:agent:anchor");
    assert_eq!(inputs.nonce, 7);
    assert!(inputs.payload_hash.starts_with("sha256:"));
    assert_eq!(
        anchor_payload(&b),
        format!("anchor-payload|batch:{}|root:{}|count:2|first:m-1|last:m-2", b.batch_id, b.merkle_root)
    );
    assert_eq!(worker.anchor_request_inputs(&b, 7), inputs);
}
