//! M1 anchoring orchestrator contracts: from pending messages to a merkle
//! batch, and from an anchoring result to a persistence plan and a
//! follow-up (retry / poll / stop) policy.
use vstd::prelude::*;
use crate::data_layer_m1::batch::{leaves_fault, leaves_view, reports_leaf_fault, sorted_leaves, LeafModel};
use crate::data_layer_m1::models::{
    DataLayerM1AnchorOutcome, DataLayerM1AnchorReceipt, DataLayerM1AnchorResult, DataLayerM1AnchorRetryClass,
    DataLayerM1Error, DataLayerM1MerkleLeaf, KolmeCommitReceiptFinality,
};
use crate::data_layer_m1::DataLayerM1MerkleBatch;
use crate::sorting::{lemma_triple_leq_total, sort_triples, triple_leq, triples_view};
use crate::text::concat;

verus! {

/// Reason marker for deferred orchestrator tick outcomes.
pub const DATA_LAYER_M1_ANCHORING_TICK_DEFERRED_REASON_CODE: &'static str = "m1_anchoring_tick_deferred";
/// Reason marker for planned orchestrator tick outcomes.
pub const DATA_LAYER_M1_ANCHORING_TICK_PLANNED_REASON_CODE: &'static str = "m1_anchoring_tick_planned";
/// Reason marker for rejected orchestrator tick outcomes.
pub const DATA_LAYER_M1_ANCHORING_TICK_REJECTED_REASON_CODE: &'static str = "m1_anchoring_tick_rejected";
/// Reason marker for final-receipt paths missing confirmation metadata.
pub const DATA_LAYER_M1_ANCHORING_CONFIRMATION_HINT_REQUIRED_REASON_CODE: &'static str =
    "m1_anchoring_confirmation_hint_required_for_final_receipt";
/// Reason marker for retryable in-flight follow-up policy decisions.
pub const DATA_LAYER_M1_ANCHORING_FOLLOW_UP_RETRY_IN_FLIGHT_REASON_CODE: &'static str =
    "m1_anchoring_follow_up_retry_in_flight";
/// Reason marker for pending confirmation follow-up policy decisions.
pub const DATA_LAYER_M1_ANCHORING_FOLLOW_UP_POLL_PENDING_REASON_CODE: &'static str =
    "m1_anchoring_follow_up_poll_pending";
/// Reason marker for conflict/no-retry follow-up policy decisions.
pub const DATA_LAYER_M1_ANCHORING_FOLLOW_UP_NO_RETRY_CONFLICT_REASON_CODE: &'static str =
    "m1_anchoring_follow_up_no_retry_conflict";
/// Reason marker for finalized/no-retry follow-up policy decisions.
pub const DATA_LAYER_M1_ANCHORING_FOLLOW_UP_NO_RETRY_FINAL_REASON_CODE: &'static str =
    "m1_anchoring_follow_up_no_retry_final";
/// Reason marker for failed/no-retry follow-up policy decisions.
pub const DATA_LAYER_M1_ANCHORING_FOLLOW_UP_NO_RETRY_FAILED_REASON_CODE: &'static str =
    "m1_anchoring_follow_up_no_retry_failed";

/// Delay before retrying an in-flight anchoring attempt.
pub const DATA_LAYER_M1_ANCHORING_RETRY_BACKOFF_SECONDS: u64 = 60;
/// Delay before polling a pending confirmation.
pub const DATA_LAYER_M1_ANCHORING_CONFIRMATION_POLL_SECONDS: u64 = 30;
/// Detail text of a failed integer conversion.
pub const INTEGER_CONVERSION_FAILURE_DETAIL: &'static str = "out of range integral type conversion attempted";

/// Deterministic follow-up action after one anchoring attempt.
#[derive(Debug, Clone, Copy, PartialEq, Eq, Structural)]
pub enum DataLayerM1AnchoringFollowUpAction {
    Retry,
    PollConfirmation,
    NoRetry,
}

/// Follow-up policy projected from retry class and receipt finality.
#[derive(Debug, Clone, PartialEq, Eq)]
pub struct DataLayerM1AnchoringFollowUpPolicy {
    pub action: DataLayerM1AnchoringFollowUpAction,
    pub reason_code: &'static str,
    /// Retry timestamp when the action is `Retry`.
    pub retry_after_unix_seconds: Option<u64>,
    /// Poll timestamp when the action is `PollConfirmation`.
    pub poll_after_unix_seconds: Option<u64>,
    pub retry_class: DataLayerM1AnchorRetryClass,
    /// Receipt finality when a provider receipt exists.
    pub receipt_finality: Option<KolmeCommitReceiptFinality>,
}

/// One message-to-leaf assignment for batch persistence.
#[derive(Debug, Clone, PartialEq, Eq)]
pub struct DataLayerM1AnchoringMessageAssignment {
    pub message_id: String,
    pub leaf_index: i32,
}

/// Submission metadata for batch persistence updates.
#[derive(Debug, Clone, PartialEq, Eq)]
pub struct DataLayerM1AnchoringSubmissionMetadata {
    pub kolme_tx_hash: String,
    pub submitted_at_unix_seconds: i64,
}

/// Confirmation metadata for batch persistence updates.
#[derive(Debug, Clone, Copy, PartialEq, Eq, Structural)]
pub struct DataLayerM1AnchoringConfirmationMetadata {
    pub kolme_block_height: i64,
    pub confirmed_at_unix_seconds: i64,
}

/// Persistence plan for one anchoring tick.
#[derive(Debug, Clone, PartialEq, Eq)]
pub struct DataLayerM1AnchoringPersistencePlan {
    pub batch_id: String,
    pub merkle_root: String,
    pub leaf_count: i32,
    pub scheduled_at_unix_seconds: i64,
    pub assignments: Vec<DataLayerM1AnchoringMessageAssignment>,
    pub submission: Option<DataLayerM1AnchoringSubmissionMetadata>,
    pub confirmation: Option<DataLayerM1AnchoringConfirmationMetadata>,
}

/// Outcome of one orchestrator pass.
#[derive(Debug, PartialEq, Eq)]
pub enum DataLayerM1AnchoringTickOutcome {
    Deferred { reason_code: &'static str, pending_count: usize },
    Planned {
        reason_code: &'static str,
        batch: Box<DataLayerM1MerkleBatch>,
        anchor_result: DataLayerM1AnchorResult,
        persistence_plan: Box<DataLayerM1AnchoringPersistencePlan>,
        follow_up_policy: DataLayerM1AnchoringFollowUpPolicy,
    },
    Rejected {
        reason_code: &'static str,
        batch: Box<DataLayerM1MerkleBatch>,
        rejection_reason: String,
        follow_up_policy: DataLayerM1AnchoringFollowUpPolicy,
    },
}

/// Error taxonomy for M1 orchestrator planning.
#[derive(Debug, Clone, PartialEq, Eq)]
pub enum DataLayerM1AnchoringOrchestratorError {
    InvalidInput { field: &'static str, detail: String },
    M1(DataLayerM1Error),
    MissingConfirmationMetadata { reason_code: &'static str, transaction_id: String },
}

/// A message waiting to be batched.
#[derive(Debug, Clone, PartialEq, Eq)]
pub struct DataLayerM1PendingBatchMessage {
    pub message_id: String,
    pub content_hash: String,
    pub created_at_unix_seconds: u64,
}

// ---------------------------------------------------------------------------
// Follow-up policy
// ---------------------------------------------------------------------------

/// The receipt an outcome carries, if any.
pub open spec fn outcome_receipt(o: DataLayerM1AnchorOutcome) -> Option<DataLayerM1AnchorReceipt> {
    match o {
        DataLayerM1AnchorOutcome::Submitted(r) => Some(r),
        DataLayerM1AnchorOutcome::Duplicate(r) => Some(r),
        DataLayerM1AnchorOutcome::Rejected { .. } => None,
    }
}

/// The finality of the receipt an outcome carries, if any.
pub open spec fn outcome_finality(o: DataLayerM1AnchorOutcome) -> Option<KolmeCommitReceiptFinality> {
    match outcome_receipt(o) {
        Some(r) => Some(r.finality),
        None => None,
    }
}

/// `now + delay`, saturating at `u64::MAX`.
pub open spec fn later(now: u64, delay: u64) -> u64 {
    if now + delay > u64::MAX {
        u64::MAX
    } else {
        (now + delay) as u64
    }
}

/// The follow-up policy: retry in-flight attempts after the backoff; poll
/// pending receipts; otherwise stop, with the reason given by the finality.
pub open spec fn follow_up_policy(
    retry_class: DataLayerM1AnchorRetryClass,
    finality: Option<KolmeCommitReceiptFinality>,
    now: u64,
) -> DataLayerM1AnchoringFollowUpPolicy {
    if retry_class == DataLayerM1AnchorRetryClass::RetryableInFlight {
        DataLayerM1AnchoringFollowUpPolicy {
            action: DataLayerM1AnchoringFollowUpAction::Retry,
            reason_code: DATA_LAYER_M1_ANCHORING_FOLLOW_UP_RETRY_IN_FLIGHT_REASON_CODE,
            retry_after_unix_seconds: Some(later(now, DATA_LAYER_M1_ANCHORING_RETRY_BACKOFF_SECONDS)),
            poll_after_unix_seconds: None,
            retry_class,
            receipt_finality: finality,
        }
    } else {
        match finality {
            Some(KolmeCommitReceiptFinality::Pending) => DataLayerM1AnchoringFollowUpPolicy {
                action: DataLayerM1AnchoringFollowUpAction::PollConfirmation,
                reason_code: DATA_LAYER_M1_ANCHORING_FOLLOW_UP_POLL_PENDING_REASON_CODE,
                retry_after_unix_seconds: None,
                poll_after_unix_seconds: Some(later(now, DATA_LAYER_M1_ANCHORING_CONFIRMATION_POLL_SECONDS)),
                retry_class,
                receipt_finality: finality,
            },
            Some(KolmeCommitReceiptFinality::Final) => DataLayerM1AnchoringFollowUpPolicy {
                action: DataLayerM1AnchoringFollowUpAction::NoRetry,
                reason_code: DATA_LAYER_M1_ANCHORING_FOLLOW_UP_NO_RETRY_FINAL_REASON_CODE,
                retry_after_unix_seconds: None,
                poll_after_unix_seconds: None,
                retry_class,
                receipt_finality: finality,
            },
            Some(KolmeCommitReceiptFinality::Failed) => DataLayerM1AnchoringFollowUpPolicy {
                action: DataLayerM1AnchoringFollowUpAction::NoRetry,
                reason_code: DATA_LAYER_M1_ANCHORING_FOLLOW_UP_NO_RETRY_FAILED_REASON_CODE,
                retry_after_unix_seconds: None,
                poll_after_unix_seconds: None,
                retry_class,
                receipt_finality: finality,
            },
            None => DataLayerM1AnchoringFollowUpPolicy {
                action: DataLayerM1AnchoringFollowUpAction::NoRetry,
                reason_code: DATA_LAYER_M1_ANCHORING_FOLLOW_UP_NO_RETRY_CONFLICT_REASON_CODE,
                retry_after_unix_seconds: None,
                poll_after_unix_seconds: None,
                retry_class,
                receipt_finality: None,
            },
        }
    }
}

/// A follow-up policy schedules at most one of retry and poll, and each
/// exactly for its own action.
pub proof fn lemma_follow_up_schedules_match_action(
    retry_class: DataLayerM1AnchorRetryClass,
    finality: Option<KolmeCommitReceiptFinality>,
    now: u64,
)
    ensures
        ({
            let p = follow_up_policy(retry_class, finality, now);
            &&& (p.retry_after_unix_seconds is Some <==> p.action == DataLayerM1AnchoringFollowUpAction::Retry)
            &&& (p.poll_after_unix_seconds is Some <==> p.action
                == DataLayerM1AnchoringFollowUpAction::PollConfirmation)
            &&& (p.retry_after_unix_seconds matches Some(t) ==> t >= now)
            &&& (p.poll_after_unix_seconds matches Some(t) ==> t >= now)
            &&& p.retry_class == retry_class
        }),
{
}

/// The receipt finality of an anchoring result, if it carries a receipt.
pub fn receipt_finality(anchor_result: &DataLayerM1AnchorResult) -> (r: Option<KolmeCommitReceiptFinality>)
    ensures
        r == outcome_finality(anchor_result.outcome),
{
    match &anchor_result.outcome {
        DataLayerM1AnchorOutcome::Submitted(receipt) => Some(receipt.finality),
        DataLayerM1AnchorOutcome::Duplicate(receipt) => Some(receipt.finality),
        DataLayerM1AnchorOutcome::Rejected { .. } => None,
    }
}

/// Projects the follow-up policy of one anchoring result.
pub fn project_follow_up_policy(anchor_result: &DataLayerM1AnchorResult, now_unix_seconds: u64) -> (r:
    DataLayerM1AnchoringFollowUpPolicy)
    ensures
        r == follow_up_policy(anchor_result.retry_class, outcome_finality(anchor_result.outcome), now_unix_seconds),
{
    let finality = receipt_finality(anchor_result);
    if anchor_result.retry_class == DataLayerM1AnchorRetryClass::RetryableInFlight {
        return DataLayerM1AnchoringFollowUpPolicy {
            action: DataLayerM1AnchoringFollowUpAction::Retry,
            reason_code: DATA_LAYER_M1_ANCHORING_FOLLOW_UP_RETRY_IN_FLIGHT_REASON_CODE,
            retry_after_unix_seconds: Some(now_unix_seconds.saturating_add(DATA_LAYER_M1_ANCHORING_RETRY_BACKOFF_SECONDS)),
            poll_after_unix_seconds: None,
            retry_class: anchor_result.retry_class,
            receipt_finality: finality,
        };
    }
    match finality {
        Some(KolmeCommitReceiptFinality::Pending) => DataLayerM1AnchoringFollowUpPolicy {
            action: DataLayerM1AnchoringFollowUpAction::PollConfirmation,
            reason_code: DATA_LAYER_M1_ANCHORING_FOLLOW_UP_POLL_PENDING_REASON_CODE,
            retry_after_unix_seconds: None,
            poll_after_unix_seconds: Some(
                now_unix_seconds.saturating_add(DATA_LAYER_M1_ANCHORING_CONFIRMATION_POLL_SECONDS),
            ),
            retry_class: anchor_result.retry_class,
            receipt_finality: Some(KolmeCommitReceiptFinality::Pending),
        },
        Some(KolmeCommitReceiptFinality::Final) => DataLayerM1AnchoringFollowUpPolicy {
            action: DataLayerM1AnchoringFollowUpAction::NoRetry,
            reason_code: DATA_LAYER_M1_ANCHORING_FOLLOW_UP_NO_RETRY_FINAL_REASON_CODE,
            retry_after_unix_seconds: None,
            poll_after_unix_seconds: None,
            retry_class: anchor_result.retry_class,
            receipt_finality: Some(KolmeCommitReceiptFinality::Final),
        },
        Some(KolmeCommitReceiptFinality::Failed) => DataLayerM1AnchoringFollowUpPolicy {
            action: DataLayerM1AnchoringFollowUpAction::NoRetry,
            reason_code: DATA_LAYER_M1_ANCHORING_FOLLOW_UP_NO_RETRY_FAILED_REASON_CODE,
            retry_after_unix_seconds: None,
            poll_after_unix_seconds: None,
            retry_class: anchor_result.retry_class,
            receipt_finality: Some(KolmeCommitReceiptFinality::Failed),
        },
        None => DataLayerM1AnchoringFollowUpPolicy {
            action: DataLayerM1AnchoringFollowUpAction::NoRetry,
            reason_code: DATA_LAYER_M1_ANCHORING_FOLLOW_UP_NO_RETRY_CONFLICT_REASON_CODE,
            retry_after_unix_seconds: None,
            poll_after_unix_seconds: None,
            retry_class: anchor_result.retry_class,
            receipt_finality: None,
        },
    }
}

// ---------------------------------------------------------------------------
// Batch assembly
// ---------------------------------------------------------------------------

/// Sort keys of pending messages: (creation time, id, input position).
pub open spec fn pending_keys(p: Seq<DataLayerM1PendingBatchMessage>) -> Seq<(u64, Seq<char>, u64)> {
    Seq::new(p.len(), |i: int| (p[i].created_at_unix_seconds, p[i].message_id@, i as u64))
}

/// Pending messages ordered by creation time, then id; ties keep input order.
pub open spec fn ordered_pending(p: Seq<DataLayerM1PendingBatchMessage>) -> Seq<DataLayerM1PendingBatchMessage> {
    pending_keys(p).sort_by(triple_leq()).map_values(|k: (u64, Seq<char>, u64)| p[k.2 as int])
}

/// The leaves built from the ordered pending messages, indexed by position.
pub open spec fn pending_leaves(p: Seq<DataLayerM1PendingBatchMessage>) -> Seq<LeafModel> {
    Seq::new(
        ordered_pending(p).len(),
        |i: int| (ordered_pending(p)[i].message_id@, i as u32, ordered_pending(p)[i].content_hash@),
    )
}

/// The number of values a `u32` holds.
pub open spec fn u32_count() -> int {
    0x1_0000_0000
}

/// `e` is an invalid-input error for `field` with detail text `detail`.
pub open spec fn invalid_input(e: DataLayerM1AnchoringOrchestratorError, field: &'static str, detail: Seq<char>) -> bool {
    e matches DataLayerM1AnchoringOrchestratorError::InvalidInput { field: f, detail: d } && f == field && d@
        == detail
}

/// The pending messages in batch order.
fn order_pending(pending: &[DataLayerM1PendingBatchMessage]) -> (r: Vec<DataLayerM1PendingBatchMessage>)
    ensures
        r@ == ordered_pending(pending@),
        r@.len() == pending@.len(),
{
    let ghost pv = pending@;
    let n = pending.len();
    let mut keys: Vec<(u64, String, u64)> = Vec::new();
    let mut i: usize = 0;
    while i < n
        invariant
            i <= n,
            n == pending@.len(),
            pv == pending@,
            triples_view(keys@) == pending_keys(pv).take(i as int),
        decreases n - i,
    {
        let ghost before = keys@;
        keys.push((pending[i].created_at_unix_seconds, pending[i].message_id.clone(), i as u64));
        proof {
            assert(triples_view(keys@) =~= triples_view(before).push(pending_keys(pv)[i as int]));
            assert(pending_keys(pv).take(i + 1) =~= pending_keys(pv).take(i as int).push(pending_keys(pv)[i as int]));
        }
        i = i + 1;
    }
    assert(pending_keys(pv).take(n as int) =~= pending_keys(pv));
    let sorted = sort_triples(keys);
    let ghost sk = triples_view(sorted@);
    proof {
        lemma_triple_leq_total();
        pending_keys(pv).lemma_sort_by_ensures(triple_leq());
        assert(sk.len() == pending_keys(pv).len()) by {
            sk.to_multiset_ensures();
            pending_keys(pv).to_multiset_ensures();
        }
    }
    let mut out: Vec<DataLayerM1PendingBatchMessage> = Vec::new();
    let mut k: usize = 0;
    while k < n
        invariant
            k <= n,
            n == pending@.len(),
            pv == pending@,
            sk == triples_view(sorted@),
            sk == pending_keys(pv).sort_by(triple_leq()),
            sk.len() == n,
            forall|x: (u64, Seq<char>, u64)| #[trigger] sk.contains(x) ==> pending_keys(pv).contains(x),
            out@ == ordered_pending(pv).take(k as int),
        decreases n - k,
    {
        let pos = sorted[k].2;
        proof {
            assert(sk[k as int] == (sorted@[k as int].0, sorted@[k as int].1@, sorted@[k as int].2));
            assert(sk.contains(sk[k as int]));
            let j = choose|j: int| 0 <= j < pending_keys(pv).len() && pending_keys(pv)[j] == sk[k as int];
            assert(pos == j as u64);
        }
        let item = DataLayerM1PendingBatchMessage {
            message_id: pending[pos as usize].message_id.clone(),
            content_hash: pending[pos as usize].content_hash.clone(),
            created_at_unix_seconds: pending[pos as usize].created_at_unix_seconds,
        };
        let ghost before = out@;
        out.push(item);
        proof {
            assert(ordered_pending(pv)[k as int] == pv[pos as int]);
            assert(out@ =~= before.push(pv[pos as int]));
            assert(ordered_pending(pv).take(k + 1) =~= ordered_pending(pv).take(k as int).push(pv[pos as int]));
        }
        k = k + 1;
    }
    proof {
        assert(ordered_pending(pv).take(n as int) =~= ordered_pending(pv));
    }
    out
}

/// Orders pending messages by creation time, then id, gives each its
/// position as leaf index, and assembles the merkle batch.
pub fn assemble_batch_for_pending_messages(pending_messages: &[DataLayerM1PendingBatchMessage]) -> (r: Result<
    DataLayerM1MerkleBatch,
    DataLayerM1AnchoringOrchestratorError,
>)
    ensures
        pending_messages@.len() == 0 ==> r == Err::<DataLayerM1MerkleBatch, _>(
            DataLayerM1AnchoringOrchestratorError::M1(DataLayerM1Error::EmptyBatch),
        ),
        pending_messages@.len() > u32_count() ==> (r matches Err(e) && invalid_input(
            e,
            "leaf_index",
            "leaf index conversion failed: "@ + INTEGER_CONVERSION_FAILURE_DETAIL@,
        )),
        0 < pending_messages@.len() <= u32_count() ==> match leaves_fault(
            sorted_leaves(pending_leaves(pending_messages@)),
            pending_messages@.len() as int,
        ) {
            Some(f) => r matches Err(e) && e matches DataLayerM1AnchoringOrchestratorError::M1(m1) && reports_leaf_fault(
                m1,
                f,
            ),
            None => r matches Ok(b) && b.assembled_from(sorted_leaves(pending_leaves(pending_messages@))),
        },
{
    let ordered = order_pending(pending_messages);
    let ghost target = pending_leaves(pending_messages@);
    let n = ordered.len();
    let mut leaves: Vec<DataLayerM1MerkleLeaf> = Vec::new();
    let mut i: usize = 0;
    while i < n
        invariant
            i <= n,
            n == ordered@.len(),
            ordered@ == ordered_pending(pending_messages@),
            n == pending_messages@.len(),
            target == pending_leaves(pending_messages@),
            target.len() == n,
            i <= u32_count(),
            leaves_view(leaves@) == target.take(i as int),
        decreases n - i,
    {
        if i > 4294967295 {
            return Err(
                DataLayerM1AnchoringOrchestratorError::InvalidInput {
                    field: "leaf_index",
                    detail: concat("leaf index conversion failed: ", INTEGER_CONVERSION_FAILURE_DETAIL),
                },
            );
        }
        let leaf = DataLayerM1MerkleLeaf {
            message_id: ordered[i].message_id.clone(),
            leaf_index: i as u32,
            content_hash: ordered[i].content_hash.clone(),
        };
        let ghost before = leaves_view(leaves@);
        leaves.push(leaf);
        proof {
            assert(leaves_view(leaves@) =~= before.push(target[i as int]));
            assert(target.take(i + 1) =~= target.take(i as int).push(target[i as int]));
        }
        i = i + 1;
    }
    proof {
        assert(target.take(n as int) =~= target);
    }
    match DataLayerM1MerkleBatch::assemble(leaves) {
        Ok(b) => Ok(b),
        Err(e) => Err(DataLayerM1AnchoringOrchestratorError::M1(e)),
    }
}

/// The first step of a tick: checks the schedule and submission times, then
/// assembles the batch of the pending messages, before anything is anchored.
pub fn prepare_tick_batch(
    pending_messages: &[DataLayerM1PendingBatchMessage],
    scheduled_at_unix_seconds: i64,
    submitted_at_unix_seconds: i64,
) -> (r: Result<DataLayerM1MerkleBatch, DataLayerM1AnchoringOrchestratorError>)
    ensures
        scheduled_at_unix_seconds <= 0 ==> (r matches Err(e) && invalid_input(
            e,
            "scheduled_at_unix_seconds",
            "must be greater than zero"@,
        )),
        scheduled_at_unix_seconds > 0 && submitted_at_unix_seconds <= 0 ==> (r matches Err(e) && invalid_input(
            e,
            "submitted_at_unix_seconds",
            "must be greater than zero"@,
        )),
        scheduled_at_unix_seconds > 0 && submitted_at_unix_seconds > 0 ==> {
            &&& pending_messages@.len() == 0 ==> r == Err::<DataLayerM1MerkleBatch, _>(
                DataLayerM1AnchoringOrchestratorError::M1(DataLayerM1Error::EmptyBatch),
            )
            &&& pending_messages@.len() > u32_count() ==> (r matches Err(e) && invalid_input(
                e,
                "leaf_index",
                "leaf index conversion failed: "@ + INTEGER_CONVERSION_FAILURE_DETAIL@,
            ))
            &&& 0 < pending_messages@.len() <= u32_count() ==> match leaves_fault(
                sorted_leaves(pending_leaves(pending_messages@)),
                pending_messages@.len() as int,
            ) {
                Some(f) => r matches Err(e) && e matches DataLayerM1AnchoringOrchestratorError::M1(m1)
                    && reports_leaf_fault(m1, f),
                None => r matches Ok(b) && b.assembled_from(sorted_leaves(pending_leaves(pending_messages@))),
            }
        },
{
    if scheduled_at_unix_seconds <= 0 {
        return Err(
            DataLayerM1AnchoringOrchestratorError::InvalidInput {
                field: "scheduled_at_unix_seconds",
                detail: "must be greater than zero".to_owned(),
            },
        );
    }
    if submitted_at_unix_seconds <= 0 {
        return Err(
            DataLayerM1AnchoringOrchestratorError::InvalidInput {
                field: "submitted_at_unix_seconds",
                detail: "must be greater than zero".to_owned(),
            },
        );
    }
    assemble_batch_for_pending_messages(pending_messages)
}

// ---------------------------------------------------------------------------
// Persistence planning
// ---------------------------------------------------------------------------

/// `v` assigns each leaf's message id to its leaf index, in batch order.
pub open spec fn assignments_match(v: Seq<DataLayerM1AnchoringMessageAssignment>, leaves: Seq<LeafModel>) -> bool {
    &&& v.len() == leaves.len()
    &&& forall|i: int|
        0 <= i < v.len() ==> (#[trigger] v[i]).message_id@ == leaves[i].0 && v[i].leaf_index as int
            == leaves[i].1 as int
}

/// Some leaf index does not fit an `i32`.
pub open spec fn leaf_index_overflows(leaves: Seq<LeafModel>) -> bool {
    exists|i: int| 0 <= i < leaves.len() && (#[trigger] leaves[i]).1 > i32::MAX
}

/// Projects the message-to-leaf assignments of a batch.
pub fn project_assignments(batch: &DataLayerM1MerkleBatch) -> (r: Result<
    Vec<DataLayerM1AnchoringMessageAssignment>,
    DataLayerM1AnchoringOrchestratorError,
>)
    ensures
        leaf_index_overflows(batch.leaves_model()) ==> (r matches Err(e) && invalid_input(
            e,
            "leaf_index",
            "leaf index conversion failed: "@ + INTEGER_CONVERSION_FAILURE_DETAIL@,
        )),
        !leaf_index_overflows(batch.leaves_model()) ==> (r matches Ok(v) && assignments_match(
            v@,
            batch.leaves_model(),
        )),
{
    let leaves = batch.leaves();
    let ghost lm = batch.leaves_model();
    let mut out: Vec<DataLayerM1AnchoringMessageAssignment> = Vec::new();
    let mut i: usize = 0;
    while i < leaves.len()
        invariant
            i <= leaves@.len(),
            leaves_view(leaves@) == lm,
            lm == batch.leaves_model(),
            out@.len() == i,
            forall|k: int| 0 <= k < i ==> (#[trigger] lm[k]).1 <= i32::MAX,
            forall|k: int|
                0 <= k < i ==> (#[trigger] out@[k]).message_id@ == lm[k].0 && out@[k].leaf_index as int
                    == lm[k].1 as int,
        decreases leaves@.len() - i,
    {
        proof {
            assert(lm[i as int] == (leaves@[i as int].message_id@, leaves@[i as int].leaf_index, leaves@[i as int].content_hash@));
        }
        if leaves[i].leaf_index > 2147483647 {
            return Err(
                DataLayerM1AnchoringOrchestratorError::InvalidInput {
                    field: "leaf_index",
                    detail: concat("leaf index conversion failed: ", INTEGER_CONVERSION_FAILURE_DETAIL),
                },
            );
        }
        out.push(
            DataLayerM1AnchoringMessageAssignment {
                message_id: leaves[i].message_id.clone(),
                leaf_index: leaves[i].leaf_index as i32,
            },
        );
        i = i + 1;
    }
    Ok(out)
}

/// The submission metadata records transaction `tx` submitted at `at`.
pub open spec fn submission_is(s: Option<DataLayerM1AnchoringSubmissionMetadata>, tx: Seq<char>, at: i64) -> bool {
    match s {
        Some(x) => x.kolme_tx_hash@ == tx && x.submitted_at_unix_seconds == at,
        None => false,
    }
}

/// The text of a rejection reason, if the outcome is a rejection.
pub open spec fn rejection_reason_of(o: DataLayerM1AnchorOutcome) -> Option<Seq<char>> {
    match o {
        DataLayerM1AnchorOutcome::Rejected { reason } => Some(reason@),
        _ => None,
    }
}

/// Plans one orchestrator tick once the batch has been anchored: a rejected
/// anchoring yields `Rejected`; an accepted one yields `Planned` with the
/// persistence plan, a final receipt requiring valid confirmation metadata.
/// Both carry the follow-up policy.
pub fn plan_tick_from_anchor_result(
    batch: DataLayerM1MerkleBatch,
    anchor_result: DataLayerM1AnchorResult,
    now_unix_seconds: u64,
    scheduled_at_unix_seconds: i64,
    submitted_at_unix_seconds: i64,
    confirmation_metadata: Option<DataLayerM1AnchoringConfirmationMetadata>,
) -> (r: Result<DataLayerM1AnchoringTickOutcome, DataLayerM1AnchoringOrchestratorError>)
    ensures
        scheduled_at_unix_seconds <= 0 ==> (r matches Err(e) && invalid_input(
            e,
            "scheduled_at_unix_seconds",
            "must be greater than zero"@,
        )),
        scheduled_at_unix_seconds > 0 && submitted_at_unix_seconds <= 0 ==> (r matches Err(e) && invalid_input(
            e,
            "submitted_at_unix_seconds",
            "must be greater than zero"@,
        )),
        scheduled_at_unix_seconds > 0 && submitted_at_unix_seconds > 0 ==> match outcome_receipt(
            anchor_result.outcome,
        ) {
            None => r matches Ok(DataLayerM1AnchoringTickOutcome::Rejected {
                reason_code,
                batch: b,
                rejection_reason,
                follow_up_policy: fu,
            }) && reason_code == DATA_LAYER_M1_ANCHORING_TICK_REJECTED_REASON_CODE && *b == batch && Some(
                rejection_reason@,
            ) == rejection_reason_of(anchor_result.outcome) && fu == follow_up_policy(
                anchor_result.retry_class,
                None,
                now_unix_seconds,
            ),
            Some(receipt) => if receipt.finality == KolmeCommitReceiptFinality::Final
                && confirmation_metadata is None {
                r matches Err(e) && e matches DataLayerM1AnchoringOrchestratorError::MissingConfirmationMetadata {
                    reason_code,
                    transaction_id,
                } && reason_code == DATA_LAYER_M1_ANCHORING_CONFIRMATION_HINT_REQUIRED_REASON_CODE
                    && transaction_id@ == receipt.transaction_id@
            } else if receipt.finality == KolmeCommitReceiptFinality::Final
                && confirmation_metadata->0.kolme_block_height < 0 {
                r matches Err(e) && invalid_input(
                    e,
                    "kolme_block_height",
                    "must be greater than or equal to zero"@,
                )
            } else if receipt.finality == KolmeCommitReceiptFinality::Final
                && confirmation_metadata->0.confirmed_at_unix_seconds <= 0 {
                r matches Err(e) && invalid_input(e, "confirmed_at_unix_seconds", "must be greater than zero"@)
            } else if batch.message_count_value() > i32::MAX {
                r matches Err(e) && invalid_input(
                    e,
                    "leaf_count",
                    "message_count conversion failed: "@ + INTEGER_CONVERSION_FAILURE_DETAIL@,
                )
            } else if leaf_index_overflows(batch.leaves_model()) {
                r matches Err(e) && invalid_input(
                    e,
                    "leaf_index",
                    "leaf index conversion failed: "@ + INTEGER_CONVERSION_FAILURE_DETAIL@,
                )
            } else {
                r matches Ok(DataLayerM1AnchoringTickOutcome::Planned {
                    reason_code,
                    batch: b,
                    anchor_result: ar,
                    persistence_plan: plan,
                    follow_up_policy: fu,
                }) && reason_code == DATA_LAYER_M1_ANCHORING_TICK_PLANNED_REASON_CODE && *b == batch && ar
                    == anchor_result && fu == follow_up_policy(
                    anchor_result.retry_class,
                    Some(receipt.finality),
                    now_unix_seconds,
                ) && plan.batch_id@ == batch.batch_id_text() && plan.merkle_root@ == batch.merkle_root_text()
                    && plan.leaf_count as int == batch.message_count_value() as int && plan.scheduled_at_unix_seconds
                    == scheduled_at_unix_seconds && assignments_match(plan.assignments@, batch.leaves_model())
                    && submission_is(plan.submission, receipt.transaction_id@, submitted_at_unix_seconds)
                    && plan.confirmation == (if receipt.finality
                    == KolmeCommitReceiptFinality::Final {
                    confirmation_metadata
                } else {
                    None
                })
            },
        },
{
    if scheduled_at_unix_seconds <= 0 {
        return Err(
            DataLayerM1AnchoringOrchestratorError::InvalidInput {
                field: "scheduled_at_unix_seconds",
                detail: "must be greater than zero".to_owned(),
            },
        );
    }
    if submitted_at_unix_seconds <= 0 {
        return Err(
            DataLayerM1AnchoringOrchestratorError::InvalidInput {
                field: "submitted_at_unix_seconds",
                detail: "must be greater than zero".to_owned(),
            },
        );
    }
    let follow_up_policy = project_follow_up_policy(&anchor_result, now_unix_seconds);
    let (transaction_id, finality) = match &anchor_result.outcome {
        DataLayerM1AnchorOutcome::Rejected { reason } => {
            let rejection_reason = reason.clone();
            return Ok(
                DataLayerM1AnchoringTickOutcome::Rejected {
                    reason_code: DATA_LAYER_M1_ANCHORING_TICK_REJECTED_REASON_CODE,
                    batch: Box::new(batch),
                    rejection_reason,
                    follow_up_policy,
                },
            );
        },
        DataLayerM1AnchorOutcome::Submitted(receipt) => (receipt.transaction_id.clone(), receipt.finality),
        DataLayerM1AnchorOutcome::Duplicate(receipt) => (receipt.transaction_id.clone(), receipt.finality),
    };
    let confirmation = if finality == KolmeCommitReceiptFinality::Final {
        match confirmation_metadata {
            None => {
                return Err(
                    DataLayerM1AnchoringOrchestratorError::MissingConfirmationMetadata {
                        reason_code: DATA_LAYER_M1_ANCHORING_CONFIRMATION_HINT_REQUIRED_REASON_CODE,
                        transaction_id,
                    },
                );
            },
            Some(c) => {
                if c.kolme_block_height < 0 {
                    return Err(
                        DataLayerM1AnchoringOrchestratorError::InvalidInput {
                            field: "kolme_block_height",
                            detail: "must be greater than or equal to zero".to_owned(),
                        },
                    );
                }
                if c.confirmed_at_unix_seconds <= 0 {
                    return Err(
                        DataLayerM1AnchoringOrchestratorError::InvalidInput {
                            field: "confirmed_at_unix_seconds",
                            detail: "must be greater than zero".to_owned(),
                        },
                    );
                }
                Some(c)
            },
        }
    } else {
        None
    };
    let message_count = batch.message_count();
    if message_count > 2147483647 {
        return Err(
            DataLayerM1AnchoringOrchestratorError::InvalidInput {
                field: "leaf_count",
                detail: concat("message_count conversion failed: ", INTEGER_CONVERSION_FAILURE_DETAIL),
            },
        );
    }
    let leaf_count = message_count as i32;
    let assignments = project_assignments(&batch)?;
    let persistence_plan = DataLayerM1AnchoringPersistencePlan {
        batch_id: batch.batch_id_str().to_owned(),
        merkle_root: batch.merkle_root_str().to_owned(),
        leaf_count,
        scheduled_at_unix_seconds,
        assignments,
        submission: Some(
            DataLayerM1AnchoringSubmissionMetadata { kolme_tx_hash: transaction_id, submitted_at_unix_seconds },
        ),
        confirmation,
    };
    Ok(
        DataLayerM1AnchoringTickOutcome::Planned {
            reason_code: DATA_LAYER_M1_ANCHORING_TICK_PLANNED_REASON_CODE,
            batch: Box::new(batch),
            anchor_result,
            persistence_plan: Box::new(persistence_plan),
            follow_up_policy,
        },
    )
}

/// The error's message text.
pub open spec fn orchestrator_error_message(e: DataLayerM1AnchoringOrchestratorError) -> Seq<char> {
    match e {
        DataLayerM1AnchoringOrchestratorError::InvalidInput { field, detail } => "invalid orchestrator input "@ + field@ + ": "@ + detail@,
        DataLayerM1AnchoringOrchestratorError::M1(error) => "m1 evaluation failed: "@ + crate::data_layer_m1::models::m1_error_message(error),
        DataLayerM1AnchoringOrchestratorError::MissingConfirmationMetadata { reason_code, transaction_id } => "missing confirmation metadata for final receipt "@ + transaction_id@ + ": "@ + reason_code@,
    }
}

impl DataLayerM1AnchoringOrchestratorError {
    /// The error's message text.
    pub fn message(&self) -> (r: String)
        ensures
            r@ == orchestrator_error_message(*self),
    {
        match self {
            DataLayerM1AnchoringOrchestratorError::InvalidInput { field, detail } => {
                let mut out = String::new();
                out.append("invalid orchestrator input ");
                out.append(*field);
                out.append(": ");
                out.append(detail.as_str());
                proof {
                    assert(out@ =~= "invalid orchestrator input "@ + field@ + ": "@ + detail@);
                }
                out
            },
            DataLayerM1AnchoringOrchestratorError::M1(error) => {
                let mut out = String::new();
                out.append("m1 evaluation failed: ");
                out.append(error.message().as_str());
                proof {
                    assert(out@ =~= "m1 evaluation failed: "@ + crate::data_layer_m1::models::m1_error_message(*error));
                }
                out
            },
            DataLayerM1AnchoringOrchestratorError::MissingConfirmationMetadata { reason_code, transaction_id } => {
                let mut out = String::new();
                out.append("missing confirmation metadata for final receipt ");
                out.append(transaction_id.as_str());
                out.append(": ");
                out.append(*reason_code);
                proof {
                    assert(out@ =~= "missing confirmation metadata for final receipt "@ + transaction_id@ + ": "@ + reason_code@);
                }
                out
            },
        }
    }
}

} // verus!
