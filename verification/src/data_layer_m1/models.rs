//! Data types of the M1 trust-anchor contracts, and the digests they use.
use vstd::prelude::*;
use crate::digest::{tagged_sha256, tagged_sha256_text};
use crate::text::{concat, dec_seq, dec_string, has_prefix, is_blank_seq, trimmed};

verus! {

pub const DATA_LAYER_M1_HASH_ALGORITHM: &'static str = "sha256";
pub const DATA_LAYER_M1_PROOF_VERIFICATION_VALID_REASON_CODE: &'static str =
    "m1_merkle_proof_verification_valid";
pub const DATA_LAYER_M1_PROOF_VERIFICATION_INVALID_REASON_CODE: &'static str =
    "m1_merkle_proof_verification_invalid";
pub const DATA_LAYER_M1_ANCHOR_FAILURE_MATRIX_STABLE_REASON_CODE: &'static str =
    "m1_anchor_failure_matrix_stable";
pub const DATA_LAYER_M1_ANCHOR_FAILURE_MATRIX_DRIFT_REASON_CODE: &'static str =
    "m1_anchor_failure_matrix_drift_detected";

/// One message of a merkle batch: its identifier, position and M0 content hash.
#[derive(Debug, Clone, PartialEq, Eq)]
pub struct DataLayerM1MerkleLeaf {
    pub message_id: String,
    pub leaf_index: u32,
    pub content_hash: String,
}

/// Which side of the running hash a proof sibling stands on.
#[derive(Debug, Clone, Copy, PartialEq, Eq, Structural)]
pub enum DataLayerM1ProofSiblingSide {
    Left,
    Right,
}

/// One level of an inclusion proof.
#[derive(Debug, Clone, PartialEq, Eq)]
pub struct DataLayerM1MerkleProofStep {
    pub sibling_hash: String,
    pub sibling_side: DataLayerM1ProofSiblingSide,
}

/// Inclusion proof of one message in a merkle batch.
#[derive(Debug, Clone, PartialEq, Eq)]
pub struct DataLayerM1MerkleInclusionProof {
    pub batch_id: String,
    pub merkle_root: String,
    pub message_id: String,
    pub leaf_index: u32,
    pub content_hash: String,
    pub leaf_hash: String,
    pub steps: Vec<DataLayerM1MerkleProofStep>,
}

/// Retry class of an anchoring attempt.
#[derive(Debug, Clone, Copy, PartialEq, Eq, Structural)]
pub enum DataLayerM1AnchorRetryClass {
    NewSubmission,
    RetryableInFlight,
    FinalizedNoRetry,
    ConflictNoRetry,
}

/// Finality that a runtime-commit receipt reports.
#[derive(Debug, Clone, Copy, PartialEq, Eq, Structural)]
pub enum KolmeCommitReceiptFinality {
    Pending,
    Final,
    Failed,
}

/// Receipt of an accepted anchoring commit.
#[derive(Debug, Clone, PartialEq, Eq)]
pub struct DataLayerM1AnchorReceipt {
    pub provider: String,
    pub transaction_id: String,
    pub finality: KolmeCommitReceiptFinality,
}

/// Outcome of an anchoring attempt.
#[derive(Debug, Clone, PartialEq, Eq)]
pub enum DataLayerM1AnchorOutcome {
    Submitted(DataLayerM1AnchorReceipt),
    Duplicate(DataLayerM1AnchorReceipt),
    Rejected { reason: String },
}

/// Result of anchoring one batch.
#[derive(Debug, Clone, PartialEq, Eq)]
pub struct DataLayerM1AnchorResult {
    pub batch_id: String,
    pub idempotency_key: String,
    pub retry_class: DataLayerM1AnchorRetryClass,
    pub outcome: DataLayerM1AnchorOutcome,
}

/// The kind of an [`DataLayerM1AnchorOutcome`].
#[derive(Debug, Clone, Copy, PartialEq, Eq, Structural)]
pub enum DataLayerM1AnchorOutcomeKind {
    Submitted,
    Duplicate,
    Rejected,
}

/// One anchoring failure-matrix case.
#[derive(Debug, Clone, PartialEq, Eq)]
pub struct DataLayerM1AnchorFailureMatrixCase {
    pub case_id: String,
    pub result: DataLayerM1AnchorResult,
    pub expected_retry_class: DataLayerM1AnchorRetryClass,
    pub expected_outcome_kind: DataLayerM1AnchorOutcomeKind,
}

/// Evidence for one failure-matrix case.
#[derive(Debug, Clone, PartialEq, Eq)]
pub struct DataLayerM1AnchorFailureMatrixEvidence {
    pub case_id: String,
    pub batch_id: String,
    pub idempotency_key: String,
    pub expected_retry_class: DataLayerM1AnchorRetryClass,
    pub observed_retry_class: DataLayerM1AnchorRetryClass,
    pub expected_outcome_kind: DataLayerM1AnchorOutcomeKind,
    pub observed_outcome_kind: DataLayerM1AnchorOutcomeKind,
    pub mismatch: bool,
}

/// Aggregate failure-matrix decision.
#[derive(Debug, Clone, PartialEq, Eq)]
pub enum DataLayerM1AnchorFailureMatrixDecision {
    Stable { reason_code: &'static str },
    DriftDetected { reason_code: &'static str },
}

/// Failure-matrix report.
#[derive(Debug, Clone, PartialEq, Eq)]
pub struct DataLayerM1AnchorFailureMatrixReport {
    pub decision: DataLayerM1AnchorFailureMatrixDecision,
    pub evidence: Vec<DataLayerM1AnchorFailureMatrixEvidence>,
}

/// Errors of the M1 contracts.
#[derive(Debug, Clone, PartialEq, Eq)]
pub enum DataLayerM1Error {
    EmptyBatch,
    EmptyField(&'static str),
    InvalidContentHash(String),
    DuplicateLeafIndex { leaf_index: u32 },
    NonContiguousLeafIndexes { expected: u32, found: u32 },
    DuplicateMessageId(String),
    UnknownMessageId(String),
    InvalidMerkleProof(&'static str),
    InvalidActorDid(String),
    InvalidAnchoringState(&'static str),
    ConflictingAnchoringIdempotencyKey {
        batch_id: String,
        existing_key: String,
        provided_key: String,
    },
    InvalidFailureMatrixInput(&'static str),
}

// ---------------------------------------------------------------------------
// Digests
// ---------------------------------------------------------------------------

/// A content hash is `sha256:` followed by at least one character, once trimmed.
pub open spec fn content_hash_valid(h: Seq<char>) -> bool {
    has_prefix(trimmed(h), "sha256:"@) && trimmed(h).len() > 7
}

/// M1 digest of `value`.
pub open spec fn m1_digest(value: Seq<char>) -> Seq<char> {
    tagged_sha256_text("sha256"@, value)
}

/// Text hashed for a leaf.
pub open spec fn leaf_payload(message_id: Seq<char>, leaf_index: u32, content_hash: Seq<char>) -> Seq<char> {
    "leaf|index:"@ + dec_seq(leaf_index as nat) + "|id:"@ + message_id + "|content:"@ + content_hash
}

/// Digest of a leaf.
pub open spec fn leaf_hash(message_id: Seq<char>, leaf_index: u32, content_hash: Seq<char>) -> Seq<char> {
    m1_digest(leaf_payload(message_id, leaf_index, content_hash))
}

/// Digest of an inner node at `level` over its two children.
pub open spec fn node_hash(level: nat, left: Seq<char>, right: Seq<char>) -> Seq<char> {
    m1_digest("node|level:"@ + dec_seq(level) + "|left:"@ + left + "|right:"@ + right)
}

/// Identifier of a batch.
pub open spec fn batch_hash(root: Seq<char>, count: nat, first: Seq<char>, last: Seq<char>) -> Seq<char> {
    m1_digest("batch|root:"@ + root + "|count:"@ + dec_seq(count) + "|first:"@ + first + "|last:"@ + last)
}

/// A digest is never blank: it starts with the `sha256` label.
pub proof fn lemma_digest_not_blank(value: Seq<char>)
    ensures
        !is_blank_seq(m1_digest(value)),
        m1_digest(value).len() > 0,
{
    reveal_strlit("sha256");
    reveal_strlit(":");
    assert(m1_digest(value)[0] == 's');
}

pub fn tagged_digest(value: &str) -> (r: String)
    ensures
        r@ == m1_digest(value@),
{
    tagged_sha256(value, DATA_LAYER_M1_HASH_ALGORITHM)
}

pub(crate) fn leaf_digest(leaf: &DataLayerM1MerkleLeaf) -> (r: String)
    ensures
        r@ == leaf_hash(leaf.message_id@, leaf.leaf_index, leaf.content_hash@),
{
    let s = concat("leaf|index:", dec_string(leaf.leaf_index as u64).as_str());
    let s = concat(s.as_str(), "|id:");
    let s = concat(s.as_str(), leaf.message_id.as_str());
    let s = concat(s.as_str(), "|content:");
    let s = concat(s.as_str(), leaf.content_hash.as_str());
    tagged_digest(s.as_str())
}

pub(crate) fn node_digest(level: usize, left: &str, right: &str) -> (r: String)
    ensures
        r@ == node_hash(level as nat, left@, right@),
{
    let s = concat("node|level:", dec_string(level as u64).as_str());
    let s = concat(s.as_str(), "|left:");
    let s = concat(s.as_str(), left);
    let s = concat(s.as_str(), "|right:");
    let s = concat(s.as_str(), right);
    tagged_digest(s.as_str())
}

pub(crate) fn batch_digest(merkle_root: &str, message_count: usize, first: &str, last: &str) -> (r:
    String)
    ensures
        r@ == batch_hash(merkle_root@, message_count as nat, first@, last@),
{
    let s = concat("batch|root:", merkle_root);
    let s = concat(s.as_str(), "|count:");
    let s = concat(s.as_str(), dec_string(message_count as u64).as_str());
    let s = concat(s.as_str(), "|first:");
    let s = concat(s.as_str(), first);
    let s = concat(s.as_str(), "|last:");
    let s = concat(s.as_str(), last);
    tagged_digest(s.as_str())
}

/// The error's message text.
pub open spec fn m1_error_message(e: DataLayerM1Error) -> Seq<char> {
    match e {
        DataLayerM1Error::EmptyBatch => "merkle batch must contain at least one leaf"@,
        DataLayerM1Error::EmptyField(field) => field@ + " must not be empty"@,
        DataLayerM1Error::InvalidContentHash(value) => "invalid content hash: "@ + value@,
        DataLayerM1Error::DuplicateLeafIndex { leaf_index } => "duplicate leaf index: "@ + dec_seq(leaf_index as nat),
        DataLayerM1Error::NonContiguousLeafIndexes { expected, found } => "non-contiguous leaf indexes: expected "@ + dec_seq(expected as nat) + ", found "@ + dec_seq(found as nat),
        DataLayerM1Error::DuplicateMessageId(message_id) => "duplicate message id in batch: "@ + message_id@,
        DataLayerM1Error::UnknownMessageId(message_id) => "unknown message id: "@ + message_id@,
        DataLayerM1Error::InvalidMerkleProof(reason) => "invalid merkle proof: "@ + reason@,
        DataLayerM1Error::InvalidActorDid(actor_did) => "invalid actor did: "@ + actor_did@,
        DataLayerM1Error::InvalidAnchoringState(reason) => "invalid anchoring state: "@ + reason@,
        DataLayerM1Error::ConflictingAnchoringIdempotencyKey { batch_id, existing_key, provided_key } => "conflicting anchoring idempotency key for batch "@ + batch_id@ + "; existing "@ + existing_key@ + ", provided "@ + provided_key@,
        DataLayerM1Error::InvalidFailureMatrixInput(field) => "invalid anchor failure matrix input: "@ + field@,
    }
}

impl DataLayerM1Error {
    /// The error's message text.
    pub fn message(&self) -> (r: String)
        ensures
            r@ == m1_error_message(*self),
    {
        match self {
            DataLayerM1Error::EmptyBatch => {
                let mut out = String::new();
                out.append("merkle batch must contain at least one leaf");
                proof {
                    assert(out@ =~= "merkle batch must contain at least one leaf"@);
                }
                out
            },
            DataLayerM1Error::EmptyField(field) => {
                let mut out = String::new();
                out.append(*field);
                out.append(" must not be empty");
                proof {
                    assert(out@ =~= field@ + " must not be empty"@);
                }
                out
            },
            DataLayerM1Error::InvalidContentHash(value) => {
                let mut out = String::new();
                out.append("invalid content hash: ");
                out.append(value.as_str());
                proof {
                    assert(out@ =~= "invalid content hash: "@ + value@);
                }
                out
            },
            DataLayerM1Error::DuplicateLeafIndex { leaf_index } => {
                let mut out = String::new();
                out.append("duplicate leaf index: ");
                out.append(dec_string(*leaf_index as u64).as_str());
                proof {
                    assert(out@ =~= "duplicate leaf index: "@ + dec_seq(*leaf_index as nat));
                }
                out
            },
            DataLayerM1Error::NonContiguousLeafIndexes { expected, found } => {
                let mut out = String::new();
                out.append("non-contiguous leaf indexes: expected ");
                out.append(dec_string(*expected as u64).as_str());
                out.append(", found ");
                out.append(dec_string(*found as u64).as_str());
                proof {
                    assert(out@ =~= "non-contiguous leaf indexes: expected "@ + dec_seq(*expected as nat) + ", found "@ + dec_seq(*found as nat));
                }
                out
            },
            DataLayerM1Error::DuplicateMessageId(message_id) => {
                let mut out = String::new();
                out.append("duplicate message id in batch: ");
                out.append(message_id.as_str());
                proof {
                    assert(out@ =~= "duplicate message id in batch: "@ + message_id@);
                }
                out
            },
            DataLayerM1Error::UnknownMessageId(message_id) => {
                let mut out = String::new();
                out.append("unknown message id: ");
                out.append(message_id.as_str());
                proof {
                    assert(out@ =~= "unknown message id: "@ + message_id@);
                }
                out
            },
            DataLayerM1Error::InvalidMerkleProof(reason) => {
                let mut out = String::new();
                out.append("invalid merkle proof: ");
                out.append(*reason);
                proof {
                    assert(out@ =~= "invalid merkle proof: "@ + reason@);
                }
                out
            },
            DataLayerM1Error::InvalidActorDid(actor_did) => {
                let mut out = String::new();
                out.append("invalid actor did: ");
                out.append(actor_did.as_str());
                proof {
                    assert(out@ =~= "invalid actor did: "@ + actor_did@);
                }
                out
            },
            DataLayerM1Error::InvalidAnchoringState(reason) => {
                let mut out = String::new();
                out.append("invalid anchoring state: ");
                out.append(*reason);
                proof {
                    assert(out@ =~= "invalid anchoring state: "@ + reason@);
                }
                out
            },
            DataLayerM1Error::ConflictingAnchoringIdempotencyKey { batch_id, existing_key, provided_key } => {
                let mut out = String::new();
                out.append("conflicting anchoring idempotency key for batch ");
                out.append(batch_id.as_str());
                out.append("; existing ");
                out.append(existing_key.as_str());
                out.append(", provided ");
                out.append(provided_key.as_str());
                proof {
                    assert(out@ =~= "conflicting anchoring idempotency key for batch "@ + batch_id@ + "; existing "@ + existing_key@ + ", provided "@ + provided_key@);
                }
                out
            },
            DataLayerM1Error::InvalidFailureMatrixInput(field) => {
                let mut out = String::new();
                out.append("invalid anchor failure matrix input: ");
                out.append(*field);
                proof {
                    assert(out@ =~= "invalid anchor failure matrix input: "@ + field@);
                }
                out
            },
        }
    }
}

} // verus!
