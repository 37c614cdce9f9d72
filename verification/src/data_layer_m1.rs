//! M1 trust-anchor contracts: deterministic merkle batch assembly over M0
//! content hashes, inclusion-proof generation and verification, and the
//! anchoring failure matrix.
pub mod models;
pub mod batch;
pub mod verification;
pub mod anchoring;

pub use models::{
    DataLayerM1AnchorFailureMatrixCase, DataLayerM1AnchorFailureMatrixDecision,
    DataLayerM1AnchorFailureMatrixEvidence, DataLayerM1AnchorFailureMatrixReport,
    DataLayerM1AnchorOutcome, DataLayerM1AnchorOutcomeKind, DataLayerM1AnchorReceipt,
    DataLayerM1AnchorResult, DataLayerM1AnchorRetryClass, DataLayerM1Error,
    DataLayerM1MerkleInclusionProof, DataLayerM1MerkleLeaf, DataLayerM1MerkleProofStep,
    DataLayerM1ProofSiblingSide, KolmeCommitReceiptFinality,
    DATA_LAYER_M1_ANCHOR_FAILURE_MATRIX_DRIFT_REASON_CODE,
    DATA_LAYER_M1_ANCHOR_FAILURE_MATRIX_STABLE_REASON_CODE, DATA_LAYER_M1_HASH_ALGORITHM,
    DATA_LAYER_M1_PROOF_VERIFICATION_INVALID_REASON_CODE,
    DATA_LAYER_M1_PROOF_VERIFICATION_VALID_REASON_CODE,
};
pub use batch::DataLayerM1MerkleBatch;
pub use verification::{
    evaluate_data_layer_m1_anchor_failure_matrix, evaluate_data_layer_m1_inclusion_proof,
    verify_data_layer_m1_inclusion_proof, DataLayerM1ProofVerificationDecision,
};
