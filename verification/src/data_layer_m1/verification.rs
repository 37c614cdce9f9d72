//! Fail-closed inclusion-proof verification and the anchoring failure matrix.
use vstd::prelude::*;
use crate::data_layer_m1::batch::{
    DataLayerM1MerkleBatch, built_proof, leaf_check, leaves_fault, level_zero, levels_well_formed,
    lemma_levels_from_well_formed, next_level, proof_view, root_of, sibling, steps_from, tree_levels,
    LeafModel, ProofModel,
};
use crate::data_layer_m1::models::{
    batch_hash, content_hash_valid, leaf_digest, leaf_hash, lemma_digest_not_blank, node_digest, node_hash,
    DataLayerM1AnchorFailureMatrixCase, DataLayerM1AnchorFailureMatrixDecision,
    DataLayerM1AnchorFailureMatrixEvidence, DataLayerM1AnchorFailureMatrixReport,
    DataLayerM1AnchorOutcome, DataLayerM1AnchorOutcomeKind, DataLayerM1Error,
    DataLayerM1MerkleInclusionProof, DataLayerM1MerkleLeaf, DataLayerM1ProofSiblingSide,
    DATA_LAYER_M1_ANCHOR_FAILURE_MATRIX_DRIFT_REASON_CODE,
    DATA_LAYER_M1_ANCHOR_FAILURE_MATRIX_STABLE_REASON_CODE,
    DATA_LAYER_M1_PROOF_VERIFICATION_INVALID_REASON_CODE,
    DATA_LAYER_M1_PROOF_VERIFICATION_VALID_REASON_CODE,
};
use crate::text::{is_blank, is_blank_seq, str_eq};

verus! {

/// Deterministic proof-verification decision with stable reason markers.
#[derive(Debug, Clone, PartialEq, Eq)]
pub enum DataLayerM1ProofVerificationDecision {
    /// Proof verified successfully.
    Valid { reason_code: &'static str },
    /// Proof verification failed.
    Invalid { reason_code: &'static str, error: DataLayerM1Error },
}

/// Why a proof is refused, in the order the checks are made.
pub enum ProofFault {
    EmptyBatchId,
    EmptyMerkleRoot,
    EmptyMessageId,
    InvalidContentHash,
    LeafHashMismatch,
    EmptySibling,
    RootMismatch,
}

/// The running hash after one proof step at `level`.
pub open spec fn combine(level: nat, cur: Seq<char>, step: (Seq<char>, DataLayerM1ProofSiblingSide)) -> Seq<char> {
    match step.1 {
        DataLayerM1ProofSiblingSide::Left => node_hash(level, step.0, cur),
        DataLayerM1ProofSiblingSide::Right => node_hash(level, cur, step.0),
    }
}

/// The running hash after all `steps`, the first at `level`.
pub open spec fn fold_steps(cur: Seq<char>, steps: Seq<(Seq<char>, DataLayerM1ProofSiblingSide)>, level: nat) -> Seq<char>
    decreases steps.len(),
{
    if steps.len() == 0 {
        cur
    } else {
        fold_steps(combine(level, cur, steps[0]), steps.drop_first(), level + 1)
    }
}

pub open spec fn proof_fault(p: ProofModel) -> Option<ProofFault> {
    if is_blank_seq(p.batch_id) {
        Some(ProofFault::EmptyBatchId)
    } else if is_blank_seq(p.merkle_root) {
        Some(ProofFault::EmptyMerkleRoot)
    } else if is_blank_seq(p.message_id) {
        Some(ProofFault::EmptyMessageId)
    } else if !content_hash_valid(p.content_hash) {
        Some(ProofFault::InvalidContentHash)
    } else if leaf_hash(p.message_id, p.leaf_index, p.content_hash) != p.leaf_hash {
        Some(ProofFault::LeafHashMismatch)
    } else if exists|i: int| 0 <= i < p.steps.len() && is_blank_seq(#[trigger] p.steps[i].0) {
        Some(ProofFault::EmptySibling)
    } else if fold_steps(p.leaf_hash, p.steps, 0) != p.merkle_root {
        Some(ProofFault::RootMismatch)
    } else {
        None
    }
}

pub open spec fn reports_proof_fault(e: DataLayerM1Error, f: ProofFault, p: ProofModel) -> bool {
    match f {
        ProofFault::EmptyBatchId => e matches DataLayerM1Error::EmptyField(n) && n@ == "batch_id"@,
        ProofFault::EmptyMerkleRoot => e matches DataLayerM1Error::EmptyField(n) && n@ == "merkle_root"@,
        ProofFault::EmptyMessageId => e matches DataLayerM1Error::EmptyField(n) && n@ == "message_id"@,
        ProofFault::InvalidContentHash => e matches DataLayerM1Error::InvalidContentHash(v) && v@
            == p.content_hash,
        ProofFault::LeafHashMismatch => e matches DataLayerM1Error::InvalidMerkleProof(r) && r@
            == "leaf hash mismatch"@,
        ProofFault::EmptySibling => e matches DataLayerM1Error::InvalidMerkleProof(r) && r@
            == "proof sibling hash must not be empty"@,
        ProofFault::RootMismatch => e matches DataLayerM1Error::InvalidMerkleProof(r) && r@
            == "proof root mismatch"@,
    }
}

/// Verifies an inclusion proof fail-closed: identifiers and content hash are
/// checked, the leaf hash is recomputed, and the steps are folded up to the
/// claimed root.
pub fn verify_data_layer_m1_inclusion_proof(proof: &DataLayerM1MerkleInclusionProof) -> (r: Result<
    (),
    DataLayerM1Error,
>)
    ensures
        match proof_fault(proof_view(*proof)) {
            None => r is Ok,
            Some(f) => r matches Err(e) && reports_proof_fault(e, f, proof_view(*proof)),
        },
{
    let ghost pv = proof_view(*proof);
    if is_blank(proof.batch_id.as_str()) {
        return Err(DataLayerM1Error::EmptyField("batch_id"));
    }
    if is_blank(proof.merkle_root.as_str()) {
        return Err(DataLayerM1Error::EmptyField("merkle_root"));
    }
    if is_blank(proof.message_id.as_str()) {
        return Err(DataLayerM1Error::EmptyField("message_id"));
    }
    if !crate::data_layer_m1::batch::is_valid_content_hash(proof.content_hash.as_str()) {
        return Err(DataLayerM1Error::InvalidContentHash(proof.content_hash.clone()));
    }
    let expected_leaf = leaf_digest(
        &DataLayerM1MerkleLeaf {
            message_id: proof.message_id.clone(),
            leaf_index: proof.leaf_index,
            content_hash: proof.content_hash.clone(),
        },
    );
    if !str_eq(expected_leaf.as_str(), proof.leaf_hash.as_str()) {
        return Err(DataLayerM1Error::InvalidMerkleProof("leaf hash mismatch"));
    }
    let ghost steps = pv.steps;
    let mut current = proof.leaf_hash.clone();
    let mut i: usize = 0;
    assert(steps.skip(0) =~= steps);
    #[verifier::loop_isolation(false)]
    while i < proof.steps.len()
        invariant
            pv == proof_view(*proof),
            steps == pv.steps,
            i <= steps.len(),
            steps.len() == proof.steps@.len(),
            fold_steps(pv.leaf_hash, steps, 0) == fold_steps(current@, steps.skip(i as int), i as nat),
            forall|j: int| 0 <= j < i ==> !is_blank_seq(#[trigger] steps[j].0),
        decreases steps.len() - i,
    {
        let step = &proof.steps[i];
        proof {
            assert(steps[i as int] == (step.sibling_hash@, step.sibling_side));
        }
        if is_blank(step.sibling_hash.as_str()) {
            return Err(DataLayerM1Error::InvalidMerkleProof("proof sibling hash must not be empty"));
        }
        let next = match step.sibling_side {
            DataLayerM1ProofSiblingSide::Left => node_digest(i, step.sibling_hash.as_str(), current.as_str()),
            DataLayerM1ProofSiblingSide::Right => node_digest(i, current.as_str(), step.sibling_hash.as_str()),
        };
        proof {
            let rest = steps.skip(i as int);
            assert(rest[0] == steps[i as int]);
            assert(rest.drop_first() =~= steps.skip(i + 1));
            assert(next@ == combine(i as nat, current@, steps[i as int]));
        }
        current = next;
        i = i + 1;
    }
    proof {
        assert(steps.skip(i as int) =~= Seq::<(Seq<char>, DataLayerM1ProofSiblingSide)>::empty());
    }
    if !str_eq(current.as_str(), proof.merkle_root.as_str()) {
        return Err(DataLayerM1Error::InvalidMerkleProof("proof root mismatch"));
    }
    Ok(())
}

/// Evaluates proof verification and projects a reason-coded decision.
pub fn evaluate_data_layer_m1_inclusion_proof(proof: &DataLayerM1MerkleInclusionProof) -> (d:
    DataLayerM1ProofVerificationDecision)
    ensures
        match proof_fault(proof_view(*proof)) {
            None => d == DataLayerM1ProofVerificationDecision::Valid {
                reason_code: DATA_LAYER_M1_PROOF_VERIFICATION_VALID_REASON_CODE,
            },
            Some(f) => d matches DataLayerM1ProofVerificationDecision::Invalid { reason_code, error }
                && reason_code == DATA_LAYER_M1_PROOF_VERIFICATION_INVALID_REASON_CODE
                && reports_proof_fault(error, f, proof_view(*proof)),
        },
{
    match verify_data_layer_m1_inclusion_proof(proof) {
        Ok(()) => DataLayerM1ProofVerificationDecision::Valid {
            reason_code: DATA_LAYER_M1_PROOF_VERIFICATION_VALID_REASON_CODE,
        },
        Err(error) => DataLayerM1ProofVerificationDecision::Invalid {
            reason_code: DATA_LAYER_M1_PROOF_VERIFICATION_INVALID_REASON_CODE,
            error,
        },
    }
}

/// The kind of an anchoring outcome.
pub open spec fn outcome_kind(o: DataLayerM1AnchorOutcome) -> DataLayerM1AnchorOutcomeKind {
    match o {
        DataLayerM1AnchorOutcome::Submitted(_) => DataLayerM1AnchorOutcomeKind::Submitted,
        DataLayerM1AnchorOutcome::Duplicate(_) => DataLayerM1AnchorOutcomeKind::Duplicate,
        DataLayerM1AnchorOutcome::Rejected { .. } => DataLayerM1AnchorOutcomeKind::Rejected,
    }
}

fn anchor_outcome_kind(outcome: &DataLayerM1AnchorOutcome) -> (k: DataLayerM1AnchorOutcomeKind)
    ensures
        k == outcome_kind(*outcome),
{
    match outcome {
        DataLayerM1AnchorOutcome::Submitted(_) => DataLayerM1AnchorOutcomeKind::Submitted,
        DataLayerM1AnchorOutcome::Duplicate(_) => DataLayerM1AnchorOutcomeKind::Duplicate,
        DataLayerM1AnchorOutcome::Rejected { .. } => DataLayerM1AnchorOutcomeKind::Rejected,
    }
}

/// Evidence recorded for a failure-matrix case.
pub open spec fn anchor_evidence_for(
    e: DataLayerM1AnchorFailureMatrixEvidence,
    c: DataLayerM1AnchorFailureMatrixCase,
) -> bool {
    &&& e.case_id@ == c.case_id@
    &&& e.batch_id@ == c.result.batch_id@
    &&& e.idempotency_key@ == c.result.idempotency_key@
    &&& e.expected_retry_class == c.expected_retry_class
    &&& e.observed_retry_class == c.result.retry_class
    &&& e.expected_outcome_kind == c.expected_outcome_kind
    &&& e.observed_outcome_kind == outcome_kind(c.result.outcome)
    &&& e.mismatch == (c.result.retry_class != c.expected_retry_class || outcome_kind(
        c.result.outcome,
    ) != c.expected_outcome_kind)
}

/// Evaluates anchoring failure-matrix expectations: one evidence entry per
/// case, in input order; the decision is stable when no case mismatches.
pub fn evaluate_data_layer_m1_anchor_failure_matrix(cases: &[DataLayerM1AnchorFailureMatrixCase]) -> (r:
    Result<DataLayerM1AnchorFailureMatrixReport, DataLayerM1Error>)
    ensures
        cases@.len() == 0 ==> (r matches Err(e) && e matches DataLayerM1Error::InvalidFailureMatrixInput(
            f,
        ) && f@ == "cases"@),
        cases@.len() > 0 && (exists|i: int| 0 <= i < cases@.len() && is_blank_seq(#[trigger] cases@[i].case_id@))
            ==> (r matches Err(e) && e matches DataLayerM1Error::InvalidFailureMatrixInput(f)
            && f@ == "case_id"@),
        cases@.len() > 0 && (forall|i: int| 0 <= i < cases@.len() ==> !is_blank_seq(#[trigger] cases@[i].case_id@))
            ==> (r matches Ok(report) && report.evidence@.len() == cases@.len() && (forall|i: int|
            0 <= i < cases@.len() ==> anchor_evidence_for(#[trigger] report.evidence@[i], cases@[i]))
            && (if (forall|i: int| 0 <= i < cases@.len() ==> !(#[trigger] report.evidence@[i]).mismatch) {
            report.decision == DataLayerM1AnchorFailureMatrixDecision::Stable {
                reason_code: DATA_LAYER_M1_ANCHOR_FAILURE_MATRIX_STABLE_REASON_CODE,
            }
        } else {
            report.decision == DataLayerM1AnchorFailureMatrixDecision::DriftDetected {
                reason_code: DATA_LAYER_M1_ANCHOR_FAILURE_MATRIX_DRIFT_REASON_CODE,
            }
        })),
{
    if cases.len() == 0 {
        return Err(DataLayerM1Error::InvalidFailureMatrixInput("cases"));
    }
    let mut evidence: Vec<DataLayerM1AnchorFailureMatrixEvidence> = Vec::new();
    let mut all_match = true;
    let mut i: usize = 0;
    while i < cases.len()
        invariant
            i <= cases@.len(),
            evidence@.len() == i,
            forall|j: int| 0 <= j < i ==> !is_blank_seq(#[trigger] cases@[j].case_id@),
            forall|j: int| 0 <= j < i ==> anchor_evidence_for(#[trigger] evidence@[j], cases@[j]),
            all_match == (forall|j: int| 0 <= j < i ==> !(#[trigger] evidence@[j]).mismatch),
        decreases cases@.len() - i,
    {
        let case = &cases[i];
        if is_blank(case.case_id.as_str()) {
            return Err(DataLayerM1Error::InvalidFailureMatrixInput("case_id"));
        }
        let observed_outcome_kind = anchor_outcome_kind(&case.result.outcome);
        let observed_retry_class = case.result.retry_class;
        let mismatch = observed_retry_class != case.expected_retry_class || observed_outcome_kind
            != case.expected_outcome_kind;
        let ghost before = evidence@;
        evidence.push(
            DataLayerM1AnchorFailureMatrixEvidence {
                case_id: case.case_id.clone(),
                batch_id: case.result.batch_id.clone(),
                idempotency_key: case.result.idempotency_key.clone(),
                expected_retry_class: case.expected_retry_class,
                observed_retry_class,
                expected_outcome_kind: case.expected_outcome_kind,
                observed_outcome_kind,
                mismatch,
            },
        );
        proof {
            assert(evidence@ == before.push(evidence@[i as int]));
            assert(evidence@[i as int].mismatch == mismatch);
            assert(anchor_evidence_for(evidence@[i as int], cases@[i as int]));
            assert forall|j: int| 0 <= j < i implies #[trigger] evidence@[j] == before[j] by {}
        }
        let ghost old_all = all_match;
        all_match = all_match && !mismatch;
        proof {
            if !old_all {
                let j = choose|j: int| 0 <= j < i && (#[trigger] before[j]).mismatch;
                assert(evidence@[j] == before[j]);
            }
        }
        i = i + 1;
    }
    let decision = if all_match {
        DataLayerM1AnchorFailureMatrixDecision::Stable {
            reason_code: DATA_LAYER_M1_ANCHOR_FAILURE_MATRIX_STABLE_REASON_CODE,
        }
    } else {
        DataLayerM1AnchorFailureMatrixDecision::DriftDetected {
            reason_code: DATA_LAYER_M1_ANCHOR_FAILURE_MATRIX_DRIFT_REASON_CODE,
        }
    };
    Ok(DataLayerM1AnchorFailureMatrixReport { decision, evidence })
}

proof fn lemma_levels_not_blank(s: Seq<LeafModel>)
    requires
        s.len() >= 1,
    ensures
        levels_well_formed(tree_levels(s), 0),
        forall|i: int, j: int|
            0 <= i < tree_levels(s).len() && 0 <= j < tree_levels(s)[i].len() ==> !is_blank_seq(
                #[trigger] tree_levels(s)[i][j],
            ),
{
    let levels = tree_levels(s);
    lemma_levels_from_well_formed(0, level_zero(s));
    assert forall|i: int, j: int| 0 <= i < levels.len() && 0 <= j < levels[i].len() implies !is_blank_seq(
        #[trigger] levels[i][j],
    ) by {
        if i == 0 {
            let l = s[j];
            assert(levels[0][j] == leaf_hash(l.0, l.1, l.2));
            lemma_digest_not_blank(crate::data_layer_m1::models::leaf_payload(l.0, l.1, l.2));
        } else {
            let prev = levels[i - 1];
            assert(levels[(i - 1) + 1] == next_level((i - 1) as nat, prev));
            let right = if 2 * j + 1 < prev.len() { prev[2 * j + 1] } else { prev[2 * j] };
            assert(levels[i][j] == node_hash((i - 1) as nat, prev[2 * j], right));
            lemma_digest_not_blank(
                "node|level:"@ + crate::text::dec_seq((i - 1) as nat) + "|left:"@ + prev[2 * j]
                    + "|right:"@ + right,
            );
        }
    }
}

proof fn lemma_fold_reaches_root(levels: Seq<Seq<Seq<char>>>, k: int, node: int)
    requires
        levels_well_formed(levels, 0),
        0 <= k < levels.len(),
        0 <= node < levels[k].len(),
    ensures
        fold_steps(levels[k][node], steps_from(levels, k, node), k as nat) == levels.last()[0],
        forall|i: int|
            0 <= i < steps_from(levels, k, node).len() ==> exists|a: int, b: int|
                0 <= a < levels.len() && 0 <= b < levels[a].len() && levels[a][b] == (
                #[trigger] steps_from(levels, k, node)[i]).0,
    decreases levels.len() - k,
{
    let steps = steps_from(levels, k, node);
    if k + 1 >= levels.len() {
        assert(steps.len() == 0);
    } else {
        let sib = sibling(levels[k], node);
        let rest = steps_from(levels, k + 1, node / 2);
        assert(steps == seq![sib] + rest);
        assert(levels[k + 1] == next_level(k as nat, levels[k]));
        assert(levels[k].len() > 1);
        assert(node / 2 < levels[k + 1].len());
        let up = combine(k as nat, levels[k][node], sib);
        assert(up == levels[k + 1][node / 2]) by {
            if node % 2 == 0 {
                assert(2 * (node / 2) == node);
            } else {
                assert(2 * (node / 2) == node - 1);
                assert(2 * (node / 2) + 1 == node);
            }
        }
        assert(steps[0] == sib);
        assert(steps.drop_first() =~= rest);
        lemma_fold_reaches_root(levels, k + 1, node / 2);
        assert forall|i: int| 0 <= i < steps.len() implies exists|a: int, b: int|
            0 <= a < levels.len() && 0 <= b < levels[a].len() && levels[a][b] == (
            #[trigger] steps[i]).0 by {
            if i == 0 {
                if node % 2 == 0 {
                    if node + 1 < levels[k].len() {
                        assert(levels[k][node + 1] == steps[0].0);
                    } else {
                        assert(levels[k][node] == steps[0].0);
                    }
                } else {
                    assert(levels[k][node - 1] == steps[0].0);
                }
            } else {
                assert(steps[i] == rest[i - 1]);
            }
        }
    }
}

proof fn lemma_leaf_checks_pass(s: Seq<LeafModel>, n: int, i: int)
    requires
        leaves_fault(s, n) is None,
        0 <= i < n,
    ensures
        leaf_check(s, i) is None,
    decreases n,
{
    if i < n - 1 {
        lemma_leaf_checks_pass(s, n - 1, i);
    }
}

/// Every inclusion proof of an assembled batch verifies: for ordered leaves
/// that pass validation, the proof built for any leaf passes every check of
/// [`verify_data_layer_m1_inclusion_proof`].
pub proof fn lemma_assembled_inclusion_proofs_verify(s: Seq<LeafModel>, p: int)
    requires
        s.len() >= 1,
        leaves_fault(s, s.len() as int) is None,
        0 <= p < s.len(),
    ensures
        proof_fault(
            built_proof(batch_hash(root_of(s), s.len(), s[0].0, s.last().0), root_of(s), s, p),
        ) is None,
{
    let levels = tree_levels(s);
    let root = root_of(s);
    let id = batch_hash(root, s.len(), s[0].0, s.last().0);
    let pr = built_proof(id, root, s, p);
    lemma_levels_not_blank(s);
    lemma_leaf_checks_pass(s, s.len() as int, p);
    lemma_digest_not_blank(
        "batch|root:"@ + root + "|count:"@ + crate::text::dec_seq(s.len()) + "|first:"@ + s[0].0
            + "|last:"@ + s.last().0,
    );
    assert(levels.last().len() == 1);
    assert(!is_blank_seq(levels[levels.len() - 1][0]));
    lemma_levels_from_well_formed(0, level_zero(s));
    assert(levels[0] == level_zero(s));
    assert(pr.leaf_hash == leaf_hash(s[p].0, s[p].1, s[p].2));
    lemma_fold_reaches_root(levels, 0, p);
    assert forall|i: int| 0 <= i < pr.steps.len() implies !is_blank_seq(#[trigger] pr.steps[i].0) by {
        let (a, b) = choose|a: int, b: int|
            0 <= a < levels.len() && 0 <= b < levels[a].len() && levels[a][b] == (
            #[trigger] steps_from(levels, 0, p)[i]).0;
        assert(!is_blank_seq(levels[a][b]));
    }
}

/// Every inclusion proof of an assembled batch verifies, stated on the batch.
pub proof fn lemma_batch_inclusion_proofs_verify(b: &DataLayerM1MerkleBatch, s: Seq<LeafModel>, p: int)
    requires
        b.assembled_from(s),
        0 <= p < s.len(),
    ensures
        proof_fault(built_proof(b.batch_id_text(), b.merkle_root_text(), b.leaves_model(), p)) is None,
{
    b.lemma_assembled(s);
    lemma_assembled_inclusion_proofs_verify(s, p);
}

} // verus!
