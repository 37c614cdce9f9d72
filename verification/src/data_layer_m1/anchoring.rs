//! Idempotent anchoring bookkeeping: one nonce and one idempotency key per
//! batch, accepted receipts remembered per batch, and the mapping from a
//! runtime-commit reply to an anchoring result.
use vstd::prelude::*;
use crate::data_layer_m1::batch::DataLayerM1MerkleBatch;
use crate::data_layer_m1::models::{
    m1_digest, tagged_digest, DataLayerM1AnchorOutcome, DataLayerM1AnchorReceipt, DataLayerM1AnchorResult,
    DataLayerM1AnchorRetryClass, DataLayerM1Error, KolmeCommitReceiptFinality,
};
use crate::did::{agent_did_valid, AgentDid};
use crate::strmap::StrMap;
use crate::text::{dec_seq, dec_string, is_blank, is_blank_seq, str_eq};

verus! {

/// Receipt returned by the runtime-commit service.
#[derive(Debug, Clone, PartialEq, Eq)]
pub struct KolmeRuntimeCommitReceipt {
    pub provider: String,
    pub commit_id: String,
    pub finality: KolmeCommitReceiptFinality,
}

/// Reply of the runtime-commit service to one submission.
#[derive(Debug, Clone, PartialEq, Eq)]
pub enum KolmeRuntimeCommitOutcome {
    Submitted(KolmeRuntimeCommitReceipt),
    Duplicate(KolmeRuntimeCommitReceipt),
    Rejected { reason: String },
}

/// The deterministic inputs of one anchoring commit request.
#[derive(Debug, Clone, PartialEq, Eq)]
pub struct DataLayerM1AnchorRequestInputs {
    pub operation_id: String,
    pub state_root: String,
    pub actor_did: String,
    pub nonce: u64,
    pub payload_hash: String,
}

/// Anchoring worker state for idempotent batch anchoring.
#[derive(Debug)]
pub struct DataLayerM1KolmeAnchoringWorker {
    actor_did: AgentDid,
    state_root_prefix: String,
    next_nonce: u64,
    nonce_by_batch_id: StrMap<u64>,
    idempotency_by_batch_id: StrMap<String>,
    receipt_by_batch_id: StrMap<DataLayerM1AnchorReceipt>,
}

/// The receipt an anchoring result records for a runtime receipt.
pub open spec fn mapped_receipt(r: KolmeRuntimeCommitReceipt) -> (Seq<char>, Seq<char>, KolmeCommitReceiptFinality) {
    (r.provider@, r.commit_id@, r.finality)
}

/// An anchoring receipt as values.
pub open spec fn receipt_view(r: DataLayerM1AnchorReceipt) -> (Seq<char>, Seq<char>, KolmeCommitReceiptFinality) {
    (r.provider@, r.transaction_id@, r.finality)
}

/// Duplicate submissions still pending are retried; otherwise they are final.
pub open spec fn duplicate_retry_class(f: KolmeCommitReceiptFinality) -> DataLayerM1AnchorRetryClass {
    if f == KolmeCommitReceiptFinality::Pending {
        DataLayerM1AnchorRetryClass::RetryableInFlight
    } else {
        DataLayerM1AnchorRetryClass::FinalizedNoRetry
    }
}

/// `anchor-payload|batch:..|root:..|count:..|first:..|last:..`.
pub open spec fn anchor_payload_text(b: DataLayerM1MerkleBatch) -> Seq<char> {
    "anchor-payload|batch:"@ + b.batch_id_text() + "|root:"@ + b.merkle_root_text() + "|count:"@ + dec_seq(
        b.message_count_value() as nat,
    ) + "|first:"@ + b.first_message_id_text() + "|last:"@ + b.last_message_id_text()
}

/// The outcome an accepted receipt gives under a retry class.
pub open spec fn accepted_outcome_is(
    o: DataLayerM1AnchorOutcome,
    r: KolmeRuntimeCommitReceipt,
    class: DataLayerM1AnchorRetryClass,
) -> bool {
    match o {
        DataLayerM1AnchorOutcome::Submitted(x) => class == DataLayerM1AnchorRetryClass::NewSubmission && receipt_view(
            x,
        ) == mapped_receipt(r),
        DataLayerM1AnchorOutcome::Duplicate(x) => class != DataLayerM1AnchorRetryClass::NewSubmission
            && receipt_view(x) == mapped_receipt(r),
        DataLayerM1AnchorOutcome::Rejected { .. } => false,
    }
}

fn copy_receipt(r: &DataLayerM1AnchorReceipt) -> (c: DataLayerM1AnchorReceipt)
    ensures
        c == *r,
{
    DataLayerM1AnchorReceipt {
        provider: r.provider.clone(),
        transaction_id: r.transaction_id.clone(),
        finality: r.finality,
    }
}

fn retry_class_from_receipt(receipt: &KolmeRuntimeCommitReceipt) -> (r: DataLayerM1AnchorRetryClass)
    ensures
        r == duplicate_retry_class(receipt.finality),
{
    if receipt.finality == KolmeCommitReceiptFinality::Pending {
        DataLayerM1AnchorRetryClass::RetryableInFlight
    } else {
        DataLayerM1AnchorRetryClass::FinalizedNoRetry
    }
}

fn map_receipt(receipt: KolmeRuntimeCommitReceipt) -> (r: DataLayerM1AnchorReceipt)
    ensures
        receipt_view(r) == mapped_receipt(receipt),
{
    DataLayerM1AnchorReceipt {
        provider: receipt.provider,
        transaction_id: receipt.commit_id,
        finality: receipt.finality,
    }
}

fn build_outcome(receipt: DataLayerM1AnchorReceipt, retry_class: DataLayerM1AnchorRetryClass) -> (r:
    DataLayerM1AnchorOutcome)
    ensures
        retry_class == DataLayerM1AnchorRetryClass::NewSubmission ==> r == DataLayerM1AnchorOutcome::Submitted(
            receipt,
        ),
        retry_class != DataLayerM1AnchorRetryClass::NewSubmission ==> r == DataLayerM1AnchorOutcome::Duplicate(
            receipt,
        ),
{
    if retry_class == DataLayerM1AnchorRetryClass::NewSubmission {
        DataLayerM1AnchorOutcome::Submitted(receipt)
    } else {
        DataLayerM1AnchorOutcome::Duplicate(receipt)
    }
}

/// The anchor payload text of a batch.
pub fn anchor_payload(batch: &DataLayerM1MerkleBatch) -> (r: String)
    ensures
        r@ == anchor_payload_text(*batch),
{
    let mut out = "anchor-payload|batch:".to_owned();
    out.append(batch.batch_id_str());
    out.append("|root:");
    out.append(batch.merkle_root_str());
    out.append("|count:");
    out.append(dec_string(batch.message_count() as u64).as_str());
    out.append("|first:");
    out.append(batch.first_message_id_str());
    out.append("|last:");
    out.append(batch.last_message_id_str());
    proof {
        assert(out@ =~= anchor_payload_text(*batch));
    }
    out
}

impl DataLayerM1KolmeAnchoringWorker {
    #[verifier::type_invariant]
    closed spec fn inv(&self) -> bool {
        &&& self.nonce_by_batch_id.wf()
        &&& self.idempotency_by_batch_id.wf()
        &&& self.receipt_by_batch_id.wf()
        &&& self.next_nonce >= 1
        &&& forall|k: Seq<char>| #[trigger] self.nonce_by_batch_id.map().dom().contains(k)
            ==> 1 <= self.nonce_by_batch_id.map()[k] < self.next_nonce
        &&& forall|a: Seq<char>, b: Seq<char>|
            #![trigger self.nonce_by_batch_id.map()[a], self.nonce_by_batch_id.map()[b]]
            self.nonce_by_batch_id.map().dom().contains(a) && self.nonce_by_batch_id.map().dom().contains(b)
                && a != b ==> self.nonce_by_batch_id.map()[a] != self.nonce_by_batch_id.map()[b]
    }

    /// Nonces assigned so far, by batch id.
    pub closed spec fn nonces(&self) -> Map<Seq<char>, u64> {
        self.nonce_by_batch_id.map()
    }

    /// The nonce the next new batch receives.
    pub closed spec fn next_nonce_value(&self) -> u64 {
        self.next_nonce
    }

    /// Idempotency keys recorded so far, by batch id.
    pub closed spec fn idempotency_keys(&self) -> Map<Seq<char>, String> {
        self.idempotency_by_batch_id.map()
    }

    /// Accepted receipts recorded so far, by batch id.
    pub closed spec fn receipts(&self) -> Map<Seq<char>, DataLayerM1AnchorReceipt> {
        self.receipt_by_batch_id.map()
    }

    /// The actor DID's text.
    pub closed spec fn actor_text(&self) -> Seq<char> {
        self.actor_did.spec_text()
    }

    /// The state-root prefix's text.
    pub closed spec fn prefix_text(&self) -> Seq<char> {
        self.state_root_prefix@
    }

    /// Creates a worker for an actor DID and a non-blank state-root prefix.
    pub fn new(actor_did: &str, state_root_prefix: &str) -> (r: Result<Self, DataLayerM1Error>)
        ensures
            is_blank_seq(state_root_prefix@) ==> r == Err::<Self, _>(DataLayerM1Error::EmptyField("state_root_prefix")),
            !is_blank_seq(state_root_prefix@) && !agent_did_valid(actor_did@) ==> (r matches Err(e)
                && e matches DataLayerM1Error::InvalidActorDid(v) && v@ == actor_did@),
            !is_blank_seq(state_root_prefix@) && agent_did_valid(actor_did@) ==> (r matches Ok(w) && w.actor_text()
                == actor_did@ && w.prefix_text() == state_root_prefix@ && w.next_nonce_value() == 1 && w.nonces()
                == Map::<Seq<char>, u64>::empty() && w.idempotency_keys() == Map::<Seq<char>, String>::empty()
                && w.receipts() == Map::<Seq<char>, DataLayerM1AnchorReceipt>::empty()),
    {
        if is_blank(state_root_prefix) {
            return Err(DataLayerM1Error::EmptyField("state_root_prefix"));
        }
        let actor = match AgentDid::parse(actor_did) {
            Ok(a) => a,
            Err(_) => {
                return Err(DataLayerM1Error::InvalidActorDid(actor_did.to_owned()));
            },
        };
        Ok(
            DataLayerM1KolmeAnchoringWorker {
                actor_did: actor,
                state_root_prefix: state_root_prefix.to_owned(),
                next_nonce: 1,
                nonce_by_batch_id: StrMap::new(),
                idempotency_by_batch_id: StrMap::new(),
                receipt_by_batch_id: StrMap::new(),
            },
        )
    }

    /// The nonce of the next new batch.
    pub fn next_nonce(&self) -> (r: u64)
        ensures
            r == self.next_nonce_value(),
    {
        self.next_nonce
    }

    /// The result for a batch whose receipt was already accepted: a
    /// duplicate with that receipt, final, under its recorded key.
    pub fn existing_receipt_result(&self, batch: &DataLayerM1MerkleBatch) -> (r: Result<
        Option<DataLayerM1AnchorResult>,
        DataLayerM1Error,
    >)
        ensures
            !self.receipts().dom().contains(batch.batch_id_text()) ==> r == Ok::<_, DataLayerM1Error>(
                None::<DataLayerM1AnchorResult>,
            ),
            self.receipts().dom().contains(batch.batch_id_text()) && !self.idempotency_keys().dom().contains(
                batch.batch_id_text(),
            ) ==> r == Err::<Option<DataLayerM1AnchorResult>, _>(
                DataLayerM1Error::InvalidAnchoringState("missing idempotency key for accepted receipt"),
            ),
            self.receipts().dom().contains(batch.batch_id_text()) && self.idempotency_keys().dom().contains(
                batch.batch_id_text(),
            ) ==> (r matches Ok(Some(res)) && res.batch_id@ == batch.batch_id_text() && res.idempotency_key@
                == self.idempotency_keys()[batch.batch_id_text()]@ && res.retry_class
                == DataLayerM1AnchorRetryClass::FinalizedNoRetry && res.outcome == DataLayerM1AnchorOutcome::Duplicate(
                self.receipts()[batch.batch_id_text()],
            )),
    {
        proof {
            use_type_invariant(self);
        }
        let id = batch.batch_id_str();
        let receipt = match self.receipt_by_batch_id.get(id) {
            None => {
                return Ok(None);
            },
            Some(r) => copy_receipt(r),
        };
        let key = match self.idempotency_by_batch_id.get(id) {
            None => {
                return Err(DataLayerM1Error::InvalidAnchoringState("missing idempotency key for accepted receipt"));
            },
            Some(k) => k.clone(),
        };
        Ok(
            Some(
                DataLayerM1AnchorResult {
                    batch_id: id.to_owned(),
                    idempotency_key: key,
                    retry_class: DataLayerM1AnchorRetryClass::FinalizedNoRetry,
                    outcome: DataLayerM1AnchorOutcome::Duplicate(receipt),
                },
            ),
        )
    }

    /// The nonce of `batch_id`: the one it already holds, else the next
    /// nonce, which is then recorded for it.
    pub fn assign_or_resolve_nonce(&mut self, batch_id: &str) -> (r: u64)
        requires
            old(self).next_nonce_value() < u64::MAX,
        ensures
            old(self).nonces().dom().contains(batch_id@) ==> (r == old(self).nonces()[batch_id@] && final(self).nonces()
                == old(self).nonces() && final(self).next_nonce_value() == old(self).next_nonce_value()),
            !old(self).nonces().dom().contains(batch_id@) ==> (r == old(self).next_nonce_value() && final(self).nonces()
                == old(self).nonces().insert(batch_id@, r) && final(self).next_nonce_value() == old(
                self,
            ).next_nonce_value() + 1),
            forall|k: Seq<char>|
                #[trigger] final(self).nonces().dom().contains(k) && k != batch_id@ ==> final(self).nonces()[k] != r,
            1 <= r < final(self).next_nonce_value(),
            final(self).idempotency_keys() == old(self).idempotency_keys(),
            final(self).receipts() == old(self).receipts(),
            final(self).actor_text() == old(self).actor_text(),
            final(self).prefix_text() == old(self).prefix_text(),
    {
        proof {
            use_type_invariant(&*self);
        }
        match self.nonce_by_batch_id.get(batch_id) {
            Some(n) => {
                proof {
                    assert forall|k: Seq<char>| #[trigger] self.nonce_by_batch_id.map().dom().contains(k) && k
                        != batch_id@ implies self.nonce_by_batch_id.map()[k] != *n by {
                        assert(self.nonce_by_batch_id.map()[batch_id@] == *n);
                    }
                }
                return *n;
            },
            None => {},
        }
        let nonce = self.next_nonce;
        let ghost old_map = self.nonce_by_batch_id.map();
        let mut nonces: StrMap<u64> = StrMap::new();
        std::mem::swap(&mut nonces, &mut self.nonce_by_batch_id);
        nonces.insert(batch_id.to_owned(), nonce);
        proof {
            assert(nonces.map() == old_map.insert(batch_id@, nonce));
            assert forall|a: Seq<char>, b: Seq<char>|
                nonces.map().dom().contains(a) && nonces.map().dom().contains(b) && a != b implies #[trigger] nonces.map()[a]
                != #[trigger] nonces.map()[b] by {
                if a != batch_id@ && b != batch_id@ {
                    assert(old_map.dom().contains(a) && old_map.dom().contains(b));
                    assert(old_map[a] != old_map[b]);
                } else if a == batch_id@ {
                    assert(old_map.dom().contains(b));
                    assert(old_map[b] < nonce);
                } else {
                    assert(old_map.dom().contains(a));
                    assert(old_map[a] < nonce);
                }
            }
        }
        self.next_nonce = nonce + 1;
        self.nonce_by_batch_id = nonces;
        nonce
    }

    /// Records `key` as the idempotency key of `batch_id`; a different key
    /// for a batch that already has one is refused.
    pub fn upsert_idempotency(&mut self, batch_id: &str, idempotency_key: &str) -> (r: Result<(), DataLayerM1Error>)
        ensures
            old(self).idempotency_keys().dom().contains(batch_id@) && old(self).idempotency_keys()[batch_id@]@
                != idempotency_key@ ==> (r matches Err(e)
                && e matches DataLayerM1Error::ConflictingAnchoringIdempotencyKey {
                batch_id: b,
                existing_key: x,
                provided_key: p,
            } && b@ == batch_id@ && x@ == old(self).idempotency_keys()[batch_id@]@ && p@ == idempotency_key@
                && final(self).idempotency_keys() == old(self).idempotency_keys()),
            old(self).idempotency_keys().dom().contains(batch_id@) && old(self).idempotency_keys()[batch_id@]@
                == idempotency_key@ ==> (r is Ok && final(self).idempotency_keys() == old(self).idempotency_keys()),
            !old(self).idempotency_keys().dom().contains(batch_id@) ==> (r is Ok && final(self).idempotency_keys().dom()
                == old(self).idempotency_keys().dom().insert(batch_id@) && final(self).idempotency_keys()[batch_id@]@
                == idempotency_key@ && forall|k: Seq<char>| #[trigger] old(self).idempotency_keys().dom().contains(k)
                ==> final(self).idempotency_keys()[k] == old(self).idempotency_keys()[k]),
            final(self).nonces() == old(self).nonces(),
            final(self).next_nonce_value() == old(self).next_nonce_value(),
            final(self).receipts() == old(self).receipts(),
            final(self).actor_text() == old(self).actor_text(),
            final(self).prefix_text() == old(self).prefix_text(),
    {
        proof {
            use_type_invariant(&*self);
        }
        match self.idempotency_by_batch_id.get(batch_id) {
            Some(existing) => {
                if !str_eq(existing.as_str(), idempotency_key) {
                    return Err(
                        DataLayerM1Error::ConflictingAnchoringIdempotencyKey {
                            batch_id: batch_id.to_owned(),
                            existing_key: existing.clone(),
                            provided_key: idempotency_key.to_owned(),
                        },
                    );
                }
                return Ok(());
            },
            None => {},
        }
        let mut keys: StrMap<String> = StrMap::new();
        std::mem::swap(&mut keys, &mut self.idempotency_by_batch_id);
        keys.insert(batch_id.to_owned(), idempotency_key.to_owned());
        self.idempotency_by_batch_id = keys;
        Ok(())
    }

    /// Maps the runtime-commit reply for `batch` to an anchoring result,
    /// remembering accepted receipts for the batch.
    pub fn record_submit_outcome(
        &mut self,
        batch: &DataLayerM1MerkleBatch,
        idempotency_key: String,
        outcome: KolmeRuntimeCommitOutcome,
    ) -> (r: DataLayerM1AnchorResult)
        ensures
            r.batch_id@ == batch.batch_id_text(),
            r.idempotency_key@ == idempotency_key@,
            outcome matches KolmeRuntimeCommitOutcome::Rejected { reason } ==> (r.retry_class
                == DataLayerM1AnchorRetryClass::ConflictNoRetry && r.outcome == DataLayerM1AnchorOutcome::Rejected {
                reason,
            } && final(self).receipts() == old(self).receipts()),
            outcome matches KolmeRuntimeCommitOutcome::Submitted(rc) ==> (r.retry_class
                == DataLayerM1AnchorRetryClass::NewSubmission && accepted_outcome_is(r.outcome, rc, r.retry_class)
                && final(self).receipts().dom() == old(self).receipts().dom().insert(batch.batch_id_text())
                && receipt_view(final(self).receipts()[batch.batch_id_text()]) == mapped_receipt(rc)),
            outcome matches KolmeRuntimeCommitOutcome::Duplicate(rc) ==> (r.retry_class == duplicate_retry_class(
                rc.finality,
            ) && accepted_outcome_is(r.outcome, rc, r.retry_class) && final(self).receipts().dom() == old(
                self,
            ).receipts().dom().insert(batch.batch_id_text()) && receipt_view(
                final(self).receipts()[batch.batch_id_text()],
            ) == mapped_receipt(rc)),
            final(self).nonces() == old(self).nonces(),
            final(self).next_nonce_value() == old(self).next_nonce_value(),
            final(self).idempotency_keys() == old(self).idempotency_keys(),
            final(self).actor_text() == old(self).actor_text(),
            final(self).prefix_text() == old(self).prefix_text(),
    {
        proof {
            use_type_invariant(&*self);
        }
        let (receipt, retry_class) = match outcome {
            KolmeRuntimeCommitOutcome::Rejected { reason } => {
                return DataLayerM1AnchorResult {
                    batch_id: batch.batch_id_str().to_owned(),
                    idempotency_key,
                    retry_class: DataLayerM1AnchorRetryClass::ConflictNoRetry,
                    outcome: DataLayerM1AnchorOutcome::Rejected { reason },
                };
            },
            KolmeRuntimeCommitOutcome::Submitted(receipt) => (receipt, DataLayerM1AnchorRetryClass::NewSubmission),
            KolmeRuntimeCommitOutcome::Duplicate(receipt) => {
                let class = retry_class_from_receipt(&receipt);
                (receipt, class)
            },
        };
        let mapped = map_receipt(receipt);
        let stored = copy_receipt(&mapped);
        let mut receipts: StrMap<DataLayerM1AnchorReceipt> = StrMap::new();
        std::mem::swap(&mut receipts, &mut self.receipt_by_batch_id);
        receipts.insert(batch.batch_id_str().to_owned(), stored);
        self.receipt_by_batch_id = receipts;
        DataLayerM1AnchorResult {
            batch_id: batch.batch_id_str().to_owned(),
            idempotency_key,
            retry_class,
            outcome: build_outcome(mapped, retry_class),
        }
    }

    /// The deterministic inputs of the anchoring request for `batch` under
    /// `nonce`: operation id, state root, actor, nonce and payload hash.
    pub fn anchor_request_inputs(&self, batch: &DataLayerM1MerkleBatch, nonce: u64) -> (r:
        DataLayerM1AnchorRequestInputs)
        ensures
            r.operation_id@ == "data-layer-m1-anchor-"@ + batch.batch_id_text(),
            r.state_root@ == self.prefix_text() + ":"@ + batch.merkle_root_text(),
            r.actor_did@ == self.actor_text(),
            r.nonce == nonce,
            r.payload_hash@ == m1_digest(anchor_payload_text(*batch)),
    {
        let mut operation_id = "data-layer-m1-anchor-".to_owned();
        operation_id.append(batch.batch_id_str());
        let mut state_root = self.state_root_prefix.clone();
        state_root.append(":");
        state_root.append(batch.merkle_root_str());
        let payload_hash = tagged_digest(anchor_payload(batch).as_str());
        DataLayerM1AnchorRequestInputs {
            operation_id,
            state_root,
            actor_did: self.actor_did.as_str().to_owned(),
            nonce,
            payload_hash,
        }
    }
}

} // verus!
