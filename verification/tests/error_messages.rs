use kamn_core::config::ConfigError;
use kamn_core::content_lifecycle::ContentLifecycleError;
use kamn_core::content_replication::ContentReplicationError;
use kamn_core::content_storage::ContentStorageError;
use kamn_core::cross_chain_bridge::{CrossChainBridgeError, CrossChainNetwork};
use kamn_core::data_classification::{DataClassificationError, DataClassificationLevel, WriteDomain};
use kamn_core::data_layer_m0::DataLayerM0Error;
use kamn_core::data_layer_m1::DataLayerM1Error;
use kamn_core::data_layer_m10_partition_archival::DataLayerM10PartitionLifecycleError;
use kamn_core::data_layer_m11_hardening_readiness::{DataLayerM11HardeningMatrixError, DataLayerM11ScenarioStatus};
use kamn_core::data_layer_m1_anchoring_orchestrator::DataLayerM1AnchoringOrchestratorError;

#[test]
fn message_texts_of_config_storage_lifecycle_and_replication_errors() {
    assert_eq!(ConfigError::EmptyChainId.message(), "chain_id must not be empty");
    assert_eq!(ConfigError::InvalidRole("x".to_owned()).message(), "invalid role: x");
    assert_eq!(ConfigError::MissingArgumentValue("--role").message(), "missing value for argument: --role");
    assert_eq!(
        ContentStorageError::IntegrityMismatch {
            cid: "c".to_owned(),
            expected: "e".to_owned(),
            found: "f".to_owned()
        }
        .message(),
        "content integrity mismatch for c; expected e, found f"
    );
    assert_eq!(ContentLifecycleError::NoCleanupDue("c".to_owned()).message(), "no cleanup action due for c");
    assert_eq!(
        ContentReplicationError::RepairAttemptsExceeded { cid: "c".to_owned(), max_attempts: 3 }.message(),
        "repair attempts exceeded for c; maximum configured attempts: 3"
    );
    assert_eq!(
        ContentReplicationError::Storage(ContentStorageError::NotFound("c".to_owned())).message(),
        "storage validation failed: content not found: c"
    );
}

#[test]
fn message_texts_of_bridge_classification_and_data_layer_errors() {
    assert_eq!(
        CrossChainBridgeError::InsufficientApprovals { required: 2, provided: 1 }.message(),
        "insufficient approvals: required 2, provided 1"
    );
    assert_eq!(
        CrossChainBridgeError::UnknownRouteChannel {
            chain: CrossChainNetwork::Solana,
            channel_id: "ch".to_owned()
        }
        .message(),
        "solana route not found: ch"
    );
    assert_eq!(
        DataClassificationError::ClassificationBelowDomainMinimum {
            domain: WriteDomain::Escrows,
            required: DataClassificationLevel::Sensitive,
            provided: DataClassificationLevel::Internal,
        }
        .message(),
        "classification level Internal is below minimum Sensitive for domain Escrows"
    );
    assert_eq!(
        DataClassificationError::MissingRequiredTags {
            level: DataClassificationLevel::Restricted,
            missing: vec!["a".to_owned(), "b".to_owned()],
        }
        .message(),
        "missing required tags for level Restricted: a, b"
    );
    assert_eq!(
        DataLayerM0Error::InvalidHashChainLink {
            position: 1,
            expected_prev: "x".to_owned(),
            found_prev: "y".to_owned()
        }
        .message(),
        "hash-chain link mismatch at position 1: expected x, found y"
    );
    assert_eq!(
        DataLayerM1Error::NonContiguousLeafIndexes { expected: 0, found: 12 }.message(),
        "non-contiguous leaf indexes: expected 0, found 12"
    );
    assert_eq!(
        DataLayerM1AnchoringOrchestratorError::M1(DataLayerM1Error::EmptyBatch).message(),
        "m1 evaluation failed: merkle batch must contain at least one leaf"
    );
    assert_eq!(
        DataLayerM10PartitionLifecycleError::InvalidRetryAttempt {
            field: "attempt",
            value: 7,
            reason_code: "r"
        }
        .message(),
        "invalid archival retry attempt for attempt: 7 (r)"
    );
    assert_eq!(
        DataLayerM11HardeningMatrixError::InvalidStatusTransition {
            scenario_id: "s".to_owned(),
            from_status: DataLayerM11ScenarioStatus::Passed,
            to_status: DataLayerM11ScenarioStatus::Failed,
            reason_code: "m11_invalid_status_transition",
        }
        .message(),
        "invalid status transition for s: Passed->Failed (m11_invalid_status_transition)"
    );
}
