use kamn_core::content_replication::{
    health_for_replicas, normalize_replica_nodes, ContentAvailabilityHealth,
    ContentRepairReason, ContentReplicationError, ContentReplicationManager,
    ContentReplicationPolicy,
};
use kamn_core::content_storage::{ContentStorageAdapter, ContentStorageError, InMemoryContentAdapter};

#[test]
fn policy_rejects_target_below_minimum() {
    assert_eq!(
        ContentReplicationPolicy::new(2, 1, 1),
        Err(ContentReplicationError::InvalidPolicy("target_replicas must be >= minimum_replicas"))
    );
}

#[test]
fn normalize_replica_nodes_rejects_empty_node_id() {
    assert_eq!(
        normalize_replica_nodes(&["node-a", ""]),
        Err(ContentReplicationError::EmptyField("replica_node"))
    );
}

#[test]
fn health_classification_marks_unavailable_when_zero_replicas() {
    assert_eq!(health_for_replicas(2, 0), ContentAvailabilityHealth::Unavailable);
}

#[test]
fn policy_checks_each_field() {
    assert_eq!(
        ContentReplicationPolicy::new(0, 1, 1),
        Err(ContentReplicationError::InvalidPolicy("minimum_replicas"))
    );
    assert_eq!(
        ContentReplicationPolicy::new(1, 1, 0),
        Err(ContentReplicationError::InvalidPolicy("max_repair_attempts"))
    );
    assert_eq!(
        ContentReplicationPolicy::new(1, 3, 2),
        Ok(ContentReplicationPolicy { minimum_replicas: 1, target_replicas: 3, max_repair_attempts: 2 })
    );
    assert_eq!(health_for_replicas(2, 1), ContentAvailabilityHealth::Degraded);
    assert_eq!(health_for_replicas(2, 2), ContentAvailabilityHealth::Healthy);
}

fn stored_cid(adapter: &mut InMemoryContentAdapter) -> String {
    adapter.put("text/plain", b"hello").expect("put should succeed").cid
}

#[test]
fn register_plan_and_repair_lifecycle() {
    let mut adapter = InMemoryContentAdapter::new();
    let cid = stored_cid(&mut adapter);
    let policy = ContentReplicationPolicy::new(2, 3, 2).expect("policy");
    let mut manager = ContentReplicationManager::new(policy);

    assert_eq!(
        manager.register_content(&adapter, "kamn:cid:v1:0000000000000000", &["n1"], 10),
        Err(ContentReplicationError::Storage(ContentStorageError::NotFound(
            "kamn:cid:v1:0000000000000000".to_owned()
        )))
    );
    assert_eq!(
        manager.register_content(&adapter, &cid, &["n1"], 0),
        Err(ContentReplicationError::EmptyField("checked_at_unix"))
    );
    let snapshot = manager
        .register_content(&adapter, &cid, &["n1", "n1"], 10)
        .expect("registration should succeed");
    assert_eq!(snapshot.available_replicas, 1);
    assert_eq!(snapshot.health, ContentAvailabilityHealth::Degraded);
    assert_eq!(snapshot.last_checked_unix, 10);

    let alerts = manager.availability_alerts();
    assert_eq!(alerts.len(), 1);
    assert_eq!(alerts[0].cid, cid);

    let actions = manager.plan_repairs();
    assert_eq!(actions.len(), 1);
    assert_eq!(actions[0].missing_replicas, 2);
    assert_eq!(actions[0].reason, ContentRepairReason::UnderReplicated);
    assert_eq!(actions[0].attempt, 1);
    assert!(manager.plan_repairs().is_empty());

    assert_eq!(manager.apply_repair_failure(&cid, 11), Ok(()));
    let retry = manager.plan_repairs();
    assert_eq!(retry[0].attempt, 2);
    assert_eq!(manager.apply_repair_failure(&cid, 12), Ok(()));
    assert_eq!(
        manager.apply_repair_failure(&cid, 13),
        Err(ContentReplicationError::RepairAttemptsExceeded { cid: cid.clone(), max_attempts: 2 })
    );
    assert!(manager.plan_repairs().is_empty());

    let healed = manager.apply_repair_success(&cid, "n2", 14).expect("repair should apply");
    assert_eq!(healed.available_replicas, 2);
    assert_eq!(healed.health, ContentAvailabilityHealth::Healthy);
    assert_eq!(healed.repair_attempts, 0);
    assert!(manager.availability_alerts().is_empty());
    assert_eq!(manager.availability(&cid).expect("tracked").last_checked_unix, 14);
    assert_eq!(
        manager.availability("other"),
        Err(ContentReplicationError::UnknownContent("other".to_owned()))
    );
    assert_eq!(
        manager.apply_repair_success(&cid, " ", 15),
        Err(ContentReplicationError::EmptyField("replica_node"))
    );
}

#[test]
fn zero_replicas_plan_missing_content() {
    let mut adapter = InMemoryContentAdapter::new();
    let cid = stored_cid(&mut adapter);
    let mut manager = ContentReplicationManager::new(ContentReplicationPolicy::new(1, 2, 1).expect("policy"));
    let snapshot = manager.register_content(&adapter, &cid, &[], 5).expect("registration");
    assert_eq!(snapshot.health, ContentAvailabilityHealth::Unavailable);
    let actions = manager.plan_repairs();
    assert_eq!(actions[0].reason, ContentRepairReason::MissingContent);
    assert_eq!(actions[0].missing_replicas, 2);
}

#[test]
fn register_content_returns_the_adapter_error() {
    let mut adapter = InMemoryContentAdapter::new();
    let cid = stored_cid(&mut adapter);
    let mut manager = ContentReplicationManager::new(ContentReplicationPolicy::new(1, 2, 1).expect("policy"));
    assert_eq!(
        manager.register_content(&adapter, "bad", &["n1"], 10),
        Err(ContentReplicationError::Storage(ContentStorageError::InvalidCid("bad".to_owned())))
    );
    assert_eq!(
        manager.register_content(&adapter, &cid, &["n1", " "], 10),
        Err(ContentReplicationError::EmptyField("replica_node"))
    );
    let tag = adapter.head(&cid).expect("head").integrity_tag;
    adapter.replace_payload_unchecked(&cid, b"other".to_vec()).expect("tamper");
    match manager.register_content(&adapter, &cid, &["n1"], 10) {
        Err(ContentReplicationError::Storage(ContentStorageError::IntegrityMismatch { cid: c, found, .. })) => {
            assert_eq!(c, cid);
            assert_eq!(found, tag);
        }
        other => panic!("unexpected {other:?}"),
    }
    assert_eq!(
        manager.availability(&cid),
        Err(ContentReplicationError::UnknownContent(cid.clone()))
    );
}

#[test]
fn alerts_match_unhealthy_snapshots_and_attempts_stay_bounded() {
    let mut adapter = InMemoryContentAdapter::new();
    let a = adapter.put("text/plain", b"a").expect("put").cid;
    let b = adapter.put("text/plain", b"b").expect("put").cid;
    let mut manager = ContentReplicationManager::new(ContentReplicationPolicy::new(2, 2, 1).expect("policy"));
    manager.register_content(&adapter, &a, &["n1", "n2"], 1).expect("register");
    manager.register_content(&adapter, &b, &["n1"], 1).expect("register");
    let alerts = manager.availability_alerts();
    assert_eq!(alerts.len(), 1);
    let snapshot = manager.availability(&b).expect("tracked");
    assert_eq!(alerts[0].cid, b);
    assert_eq!(alerts[0].health, snapshot.health);
    assert_eq!(alerts[0].available_replicas, snapshot.available_replicas);
    assert_eq!(alerts[0].repair_attempts, snapshot.repair_attempts);
    assert_eq!(manager.plan_repairs().len(), 1);
    assert!(manager.plan_repairs().is_empty());
    assert_eq!(manager.apply_repair_failure(&b, 2), Ok(()));
    assert!(manager.apply_repair_failure(&b, 3).is_err());
    assert_eq!(manager.availability(&b).expect("tracked").repair_attempts, 1);
    manager.register_content(&adapter, &b, &["n3"], 4).expect("register");
    assert_eq!(manager.availability(&b).expect("tracked").repair_attempts, 1);
    assert!(manager.plan_repairs().is_empty());
}
