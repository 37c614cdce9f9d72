use kamn_core::content_lifecycle::{
    ContentCleanupActionKind, ContentLifecycleError, ContentLifecycleManager,
    ContentLifecycleStatus, ContentRetentionClass,
};
use kamn_core::content_storage::content_uri_for_cid;

#[test]
fn register_rejects_duplicate_cid() {
    let mut manager = ContentLifecycleManager::new();
    manager
        .register("kamn:cid:v1:aaaaaaaaaaaaaaaa", ContentRetentionClass::ShortLived, 1)
        .expect("first registration should succeed");
    assert_eq!(
        manager.register("kamn:cid:v1:aaaaaaaaaaaaaaaa", ContentRetentionClass::ShortLived, 2),
        Err(ContentLifecycleError::DuplicateContent("kamn:cid:v1:aaaaaaaaaaaaaaaa".to_owned()))
    );
}

#[test]
fn status_reports_expired_after_ttl_boundary() {
    let mut manager = ContentLifecycleManager::new();
    let record = manager
        .register("kamn:cid:v1:bbbbbbbbbbbbbbbb", ContentRetentionClass::ShortLived, 10)
        .expect("register should succeed");
    assert_eq!(
        manager
            .lifecycle_status("kamn:cid:v1:bbbbbbbbbbbbbbbb", record.expires_at_unix + 1)
            .expect("status should resolve"),
        ContentLifecycleStatus::Expired
    );
}

#[test]
fn lifecycle_runs_from_active_to_purged() {
    let cid = "kamn:cid:v1:cccccccccccccccc";
    let mut manager = ContentLifecycleManager::new();
    let record = manager.register(cid, ContentRetentionClass::ShortLived, 100).expect("register");
    assert_eq!(record.expires_at_unix, 3_700);
    assert_eq!(manager.lifecycle_status(cid, 3_700), Ok(ContentLifecycleStatus::Active));
    assert_eq!(manager.assert_accessible(cid, 3_700), Ok(()));
    assert!(manager.cleanup_due(3_700).is_empty());
    assert_eq!(
        manager.execute_cleanup(cid, 3_700),
        Err(ContentLifecycleError::NoCleanupDue(cid.to_owned()))
    );
    let due = manager.cleanup_due(3_701);
    assert_eq!(due.len(), 1);
    assert_eq!(due[0].action, ContentCleanupActionKind::Tombstone);
    assert_eq!(manager.execute_cleanup(cid, 3_701), Ok(ContentCleanupActionKind::Tombstone));
    assert_eq!(
        manager.assert_accessible(cid, 3_702),
        Err(ContentLifecycleError::Tombstoned(cid.to_owned()))
    );
    assert!(manager.cleanup_due(7_301).is_empty());
    assert_eq!(manager.cleanup_due(7_302)[0].action, ContentCleanupActionKind::Purge);
    assert_eq!(manager.execute_cleanup(cid, 7_302), Ok(ContentCleanupActionKind::Purge));
    assert_eq!(manager.lifecycle_status(cid, 8_000), Ok(ContentLifecycleStatus::Purged));
    assert_eq!(
        manager.apply_tombstone(cid, 9_000),
        Err(ContentLifecycleError::Purged(cid.to_owned()))
    );
    let uri = content_uri_for_cid(cid).expect("uri");
    assert_eq!(
        manager.assert_uri_accessible(&uri, 9_000),
        Err(ContentLifecycleError::Purged(cid.to_owned()))
    );
    assert_eq!(
        manager.assert_uri_accessible("bogus", 9_000),
        Err(ContentLifecycleError::InvalidContentUri("bogus".to_owned()))
    );
}

#[test]
fn tombstone_is_idempotent() {
    let cid = "kamn:cid:v1:dddddddddddddddd";
    let mut manager = ContentLifecycleManager::new();
    manager.register(cid, ContentRetentionClass::Standard, 5).expect("register");
    let first = manager.apply_tombstone(cid, 50).expect("tombstone");
    assert_eq!(first.purge_after_unix, Some(50 + 86_400));
    let second = manager.apply_tombstone(cid, 60).expect("tombstone");
    assert_eq!(second, first);
    assert_eq!(
        manager.register("kamn:cid:v1:xyz", ContentRetentionClass::Standard, 5),
        Err(ContentLifecycleError::InvalidCid("kamn:cid:v1:xyz".to_owned()))
    );
    assert_eq!(
        manager.register("kamn:cid:v1:eeeeeeeeeeeeeeee", ContentRetentionClass::Compliance, 0),
        Err(ContentLifecycleError::EmptyField("created_at_unix"))
    );
}

#[test]
fn executing_listed_cleanup_settles_status() {
    let mut manager = ContentLifecycleManager::new();
    let a = "kamn:cid:v1:dddddddddddddddd";
    let b = "kamn:cid:v1:eeeeeeeeeeeeeeee";
    manager.register(a, ContentRetentionClass::ShortLived, 1).expect("register");
    manager.register(b, ContentRetentionClass::Standard, 1).expect("register");
    let due = manager.cleanup_due(3_602);
    assert_eq!(due.len(), 1);
    assert_eq!(due[0].cid, a);
    assert_eq!(
        manager.execute_cleanup(b, 3_602),
        Err(ContentLifecycleError::NoCleanupDue(b.to_owned()))
    );
    assert_eq!(manager.execute_cleanup(a, 3_602), Ok(due[0].action));
    assert_eq!(manager.lifecycle_status(a, 0), Ok(ContentLifecycleStatus::Tombstoned));
    assert_eq!(manager.lifecycle_status(a, 100_000), Ok(ContentLifecycleStatus::Tombstoned));
    assert_eq!(
        manager.execute_cleanup(a, 3_602),
        Err(ContentLifecycleError::NoCleanupDue(a.to_owned()))
    );
    assert!(manager.cleanup_due(7_202).is_empty());
    assert_eq!(manager.execute_cleanup(a, 7_203), Ok(ContentCleanupActionKind::Purge));
    assert_eq!(manager.lifecycle_status(a, 0), Ok(ContentLifecycleStatus::Purged));
    assert_eq!(
        manager.execute_cleanup(a, 9_000),
        Err(ContentLifecycleError::Purged(a.to_owned()))
    );
}
