use kamn_core::channel_policies::{
    ChannelPermissionEngine, ChannelPermissions, ChannelPolicyError, PermissionRule, RetentionPolicy,
};
use kamn_core::content_retrieval::{
    cache_key, ContentRetrievalConfig, ContentRetrievalEngine, ContentRetrievalError,
    ContentRetrievalOutcome, ContentRetrievalRequest, ContentRetrievalScope,
};
use kamn_core::content_storage::{ContentStorageAdapter, InMemoryContentAdapter};

#[test]
fn config_rejects_zero_ttl() {
    assert_eq!(
        ContentRetrievalConfig::new(0),
        Err(ContentRetrievalError::InvalidConfig("cache_ttl_secs"))
    );
}

#[test]
fn request_rejects_invalid_did() {
    assert_eq!(
        ContentRetrievalRequest::new(
            "kamn:cid:v1:aaaaaaaaaaaaaaaa",
            "invalid-did",
            ContentRetrievalScope::Task("task-1".to_owned()),
            1,
        ),
        Err(ContentRetrievalError::InvalidDid("invalid agent did prefix: invalid-did".to_owned()))
    );
}

#[test]
fn cache_key_is_scope_and_requester_specific() {
    let request = ContentRetrievalRequest::new(
        "kamn:cid:v1:aaaaaaaaaaaaaaaa",
        "kamn:did:agent:reader-1",
        ContentRetrievalScope::Task("task-1".to_owned()),
        1,
    )
    .expect("request should be valid");
    assert_eq!(
        cache_key(&request),
        "kamn:did:agent:reader-1|task:task-1|kamn:cid:v1:aaaaaaaaaaaaaaaa".to_owned()
    );
}

#[test]
fn request_checks_fields_in_order() {
    let task = || ContentRetrievalScope::Task("t".to_owned());
    assert_eq!(
        ContentRetrievalRequest::new(" ", "bad", task(), 0),
        Err(ContentRetrievalError::EmptyField("cid"))
    );
    assert_eq!(
        ContentRetrievalRequest::new("c", "kamn:did:agent:a", ContentRetrievalScope::Channel(" ".to_owned()), 0),
        Err(ContentRetrievalError::EmptyField("channel_id"))
    );
    assert_eq!(
        ContentRetrievalRequest::new("c", "kamn:did:agent:a", task(), 0),
        Err(ContentRetrievalError::EmptyField("requested_at_unix"))
    );
}

#[test]
fn task_scope_caches_and_audits() {
    let mut adapter = InMemoryContentAdapter::new();
    let cid = adapter.put("text/plain", b"payload").expect("put").cid;
    let mut engine = ContentRetrievalEngine::new(ContentRetrievalConfig::new(10).expect("config"));
    let request = ContentRetrievalRequest::new(
        &cid,
        "kamn:did:agent:reader-1",
        ContentRetrievalScope::Task("task-1".to_owned()),
        100,
    )
    .expect("request");
    assert_eq!(
        engine.retrieve(&adapter, &request, None),
        Err(ContentRetrievalError::Unauthorized {
            requester: "kamn:did:agent:reader-1".to_owned(),
            scope: ContentRetrievalScope::Task("task-1".to_owned()),
        })
    );
    assert_eq!(engine.grant_task_read(" ", "kamn:did:agent:reader-1"), Err(ContentRetrievalError::EmptyField("task_id")));
    engine.grant_task_read("task-1", "kamn:did:agent:reader-1").expect("grant");
    let first = engine.retrieve(&adapter, &request, None).expect("allowed");
    assert!(!first.from_cache);
    assert_eq!(first.payload, b"payload".to_vec());
    assert_eq!(first.media_type, "text/plain");
    let second = engine.retrieve(&adapter, &request, None).expect("allowed");
    assert!(second.from_cache);
    let late = ContentRetrievalRequest::new(
        &cid,
        "kamn:did:agent:reader-1",
        ContentRetrievalScope::Task("task-1".to_owned()),
        111,
    )
    .expect("request");
    assert!(!engine.retrieve(&adapter, &late, None).expect("allowed").from_cache);
    engine.invalidate_cache_for_cid(&cid);
    assert!(!engine.retrieve(&adapter, &late, None).expect("allowed").from_cache);
    let events = engine.audit_events();
    assert_eq!(events.len(), 5);
    assert_eq!(events[0].outcome, ContentRetrievalOutcome::Denied);
    assert!(events[2].cache_hit);
    assert_eq!(events[4].requested_at_unix, 111);
}

#[test]
fn channel_scope_uses_channel_read_rule() {
    let mut adapter = InMemoryContentAdapter::new();
    let cid = adapter.put("text/plain", b"x").expect("put").cid;
    let mut channels = ChannelPermissionEngine::new();
    channels
        .register_channel(
            "chan",
            vec!["kamn:did:agent:m".to_owned()],
            vec!["kamn:did:agent:m".to_owned()],
            ChannelPermissions {
                send: PermissionRule::Members,
                read: PermissionRule::Members,
                invite: PermissionRule::Admins,
                remove: PermissionRule::Admins,
                configure: PermissionRule::Admins,
                retention: RetentionPolicy::Forever,
            },
        )
        .expect("channel");
    let mut engine = ContentRetrievalEngine::new(ContentRetrievalConfig::new(5).expect("config"));
    let member = ContentRetrievalRequest::new(&cid, "kamn:did:agent:m", ContentRetrievalScope::Channel("chan".to_owned()), 1)
        .expect("request");
    assert_eq!(
        engine.retrieve(&adapter, &member, None),
        Err(ContentRetrievalError::MissingChannelPermissions("chan".to_owned()))
    );
    assert!(engine.retrieve(&adapter, &member, Some(&channels)).is_ok());
    let outsider = ContentRetrievalRequest::new(&cid, "kamn:did:agent:o", ContentRetrievalScope::Channel("chan".to_owned()), 1)
        .expect("request");
    assert!(matches!(
        engine.retrieve(&adapter, &outsider, Some(&channels)),
        Err(ContentRetrievalError::ChannelPolicy(ChannelPolicyError::Unauthorized { .. }))
    ));
}

#[test]
fn retrieval_after_invalidation_reads_storage_again() {
    let mut adapter = InMemoryContentAdapter::new();
    let cid = adapter.put("text/plain", b"payload").expect("put").cid;
    let mut engine = ContentRetrievalEngine::new(ContentRetrievalConfig::new(100).expect("config"));
    engine.grant_task_read("task-1", "kamn:did:agent:reader-1").expect("grant");
    engine.grant_task_read("task-2", "kamn:did:agent:reader-2").expect("grant");
    let at = |t: u64| {
        ContentRetrievalRequest::new(&cid, "kamn:did:agent:reader-1", ContentRetrievalScope::Task("task-1".to_owned()), t)
            .expect("request")
    };
    assert!(!engine.retrieve(&adapter, &at(10), None).expect("allowed").from_cache);
    assert!(engine.retrieve(&adapter, &at(11), None).expect("allowed").from_cache);
    engine.invalidate_cache_for_cid(&cid);
    let again = engine.retrieve(&adapter, &at(12), None).expect("allowed");
    assert!(!again.from_cache);
    assert_eq!(again.cid, cid);
    assert_eq!(again.payload, b"payload".to_vec());
}

#[test]
fn retrieval_reports_storage_errors() {
    let mut adapter = InMemoryContentAdapter::new();
    let cid = adapter.put("text/plain", b"payload").expect("put").cid;
    let mut engine = ContentRetrievalEngine::new(ContentRetrievalConfig::new(100).expect("config"));
    engine.grant_task_read("task-1", "kamn:did:agent:reader-1").expect("grant");
    let missing = ContentRetrievalRequest::new(
        "kamn:cid:v1:0000000000000000",
        "kamn:did:agent:reader-1",
        ContentRetrievalScope::Task("task-1".to_owned()),
        5,
    )
    .expect("request");
    assert_eq!(
        engine.retrieve(&adapter, &missing, None),
        Err(ContentRetrievalError::Storage(kamn_core::content_storage::ContentStorageError::NotFound(
            "kamn:cid:v1:0000000000000000".to_owned()
        )))
    );
    adapter.replace_payload_unchecked(&cid, b"changed".to_vec()).expect("tamper");
    let request =
        ContentRetrievalRequest::new(&cid, "kamn:did:agent:reader-1", ContentRetrievalScope::Task("task-1".to_owned()), 6)
            .expect("request");
    assert!(matches!(
        engine.retrieve(&adapter, &request, None),
        Err(ContentRetrievalError::Storage(kamn_core::content_storage::ContentStorageError::IntegrityMismatch { .. }))
    ));
    assert_eq!(engine.audit_events().len(), 0);
}
