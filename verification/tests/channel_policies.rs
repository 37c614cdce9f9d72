use kamn_core::channel_policies::{
    ChannelAction, ChannelPermissionEngine, ChannelPermissions, ChannelPolicyError,
    ChannelPolicySnapshot, ChannelPolicySnapshotError, PermissionRule, RetentionMessage,
    RetentionPolicy, CHANNEL_POLICY_SNAPSHOT_SCHEMA_VERSION,
};

fn permissions(retention: RetentionPolicy) -> ChannelPermissions {
    ChannelPermissions {
        send: PermissionRule::Members,
        read: PermissionRule::Members,
        invite: PermissionRule::Admins,
        remove: PermissionRule::Admins,
        configure: PermissionRule::Admins,
        retention,
    }
}

fn message(id: &str, created_at_secs: u64) -> RetentionMessage {
    RetentionMessage { id: id.to_owned(), created_at_secs }
}

#[test]
fn registration_rejects_admin_outside_members() {
    let mut engine = ChannelPermissionEngine::new();
    assert_eq!(
        engine.register_channel(
            "channel:group:1",
            vec!["kamn:did:agent:member-1".to_owned()],
            vec!["kamn:did:agent:admin-1".to_owned()],
            permissions(RetentionPolicy::Forever),
        ),
        Err(ChannelPolicyError::AdminNotMember("kamn:did:agent:admin-1".to_owned()))
    );
}

#[test]
fn max_count_retention_prunes_oldest_first() {
    let mut engine = ChannelPermissionEngine::new();
    engine
        .register_channel(
            "channel:group:2",
            vec!["kamn:did:agent:member-1".to_owned()],
            vec!["kamn:did:agent:member-1".to_owned()],
            permissions(RetentionPolicy::MaxMessageCount(2)),
        )
        .expect("registration should succeed");

    let candidates = engine
        .retention_candidates(
            "channel:group:2",
            500,
            vec![message("msg-c", 200), message("msg-a", 100), message("msg-b", 200)],
        )
        .expect("retention candidates should compute");

    assert_eq!(candidates, vec!["msg-a".to_owned()]);
}

#[test]
fn authorize_members_rule_requires_membership() {
    let mut engine = ChannelPermissionEngine::new();
    engine
        .register_channel(
            "channel:group:3",
            vec!["kamn:did:agent:member-1".to_owned()],
            vec!["kamn:did:agent:member-1".to_owned()],
            permissions(RetentionPolicy::Forever),
        )
        .expect("registration should succeed");

    assert_eq!(
        engine.authorize("channel:group:3", "kamn:did:agent:member-2", ChannelAction::Send),
        Err(ChannelPolicyError::Unauthorized {
            actor: "kamn:did:agent:member-2".to_owned(),
            action: ChannelAction::Send,
            rule: PermissionRule::Members,
        })
    );
}

#[test]
fn registration_rejects_empty_allowlist_rule() {
    let mut engine = ChannelPermissionEngine::new();
    let mut config = permissions(RetentionPolicy::Forever);
    config.send = PermissionRule::Allowlist(Vec::new());

    assert_eq!(
        engine.register_channel(
            "channel:group:4",
            vec!["kamn:did:agent:member-1".to_owned(), "kamn:did:agent:member-2".to_owned()],
            vec!["kamn:did:agent:member-1".to_owned()],
            config,
        ),
        Err(ChannelPolicyError::InvalidPermissionRule(
            "allowlist for send must not be empty".to_owned()
        ))
    );
}

#[test]
fn registration_rejects_allowlist_rule_with_invalid_did_entry() {
    let mut engine = ChannelPermissionEngine::new();
    let mut config = permissions(RetentionPolicy::Forever);
    config.send = PermissionRule::Allowlist(vec!["bad-did".to_owned()]);

    assert_eq!(
        engine.register_channel(
            "channel:group:5",
            vec!["kamn:did:agent:member-1".to_owned(), "kamn:did:agent:member-2".to_owned()],
            vec!["kamn:did:agent:member-1".to_owned()],
            config,
        ),
        Err(ChannelPolicyError::InvalidPermissionRule(
            "allowlist for send contains invalid did: bad-did".to_owned()
        ))
    );
}

#[test]
fn registration_checks_run_in_documented_order() {
    let mut engine = ChannelPermissionEngine::new();
    assert_eq!(
        engine.register_channel("  ", vec![], vec![], permissions(RetentionPolicy::Forever)),
        Err(ChannelPolicyError::EmptyChannelId)
    );
    assert_eq!(
        engine.register_channel("c", vec![], vec![], permissions(RetentionPolicy::Forever)),
        Err(ChannelPolicyError::EmptyMembers)
    );
    assert_eq!(
        engine.register_channel(
            "c",
            vec!["kamn:did:agent:a".to_owned()],
            vec![],
            permissions(RetentionPolicy::Forever)
        ),
        Err(ChannelPolicyError::EmptyAdmins)
    );
    assert_eq!(
        engine.register_channel(
            "c",
            vec!["bad".to_owned()],
            vec!["bad".to_owned()],
            permissions(RetentionPolicy::MaxMessageCount(0))
        ),
        Err(ChannelPolicyError::InvalidRetentionPolicy(
            "max message count must be greater than zero".to_owned()
        ))
    );
    assert_eq!(
        engine.register_channel(
            "c",
            vec!["kamn:did:agent:a".to_owned(), "bad".to_owned()],
            vec!["kamn:did:agent:a".to_owned()],
            permissions(RetentionPolicy::Forever)
        ),
        Err(ChannelPolicyError::InvalidDid("invalid agent did prefix: bad".to_owned()))
    );
    assert_eq!(
        engine.register_channel(
            "c",
            vec!["kamn:did:agent:a".to_owned()],
            vec!["nope".to_owned()],
            permissions(RetentionPolicy::Forever)
        ),
        Err(ChannelPolicyError::InvalidDid("invalid agent did prefix: nope".to_owned()))
    );
    assert_eq!(
        engine.register_channel(
            "c",
            vec!["kamn:did:agent:a".to_owned()],
            vec!["kamn:did:agent:a".to_owned()],
            permissions(RetentionPolicy::Forever)
        ),
        Ok(())
    );
    assert_eq!(
        engine.register_channel(
            "c",
            vec!["kamn:did:agent:a".to_owned()],
            vec!["kamn:did:agent:a".to_owned()],
            permissions(RetentionPolicy::Forever)
        ),
        Err(ChannelPolicyError::DuplicateChannelId("c".to_owned()))
    );
}

#[test]
fn allowlist_reports_least_invalid_entry() {
    let mut engine = ChannelPermissionEngine::new();
    let mut config = permissions(RetentionPolicy::Forever);
    config.read = PermissionRule::Allowlist(vec![
        "zzz".to_owned(),
        "kamn:did:agent:a".to_owned(),
        "mmm".to_owned(),
    ]);
    assert_eq!(
        engine.register_channel(
            "c",
            vec!["kamn:did:agent:a".to_owned()],
            vec!["kamn:did:agent:a".to_owned()],
            config,
        ),
        Err(ChannelPolicyError::InvalidPermissionRule(
            "allowlist for read contains invalid did: mmm".to_owned()
        ))
    );
}

#[test]
fn authorize_checks_did_channel_and_rules() {
    let mut engine = ChannelPermissionEngine::new();
    let mut config = permissions(RetentionPolicy::Forever);
    config.read = PermissionRule::All;
    config.configure = PermissionRule::Allowlist(vec!["kamn:did:agent:ops".to_owned()]);
    engine
        .register_channel(
            "c",
            vec!["kamn:did:agent:a".to_owned(), "kamn:did:agent:b".to_owned()],
            vec!["kamn:did:agent:a".to_owned()],
            config,
        )
        .expect("registration should succeed");
    assert_eq!(
        engine.authorize("c", "bad", ChannelAction::Read),
        Err(ChannelPolicyError::InvalidDid("invalid agent did prefix: bad".to_owned()))
    );
    assert_eq!(
        engine.authorize("missing", "kamn:did:agent:a", ChannelAction::Read),
        Err(ChannelPolicyError::NotFound("missing".to_owned()))
    );
    assert_eq!(engine.authorize("c", "kamn:did:agent:x", ChannelAction::Read), Ok(()));
    assert_eq!(engine.authorize("c", "kamn:did:agent:b", ChannelAction::Send), Ok(()));
    assert_eq!(engine.authorize("c", "kamn:did:agent:a", ChannelAction::Invite), Ok(()));
    assert!(engine.authorize("c", "kamn:did:agent:b", ChannelAction::Remove).is_err());
    assert_eq!(engine.authorize("c", "kamn:did:agent:ops", ChannelAction::Configure), Ok(()));
    assert_eq!(
        engine.authorize("c", "kamn:did:agent:a", ChannelAction::Configure),
        Err(ChannelPolicyError::Unauthorized {
            actor: "kamn:did:agent:a".to_owned(),
            action: ChannelAction::Configure,
            rule: PermissionRule::Allowlist(vec!["kamn:did:agent:ops".to_owned()]),
        })
    );
}

#[test]
fn max_age_retention_returns_sorted_expired_ids() {
    let mut engine = ChannelPermissionEngine::new();
    engine
        .register_channel(
            "c",
            vec!["kamn:did:agent:a".to_owned()],
            vec!["kamn:did:agent:a".to_owned()],
            permissions(RetentionPolicy::MaxAgeSeconds(100)),
        )
        .expect("registration should succeed");
    let candidates = engine
        .retention_candidates(
            "c",
            500,
            vec![
                message("m-9", 100),
                message("m-1", 399),
                message("m-5", 400),
                message("m-3", 600),
                message("m-2", 0),
            ],
        )
        .expect("retention candidates should compute");
    assert_eq!(candidates, vec!["m-1".to_owned(), "m-2".to_owned(), "m-9".to_owned()]);
    assert_eq!(
        engine.retention_candidates("other", 500, vec![]),
        Err(ChannelPolicyError::NotFound("other".to_owned()))
    );
}

#[test]
fn max_count_retention_keeps_everything_within_limit() {
    let mut engine = ChannelPermissionEngine::new();
    engine
        .register_channel(
            "c",
            vec!["kamn:did:agent:a".to_owned()],
            vec!["kamn:did:agent:a".to_owned()],
            permissions(RetentionPolicy::MaxMessageCount(3)),
        )
        .expect("registration should succeed");
    let kept = engine
        .retention_candidates("c", 0, vec![message("a", 1), message("b", 2), message("c", 3)])
        .expect("retention candidates should compute");
    assert!(kept.is_empty());
}

#[test]
fn snapshot_export_restore_round_trip() {
    let mut engine = ChannelPermissionEngine::new();
    engine
        .register_channel(
            "channel:b",
            vec!["kamn:did:agent:z".to_owned(), "kamn:did:agent:a".to_owned()],
            vec!["kamn:did:agent:z".to_owned()],
            permissions(RetentionPolicy::MaxAgeSeconds(60)),
        )
        .expect("registration should succeed");
    engine
        .register_channel(
            "channel:a",
            vec!["kamn:did:agent:m".to_owned()],
            vec!["kamn:did:agent:m".to_owned()],
            permissions(RetentionPolicy::Forever),
        )
        .expect("registration should succeed");
    let snapshot = engine.export_snapshot();
    assert_eq!(snapshot.schema_version, CHANNEL_POLICY_SNAPSHOT_SCHEMA_VERSION);
    assert_eq!(snapshot.channels.len(), 2);
    assert_eq!(snapshot.channels[0].channel_id, "channel:a");
    assert_eq!(
        snapshot.channels[1].members,
        vec!["kamn:did:agent:a".to_owned(), "kamn:did:agent:z".to_owned()]
    );
    let restored = ChannelPermissionEngine::from_snapshot(snapshot.clone())
        .expect("snapshot restore should succeed");
    assert_eq!(restored.export_snapshot(), snapshot);
}

#[test]
fn snapshot_restore_rejects_schema_and_bad_records() {
    let mut engine = ChannelPermissionEngine::new();
    let wrong = ChannelPolicySnapshot { schema_version: 2, channels: vec![] };
    assert_eq!(
        engine.restore_snapshot(wrong),
        Err(ChannelPolicySnapshotError::SchemaVersionMismatch { expected: 1, found: 2 })
    );
    engine
        .register_channel(
            "keep",
            vec!["kamn:did:agent:a".to_owned()],
            vec!["kamn:did:agent:a".to_owned()],
            permissions(RetentionPolicy::Forever),
        )
        .expect("registration should succeed");
    let mut snapshot = engine.export_snapshot();
    snapshot.channels.push(snapshot.channels[0].clone());
    let mut other = ChannelPermissionEngine::new();
    assert_eq!(
        other.restore_snapshot(snapshot),
        Err(ChannelPolicySnapshotError::ChannelPolicy(ChannelPolicyError::DuplicateChannelId(
            "keep".to_owned()
        )))
    );
    assert!(other.export_snapshot().channels.is_empty());
}
