use kamn_core::data_classification::{
    ClassificationPolicy, DataClassificationEngine, DataClassificationError, DataClassificationLevel, WriteDomain,
    WriteRequestContext, WriteTag,
};

fn policy() -> ClassificationPolicy {
    ClassificationPolicy {
        minimum_by_domain: vec![
            (WriteDomain::Messages, DataClassificationLevel::Internal),
            (WriteDomain::Tasks, DataClassificationLevel::Internal),
            (WriteDomain::Escrows, DataClassificationLevel::Sensitive),
            (WriteDomain::Reputation, DataClassificationLevel::Public),
        ],
        required_tags_by_level: Vec::new(),
    }
}

fn tag(level: DataClassificationLevel, tags: &[&str]) -> WriteTag {
    WriteTag {
        level,
        tags: tags.iter().map(|t| t.to_string()).collect(),
    }
}

#[test]
fn constructor_requires_domain_minimums() {
    assert_eq!(
        DataClassificationEngine::new(ClassificationPolicy {
            minimum_by_domain: Vec::new(),
            required_tags_by_level: Vec::new(),
        }),
        Err(DataClassificationError::InvalidPolicy(
            "missing minimum classification for domain Messages".to_owned()
        ))
    );
}

#[test]
fn authorize_rejects_invalid_did() {
    let mut engine = DataClassificationEngine::new(policy()).expect("engine should construct");

    assert_eq!(
        engine.authorize_write(&WriteRequestContext {
            domain: WriteDomain::Messages,
            record_id: "msg-1".to_owned(),
            actor: "bad-did".to_owned(),
            tag: WriteTag {
                level: DataClassificationLevel::Internal,
                tags: Default::default(),
            },
        }),
        Err(DataClassificationError::InvalidDid(
            "invalid agent did prefix: bad-did".to_owned()
        ))
    );
}

#[test]
fn status_marks_authorized_when_all_controls_pass() {
    let engine = DataClassificationEngine::new(policy()).expect("engine should construct");
    let status = engine
        .status_for(
            WriteDomain::Tasks,
            "task-1",
            WriteTag {
                level: DataClassificationLevel::Internal,
                tags: Default::default(),
            },
        )
        .expect("status should resolve");
    assert!(status.authorized);
    assert!(status.missing_tags.is_empty());
}

#[test]
fn classification_constructor_reports_later_missing_domain_and_blank_tag() {
    let mut p = policy();
    p.minimum_by_domain.retain(|(d, _)| *d != WriteDomain::Escrows);
    assert_eq!(
        DataClassificationEngine::new(p),
        Err(DataClassificationError::InvalidPolicy(
            "missing minimum classification for domain Escrows".to_owned()
        ))
    );
    let mut p = policy();
    p.required_tags_by_level = vec![(DataClassificationLevel::Sensitive, vec!["pii".to_owned(), " ".to_owned()])];
    assert_eq!(
        DataClassificationEngine::new(p),
        Err(DataClassificationError::InvalidTag(" ".to_owned()))
    );
}

#[test]
fn classification_authorize_checks_in_order_and_returns_state_key() {
    let mut p = policy();
    p.required_tags_by_level = vec![(
        DataClassificationLevel::Sensitive,
        vec!["pii".to_owned(), "gdpr".to_owned(), "pii".to_owned()],
    )];
    let mut engine = DataClassificationEngine::new(p).unwrap();
    let actor = "kamn:did:agent:alice".to_owned();
    let ctx = |domain, record_id: &str, t: WriteTag| WriteRequestContext {
        domain,
        record_id: record_id.to_owned(),
        actor: actor.clone(),
        tag: t,
    };
    assert_eq!(
        engine.authorize_write(&ctx(WriteDomain::Messages, " ", tag(DataClassificationLevel::Internal, &[]))),
        Err(DataClassificationError::EmptyField("record_id"))
    );
    assert_eq!(
        engine.authorize_write(&ctx(WriteDomain::Messages, "m", tag(DataClassificationLevel::Internal, &["ok", ""]))),
        Err(DataClassificationError::InvalidTag("".to_owned()))
    );
    assert_eq!(
        engine.authorize_write(&ctx(WriteDomain::Escrows, "e-1", tag(DataClassificationLevel::Restricted, &[]))),
        Err(DataClassificationError::UntaggedSensitiveWrite("e-1".to_owned()))
    );
    assert_eq!(
        engine.authorize_write(&ctx(WriteDomain::Escrows, "e-1", tag(DataClassificationLevel::Internal, &[]))),
        Err(DataClassificationError::ClassificationBelowDomainMinimum {
            domain: WriteDomain::Escrows,
            required: DataClassificationLevel::Sensitive,
            provided: DataClassificationLevel::Internal,
        })
    );
    assert_eq!(
        engine.authorize_write(&ctx(WriteDomain::Escrows, "e-1", tag(DataClassificationLevel::Sensitive, &["pii"]))),
        Err(DataClassificationError::MissingRequiredTags {
            level: DataClassificationLevel::Sensitive,
            missing: vec!["gdpr".to_owned()],
        })
    );
    assert_eq!(
        engine.authorize_write(&ctx(
            WriteDomain::Escrows,
            "e-1",
            tag(DataClassificationLevel::Sensitive, &["pii", "gdpr", "extra"])
        )),
        Ok("kamn.escrows:record:e-1".to_owned())
    );
    assert_eq!(
        engine.authorize_write(&ctx(WriteDomain::Reputation, "r-9", tag(DataClassificationLevel::Public, &[]))),
        Ok("kamn.reputation:record:r-9".to_owned())
    );
}

#[test]
fn classification_status_lists_missing_tags_sorted_once() {
    let mut p = policy();
    p.required_tags_by_level = vec![
        (DataClassificationLevel::Restricted, vec!["old".to_owned()]),
        (
            DataClassificationLevel::Restricted,
            vec!["zeta".to_owned(), "alpha".to_owned(), "zeta".to_owned(), "mid".to_owned()],
        ),
    ];
    let engine = DataClassificationEngine::new(p).unwrap();
    let status = engine
        .status_for(WriteDomain::Messages, "m-1", tag(DataClassificationLevel::Restricted, &["mid"]))
        .unwrap();
    assert_eq!(status.missing_tags, vec!["alpha".to_owned(), "zeta".to_owned()]);
    assert!(!status.authorized);
    assert_eq!(status.minimum_level, DataClassificationLevel::Internal);
    assert_eq!(status.provided_level, DataClassificationLevel::Restricted);

    let status = engine
        .status_for(WriteDomain::Escrows, "e-1", tag(DataClassificationLevel::Internal, &[]))
        .unwrap();
    assert!(!status.authorized);
    assert_eq!(
        engine.status_for(WriteDomain::Escrows, "e-1", tag(DataClassificationLevel::Sensitive, &[])),
        Err(DataClassificationError::UntaggedSensitiveWrite("e-1".to_owned()))
    );
}
