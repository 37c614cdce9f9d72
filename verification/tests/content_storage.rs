use kamn_core::content_storage::{
    cid_for_payload, cid_from_content_uri, content_uri_for_cid, fnv1a_hex,
    integrity_tag_for_payload, parse_content_store_payload, serialize_content_store_payload,
    validate_cid, ContentStorageAdapter, ContentStorageError, InMemoryContentAdapter, StoredObject,
};
use kamn_core::strmap::StrMap;

#[test]
fn cid_for_payload_is_deterministic() {
    let first = cid_for_payload(b"payload");
    let second = cid_for_payload(b"payload");
    assert_eq!(first, second);
}

#[test]
fn validate_cid_rejects_invalid_digest() {
    assert_eq!(
        validate_cid("kamn:cid:v1:nothex"),
        Err(ContentStorageError::InvalidCid("kamn:cid:v1:nothex".to_owned()))
    );
}

#[test]
fn content_uri_round_trip_preserves_cid() {
    let cid = cid_for_payload(b"round-trip");
    let uri = content_uri_for_cid(&cid).expect("uri should be valid");
    let decoded = cid_from_content_uri(&uri).expect("uri should decode");
    assert_eq!(decoded, cid);
}

#[test]
fn fnv1a_hex_produces_expected_width() {
    assert_eq!(fnv1a_hex(b"abc").len(), 16);
}

#[test]
fn digests_have_expected_values() {
    assert_eq!(fnv1a_hex(b""), "cbf29ce484222325");
    assert_eq!(cid_for_payload(b""), "kamn:cid:v1:cbf29ce484222325");
    assert_eq!(integrity_tag_for_payload(b""), "fnv1a64:cbf29ce484222325");
    assert_ne!(fnv1a_hex(b"a"), fnv1a_hex(b"b"));
}

#[test]
fn in_memory_adapter_detects_tampering() {
    let mut adapter = InMemoryContentAdapter::new();
    assert_eq!(adapter.put(" ", b"x"), Err(ContentStorageError::EmptyField("media_type")));
    let head = adapter.put("text/plain", b"hello").expect("put");
    assert_eq!(head.size_bytes, 5);
    assert_eq!(adapter.verify(&head.cid), Ok(()));
    let object = adapter.get(&head.cid).expect("get");
    assert_eq!(object.payload, b"hello".to_vec());
    adapter.replace_payload_unchecked(&head.cid, b"HELLO".to_vec()).expect("tamper");
    assert!(matches!(adapter.verify(&head.cid), Err(ContentStorageError::IntegrityMismatch { .. })));
    assert_eq!(
        adapter.head("kamn:cid:v1:0000000000000000"),
        Err(ContentStorageError::NotFound("kamn:cid:v1:0000000000000000".to_owned()))
    );
}

#[test]
fn store_payload_round_trips() {
    let mut objects: StrMap<StoredObject> = StrMap::new();
    objects.insert(
        cid_for_payload(b"one"),
        StoredObject {
            media_type: "text/plain".to_owned(),
            payload: b"one".to_vec(),
            integrity_tag: integrity_tag_for_payload(b"one"),
        },
    );
    let text = serialize_content_store_payload(&objects);
    assert!(text.starts_with("schema|"));
    let parsed = parse_content_store_payload(&text).expect("round trip");
    assert_eq!(parsed, objects);
    assert!(matches!(
        parse_content_store_payload("schema|other\n"),
        Err(ContentStorageError::InvalidPayload(_))
    ));
    assert_eq!(parse_content_store_payload("   \n"), Ok(StrMap::new()));
}

#[test]
fn replaced_payload_reports_expected_and_found_tags() {
    let mut adapter = InMemoryContentAdapter::new();
    let head = adapter.put("text/plain", b"hello").expect("put");
    adapter.replace_payload_unchecked(&head.cid, b"HELLO".to_vec()).expect("tamper");
    let object = adapter.get(&head.cid).expect("get");
    assert_eq!(object.payload, b"HELLO".to_vec());
    assert_eq!(object.integrity_tag, head.integrity_tag);
    assert_eq!(
        adapter.verify(&head.cid),
        Err(ContentStorageError::IntegrityMismatch {
            cid: head.cid.clone(),
            expected: integrity_tag_for_payload(b"HELLO"),
            found: head.integrity_tag.clone(),
        })
    );
    assert_eq!(
        adapter.verify("bad"),
        Err(ContentStorageError::InvalidCid("bad".to_owned()))
    );
}
