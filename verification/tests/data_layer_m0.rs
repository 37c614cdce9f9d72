use kamn_core::data_layer_m0::{
    evaluate_data_layer_m0_conformance_matrix, DataLayerM0AppendOnlyLedger, DataLayerM0ConformanceInvariant,
    DataLayerM0ConformanceMatrixCase, DataLayerM0ConformanceMatrixDecision, DataLayerM0EnvelopeFields,
    DataLayerM0EnvelopeRecord, DataLayerM0Error, DataLayerM0RecordInput, DataLayerM0WrappedKey,
    DirectMessageCiphertext, DATA_LAYER_M0_COMPRESSION_CODEC_ZSTD, DATA_LAYER_M0_CONFORMANCE_MATRIX_DRIFT_REASON_CODE,
    DATA_LAYER_M0_CONFORMANCE_MATRIX_STABLE_REASON_CODE, DATA_LAYER_M0_HASH_CHAIN_GENESIS,
    DIRECT_MESSAGE_CIPHER_ALGORITHM, DIRECT_MESSAGE_KEY_AGREEMENT_ALGORITHM,
};

fn fixture_envelope(message_id: &str, nonce: u64) -> DataLayerM0EnvelopeFields {
    DataLayerM0EnvelopeFields {
        id: message_id.to_owned(),
        from: "kamn:did:agent:sender-1".to_owned(),
        to: vec![
            "kamn:did:agent:recipient-2".to_owned(),
            "kamn:did:agent:recipient-1".to_owned(),
        ],
        created: "2026-02-07T20:15:30.123Z".to_owned(),
        expires: "2026-02-07T20:45:30.123Z".to_owned(),
        message_type: "Request".to_owned(),
        canonical_payload: format!("envelope:{message_id}:nonce:{nonce}:payload-{message_id}"),
    }
}

fn fixture_ciphertext(nonce: u64) -> DirectMessageCiphertext {
    DirectMessageCiphertext {
        key_agreement_algorithm: DIRECT_MESSAGE_KEY_AGREEMENT_ALGORITHM.to_owned(),
        cipher_algorithm: DIRECT_MESSAGE_CIPHER_ALGORITHM.to_owned(),
        sender_key_ref: "kamn:did:agent:sender-1#key-agreement-1".to_owned(),
        recipient_key_ref: "kamn:did:agent:recipient-1#key-agreement-1".to_owned(),
        nonce,
        ciphertext: format!("cipher-{nonce}"),
        auth_tag: format!("auth-{nonce}"),
    }
}

fn fixture_input(message_id: &str, nonce: u64) -> DataLayerM0RecordInput {
    DataLayerM0RecordInput {
        envelope: fixture_envelope(message_id, nonce),
        ciphertext: fixture_ciphertext(nonce),
        wrapped_keys: vec![
            DataLayerM0WrappedKey {
                did: "kamn:did:agent:recipient-2".to_owned(),
                wrapped_cek: "cek-b".to_owned(),
            },
            DataLayerM0WrappedKey {
                did: "kamn:did:agent:recipient-1".to_owned(),
                wrapped_cek: "cek-a".to_owned(),
            },
        ],
        compression_codec: DATA_LAYER_M0_COMPRESSION_CODEC_ZSTD.to_owned(),
        compression_dict_id: Some(7),
        content_size_bytes: 128,
        compressed_size_bytes: 96,
    }
}

#[test]
fn unit_append_builds_expected_chain_links_and_sorts_projection_fields() {
    let mut ledger = DataLayerM0AppendOnlyLedger::new();
    let first = ledger
        .append(fixture_input("urn:uuid:msg-1", 41))
        .expect("first append should succeed");
    let second = ledger
        .append(fixture_input("urn:uuid:msg-2", 42))
        .expect("second append should succeed");

    assert_eq!(first.hash_chain_prev, DATA_LAYER_M0_HASH_CHAIN_GENESIS);
    assert_eq!(second.hash_chain_prev, first.content_hash);
    assert_eq!(
        first.recipient_dids,
        vec![
            "kamn:did:agent:recipient-1".to_owned(),
            "kamn:did:agent:recipient-2".to_owned()
        ]
    );
    assert_eq!(
        first.wrapped_keys,
        vec![
            DataLayerM0WrappedKey {
                did: "kamn:did:agent:recipient-1".to_owned(),
                wrapped_cek: "cek-a".to_owned(),
            },
            DataLayerM0WrappedKey {
                did: "kamn:did:agent:recipient-2".to_owned(),
                wrapped_cek: "cek-b".to_owned(),
            }
        ]
    );
    assert_eq!(ledger.verify_hash_chain(), Ok(()));
}

#[test]
fn regression_append_rejects_duplicate_message_id() {
    let mut ledger = DataLayerM0AppendOnlyLedger::new();
    let _ = ledger
        .append(fixture_input("urn:uuid:msg-1", 41))
        .expect("first append should succeed");
    let duplicate = ledger.append(fixture_input("urn:uuid:msg-1", 99));
    assert_eq!(
        duplicate,
        Err(DataLayerM0Error::DuplicateMessageId("urn:uuid:msg-1".to_owned()))
    );
}

#[test]
fn regression_verify_hash_chain_detects_tampered_previous_link() {
    let mut ledger = DataLayerM0AppendOnlyLedger::new();
    let first = ledger
        .append(fixture_input("urn:uuid:msg-1", 41))
        .expect("first append should succeed");
    let _second = ledger
        .append(fixture_input("urn:uuid:msg-2", 42))
        .expect("second append should succeed");

    ledger
        .replace_content_hash_unchecked("urn:uuid:msg-1", "sha256:deadbeef")
        .expect("tamper helper should succeed");

    assert_eq!(
        ledger.verify_hash_chain(),
        Err(DataLayerM0Error::InvalidHashChainLink {
            position: 1,
            expected_prev: "sha256:deadbeef".to_owned(),
            found_prev: first.content_hash,
        })
    );
}

#[test]
fn unit_conformance_matrix_projects_stable_and_drift_decisions() {
    let stable_cases = vec![
        DataLayerM0ConformanceMatrixCase {
            case_id: "c-01".to_owned(),
            invariant: DataLayerM0ConformanceInvariant::EnvelopeCryptoDeterministic,
            observed_passed: true,
            expected_passed: true,
        },
        DataLayerM0ConformanceMatrixCase {
            case_id: "c-02".to_owned(),
            invariant: DataLayerM0ConformanceInvariant::AppendOnlyDuplicateRejected,
            observed_passed: false,
            expected_passed: false,
        },
    ];
    let stable_report = evaluate_data_layer_m0_conformance_matrix(&stable_cases).expect("stable report");
    assert_eq!(
        stable_report.decision,
        DataLayerM0ConformanceMatrixDecision::Stable {
            reason_code: DATA_LAYER_M0_CONFORMANCE_MATRIX_STABLE_REASON_CODE,
        }
    );

    let drift_cases = vec![DataLayerM0ConformanceMatrixCase {
        case_id: "c-03".to_owned(),
        invariant: DataLayerM0ConformanceInvariant::HashChainTamperDetected,
        observed_passed: false,
        expected_passed: true,
    }];
    let drift_report = evaluate_data_layer_m0_conformance_matrix(&drift_cases).expect("drift report");
    assert_eq!(
        drift_report.decision,
        DataLayerM0ConformanceMatrixDecision::DriftDetected {
            reason_code: DATA_LAYER_M0_CONFORMANCE_MATRIX_DRIFT_REASON_CODE,
        }
    );
    assert_eq!(drift_report.evidence.len(), 1);
    assert!(drift_report.evidence[0].mismatch);
}

#[test]
fn m0_conformance_matrix_rejects_empty_and_blank_cases() {
    assert_eq!(
        evaluate_data_layer_m0_conformance_matrix(&[]),
        Err(DataLayerM0Error::InvalidConformanceMatrixInput("cases"))
    );
    let cases = vec![DataLayerM0ConformanceMatrixCase {
        case_id: " ".to_owned(),
        invariant: DataLayerM0ConformanceInvariant::HashChainTamperDetected,
        observed_passed: true,
        expected_passed: true,
    }];
    assert_eq!(
        evaluate_data_layer_m0_conformance_matrix(&cases),
        Err(DataLayerM0Error::InvalidConformanceMatrixInput("case_id"))
    );
}

#[test]
fn m0_derive_reports_each_error_in_order() {
    assert_eq!(
        DataLayerM0EnvelopeRecord::derive(fixture_input("m", 1), "  "),
        Err(DataLayerM0Error::EmptyField("hash_chain_prev"))
    );
    let mut input = fixture_input("m", 1);
    input.wrapped_keys.clear();
    assert_eq!(
        DataLayerM0EnvelopeRecord::derive(input, "GENESIS"),
        Err(DataLayerM0Error::EmptyWrappedKeys)
    );
    let mut input = fixture_input("m", 1);
    input.wrapped_keys[1].wrapped_cek = " ".to_owned();
    assert_eq!(
        DataLayerM0EnvelopeRecord::derive(input, "GENESIS"),
        Err(DataLayerM0Error::InvalidWrappedKey("wrapped_cek"))
    );
    let mut input = fixture_input("m", 1);
    input.wrapped_keys[0].did = "".to_owned();
    assert_eq!(
        DataLayerM0EnvelopeRecord::derive(input, "GENESIS"),
        Err(DataLayerM0Error::InvalidWrappedKey("did"))
    );
    let mut input = fixture_input("m", 1);
    input.compression_codec = "gzip".to_owned();
    assert_eq!(
        DataLayerM0EnvelopeRecord::derive(input, "GENESIS"),
        Err(DataLayerM0Error::InvalidCompressionCodec("gzip".to_owned()))
    );
    let mut input = fixture_input("m", 1);
    input.compressed_size_bytes = 200;
    assert_eq!(
        DataLayerM0EnvelopeRecord::derive(input, "GENESIS"),
        Err(DataLayerM0Error::InvalidCompressionSize {
            content_size_bytes: 128,
            compressed_size_bytes: 200
        })
    );
    let mut input = fixture_input("m", 1);
    input.ciphertext.nonce = 0;
    assert_eq!(
        DataLayerM0EnvelopeRecord::derive(input, "GENESIS"),
        Err(DataLayerM0Error::InvalidCiphertextMetadata("nonce"))
    );
    let mut input = fixture_input("m", 1);
    input.ciphertext.cipher_algorithm = "none".to_owned();
    assert_eq!(
        DataLayerM0EnvelopeRecord::derive(input, "GENESIS"),
        Err(DataLayerM0Error::InvalidCiphertextMetadata("cipher_algorithm"))
    );
    let mut input = fixture_input("m", 1);
    input.ciphertext.auth_tag = "".to_owned();
    assert_eq!(
        DataLayerM0EnvelopeRecord::derive(input, "GENESIS"),
        Err(DataLayerM0Error::InvalidCiphertextMetadata("auth_tag"))
    );
}

#[test]
fn m0_derive_hashes_are_deterministic_and_prev_sensitive() {
    let a = DataLayerM0EnvelopeRecord::derive(fixture_input("m", 5), "GENESIS").unwrap();
    let b = DataLayerM0EnvelopeRecord::derive(fixture_input("m", 5), "GENESIS").unwrap();
    let c = DataLayerM0EnvelopeRecord::derive(fixture_input("m", 5), "sha256:other").unwrap();
    assert_eq!(a, b);
    assert_ne!(a.content_hash, c.content_hash);
    assert_eq!(a.envelope_aad_hash, c.envelope_aad_hash);
    assert!(a.content_hash.starts_with("sha256:"));
    assert_eq!(a.content_hash.len(), "sha256:".len() + 64);
    assert_eq!(a.envelope_nonce, 5);
    assert_eq!(a.compression_dict_id, Some(7));
}

#[test]
fn m0_replace_content_hash_errors() {
    let mut ledger = DataLayerM0AppendOnlyLedger::new();
    ledger.append(fixture_input("urn:uuid:msg-1", 41)).unwrap();
    assert_eq!(
        ledger.replace_content_hash_unchecked("urn:uuid:msg-1", " "),
        Err(DataLayerM0Error::EmptyField("content_hash"))
    );
    assert_eq!(
        ledger.replace_content_hash_unchecked("urn:uuid:none", "sha256:x"),
        Err(DataLayerM0Error::NotFound("urn:uuid:none".to_owned()))
    );
    assert_eq!(ledger.records().len(), 1);
    assert_eq!(ledger.verify_hash_chain(), Ok(()));
}

#[test]
fn m0_record_hashes_are_label_and_sixty_four_hex_digits() {
    let record = DataLayerM0EnvelopeRecord::derive(fixture_input("urn:uuid:msg-9", 9), "genesis").expect("derive");
    for hash in [&record.content_hash, &record.envelope_aad_hash] {
        assert_eq!(hash.len(), 71);
        assert!(hash.starts_with("sha256:"));
        assert!(hash[7..].chars().all(|c| c.is_ascii_hexdigit() && !c.is_ascii_uppercase()));
    }
}
