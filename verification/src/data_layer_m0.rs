//! M0 data-layer foundation records and append-only verification contracts.
//!
//! A record is derived deterministically from an envelope's fields, its
//! ciphertext metadata and the wrapped content keys; the append-only ledger
//! chains each record to the previous record's content hash, starting from
//! the `GENESIS` marker. Digests are `sha256:`-labelled SHA-256 hex strings.
use vstd::prelude::*;
use crate::digest::{tagged_sha256, tagged_sha256_text};
use crate::sorting::{pair_leq, sort_string_pairs, sort_strings, str_leq, string_pairs_view};
use crate::text::{copy_strings, dec_seq, dec_string, is_blank, is_blank_seq, join_seqs, join_strings, str_eq, str_views};

verus! {

/// Required compression codec for M0 envelope records.
pub const DATA_LAYER_M0_COMPRESSION_CODEC_ZSTD: &'static str = "zstd";
/// Hash label used by M0 content and AAD digests.
pub const DATA_LAYER_M0_HASH_ALGORITHM: &'static str = "sha256";
/// Genesis marker used by the first append-only ledger record.
pub const DATA_LAYER_M0_HASH_CHAIN_GENESIS: &'static str = "GENESIS";
/// Conformance-matrix decision reason when all invariants match expectations.
pub const DATA_LAYER_M0_CONFORMANCE_MATRIX_STABLE_REASON_CODE: &'static str = "m0_conformance_stable";
/// Conformance-matrix decision reason when at least one invariant drifts.
pub const DATA_LAYER_M0_CONFORMANCE_MATRIX_DRIFT_REASON_CODE: &'static str = "m0_conformance_drift_detected";
/// Key-agreement algorithm required of direct-message ciphertexts.
pub const DIRECT_MESSAGE_KEY_AGREEMENT_ALGORITHM: &'static str = "X25519";
/// Cipher algorithm required of direct-message ciphertexts.
pub const DIRECT_MESSAGE_CIPHER_ALGORITHM: &'static str = "XChaCha20-Poly1305";

/// Wrapped CEK entry bound to one authorized DID.
#[derive(Debug, Clone, PartialEq, Eq)]
pub struct DataLayerM0WrappedKey {
    /// Recipient DID for this wrapped CEK.
    pub did: String,
    /// Wrapped CEK payload.
    pub wrapped_cek: String,
}

/// The envelope fields that an M0 record is derived from.
#[derive(Debug, Clone, PartialEq, Eq)]
pub struct DataLayerM0EnvelopeFields {
    /// Message identifier.
    pub id: String,
    /// Sender DID.
    pub from: String,
    /// Recipient DIDs, in envelope order.
    pub to: Vec<String>,
    /// Creation timestamp.
    pub created: String,
    /// Expiry timestamp.
    pub expires: String,
    /// Message-type label.
    pub message_type: String,
    /// The envelope's canonical serialized payload.
    pub canonical_payload: String,
}

/// Encrypted payload and direct-message crypto metadata.
#[derive(Debug, Clone, PartialEq, Eq)]
pub struct DirectMessageCiphertext {
    pub key_agreement_algorithm: String,
    pub cipher_algorithm: String,
    pub sender_key_ref: String,
    pub recipient_key_ref: String,
    pub nonce: u64,
    pub ciphertext: String,
    pub auth_tag: String,
}

/// Input payload for deriving one append-only M0 envelope record.
#[derive(Debug, Clone, PartialEq, Eq)]
pub struct DataLayerM0RecordInput {
    /// Envelope fields.
    pub envelope: DataLayerM0EnvelopeFields,
    /// Encrypted payload + direct-message crypto metadata.
    pub ciphertext: DirectMessageCiphertext,
    /// Wrapped CEK entries for authorized readers.
    pub wrapped_keys: Vec<DataLayerM0WrappedKey>,
    /// Compression codec marker (must be zstd for M0).
    pub compression_codec: String,
    /// Optional dictionary identifier used by compression.
    pub compression_dict_id: Option<u32>,
    /// Uncompressed envelope size.
    pub content_size_bytes: usize,
    /// Stored compressed size.
    pub compressed_size_bytes: usize,
}

/// Stored append-only M0 message record.
#[derive(Debug, Clone, PartialEq, Eq)]
pub struct DataLayerM0EnvelopeRecord {
    pub message_id: String,
    pub content_hash: String,
    pub hash_chain_prev: String,
    pub sender_did: String,
    pub recipient_dids: Vec<String>,
    pub message_type: String,
    pub envelope_ciphertext: String,
    pub envelope_nonce: u64,
    pub envelope_aad_hash: String,
    pub wrapped_keys: Vec<DataLayerM0WrappedKey>,
    pub compression_codec: String,
    pub compression_dict_id: Option<u32>,
    pub content_size_bytes: usize,
    pub compressed_size_bytes: usize,
}

/// Error taxonomy for M0 record derivation and append-only verification.
#[derive(Debug, Clone, PartialEq, Eq)]
pub enum DataLayerM0Error {
    EmptyField(&'static str),
    InvalidWrappedKey(&'static str),
    EmptyWrappedKeys,
    InvalidCompressionCodec(String),
    InvalidCompressionSize { content_size_bytes: usize, compressed_size_bytes: usize },
    InvalidCiphertextMetadata(&'static str),
    DuplicateMessageId(String),
    InvalidHashChainLink { position: usize, expected_prev: String, found_prev: String },
    InvalidConformanceMatrixInput(&'static str),
    NotFound(String),
}

// ---------------------------------------------------------------------------
// Derivation model
// ---------------------------------------------------------------------------

/// The first malformed field among the wrapped keys, in input order.
pub open spec fn wrapped_key_fault(keys: Seq<DataLayerM0WrappedKey>) -> Option<&'static str>
    decreases keys.len(),
{
    if keys.len() == 0 {
        None
    } else if is_blank_seq(keys[0].did@) {
        Some("did")
    } else if is_blank_seq(keys[0].wrapped_cek@) {
        Some("wrapped_cek")
    } else {
        wrapped_key_fault(keys.drop_first())
    }
}

/// The first violated ciphertext-metadata rule.
pub open spec fn ciphertext_fault(c: DirectMessageCiphertext) -> Option<&'static str> {
    if c.key_agreement_algorithm@ != DIRECT_MESSAGE_KEY_AGREEMENT_ALGORITHM@ {
        Some("key_agreement_algorithm")
    } else if c.cipher_algorithm@ != DIRECT_MESSAGE_CIPHER_ALGORITHM@ {
        Some("cipher_algorithm")
    } else if c.nonce == 0 {
        Some("nonce")
    } else if is_blank_seq(c.ciphertext@) {
        Some("ciphertext")
    } else if is_blank_seq(c.auth_tag@) {
        Some("auth_tag")
    } else {
        None
    }
}

/// Whether the compression sizes are acceptable.
pub open spec fn sizes_valid(content: usize, compressed: usize) -> bool {
    content != 0 && compressed != 0 && compressed <= content
}

/// The error that derivation reports, checked in order: chain pointer,
/// wrapped keys, codec, sizes, ciphertext metadata.
pub open spec fn derive_fault(input: DataLayerM0RecordInput, prev: Seq<char>) -> Option<DataLayerM0Error> {
    if is_blank_seq(prev) {
        Some(DataLayerM0Error::EmptyField("hash_chain_prev"))
    } else if input.wrapped_keys@.len() == 0 {
        Some(DataLayerM0Error::EmptyWrappedKeys)
    } else if wrapped_key_fault(input.wrapped_keys@) is Some {
        Some(DataLayerM0Error::InvalidWrappedKey(wrapped_key_fault(input.wrapped_keys@)->0))
    } else if input.compression_codec@ != DATA_LAYER_M0_COMPRESSION_CODEC_ZSTD@ {
        Some(DataLayerM0Error::InvalidCompressionCodec(input.compression_codec))
    } else if !sizes_valid(input.content_size_bytes, input.compressed_size_bytes) {
        Some(
            DataLayerM0Error::InvalidCompressionSize {
                content_size_bytes: input.content_size_bytes,
                compressed_size_bytes: input.compressed_size_bytes,
            },
        )
    } else if ciphertext_fault(input.ciphertext) is Some {
        Some(DataLayerM0Error::InvalidCiphertextMetadata(ciphertext_fault(input.ciphertext)->0))
    } else {
        None
    }
}

/// Recipients in std's string order.
pub open spec fn sorted_recipients(e: DataLayerM0EnvelopeFields) -> Seq<Seq<char>> {
    str_views(e.to@).sort_by(str_leq())
}

/// Views of wrapped keys as (did, wrapped CEK).
pub open spec fn wrapped_keys_view(keys: Seq<DataLayerM0WrappedKey>) -> Seq<(Seq<char>, Seq<char>)> {
    keys.map_values(|k: DataLayerM0WrappedKey| (k.did@, k.wrapped_cek@))
}

/// Wrapped keys ordered by DID, then wrapped CEK.
pub open spec fn sorted_wrapped_keys(keys: Seq<DataLayerM0WrappedKey>) -> Seq<(Seq<char>, Seq<char>)> {
    wrapped_keys_view(keys).sort_by(pair_leq())
}

/// `sender|recipients joined by ','|created|expires|message_type`.
pub open spec fn aad_payload(e: DataLayerM0EnvelopeFields) -> Seq<char> {
    e.from@ + "|"@ + join_seqs(sorted_recipients(e), ","@) + "|"@ + e.created@ + "|"@ + e.expires@ + "|"@
        + e.message_type@
}

/// The labelled digest used for AAD and content hashes.
pub open spec fn m0_digest(value: Seq<char>) -> Seq<char> {
    tagged_sha256_text(DATA_LAYER_M0_HASH_ALGORITHM@, value)
}

/// Sorted wrapped keys as `did=cek`, joined by `|`.
pub open spec fn wrapped_payload(keys: Seq<DataLayerM0WrappedKey>) -> Seq<char> {
    join_seqs(
        sorted_wrapped_keys(keys).map_values(|p: (Seq<char>, Seq<char>)| p.0 + "="@ + p.1),
        "|"@,
    )
}

/// The dictionary marker: its decimal digits, or nothing.
pub open spec fn dict_marker(d: Option<u32>) -> Seq<char> {
    match d {
        Some(v) => dec_seq(v as nat),
        None => Seq::empty(),
    }
}

/// The canonical storage payload whose digest is the content hash.
pub open spec fn storage_payload(input: DataLayerM0RecordInput, prev: Seq<char>) -> Seq<char> {
    input.envelope.canonical_payload@ + "|aad:"@ + m0_digest(aad_payload(input.envelope)) + "|cipher:"@
        + input.ciphertext.ciphertext@ + "|nonce:"@ + dec_seq(input.ciphertext.nonce as nat) + "|auth:"@
        + input.ciphertext.auth_tag@ + "|wrapped:"@ + wrapped_payload(input.wrapped_keys@) + "|codec:"@
        + input.compression_codec@ + "|dict:"@ + dict_marker(input.compression_dict_id) + "|sizes:"@
        + dec_seq(input.content_size_bytes as nat) + ":"@ + dec_seq(input.compressed_size_bytes as nat)
        + "|prev:"@ + prev
}

/// `r` is the record derived from `input` chained after `prev`.
pub open spec fn derived_record(input: DataLayerM0RecordInput, prev: Seq<char>, r: DataLayerM0EnvelopeRecord) -> bool {
    &&& r.message_id@ == input.envelope.id@
    &&& r.content_hash@ == m0_digest(storage_payload(input, prev))
    &&& r.content_hash@.len() == 71
    &&& r.hash_chain_prev@ == prev
    &&& r.sender_did@ == input.envelope.from@
    &&& str_views(r.recipient_dids@) == sorted_recipients(input.envelope)
    &&& r.message_type@ == input.envelope.message_type@
    &&& r.envelope_ciphertext@ == input.ciphertext.ciphertext@
    &&& r.envelope_nonce == input.ciphertext.nonce
    &&& r.envelope_aad_hash@ == m0_digest(aad_payload(input.envelope))
    &&& r.envelope_aad_hash@.len() == 71
    &&& wrapped_keys_view(r.wrapped_keys@) == sorted_wrapped_keys(input.wrapped_keys@)
    &&& r.compression_codec@ == input.compression_codec@
    &&& r.compression_dict_id == input.compression_dict_id
    &&& r.content_size_bytes == input.content_size_bytes
    &&& r.compressed_size_bytes == input.compressed_size_bytes
}

fn check_wrapped_keys(keys: &Vec<DataLayerM0WrappedKey>) -> (r: Result<(), DataLayerM0Error>)
    ensures
        keys@.len() == 0 ==> r == Err::<(), _>(DataLayerM0Error::EmptyWrappedKeys),
        keys@.len() > 0 && wrapped_key_fault(keys@) is Some ==> r == Err::<(), _>(
            DataLayerM0Error::InvalidWrappedKey(wrapped_key_fault(keys@)->0),
        ),
        keys@.len() > 0 && wrapped_key_fault(keys@) is None ==> r is Ok,
{
    if keys.len() == 0 {
        return Err(DataLayerM0Error::EmptyWrappedKeys);
    }
    let mut i: usize = 0;
    assert(keys@.skip(0) =~= keys@);
    while i < keys.len()
        invariant
            i <= keys@.len(),
            wrapped_key_fault(keys@) == wrapped_key_fault(keys@.skip(i as int)),
        decreases keys@.len() - i,
    {
        let ghost rest = keys@.skip(i as int);
        proof {
            assert(rest[0] == keys@[i as int]);
            assert(rest.drop_first() =~= keys@.skip(i + 1));
        }
        if is_blank(keys[i].did.as_str()) {
            return Err(DataLayerM0Error::InvalidWrappedKey("did"));
        }
        if is_blank(keys[i].wrapped_cek.as_str()) {
            return Err(DataLayerM0Error::InvalidWrappedKey("wrapped_cek"));
        }
        i = i + 1;
    }
    proof {
        assert(keys@.skip(i as int).len() == 0);
    }
    Ok(())
}

fn check_ciphertext(c: &DirectMessageCiphertext) -> (r: Result<(), DataLayerM0Error>)
    ensures
        ciphertext_fault(*c) is Some ==> r == Err::<(), _>(
            DataLayerM0Error::InvalidCiphertextMetadata(ciphertext_fault(*c)->0),
        ),
        ciphertext_fault(*c) is None ==> r is Ok,
{
    if !str_eq(c.key_agreement_algorithm.as_str(), DIRECT_MESSAGE_KEY_AGREEMENT_ALGORITHM) {
        return Err(DataLayerM0Error::InvalidCiphertextMetadata("key_agreement_algorithm"));
    }
    if !str_eq(c.cipher_algorithm.as_str(), DIRECT_MESSAGE_CIPHER_ALGORITHM) {
        return Err(DataLayerM0Error::InvalidCiphertextMetadata("cipher_algorithm"));
    }
    if c.nonce == 0 {
        return Err(DataLayerM0Error::InvalidCiphertextMetadata("nonce"));
    }
    if is_blank(c.ciphertext.as_str()) {
        return Err(DataLayerM0Error::InvalidCiphertextMetadata("ciphertext"));
    }
    if is_blank(c.auth_tag.as_str()) {
        return Err(DataLayerM0Error::InvalidCiphertextMetadata("auth_tag"));
    }
    Ok(())
}

fn copy_wrapped_keys(v: &Vec<DataLayerM0WrappedKey>) -> (r: Vec<DataLayerM0WrappedKey>)
    ensures
        r@ == v@,
{
    let mut r: Vec<DataLayerM0WrappedKey> = Vec::new();
    let mut i: usize = 0;
    while i < v.len()
        invariant
            i <= v@.len(),
            r@ == v@.take(i as int),
        decreases v@.len() - i,
    {
        r.push(DataLayerM0WrappedKey { did: v[i].did.clone(), wrapped_cek: v[i].wrapped_cek.clone() });
        i = i + 1;
        assert(r@ =~= v@.take(i as int));
    }
    assert(v@.take(v@.len() as int) =~= v@);
    r
}

/// Wrapped keys sorted by DID, then CEK.
fn sort_wrapped_keys(keys: &Vec<DataLayerM0WrappedKey>) -> (r: Vec<DataLayerM0WrappedKey>)
    ensures
        wrapped_keys_view(r@) == sorted_wrapped_keys(keys@),
{
    let mut pairs: Vec<(String, String)> = Vec::new();
    let mut i: usize = 0;
    while i < keys.len()
        invariant
            i <= keys@.len(),
            pairs@.len() == i,
            string_pairs_view(pairs@) == wrapped_keys_view(keys@.take(i as int)),
        decreases keys@.len() - i,
    {
        let ghost before = pairs@;
        pairs.push((keys[i].did.clone(), keys[i].wrapped_cek.clone()));
        proof {
            assert(pairs@ =~= before.push(pairs@[i as int]));
            assert(keys@.take(i + 1) =~= keys@.take(i as int).push(keys@[i as int]));
            assert(string_pairs_view(pairs@) =~= string_pairs_view(before).push((keys@[i as int].did@, keys@[i as int].wrapped_cek@)));
        }
        i = i + 1;
        assert(string_pairs_view(pairs@) =~= wrapped_keys_view(keys@.take(i as int)));
    }
    assert(keys@.take(keys@.len() as int) =~= keys@);
    let sorted = sort_string_pairs(pairs);
    let mut out: Vec<DataLayerM0WrappedKey> = Vec::new();
    let mut j: usize = 0;
    while j < sorted.len()
        invariant
            j <= sorted@.len(),
            out@.len() == j,
            wrapped_keys_view(out@) == string_pairs_view(sorted@.take(j as int)),
        decreases sorted@.len() - j,
    {
        let ghost before = out@;
        out.push(DataLayerM0WrappedKey { did: sorted[j].0.clone(), wrapped_cek: sorted[j].1.clone() });
        proof {
            assert(sorted@.take(j + 1) =~= sorted@.take(j as int).push(sorted@[j as int]));
            assert(wrapped_keys_view(out@) =~= wrapped_keys_view(before).push((sorted@[j as int].0@, sorted@[j as int].1@)));
        }
        j = j + 1;
        assert(wrapped_keys_view(out@) =~= string_pairs_view(sorted@.take(j as int)));
    }
    assert(sorted@.take(sorted@.len() as int) =~= sorted@);
    out
}

/// `did=cek` entries joined by `|`.
fn wrapped_key_payload(keys: &Vec<DataLayerM0WrappedKey>) -> (r: String)
    ensures
        r@ == join_seqs(
            wrapped_keys_view(keys@).map_values(|p: (Seq<char>, Seq<char>)| p.0 + "="@ + p.1),
            "|"@,
        ),
{
    let ghost f = |p: (Seq<char>, Seq<char>)| p.0 + "="@ + p.1;
    let mut parts: Vec<String> = Vec::new();
    let mut i: usize = 0;
    while i < keys.len()
        invariant
            i <= keys@.len(),
            parts@.len() == i,
            f == (|p: (Seq<char>, Seq<char>)| p.0 + "="@ + p.1),
            str_views(parts@) == wrapped_keys_view(keys@.take(i as int)).map_values(f),
        decreases keys@.len() - i,
    {
        let ghost before = parts@;
        let mut entry = keys[i].did.clone();
        entry.append("=");
        entry.append(keys[i].wrapped_cek.as_str());
        parts.push(entry);
        proof {
            assert(keys@.take(i + 1) =~= keys@.take(i as int).push(keys@[i as int]));
            assert(wrapped_keys_view(keys@.take(i + 1)) =~= wrapped_keys_view(keys@.take(i as int)).push(
                (keys@[i as int].did@, keys@[i as int].wrapped_cek@),
            ));
            assert(str_views(parts@) =~= str_views(before).push(parts@[i as int]@));
        }
        i = i + 1;
        assert(str_views(parts@) =~= wrapped_keys_view(keys@.take(i as int)).map_values(f));
    }
    assert(keys@.take(keys@.len() as int) =~= keys@);
    join_strings(&parts, "|")
}

fn canonical_aad_payload(
    sender_did: &str,
    recipient_dids: &Vec<String>,
    created: &str,
    expires: &str,
    message_type: &str,
) -> (r: String)
    ensures
        r@ == sender_did@ + "|"@ + join_seqs(str_views(recipient_dids@), ","@) + "|"@ + created@ + "|"@
            + expires@ + "|"@ + message_type@,
{
    let mut out = sender_did.to_owned();
    out.append("|");
    let joined = join_strings(recipient_dids, ",");
    out.append(joined.as_str());
    out.append("|");
    out.append(created);
    out.append("|");
    out.append(expires);
    out.append("|");
    out.append(message_type);
    out
}

fn tagged_digest(value: &str) -> (r: String)
    ensures
        r@ == m0_digest(value@),
        r@.len() == 71,
{
    proof {
        reveal_strlit("sha256");
    }
    tagged_sha256(value, DATA_LAYER_M0_HASH_ALGORITHM)
}

impl DataLayerM0EnvelopeRecord {
    /// Derives one deterministic M0 record from envelope fields and ciphertext metadata.
    ///
    /// The checks made here are those of `derive_fault`, in its order. The
    /// envelope's own well-formedness (its field rules) is not checked: those
    /// rules belong to the envelope type, which this library does not define,
    /// so an envelope is taken as given, with its canonical payload supplied.
    pub fn derive(input: DataLayerM0RecordInput, hash_chain_prev: &str) -> (r: Result<Self, DataLayerM0Error>)
        ensures
            derive_fault(input, hash_chain_prev@) matches Some(e) ==> r == Err::<Self, _>(e),
            derive_fault(input, hash_chain_prev@) is None ==> (r matches Ok(rec) && derived_record(
                input,
                hash_chain_prev@,
                rec,
            )),
    {
        if is_blank(hash_chain_prev) {
            return Err(DataLayerM0Error::EmptyField("hash_chain_prev"));
        }
        check_wrapped_keys(&input.wrapped_keys)?;
        if !str_eq(input.compression_codec.as_str(), DATA_LAYER_M0_COMPRESSION_CODEC_ZSTD) {
            return Err(DataLayerM0Error::InvalidCompressionCodec(input.compression_codec));
        }
        if input.content_size_bytes == 0 || input.compressed_size_bytes == 0 || input.compressed_size_bytes
            > input.content_size_bytes {
            return Err(
                DataLayerM0Error::InvalidCompressionSize {
                    content_size_bytes: input.content_size_bytes,
                    compressed_size_bytes: input.compressed_size_bytes,
                },
            );
        }
        check_ciphertext(&input.ciphertext)?;

        let recipient_dids = sort_strings(copy_strings(&input.envelope.to));
        let wrapped_keys = sort_wrapped_keys(&input.wrapped_keys);

        let aad_canonical = canonical_aad_payload(
            input.envelope.from.as_str(),
            &recipient_dids,
            input.envelope.created.as_str(),
            input.envelope.expires.as_str(),
            input.envelope.message_type.as_str(),
        );
        let envelope_aad_hash = tagged_digest(aad_canonical.as_str());
        let wrapped_payload_text = wrapped_key_payload(&wrapped_keys);
        let dict_text = match input.compression_dict_id {
            Some(v) => dec_string(v as u64),
            None => String::new(),
        };

        let mut payload = input.envelope.canonical_payload.clone();
        payload.append("|aad:");
        payload.append(envelope_aad_hash.as_str());
        payload.append("|cipher:");
        payload.append(input.ciphertext.ciphertext.as_str());
        payload.append("|nonce:");
        payload.append(dec_string(input.ciphertext.nonce).as_str());
        payload.append("|auth:");
        payload.append(input.ciphertext.auth_tag.as_str());
        payload.append("|wrapped:");
        payload.append(wrapped_payload_text.as_str());
        payload.append("|codec:");
        payload.append(input.compression_codec.as_str());
        payload.append("|dict:");
        payload.append(dict_text.as_str());
        payload.append("|sizes:");
        payload.append(dec_string(input.content_size_bytes as u64).as_str());
        payload.append(":");
        payload.append(dec_string(input.compressed_size_bytes as u64).as_str());
        payload.append("|prev:");
        payload.append(hash_chain_prev);
        proof {
            assert(payload@ =~= storage_payload(input, hash_chain_prev@));
        }
        let content_hash = tagged_digest(payload.as_str());

        Ok(
            DataLayerM0EnvelopeRecord {
                message_id: input.envelope.id,
                content_hash,
                hash_chain_prev: hash_chain_prev.to_owned(),
                sender_did: input.envelope.from,
                recipient_dids,
                message_type: input.envelope.message_type,
                envelope_ciphertext: input.ciphertext.ciphertext,
                envelope_nonce: input.ciphertext.nonce,
                envelope_aad_hash,
                wrapped_keys,
                compression_codec: input.compression_codec,
                compression_dict_id: input.compression_dict_id,
                content_size_bytes: input.content_size_bytes,
                compressed_size_bytes: input.compressed_size_bytes,
            },
        )
    }
}

/// Two records agree field by field (strings and lists by their characters).
pub open spec fn same_record(a: DataLayerM0EnvelopeRecord, b: DataLayerM0EnvelopeRecord) -> bool {
    &&& a.message_id@ == b.message_id@
    &&& a.content_hash@ == b.content_hash@
    &&& a.hash_chain_prev@ == b.hash_chain_prev@
    &&& a.sender_did@ == b.sender_did@
    &&& str_views(a.recipient_dids@) == str_views(b.recipient_dids@)
    &&& a.message_type@ == b.message_type@
    &&& a.envelope_ciphertext@ == b.envelope_ciphertext@
    &&& a.envelope_nonce == b.envelope_nonce
    &&& a.envelope_aad_hash@ == b.envelope_aad_hash@
    &&& wrapped_keys_view(a.wrapped_keys@) == wrapped_keys_view(b.wrapped_keys@)
    &&& a.compression_codec@ == b.compression_codec@
    &&& a.compression_dict_id == b.compression_dict_id
    &&& a.content_size_bytes == b.content_size_bytes
    &&& a.compressed_size_bytes == b.compressed_size_bytes
}

fn copy_record(r: &DataLayerM0EnvelopeRecord) -> (c: DataLayerM0EnvelopeRecord)
    ensures
        same_record(c, *r),
{
    DataLayerM0EnvelopeRecord {
        message_id: r.message_id.clone(),
        content_hash: r.content_hash.clone(),
        hash_chain_prev: r.hash_chain_prev.clone(),
        sender_did: r.sender_did.clone(),
        recipient_dids: copy_strings(&r.recipient_dids),
        message_type: r.message_type.clone(),
        envelope_ciphertext: r.envelope_ciphertext.clone(),
        envelope_nonce: r.envelope_nonce,
        envelope_aad_hash: r.envelope_aad_hash.clone(),
        wrapped_keys: copy_wrapped_keys(&r.wrapped_keys),
        compression_codec: r.compression_codec.clone(),
        compression_dict_id: r.compression_dict_id,
        content_size_bytes: r.content_size_bytes,
        compressed_size_bytes: r.compressed_size_bytes,
    }
}

// ---------------------------------------------------------------------------
// Append-only ledger
// ---------------------------------------------------------------------------

/// The previous-hash pointer expected at position `i`: `GENESIS` first,
/// then the content hash of the record before.
pub open spec fn expected_prev(records: Seq<DataLayerM0EnvelopeRecord>, i: int) -> Seq<char> {
    if i == 0 {
        DATA_LAYER_M0_HASH_CHAIN_GENESIS@
    } else {
        records[i - 1].content_hash@
    }
}

/// Record `i` points at its predecessor.
pub open spec fn link_ok(records: Seq<DataLayerM0EnvelopeRecord>, i: int) -> bool {
    records[i].hash_chain_prev@ == expected_prev(records, i)
}

/// Every record points at its predecessor.
pub open spec fn chain_linked(records: Seq<DataLayerM0EnvelopeRecord>) -> bool {
    forall|i: int| 0 <= i < records.len() ==> #[trigger] link_ok(records, i)
}

/// Some record carries message id `id`.
pub open spec fn has_message_id(records: Seq<DataLayerM0EnvelopeRecord>, id: Seq<char>) -> bool {
    exists|i: int| 0 <= i < records.len() && (#[trigger] records[i]).message_id@ == id
}

/// Append-only in-memory ledger for M0 message records.
#[derive(Debug, Clone, PartialEq, Eq)]
pub struct DataLayerM0AppendOnlyLedger {
    records: Vec<DataLayerM0EnvelopeRecord>,
}

impl DataLayerM0AppendOnlyLedger {
    /// The records in append order.
    pub closed spec fn records_seq(&self) -> Seq<DataLayerM0EnvelopeRecord> {
        self.records@
    }

    /// Creates an empty M0 ledger.
    pub fn new() -> (l: Self)
        ensures
            l.records_seq() == Seq::<DataLayerM0EnvelopeRecord>::empty(),
    {
        DataLayerM0AppendOnlyLedger { records: Vec::new() }
    }

    /// Appends a record derived from `input`, chained after the last record
    /// (or `GENESIS`). A message id may be appended only once.
    pub fn append(&mut self, input: DataLayerM0RecordInput) -> (r: Result<DataLayerM0EnvelopeRecord, DataLayerM0Error>)
        ensures
            has_message_id(old(self).records_seq(), input.envelope.id@) ==> (r matches Err(e)
                && e matches DataLayerM0Error::DuplicateMessageId(id) && id@ == input.envelope.id@
                && final(self).records_seq() == old(self).records_seq()),
            !has_message_id(old(self).records_seq(), input.envelope.id@) ==> (derive_fault(
                input,
                expected_prev(old(self).records_seq(), old(self).records_seq().len() as int),
            ) matches Some(e) ==> (r == Err::<DataLayerM0EnvelopeRecord, _>(e) && final(self).records_seq()
                == old(self).records_seq())),
            !has_message_id(old(self).records_seq(), input.envelope.id@) && derive_fault(
                input,
                expected_prev(old(self).records_seq(), old(self).records_seq().len() as int),
            ) is None ==> (r matches Ok(rec) && derived_record(
                input,
                expected_prev(old(self).records_seq(), old(self).records_seq().len() as int),
                rec,
            ) && final(self).records_seq().len() == old(self).records_seq().len() + 1
                && final(self).records_seq().drop_last() == old(self).records_seq() && same_record(
                final(self).records_seq().last(),
                rec,
            )),
            chain_linked(old(self).records_seq()) ==> chain_linked(final(self).records_seq()),
    {
        let ghost old_records = self.records@;
        let mut i: usize = 0;
        while i < self.records.len()
            invariant
                i <= self.records@.len(),
                self.records@ == old_records,
                forall|k: int| 0 <= k < i ==> (#[trigger] self.records@[k]).message_id@ != input.envelope.id@,
            decreases self.records@.len() - i,
        {
            if str_eq(self.records[i].message_id.as_str(), input.envelope.id.as_str()) {
                return Err(DataLayerM0Error::DuplicateMessageId(input.envelope.id.clone()));
            }
            i = i + 1;
        }
        let n = self.records.len();
        let prev = if n == 0 {
            DATA_LAYER_M0_HASH_CHAIN_GENESIS.to_owned()
        } else {
            self.records[n - 1].content_hash.clone()
        };
        let record = DataLayerM0EnvelopeRecord::derive(input, prev.as_str())?;
        let stored = copy_record(&record);
        self.records.push(stored);
        proof {
            assert(self.records@.drop_last() =~= old_records);
            if chain_linked(old_records) {
                assert forall|k: int| 0 <= k < self.records@.len() implies #[trigger] link_ok(self.records@, k) by {
                    if k < n {
                        assert(link_ok(old_records, k));
                    }
                }
            }
        }
        Ok(record)
    }

    /// Returns the immutable append order.
    pub fn records(&self) -> (r: &[DataLayerM0EnvelopeRecord])
        ensures
            r@ == self.records_seq(),
    {
        self.records.as_slice()
    }

    /// Verifies hash-chain continuity for the full append-only sequence,
    /// reporting the first broken link.
    pub fn verify_hash_chain(&self) -> (r: Result<(), DataLayerM0Error>)
        ensures
            r is Ok <==> chain_linked(self.records_seq()),
            r matches Err(e) ==> (e matches DataLayerM0Error::InvalidHashChainLink {
                position,
                expected_prev: exp,
                found_prev,
            } && position < self.records_seq().len() && !link_ok(self.records_seq(), position as int)
                && (forall|k: int| 0 <= k < position ==> #[trigger] link_ok(self.records_seq(), k))
                && exp@ == expected_prev(self.records_seq(), position as int) && found_prev@
                == self.records_seq()[position as int].hash_chain_prev@),
    {
        let mut expected = DATA_LAYER_M0_HASH_CHAIN_GENESIS.to_owned();
        let mut i: usize = 0;
        while i < self.records.len()
            invariant
                i <= self.records@.len(),
                expected@ == expected_prev(self.records@, i as int),
                forall|k: int| 0 <= k < i ==> #[trigger] link_ok(self.records@, k),
            decreases self.records@.len() - i,
        {
            if !str_eq(self.records[i].hash_chain_prev.as_str(), expected.as_str()) {
                proof {
                    assert(!link_ok(self.records@, i as int));
                }
                return Err(
                    DataLayerM0Error::InvalidHashChainLink {
                        position: i,
                        expected_prev: expected,
                        found_prev: self.records[i].hash_chain_prev.clone(),
                    },
                );
            }
            expected = self.records[i].content_hash.clone();
            i = i + 1;
        }
        Ok(())
    }

    /// Replaces one record's content hash without recomputing chain links
    /// (the first record with that message id).
    pub fn replace_content_hash_unchecked(&mut self, message_id: &str, content_hash: &str) -> (r: Result<
        (),
        DataLayerM0Error,
    >)
        ensures
            is_blank_seq(content_hash@) ==> (r == Err::<(), _>(DataLayerM0Error::EmptyField("content_hash"))
                && final(self).records_seq() == old(self).records_seq()),
            !is_blank_seq(content_hash@) && !has_message_id(old(self).records_seq(), message_id@) ==> (r matches Err(
                e,
            ) && e matches DataLayerM0Error::NotFound(id) && id@ == message_id@ && final(self).records_seq()
                == old(self).records_seq()),
            !is_blank_seq(content_hash@) && has_message_id(old(self).records_seq(), message_id@) ==> (r is Ok
                && exists|i: int|
                0 <= i < old(self).records_seq().len() && old(self).records_seq()[i].message_id@ == message_id@
                    && (forall|k: int| 0 <= k < i ==> (#[trigger] old(self).records_seq()[k]).message_id@ != message_id@)
                    && final(self).records_seq().len() == old(self).records_seq().len()
                    && (forall|k: int| 0 <= k < old(self).records_seq().len() && k != i ==> #[trigger] final(self).records_seq()[k]
                    == old(self).records_seq()[k])
                    && final(self).records_seq()[i].content_hash@ == content_hash@
                    && final(self).records_seq()[i].message_id@ == message_id@
                    && final(self).records_seq()[i].hash_chain_prev@ == old(self).records_seq()[i].hash_chain_prev@),
    {
        if is_blank(content_hash) {
            return Err(DataLayerM0Error::EmptyField("content_hash"));
        }
        let mut i: usize = 0;
        while i < self.records.len()
            invariant
                i <= self.records@.len(),
                self.records@ == old(self).records@,
                !is_blank_seq(content_hash@),
                forall|k: int| 0 <= k < i ==> (#[trigger] self.records@[k]).message_id@ != message_id@,
            decreases self.records@.len() - i,
        {
            if str_eq(self.records[i].message_id.as_str(), message_id) {
                let mut rec = copy_record(&self.records[i]);
                rec.content_hash = content_hash.to_owned();
                let ghost rec_v = rec;
                self.records.set(i, rec);
                proof {
                    assert(self.records@[i as int] == rec_v);
                }
                return Ok(());
            }
            i = i + 1;
        }
        Err(DataLayerM0Error::NotFound(message_id.to_owned()))
    }
}

// ---------------------------------------------------------------------------
// Conformance matrix
// ---------------------------------------------------------------------------

/// M0 invariant categories tracked by conformance matrix contracts.
#[derive(Debug, Clone, Copy, PartialEq, Eq, Structural)]
pub enum DataLayerM0ConformanceInvariant {
    EnvelopeCryptoDeterministic,
    AppendOnlyDuplicateRejected,
    HashChainTamperDetected,
}

/// One conformance case input for M0 invariant matrix evaluation.
#[derive(Debug, Clone, PartialEq, Eq)]
pub struct DataLayerM0ConformanceMatrixCase {
    pub case_id: String,
    pub invariant: DataLayerM0ConformanceInvariant,
    pub observed_passed: bool,
    pub expected_passed: bool,
}

/// Per-case conformance matrix evidence entry.
#[derive(Debug, Clone, PartialEq, Eq)]
pub struct DataLayerM0ConformanceMatrixEvidence {
    pub case_id: String,
    pub invariant: DataLayerM0ConformanceInvariant,
    pub observed_passed: bool,
    pub expected_passed: bool,
    /// Whether the case drifted from expectation.
    pub mismatch: bool,
}

/// Aggregate decision for M0 conformance matrix evaluation.
#[derive(Debug, Clone, PartialEq, Eq)]
pub enum DataLayerM0ConformanceMatrixDecision {
    Stable { reason_code: &'static str },
    DriftDetected { reason_code: &'static str },
}

/// Aggregate conformance-matrix report for M0 invariants.
#[derive(Debug, Clone, PartialEq, Eq)]
pub struct DataLayerM0ConformanceMatrixReport {
    pub decision: DataLayerM0ConformanceMatrixDecision,
    /// Per-case evidence entries in input order.
    pub evidence: Vec<DataLayerM0ConformanceMatrixEvidence>,
}

/// `e` is the evidence entry for case `c`.
pub open spec fn evidence_for(c: DataLayerM0ConformanceMatrixCase, e: DataLayerM0ConformanceMatrixEvidence) -> bool {
    &&& e.case_id@ == c.case_id@
    &&& e.invariant == c.invariant
    &&& e.observed_passed == c.observed_passed
    &&& e.expected_passed == c.expected_passed
    &&& e.mismatch == (c.observed_passed != c.expected_passed)
}

/// Evaluates deterministic conformance matrix outcomes for M0 invariants:
/// stable exactly when every case observed what it expected.
pub fn evaluate_data_layer_m0_conformance_matrix(cases: &[DataLayerM0ConformanceMatrixCase]) -> (r: Result<
    DataLayerM0ConformanceMatrixReport,
    DataLayerM0Error,
>)
    ensures
        cases@.len() == 0 ==> r == Err::<DataLayerM0ConformanceMatrixReport, _>(
            DataLayerM0Error::InvalidConformanceMatrixInput("cases"),
        ),
        cases@.len() > 0 && (exists|i: int| 0 <= i < cases@.len() && is_blank_seq((#[trigger] cases@[i]).case_id@))
            ==> r == Err::<DataLayerM0ConformanceMatrixReport, _>(
            DataLayerM0Error::InvalidConformanceMatrixInput("case_id"),
        ),
        cases@.len() > 0 && (forall|i: int| 0 <= i < cases@.len() ==> !is_blank_seq((#[trigger] cases@[i]).case_id@))
            ==> (r matches Ok(rep) && rep.evidence@.len() == cases@.len() && (forall|i: int|
            0 <= i < cases@.len() ==> evidence_for(cases@[i], #[trigger] rep.evidence@[i])) && (rep.decision
            == if (forall|i: int| 0 <= i < cases@.len() ==> (#[trigger] cases@[i]).observed_passed
            == cases@[i].expected_passed) {
            DataLayerM0ConformanceMatrixDecision::Stable {
                reason_code: DATA_LAYER_M0_CONFORMANCE_MATRIX_STABLE_REASON_CODE,
            }
        } else {
            DataLayerM0ConformanceMatrixDecision::DriftDetected {
                reason_code: DATA_LAYER_M0_CONFORMANCE_MATRIX_DRIFT_REASON_CODE,
            }
        })),
{
    if cases.len() == 0 {
        return Err(DataLayerM0Error::InvalidConformanceMatrixInput("cases"));
    }
    let mut evidence: Vec<DataLayerM0ConformanceMatrixEvidence> = Vec::new();
    let mut all_match = true;
    let mut i: usize = 0;
    while i < cases.len()
        invariant
            i <= cases@.len(),
            evidence@.len() == i,
            forall|k: int| 0 <= k < i ==> !is_blank_seq((#[trigger] cases@[k]).case_id@),
            forall|k: int| 0 <= k < i ==> evidence_for(cases@[k], #[trigger] evidence@[k]),
            all_match == (forall|k: int| 0 <= k < i ==> (#[trigger] cases@[k]).observed_passed
                == cases@[k].expected_passed),
        decreases cases@.len() - i,
    {
        let case = &cases[i];
        if is_blank(case.case_id.as_str()) {
            return Err(DataLayerM0Error::InvalidConformanceMatrixInput("case_id"));
        }
        let mismatch = case.observed_passed != case.expected_passed;
        if mismatch {
            all_match = false;
        }
        evidence.push(
            DataLayerM0ConformanceMatrixEvidence {
                case_id: case.case_id.clone(),
                invariant: case.invariant,
                observed_passed: case.observed_passed,
                expected_passed: case.expected_passed,
                mismatch,
            },
        );
        i = i + 1;
    }
    let decision = if all_match {
        DataLayerM0ConformanceMatrixDecision::Stable {
            reason_code: DATA_LAYER_M0_CONFORMANCE_MATRIX_STABLE_REASON_CODE,
        }
    } else {
        DataLayerM0ConformanceMatrixDecision::DriftDetected {
            reason_code: DATA_LAYER_M0_CONFORMANCE_MATRIX_DRIFT_REASON_CODE,
        }
    };
    Ok(DataLayerM0ConformanceMatrixReport { decision, evidence })
}

/// The error's message text.
pub open spec fn m0_error_message(e: DataLayerM0Error) -> Seq<char> {
    match e {
        DataLayerM0Error::EmptyField(field) => field@ + " must not be empty"@,
        DataLayerM0Error::InvalidWrappedKey(field) => "wrapped key "@ + field@ + " must not be empty"@,
        DataLayerM0Error::EmptyWrappedKeys => "wrapped keys must contain at least one entry"@,
        DataLayerM0Error::InvalidCompressionCodec(codec) => "invalid compression codec: "@ + codec@,
        DataLayerM0Error::InvalidCompressionSize { content_size_bytes, compressed_size_bytes } => "invalid compression sizes: content="@ + dec_seq(content_size_bytes as nat) + ", compressed="@ + dec_seq(compressed_size_bytes as nat),
        DataLayerM0Error::InvalidCiphertextMetadata(field) => "invalid ciphertext metadata: "@ + field@,
        DataLayerM0Error::DuplicateMessageId(message_id) => "duplicate message id: "@ + message_id@,
        DataLayerM0Error::InvalidHashChainLink { position, expected_prev, found_prev } => "hash-chain link mismatch at position "@ + dec_seq(position as nat) + ": expected "@ + expected_prev@ + ", found "@ + found_prev@,
        DataLayerM0Error::InvalidConformanceMatrixInput(field) => "invalid conformance matrix input: "@ + field@,
        DataLayerM0Error::NotFound(message_id) => "message id not found: "@ + message_id@,
    }
}

impl DataLayerM0Error {
    /// The error's message text.
    pub fn message(&self) -> (r: String)
        ensures
            r@ == m0_error_message(*self),
    {
        match self {
            DataLayerM0Error::EmptyField(field) => {
                let mut out = String::new();
                out.append(*field);
                out.append(" must not be empty");
                proof {
                    assert(out@ =~= field@ + " must not be empty"@);
                }
                out
            },
            DataLayerM0Error::InvalidWrappedKey(field) => {
                let mut out = String::new();
                out.append("wrapped key ");
                out.append(*field);
                out.append(" must not be empty");
                proof {
                    assert(out@ =~= "wrapped key "@ + field@ + " must not be empty"@);
                }
                out
            },
            DataLayerM0Error::EmptyWrappedKeys => {
                let mut out = String::new();
                out.append("wrapped keys must contain at least one entry");
                proof {
                    assert(out@ =~= "wrapped keys must contain at least one entry"@);
                }
                out
            },
            DataLayerM0Error::InvalidCompressionCodec(codec) => {
                let mut out = String::new();
                out.append("invalid compression codec: ");
                out.append(codec.as_str());
                proof {
                    assert(out@ =~= "invalid compression codec: "@ + codec@);
                }
                out
            },
            DataLayerM0Error::InvalidCompressionSize { content_size_bytes, compressed_size_bytes } => {
                let mut out = String::new();
                out.append("invalid compression sizes: content=");
                out.append(dec_string(*content_size_bytes as u64).as_str());
                out.append(", compressed=");
                out.append(dec_string(*compressed_size_bytes as u64).as_str());
                proof {
                    assert(out@ =~= "invalid compression sizes: content="@ + dec_seq(*content_size_bytes as nat) + ", compressed="@ + dec_seq(*compressed_size_bytes as nat));
                }
                out
            },
            DataLayerM0Error::InvalidCiphertextMetadata(field) => {
                let mut out = String::new();
                out.append("invalid ciphertext metadata: ");
                out.append(*field);
                proof {
                    assert(out@ =~= "invalid ciphertext metadata: "@ + field@);
                }
                out
            },
            DataLayerM0Error::DuplicateMessageId(message_id) => {
                let mut out = String::new();
                out.append("duplicate message id: ");
                out.append(message_id.as_str());
                proof {
                    assert(out@ =~= "duplicate message id: "@ + message_id@);
                }
                out
            },
            DataLayerM0Error::InvalidHashChainLink { position, expected_prev, found_prev } => {
                let mut out = String::new();
                out.append("hash-chain link mismatch at position ");
                out.append(dec_string(*position as u64).as_str());
                out.append(": expected ");
                out.append(expected_prev.as_str());
                out.append(", found ");
                out.append(found_prev.as_str());
                proof {
                    assert(out@ =~= "hash-chain link mismatch at position "@ + dec_seq(*position as nat) + ": expected "@ + expected_prev@ + ", found "@ + found_prev@);
                }
                out
            },
            DataLayerM0Error::InvalidConformanceMatrixInput(field) => {
                let mut out = String::new();
                out.append("invalid conformance matrix input: ");
                out.append(*field);
                proof {
                    assert(out@ =~= "invalid conformance matrix input: "@ + field@);
                }
                out
            },
            DataLayerM0Error::NotFound(message_id) => {
                let mut out = String::new();
                out.append("message id not found: ");
                out.append(message_id.as_str());
                proof {
                    assert(out@ =~= "message id not found: "@ + message_id@);
                }
                out
            },
        }
    }
}

/// Records are derived only from supported direct-message ciphertext: X25519
/// key agreement, XChaCha20-Poly1305 encryption, a nonzero nonce, and a
/// non-blank ciphertext and authentication tag. An input that passes every
/// earlier check but names another key agreement is refused with
/// `InvalidCiphertextMetadata("key_agreement_algorithm")`, and one that names
/// another cipher with `InvalidCiphertextMetadata("cipher_algorithm")`.
pub proof fn lemma_derive_needs_supported_ciphertext(input: DataLayerM0RecordInput, prev: Seq<char>)
    ensures
        derive_fault(input, prev) is None ==> {
            &&& input.ciphertext.key_agreement_algorithm@ == "X25519"@
            &&& input.ciphertext.cipher_algorithm@ == "XChaCha20-Poly1305"@
            &&& input.ciphertext.nonce != 0
            &&& !is_blank_seq(input.ciphertext.ciphertext@)
            &&& !is_blank_seq(input.ciphertext.auth_tag@)
        },
        ({
            &&& !is_blank_seq(prev)
            &&& input.wrapped_keys@.len() > 0
            &&& wrapped_key_fault(input.wrapped_keys@) is None
            &&& input.compression_codec@ == "zstd"@
            &&& sizes_valid(input.content_size_bytes, input.compressed_size_bytes)
        }) ==> {
            &&& input.ciphertext.key_agreement_algorithm@ != "X25519"@ ==> (derive_fault(input, prev) matches Some(
                e,
            ) && e matches DataLayerM0Error::InvalidCiphertextMetadata(f) && f@ == "key_agreement_algorithm"@)
            &&& input.ciphertext.key_agreement_algorithm@ == "X25519"@ && input.ciphertext.cipher_algorithm@
                != "XChaCha20-Poly1305"@ ==> (derive_fault(input, prev) matches Some(e)
                && e matches DataLayerM0Error::InvalidCiphertextMetadata(f) && f@ == "cipher_algorithm"@)
        },
{
}

} // verus!
