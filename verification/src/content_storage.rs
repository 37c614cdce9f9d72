//! Content storage adapter contracts and CID/URI mapping helpers.
//!
//! In-memory reference behavior for storing content payloads, retrieving
//! metadata, verifying deterministic integrity tags, and the line format in
//! which a file-backed store persists its objects.
use vstd::prelude::*;
use vstd::utf8::{decode_utf8, encode_utf8, valid_utf8};
use vstd::string::StringSliceAdditionalSpecFns;
use crate::strmap::StrMap;
use crate::text::{
    chars_of, concat, has_prefix, hex16, hex_decode, hex_encode, is_blank, is_blank_seq,
    is_hex_char, push_hex16, push_hex_bytes, split_chars, split_on, str_eq, string_from_chars,
    strip_prefix, views_of, decode_hex, chars_eq, lemma_split_on_nonempty, is_blank_chars,
    copy_chars, is_ws, lemma_split_on_concat, lemma_split_on_no_sep, lemma_hex_round_trip, hex_value,
};

verus! {

broadcast use vstd::utf8::encode_utf8_decode_utf8;

/// Prefix of every content identifier.
pub const CID_PREFIX: &'static str = "kamn:cid:v1:";
/// Prefix of every canonical content URI.
pub const CONTENT_URI_PREFIX: &'static str = "kamn:content:v1:";
/// Number of hexadecimal digest characters in a CID.
pub const CID_HASH_HEX_LEN: usize = 16;
/// Schema marker written on the first line of a persisted content store.
pub const CONTENT_STORE_SCHEMA_VERSION: &'static str = "kamn.content.file-store.v1";

pub open spec fn cid_prefix() -> Seq<char> {
    "kamn:cid:v1:"@
}

pub open spec fn uri_prefix() -> Seq<char> {
    "kamn:content:v1:"@
}

/// First line of a persisted store.
pub open spec fn schema_line() -> Seq<char> {
    "schema|kamn.content.file-store.v1"@
}

/// The 64-bit digest folded over the payload bytes (offset basis, then for
/// every byte multiply by the prime and XOR the byte in). That is the FNV-1
/// order of the two steps; FNV-1a would XOR first.
pub open spec fn fnv_digest(bytes: Seq<u8>) -> u64
    decreases bytes.len(),
{
    if bytes.len() == 0 {
        0xcbf29ce484222325u64
    } else {
        fnv_digest(bytes.drop_last()).wrapping_mul(0x00000100000001B3u64) ^ (bytes.last() as u64)
    }
}

/// Deterministic CID of a payload.
pub open spec fn spec_cid(payload: Seq<u8>) -> Seq<char> {
    cid_prefix() + hex16(fnv_digest(payload))
}

/// Deterministic integrity tag of a payload.
pub open spec fn spec_integrity_tag(payload: Seq<u8>) -> Seq<char> {
    "fnv1a64:"@ + hex16(fnv_digest(payload))
}

/// A CID is the CID prefix followed by exactly sixteen hexadecimal digits.
pub open spec fn cid_valid(cid: Seq<char>) -> bool {
    has_prefix(cid, cid_prefix()) && cid.skip(cid_prefix().len() as int).len() == 16 && (forall|
        i: int,
    |
        0 <= i < cid.skip(cid_prefix().len() as int).len() ==> is_hex_char(
            #[trigger] cid.skip(cid_prefix().len() as int)[i],
        ))
}

/// Stored content payload and metadata returned by `get`.
#[derive(Debug, Clone, PartialEq, Eq)]
pub struct ContentObject {
    /// Deterministic content identifier.
    pub cid: String,
    /// MIME media type associated with the payload.
    pub media_type: String,
    /// Raw payload bytes.
    pub payload: Vec<u8>,
    /// Deterministic integrity tag for payload verification.
    pub integrity_tag: String,
}

/// Content metadata returned by `head` and `put`.
#[derive(Debug, Clone, PartialEq, Eq)]
pub struct ContentHead {
    /// Deterministic content identifier.
    pub cid: String,
    /// MIME media type associated with the payload.
    pub media_type: String,
    /// Payload length in bytes.
    pub size_bytes: u64,
    /// Deterministic integrity tag for payload verification.
    pub integrity_tag: String,
}

/// What a store holds under a CID: media type, payload bytes, integrity tag.
pub type StoredEntry = (Seq<char>, Seq<u8>, Seq<char>);

/// What a store holds, by CID.
pub type StoredMap = Map<Seq<char>, StoredEntry>;

/// A lookup succeeds exactly for a well-formed CID that the store holds.
pub open spec fn lookup_ok(stored: StoredMap, cid: Seq<char>) -> bool {
    cid_valid(cid) && stored.dom().contains(cid)
}

/// The error of a failed lookup: `InvalidCid` for a malformed CID, else
/// `NotFound`, each carrying the CID asked for.
pub open spec fn lookup_error(e: ContentStorageError, cid: Seq<char>) -> bool {
    if !cid_valid(cid) {
        e matches ContentStorageError::InvalidCid(v) && v@ == cid
    } else {
        e matches ContentStorageError::NotFound(v) && v@ == cid
    }
}

/// Verification succeeds exactly when the stored entry still hashes to its
/// CID and its recorded integrity tag.
pub open spec fn verify_ok(stored: StoredMap, cid: Seq<char>) -> bool {
    lookup_ok(stored, cid) && stored_consistent(cid, stored[cid])
}

/// The mismatch reported for a stored entry whose payload no longer hashes
/// to its CID or tag.
pub open spec fn integrity_error(e: ContentStorageError, cid: Seq<char>, o: StoredEntry) -> bool {
    e matches ContentStorageError::IntegrityMismatch { cid: c, expected, found } && c@ == cid
        && expected@ == spec_integrity_tag(o.1) && found@ == o.2
}

/// The error of a failed verification.
pub open spec fn verify_error(
    e: ContentStorageError,
    stored: StoredMap,
    cid: Seq<char>,
) -> bool {
    if lookup_ok(stored, cid) {
        integrity_error(e, cid, stored[cid])
    } else {
        lookup_error(e, cid)
    }
}

/// Storage adapter interface for content put/get/head/verify operations.
///
/// Every adapter exposes what it holds as `stored()`, a map from CID to the
/// stored entry; the operations are specified over that map.
pub trait ContentStorageAdapter {
    /// The entries this adapter holds, by CID.
    spec fn stored(&self) -> StoredMap;

    /// Stores payload bytes and returns metadata for the persisted object.
    fn put(&mut self, media_type: &str, payload: &[u8]) -> (r: Result<ContentHead, ContentStorageError>)
        ensures
            is_blank_seq(media_type@) ==> r == Err::<ContentHead, ContentStorageError>(
                ContentStorageError::EmptyField("media_type"),
            ),
            r matches Ok(h) ==> {
                &&& final(self).stored() == old(self).stored().insert(
                    spec_cid(payload@),
                    (media_type@, payload@, spec_integrity_tag(payload@)),
                )
                &&& h.cid@ == spec_cid(payload@)
                &&& h.media_type@ == media_type@
                &&& h.size_bytes == payload@.len()
                &&& h.integrity_tag@ == spec_integrity_tag(payload@)
            },
    ;

    /// Loads a full content object by CID.
    fn get(&self, cid: &str) -> (r: Result<ContentObject, ContentStorageError>)
        ensures
            r is Ok <==> lookup_ok(self.stored(), cid@),
            r matches Ok(o) ==> o.cid@ == cid@ && (o.media_type@, o.payload@, o.integrity_tag@)
                == self.stored()[cid@],
            r matches Err(e) ==> lookup_error(e, cid@),
    ;

    /// Loads only metadata for a CID without payload bytes.
    fn head(&self, cid: &str) -> (r: Result<ContentHead, ContentStorageError>)
        ensures
            r is Ok <==> lookup_ok(self.stored(), cid@),
            r matches Ok(h) ==> h.cid@ == cid@ && h.media_type@ == self.stored()[cid@].0
                && h.size_bytes == self.stored()[cid@].1.len() && h.integrity_tag@
                == self.stored()[cid@].2,
            r matches Err(e) ==> lookup_error(e, cid@),
    ;

    /// Verifies CID and integrity tag against current stored payload.
    fn verify(&self, cid: &str) -> (r: Result<(), ContentStorageError>)
        ensures
            r is Ok <==> verify_ok(self.stored(), cid@),
            r matches Err(e) ==> verify_error(e, self.stored(), cid@),
    ;
}

/// Error surface for content storage parsing and integrity checks.
#[derive(Debug, Clone, PartialEq, Eq)]
pub enum ContentStorageError {
    /// Required string field was empty.
    EmptyField(&'static str),
    /// Filesystem I/O failed for persistence operation.
    Io(String),
    /// Persisted payload format was invalid.
    InvalidPayload(String),
    /// CID string failed validation.
    InvalidCid(String),
    /// Content URI string failed validation.
    InvalidContentUri(String),
    /// Requested CID was not found in storage.
    NotFound(String),
    /// Stored payload no longer matches expected integrity metadata.
    IntegrityMismatch {
        /// CID that failed integrity verification.
        cid: String,
        /// Expected integrity tag for current payload.
        expected: String,
        /// Integrity tag found in stored metadata.
        found: String,
    },
}

/// One stored object: media type, payload bytes and integrity tag.
#[derive(Debug, Clone, PartialEq, Eq)]
pub struct StoredObject {
    /// MIME media type associated with the payload.
    pub media_type: String,
    /// Raw payload bytes.
    pub payload: Vec<u8>,
    /// Integrity tag recorded when the payload was stored.
    pub integrity_tag: String,
}

/// The character/byte view of a stored object.
pub open spec fn stored_view(o: StoredObject) -> (Seq<char>, Seq<u8>, Seq<char>) {
    (o.media_type@, o.payload@, o.integrity_tag@)
}

/// A stored object is consistent when its recorded tag is the tag of its payload.
pub open spec fn stored_consistent(cid: Seq<char>, o: (Seq<char>, Seq<u8>, Seq<char>)) -> bool {
    spec_cid(o.1) == cid && spec_integrity_tag(o.1) == o.2
}

/// The digest of the payload bytes.
pub fn fnv_digest_of(payload: &[u8]) -> (d: u64)
    ensures
        d == fnv_digest(payload@),
{
    let mut acc: u64 = 0xcbf29ce484222325;
    let mut i: usize = 0;
    while i < payload.len()
        invariant
            i <= payload@.len(),
            acc == fnv_digest(payload@.take(i as int)),
        decreases payload@.len() - i,
    {
        acc = acc.wrapping_mul(0x00000100000001B3);
        acc = acc ^ (payload[i] as u64);
        proof {
            assert(payload@.take(i + 1).drop_last() =~= payload@.take(i as int));
        }
        i = i + 1;
    }
    assert(payload@.take(payload@.len() as int) =~= payload@);
    acc
}

/// Sixteen lowercase hexadecimal digits of the payload digest.
pub fn fnv1a_hex(payload: &[u8]) -> (s: String)
    ensures
        s@ == hex16(fnv_digest(payload@)),
{
    let d = fnv_digest_of(payload);
    let mut s = String::new();
    push_hex16(&mut s, d);
    assert(s@ =~= hex16(fnv_digest(payload@)));
    s
}

/// Deterministic CID for a payload.
pub fn cid_for_payload(payload: &[u8]) -> (s: String)
    ensures
        s@ == spec_cid(payload@),
{
    let mut s = CID_PREFIX.to_owned();
    push_hex16(&mut s, fnv_digest_of(payload));
    s
}

/// Deterministic integrity tag for a payload.
pub fn integrity_tag_for_payload(payload: &[u8]) -> (s: String)
    ensures
        s@ == spec_integrity_tag(payload@),
{
    let mut s = "fnv1a64:".to_owned();
    push_hex16(&mut s, fnv_digest_of(payload));
    s
}

/// Validates CID shape.
pub fn validate_cid(cid: &str) -> (r: Result<(), ContentStorageError>)
    ensures
        r is Ok <==> cid_valid(cid@),
        r matches Err(e) ==> e matches ContentStorageError::InvalidCid(v) && v@ == cid@,
{
    match strip_prefix(cid, CID_PREFIX) {
        None => Err(ContentStorageError::InvalidCid(cid.to_owned())),
        Some(digest) => {
            let d = chars_of(digest.as_str());
            if d.len() != CID_HASH_HEX_LEN {
                return Err(ContentStorageError::InvalidCid(cid.to_owned()));
            }
            let mut i: usize = 0;
            while i < d.len()
                invariant
                    d@ == cid@.skip(cid_prefix().len() as int),
                    has_prefix(cid@, cid_prefix()),
                    d@.len() == 16,
                    i <= d@.len(),
                    forall|k: int| 0 <= k < i ==> is_hex_char(#[trigger] d@[k]),
                decreases d@.len() - i,
            {
                if crate::text::hex_char_value(d[i]).is_none() {
                    return Err(ContentStorageError::InvalidCid(cid.to_owned()));
                }
                i = i + 1;
            }
            Ok(())
        },
    }
}

/// Converts a CID into canonical content URI form.
pub fn content_uri_for_cid(cid: &str) -> (r: Result<String, ContentStorageError>)
    ensures
        r is Ok <==> cid_valid(cid@),
        r matches Ok(uri) ==> uri@ == uri_prefix() + cid@,
        r matches Err(e) ==> e matches ContentStorageError::InvalidCid(v) && v@ == cid@,
{
    validate_cid(cid)?;
    Ok(concat(CONTENT_URI_PREFIX, cid))
}

/// The CID read back from the URI of a valid CID is that CID.
pub proof fn lemma_content_uri_round_trip(cid: Seq<char>)
    requires
        cid_valid(cid),
    ensures
        has_prefix(uri_prefix() + cid, uri_prefix()),
        (uri_prefix() + cid).skip(uri_prefix().len() as int) == cid,
        cid_valid((uri_prefix() + cid).skip(uri_prefix().len() as int)),
{
    assert((uri_prefix() + cid).subrange(0, uri_prefix().len() as int) =~= uri_prefix());
    assert((uri_prefix() + cid).skip(uri_prefix().len() as int) =~= cid);
}

/// Extracts and validates a CID from canonical content URI form.
pub fn cid_from_content_uri(uri: &str) -> (r: Result<String, ContentStorageError>)
    ensures
        r is Ok <==> has_prefix(uri@, uri_prefix()) && cid_valid(uri@.skip(uri_prefix().len() as int)),
        r matches Ok(cid) ==> cid@ == uri@.skip(uri_prefix().len() as int),
        !has_prefix(uri@, uri_prefix()) ==> (r matches Err(e) && e matches ContentStorageError::InvalidContentUri(v) && v@ == uri@),
        has_prefix(uri@, uri_prefix()) && !cid_valid(uri@.skip(uri_prefix().len() as int)) ==> (
        r matches Err(e) && e matches ContentStorageError::InvalidCid(v) && v@ == uri@.skip(
            uri_prefix().len() as int,
        )),
{
    let cid = match strip_prefix(uri, CONTENT_URI_PREFIX) {
        Some(c) => c,
        None => {
            return Err(ContentStorageError::InvalidContentUri(uri.to_owned()));
        },
    };
    validate_cid(cid.as_str())?;
    Ok(cid)
}

/// Head metadata for a stored object.
pub fn content_head_from_stored(cid: &str, object: &StoredObject) -> (h: ContentHead)
    ensures
        h.cid@ == cid@,
        h.media_type@ == object.media_type@,
        h.size_bytes == object.payload@.len(),
        h.integrity_tag@ == object.integrity_tag@,
{
    ContentHead {
        cid: cid.to_owned(),
        media_type: object.media_type.clone(),
        size_bytes: object.payload.len() as u64,
        integrity_tag: object.integrity_tag.clone(),
    }
}

/// In-memory reference implementation of `ContentStorageAdapter`.
#[derive(Debug, PartialEq, Eq)]
pub struct InMemoryContentAdapter {
    objects: StrMap<StoredObject>,
}

/// What looking up `cid` in a store gives: an invalid-CID error, a not-found
/// error, or the stored object.
pub open spec fn lookup_outcome(
    objects: Map<Seq<char>, StoredObject>,
    cid: Seq<char>,
) -> Option<bool> {
    if !cid_valid(cid) {
        Some(false)
    } else if !objects.dom().contains(cid) {
        Some(true)
    } else {
        None
    }
}

impl InMemoryContentAdapter {
    /// The stored objects by CID.
    pub closed spec fn objects(&self) -> Map<Seq<char>, StoredObject> {
        self.objects.map()
    }

    #[verifier::type_invariant]
    closed spec fn inv(&self) -> bool {
        self.objects.wf()
    }

    /// Constructs an empty in-memory content adapter.
    pub fn new() -> (a: Self)
        ensures
            a.objects() == Map::<Seq<char>, StoredObject>::empty(),
    {
        InMemoryContentAdapter { objects: StrMap::new() }
    }

    /// Looks an object up after validating the CID.
    fn lookup(&self, cid: &str) -> (r: Result<&StoredObject, ContentStorageError>)
        ensures
            r is Ok <==> cid_valid(cid@) && self.objects().dom().contains(cid@),
            r matches Ok(o) ==> *o == self.objects()[cid@],
            !cid_valid(cid@) ==> (r matches Err(e) && e matches ContentStorageError::InvalidCid(
                v,
            ) && v@ == cid@),
            cid_valid(cid@) && !self.objects().dom().contains(cid@) ==> (r matches Err(e)
                && e matches ContentStorageError::NotFound(v) && v@ == cid@),
    {
        proof {
            use_type_invariant(self);
        }
        validate_cid(cid)?;
        match self.objects.get(cid) {
            Some(o) => Ok(o),
            None => Err(ContentStorageError::NotFound(cid.to_owned())),
        }
    }

    /// Replaces payload bytes for a CID without updating integrity metadata.
    ///
    /// This helper deliberately breaks integrity and is used to simulate
    /// storage corruption.
    pub fn replace_payload_unchecked(&mut self, cid: &str, payload: Vec<u8>) -> (r: Result<
        (),
        ContentStorageError,
    >)
        ensures
            r is Ok <==> cid_valid(cid@) && old(self).objects().dom().contains(cid@),
            r is Ok ==> final(self).objects() == old(self).objects().insert(
                cid@,
                StoredObject {
                    media_type: old(self).objects()[cid@].media_type,
                    payload,
                    integrity_tag: old(self).objects()[cid@].integrity_tag,
                },
            ),
            r is Ok ==> final(self).stored() == old(self).stored().insert(
                cid@,
                (old(self).stored()[cid@].0, payload@, old(self).stored()[cid@].2),
            ),
            r is Err ==> final(self).objects() == old(self).objects(),
            !cid_valid(cid@) ==> (r matches Err(e) && e matches ContentStorageError::InvalidCid(
                v,
            ) && v@ == cid@),
            cid_valid(cid@) && !old(self).objects().dom().contains(cid@) ==> (r matches Err(e)
                && e matches ContentStorageError::NotFound(v) && v@ == cid@),
    {
        proof {
            use_type_invariant(&*self);
        }
        validate_cid(cid)?;
        match self.objects.find(cid) {
            None => Err(ContentStorageError::NotFound(cid.to_owned())),
            Some(i) => {
                let mut objects = StrMap::new();
                std::mem::swap(&mut objects, &mut self.objects);
                proof {
                    objects.lemma_well_formed();
                }
                let old_object = objects.value_at(i);
                let updated = StoredObject {
                    media_type: old_object.media_type.clone(),
                    payload,
                    integrity_tag: old_object.integrity_tag.clone(),
                };
                let ghost before = objects.pairs();
                objects.set_value_at(i, updated);
                proof {
                    crate::strmap::lemma_pairs_update_map(before, i as int, updated);
                }
                self.objects = objects;
                Ok(())
            },
        }
    }

    /// Every stored object matches its CID and tag and has a non-blank media type.
    pub open spec fn persistable(&self) -> bool {
        forall|k: Seq<char>|
            #[trigger] self.objects().dom().contains(k) ==> stored_consistent(k, stored_view(self.objects()[k]))
                && !is_blank_seq(self.objects()[k].media_type@)
    }

    /// Loads an adapter from persisted store text; blank text is an empty store.
    pub fn from_persisted_text(payload: &str) -> (r: Result<Self, ContentStorageError>)
        ensures
            is_blank_seq(payload@) ==> (r matches Ok(a) && a.objects() == Map::<Seq<char>, StoredObject>::empty()),
            !is_blank_seq(payload@) ==> (r is Ok <==> parse_store(payload@) is Ok),
            !is_blank_seq(payload@) ==> (r matches Ok(a) ==> a.objects().map_values(|o: StoredObject| stored_view(o))
                == parse_store(payload@)->Ok_0),
            !is_blank_seq(payload@) ==> (r matches Err(e) ==> store_error_matches(e, parse_store(payload@)->Err_0)),
    {
        if is_blank(payload) {
            return Ok(InMemoryContentAdapter::new());
        }
        let objects = parse_content_store_payload(payload)?;
        Ok(InMemoryContentAdapter { objects })
    }

    /// The persisted store text of this adapter; reading it back gives the
    /// same objects whenever every object is consistent.
    pub fn persisted_text(&self) -> (r: String)
        ensures
            self.persistable() ==> parse_store(r@) == Ok::<_, (bool, Seq<char>)>(
                self.objects().map_values(|o: StoredObject| stored_view(o)),
            ),
    {
        proof {
            use_type_invariant(self);
            if self.persistable() {
                assert forall|k: Seq<char>| #[trigger] self.objects.map().dom().contains(k) implies stored_consistent(
                    k,
                    stored_view(self.objects.map()[k]),
                ) && !is_blank_seq(self.objects.map()[k].media_type@) by {
                    assert(self.objects().dom().contains(k));
                }
                lemma_store_round_trip(self.objects);
            }
        }
        serialize_content_store_payload(&self.objects)
    }
}

impl ContentStorageAdapter for InMemoryContentAdapter {
    open spec fn stored(&self) -> StoredMap {
        self.objects().map_values(|o: StoredObject| stored_view(o))
    }

    /// Stores a payload under its deterministic CID.
    fn put(&mut self, media_type: &str, payload: &[u8]) -> (r: Result<ContentHead, ContentStorageError>)
        ensures
            r is Ok <==> !is_blank_seq(media_type@),
            r is Err ==> final(self).objects() == old(self).objects() && r == Err::<
                ContentHead,
                ContentStorageError,
            >(ContentStorageError::EmptyField("media_type")),
            r matches Ok(h) ==> {
                &&& final(self).objects() == old(self).objects().insert(
                    spec_cid(payload@),
                    final(self).objects()[spec_cid(payload@)],
                )
                &&& stored_view(final(self).objects()[spec_cid(payload@)]) == (
                    media_type@,
                    payload@,
                    spec_integrity_tag(payload@),
                )
                &&& h.cid@ == spec_cid(payload@)
                &&& h.media_type@ == media_type@
                &&& h.size_bytes == payload@.len()
                &&& h.integrity_tag@ == spec_integrity_tag(payload@)
            },
            old(self).persistable() ==> final(self).persistable(),
    {
        proof {
            use_type_invariant(&*self);
        }
        if is_blank(media_type) {
            return Err(ContentStorageError::EmptyField("media_type"));
        }
        let cid = cid_for_payload(payload);
        let mut bytes: Vec<u8> = Vec::new();
        let mut i: usize = 0;
        while i < payload.len()
            invariant
                i <= payload@.len(),
                bytes@ == payload@.take(i as int),
            decreases payload@.len() - i,
        {
            bytes.push(payload[i]);
            i = i + 1;
            assert(bytes@ =~= payload@.take(i as int));
        }
        assert(bytes@ =~= payload@);
        let record = StoredObject {
            media_type: media_type.to_owned(),
            payload: bytes,
            integrity_tag: integrity_tag_for_payload(payload),
        };
        let head = content_head_from_stored(cid.as_str(), &record);
        let ghost rec = record;
        let mut objects = StrMap::new();
        std::mem::swap(&mut objects, &mut self.objects);
        objects.insert(cid, record);
        self.objects = objects;
        proof {
            assert(self.objects() =~= old(self).objects().insert(spec_cid(payload@), rec));
        }
        Ok(head)
    }

    /// Loads a full content object by CID.
    fn get(&self, cid: &str) -> (r: Result<ContentObject, ContentStorageError>)
        ensures
            r is Ok <==> cid_valid(cid@) && self.objects().dom().contains(cid@),
            r matches Ok(o) ==> o.cid@ == cid@ && o.media_type@ == self.objects()[cid@].media_type@
                && o.payload@ == self.objects()[cid@].payload@ && o.integrity_tag@
                == self.objects()[cid@].integrity_tag@,
            !cid_valid(cid@) ==> (r matches Err(e) && e matches ContentStorageError::InvalidCid(
                v,
            ) && v@ == cid@),
            cid_valid(cid@) && !self.objects().dom().contains(cid@) ==> (r matches Err(e)
                && e matches ContentStorageError::NotFound(v) && v@ == cid@),
    {
        let object = self.lookup(cid)?;
        Ok(
            ContentObject {
                cid: cid.to_owned(),
                media_type: object.media_type.clone(),
                payload: object.payload.clone(),
                integrity_tag: object.integrity_tag.clone(),
            },
        )
    }

    /// Loads only metadata for a CID.
    fn head(&self, cid: &str) -> (r: Result<ContentHead, ContentStorageError>)
        ensures
            r is Ok <==> cid_valid(cid@) && self.objects().dom().contains(cid@),
            r matches Ok(h) ==> h.cid@ == cid@ && h.media_type@ == self.objects()[cid@].media_type@
                && h.size_bytes == self.objects()[cid@].payload@.len() && h.integrity_tag@
                == self.objects()[cid@].integrity_tag@,
            !cid_valid(cid@) ==> (r matches Err(e) && e matches ContentStorageError::InvalidCid(
                v,
            ) && v@ == cid@),
            cid_valid(cid@) && !self.objects().dom().contains(cid@) ==> (r matches Err(e)
                && e matches ContentStorageError::NotFound(v) && v@ == cid@),
    {
        let object = self.lookup(cid)?;
        Ok(content_head_from_stored(cid, object))
    }

    /// Verifies that the stored payload still hashes to its CID and tag.
    fn verify(&self, cid: &str) -> (r: Result<(), ContentStorageError>)
        ensures
            r is Ok <==> cid_valid(cid@) && self.objects().dom().contains(cid@)
                && stored_consistent(cid@, stored_view(self.objects()[cid@])),
            !cid_valid(cid@) ==> (r matches Err(e) && e matches ContentStorageError::InvalidCid(
                v,
            ) && v@ == cid@),
            cid_valid(cid@) && !self.objects().dom().contains(cid@) ==> (r matches Err(e)
                && e matches ContentStorageError::NotFound(v) && v@ == cid@),
            cid_valid(cid@) && self.objects().dom().contains(cid@) && !stored_consistent(
                cid@,
                stored_view(self.objects()[cid@]),
            ) ==> (r matches Err(e) && e matches ContentStorageError::IntegrityMismatch {
                cid: c,
                expected,
                found,
            } && c@ == cid@ && expected@ == spec_integrity_tag(self.objects()[cid@].payload@)
                && found@ == self.objects()[cid@].integrity_tag@),
    {
        let object = self.lookup(cid)?;
        let expected_cid = cid_for_payload(object.payload.as_slice());
        let expected_integrity_tag = integrity_tag_for_payload(object.payload.as_slice());
        if !str_eq(expected_cid.as_str(), cid) || !str_eq(
            expected_integrity_tag.as_str(),
            object.integrity_tag.as_str(),
        ) {
            return Err(
                ContentStorageError::IntegrityMismatch {
                    cid: cid.to_owned(),
                    expected: expected_integrity_tag,
                    found: object.integrity_tag.clone(),
                },
            );
        }
        Ok(())
    }
}

/// First line of a persisted store, as one constant.
pub const CONTENT_STORE_SCHEMA_LINE: &'static str = "schema|kamn.content.file-store.v1";

/// A line without one trailing carriage return.
pub open spec fn strip_cr(l: Seq<char>) -> Seq<char> {
    if l.len() > 0 && l.last() == '\r' {
        l.drop_last()
    } else {
        l
    }
}

/// Lines of a text as `str::lines` yields them (a `\r` is removed only before `\n`).
pub open spec fn payload_lines(s: Seq<char>) -> Seq<Seq<char>> {
    let segs = split_on(s, '\n');
    Seq::new(segs.len(), |i: int| if i + 1 < segs.len() { strip_cr(segs[i]) } else { segs[i] })
}

/// The lines that are not blank, in order.
pub open spec fn nonblank(lines: Seq<Seq<char>>) -> Seq<Seq<char>>
    decreases lines.len(),
{
    if lines.len() == 0 {
        Seq::empty()
    } else {
        let r = nonblank(lines.drop_last());
        if is_blank_seq(lines.last()) {
            r
        } else {
            r.push(lines.last())
        }
    }
}

/// Parse failure: `(true, cid)` is an invalid CID, `(false, text)` an invalid payload line.
pub open spec fn store_error_matches(e: ContentStorageError, v: (bool, Seq<char>)) -> bool {
    if v.0 {
        e matches ContentStorageError::InvalidCid(t) && t@ == v.1
    } else {
        e matches ContentStorageError::InvalidPayload(t) && t@ == v.1
    }
}

/// What one `object|cid|media-hex|payload-hex|tag` line denotes.
pub open spec fn object_line_outcome(line: Seq<char>) -> Result<
    (Seq<char>, (Seq<char>, Seq<u8>, Seq<char>)),
    (bool, Seq<char>),
> {
    let f = split_on(line, '|');
    if f.len() != 5 || f[0] != "object"@ {
        Err((false, line))
    } else if !cid_valid(f[1]) {
        Err((true, f[1]))
    } else if hex_decode(f[2]) is None || !valid_utf8(hex_decode(f[2]).unwrap()) || is_blank_seq(
        decode_utf8(hex_decode(f[2]).unwrap()),
    ) {
        Err((false, line))
    } else if hex_decode(f[3]) is None {
        Err((false, line))
    } else if spec_cid(hex_decode(f[3]).unwrap()) != f[1] {
        Err((false, line))
    } else if spec_integrity_tag(hex_decode(f[3]).unwrap()) != f[4] {
        Err((false, line))
    } else {
        Ok((f[1], (decode_utf8(hex_decode(f[2]).unwrap()), hex_decode(f[3]).unwrap(), f[4])))
    }
}

/// Object lines folded into a store; the first bad line decides the error.
pub open spec fn parse_objects(lines: Seq<Seq<char>>) -> Result<
    Map<Seq<char>, (Seq<char>, Seq<u8>, Seq<char>)>,
    (bool, Seq<char>),
>
    decreases lines.len(),
{
    if lines.len() == 0 {
        Ok(Map::empty())
    } else {
        match parse_objects(lines.drop_last()) {
            Err(e) => Err(e),
            Ok(m) => match object_line_outcome(lines.last()) {
                Err(e) => Err(e),
                Ok((cid, o)) => Ok(m.insert(cid, o)),
            },
        }
    }
}

/// What a persisted store text denotes.
pub open spec fn parse_store(s: Seq<char>) -> Result<
    Map<Seq<char>, (Seq<char>, Seq<u8>, Seq<char>)>,
    (bool, Seq<char>),
> {
    let lines = nonblank(payload_lines(s));
    if lines.len() == 0 {
        Ok(Map::empty())
    } else if lines[0] != schema_line() {
        Err((false, lines[0]))
    } else {
        parse_objects(lines.skip(1))
    }
}

/// One persisted object line.
pub open spec fn object_line(cid: Seq<char>, o: (Seq<char>, Seq<u8>, Seq<char>)) -> Seq<char> {
    "object|"@ + cid + "|"@ + hex_encode(encode_utf8(o.0)) + "|"@ + hex_encode(o.1) + "|"@ + o.2
}

/// The persisted text of a store, objects in key order.
pub open spec fn serialize_pairs(pairs: Seq<(Seq<char>, StoredObject)>) -> Seq<char>
    decreases pairs.len(),
{
    if pairs.len() == 0 {
        schema_line()
    } else {
        serialize_pairs(pairs.drop_last()) + "\n"@ + object_line(
            pairs.last().0,
            stored_view(pairs.last().1),
        )
    }
}

pub proof fn lemma_parse_objects_error_persists(lines: Seq<Seq<char>>, k: int)
    requires
        0 <= k <= lines.len(),
        parse_objects(lines.take(k)) is Err,
    ensures
        parse_objects(lines) == parse_objects(lines.take(k)),
    decreases lines.len(),
{
    if k < lines.len() {
        assert(lines.drop_last().take(k) =~= lines.take(k));
        lemma_parse_objects_error_persists(lines.drop_last(), k);
    } else {
        assert(lines.take(k) =~= lines);
    }
}

// ---------------------------------------------------------------------------
// Round trip of the persisted format
// ---------------------------------------------------------------------------

/// Every character of `s` is a hexadecimal digit.
pub open spec fn all_hex(s: Seq<char>) -> bool {
    forall|i: int| 0 <= i < s.len() ==> is_hex_char(#[trigger] s[i])
}

/// `s` does not contain `c`.
pub open spec fn lacks(s: Seq<char>, c: char) -> bool {
    forall|i: int| 0 <= i < s.len() ==> s[i] != c
}

proof fn lemma_hex_lacks(s: Seq<char>)
    requires
        all_hex(s),
    ensures
        lacks(s, '|'),
        lacks(s, '\n'),
        lacks(s, '\r'),
        s.len() > 0 ==> s.last() != '\r',
{
    assert forall|i: int| 0 <= i < s.len() implies s[i] != '|' && s[i] != '\n' && s[i] != '\r' by {
        assert(is_hex_char(s[i]));
    }
}

proof fn lemma_hex16_all_hex(n: u64)
    ensures
        all_hex(hex16(n)),
        hex16(n).len() == 16,
{
    assert forall|i: int| 0 <= i < hex16(n).len() implies is_hex_char(#[trigger] hex16(n)[i]) by {
        let d = ((n >> ((60 - 4 * i) as u64)) & 0xf) as int;
        assert(hex_value(crate::text::hex_digit(d)) is Some);
    }
}

proof fn lemma_concat_lacks(a: Seq<char>, b: Seq<char>, c: char)
    requires
        lacks(a, c),
        lacks(b, c),
    ensures
        lacks(a + b, c),
{
    assert forall|i: int| 0 <= i < (a + b).len() implies (a + b)[i] != c by {
        if i < a.len() {
            assert((a + b)[i] == a[i]);
        } else {
            assert((a + b)[i] == b[i - a.len()]);
        }
    }
}

/// A payload stored by `put` and then replaced, under the same CID, by bytes
/// of another CID fails verification: the store reports an integrity
/// mismatch whose expected tag is the new payload's and whose found tag is
/// the one recorded at `put`.
pub proof fn lemma_replaced_payload_fails_verify(
    before: StoredMap,
    media_type: Seq<char>,
    payload: Seq<u8>,
    replacement: Seq<u8>,
    e: ContentStorageError,
)
    requires
        spec_cid(replacement) != spec_cid(payload),
    ensures
        ({
            let cid = spec_cid(payload);
            let stored = before.insert(cid, (media_type, payload, spec_integrity_tag(payload)));
            let replaced = stored.insert(cid, (stored[cid].0, replacement, stored[cid].2));
            &&& lookup_ok(replaced, cid)
            &&& replaced[cid] == (media_type, replacement, spec_integrity_tag(payload))
            &&& !verify_ok(replaced, cid)
            &&& verify_error(e, replaced, cid) <==> (e matches ContentStorageError::IntegrityMismatch {
                cid: c,
                expected,
                found,
            } && c@ == cid && expected@ == spec_integrity_tag(replacement) && found@ == spec_integrity_tag(
                payload,
            ))
        }),
{
    lemma_spec_cid_shape(payload);
}

/// A CID computed from a payload is a valid CID, and it holds neither `|`
/// nor a line break.
proof fn lemma_spec_cid_shape(payload: Seq<u8>)
    ensures
        cid_valid(spec_cid(payload)),
        lacks(spec_cid(payload), '|'),
        lacks(spec_cid(payload), '\n'),
{
    reveal_strlit("kamn:cid:v1:");
    let h = hex16(fnv_digest(payload));
    lemma_hex16_all_hex(fnv_digest(payload));
    lemma_hex_lacks(h);
    let c = spec_cid(payload);
    assert(c.subrange(0, cid_prefix().len() as int) =~= cid_prefix());
    assert(c.skip(cid_prefix().len() as int) =~= h);
    assert(lacks(cid_prefix(), '|'));
    assert(lacks(cid_prefix(), '\n'));
    lemma_concat_lacks(cid_prefix(), h, '|');
    lemma_concat_lacks(cid_prefix(), h, '\n');
}

/// An integrity tag holds neither `|` nor a line break, and does not end in `\r`.
proof fn lemma_tag_shape(payload: Seq<u8>)
    ensures
        lacks(spec_integrity_tag(payload), '|'),
        lacks(spec_integrity_tag(payload), '\n'),
        spec_integrity_tag(payload).len() > 0,
        spec_integrity_tag(payload).last() != '\r',
{
    reveal_strlit("fnv1a64:");
    let h = hex16(fnv_digest(payload));
    lemma_hex16_all_hex(fnv_digest(payload));
    lemma_hex_lacks(h);
    assert(lacks("fnv1a64:"@, '|'));
    assert(lacks("fnv1a64:"@, '\n'));
    lemma_concat_lacks("fnv1a64:"@, h, '|');
    lemma_concat_lacks("fnv1a64:"@, h, '\n');
    assert(spec_integrity_tag(payload).last() == h.last());
}

/// The pieces of a persisted object line hold neither `|` nor a line break.
proof fn lemma_object_line_pieces(cid: Seq<char>, o: (Seq<char>, Seq<u8>, Seq<char>))
    requires
        stored_consistent(cid, o),
    ensures
        lacks(cid, '|') && lacks(cid, '\n'),
        lacks(hex_encode(encode_utf8(o.0)), '|') && lacks(hex_encode(encode_utf8(o.0)), '\n'),
        lacks(hex_encode(o.1), '|') && lacks(hex_encode(o.1), '\n'),
        lacks(o.2, '|') && lacks(o.2, '\n'),
        o.2.len() > 0 && o.2.last() != '\r',
{
    lemma_hex_round_trip(encode_utf8(o.0));
    lemma_hex_round_trip(o.1);
    lemma_hex_lacks(hex_encode(encode_utf8(o.0)));
    lemma_hex_lacks(hex_encode(o.1));
    lemma_spec_cid_shape(o.1);
    lemma_tag_shape(o.1);
}

/// The fields of a persisted object line, split at `|`.
proof fn lemma_object_line_fields(cid: Seq<char>, o: (Seq<char>, Seq<u8>, Seq<char>))
    requires
        stored_consistent(cid, o),
    ensures
        split_on(object_line(cid, o), '|') == seq![
            "object"@,
            cid,
            hex_encode(encode_utf8(o.0)),
            hex_encode(o.1),
            o.2,
        ],
        lacks(object_line(cid, o), '\n'),
        object_line(cid, o).len() > 0,
        object_line(cid, o)[0] == 'o',
        object_line(cid, o).last() != '\r',
{
    reveal_strlit("object|");
    reveal_strlit("object");
    reveal_strlit("|");
    let hm = hex_encode(encode_utf8(o.0));
    let hp = hex_encode(o.1);
    lemma_object_line_pieces(cid, o);
    let bar = seq!['|'];
    let t3 = hp + bar + o.2;
    let t2 = hm + bar + t3;
    let t1 = cid + bar + t2;
    let line = "object"@ + bar + t1;
    assert(object_line(cid, o) =~= line);
    assert(split_on(line, '|') =~= seq!["object"@, cid, hm, hp, o.2]) by {
        lemma_split_on_concat(hp, o.2, '|');
        lemma_split_on_concat(hm, t3, '|');
        lemma_split_on_concat(cid, t2, '|');
        lemma_split_on_concat("object"@, t1, '|');
        assert(lacks("object"@, '|'));
        lemma_split_on_no_sep("object"@, '|');
        lemma_split_on_no_sep(cid, '|');
        lemma_split_on_no_sep(hm, '|');
        lemma_split_on_no_sep(hp, '|');
        lemma_split_on_no_sep(o.2, '|');
    }
    assert(lacks(line, '\n')) by {
        assert(lacks(bar, '\n'));
        assert(lacks("object"@, '\n'));
        lemma_concat_lacks(hp, bar, '\n');
        lemma_concat_lacks(hp + bar, o.2, '\n');
        lemma_concat_lacks(hm, bar, '\n');
        lemma_concat_lacks(hm + bar, t3, '\n');
        lemma_concat_lacks(cid, bar, '\n');
        lemma_concat_lacks(cid + bar, t2, '\n');
        lemma_concat_lacks("object"@, bar, '\n');
        lemma_concat_lacks("object"@ + bar, t1, '\n');
    }
    assert(line.last() == o.2.last());
}

/// A persisted object line reads back as the object it was written from.
#[verifier::spinoff_prover]
#[verifier::rlimit(40)]
proof fn lemma_object_line_outcome(cid: Seq<char>, o: (Seq<char>, Seq<u8>, Seq<char>))
    requires
        stored_consistent(cid, o),
        !is_blank_seq(o.0),
    ensures
        object_line_outcome(object_line(cid, o)) == Ok::<
            (Seq<char>, (Seq<char>, Seq<u8>, Seq<char>)),
            (bool, Seq<char>),
        >((cid, o)),
{
    let line = object_line(cid, o);
    lemma_object_line_fields(cid, o);
    let f = split_on(line, '|');
    assert(f.len() == 5);
    assert(f[0] == "object"@);
    assert(f[1] == cid);
    assert(cid_valid(f[1])) by {
        lemma_spec_cid_shape(o.1);
    }
    assert(hex_decode(f[2]) == Some(encode_utf8(o.0))) by {
        lemma_hex_round_trip(encode_utf8(o.0));
    }
    assert(valid_utf8(encode_utf8(o.0))) by {
        vstd::utf8::encode_utf8_valid_utf8(o.0);
    }
    assert(decode_utf8(encode_utf8(o.0)) == o.0);
    assert(hex_decode(f[3]) == Some(o.1)) by {
        lemma_hex_round_trip(o.1);
    }
    assert(f[4] == o.2);
}

/// The lines of the persisted text of `pairs`, split at line breaks.
pub open spec fn object_lines(pairs: Seq<(Seq<char>, StoredObject)>) -> Seq<Seq<char>> {
    pairs.map_values(|p: (Seq<char>, StoredObject)| object_line(p.0, stored_view(p.1)))
}

/// Every pair is a consistent object with a non-blank media type.
pub open spec fn pairs_persistable(pairs: Seq<(Seq<char>, StoredObject)>) -> bool {
    forall|i: int|
        0 <= i < pairs.len() ==> stored_consistent(pairs[i].0, stored_view(#[trigger] pairs[i].1)) && !is_blank_seq(
            pairs[i].1.media_type@,
        )
}

proof fn lemma_serialized_segments(pairs: Seq<(Seq<char>, StoredObject)>)
    requires
        pairs_persistable(pairs),
    ensures
        split_on(serialize_pairs(pairs), '\n') == seq![schema_line()] + object_lines(pairs),
    decreases pairs.len(),
{
    reveal_strlit("schema|kamn.content.file-store.v1");
    reveal_strlit("\n");
    if pairs.len() == 0 {
        assert(lacks(schema_line(), '\n'));
        lemma_split_on_no_sep(schema_line(), '\n');
        assert(object_lines(pairs) =~= Seq::<Seq<char>>::empty());
        assert(seq![schema_line()] + object_lines(pairs) =~= seq![schema_line()]);
    } else {
        let p0 = pairs.drop_last();
        assert(pairs_persistable(p0)) by {
            assert forall|i: int| 0 <= i < p0.len() implies stored_consistent(p0[i].0, stored_view(#[trigger] p0[i].1))
                && !is_blank_seq(p0[i].1.media_type@) by {
                assert(p0[i] == pairs[i]);
            }
        }
        lemma_serialized_segments(p0);
        let last = pairs.last();
        assert(stored_consistent(last.0, stored_view(last.1)));
        let line = object_line(last.0, stored_view(last.1));
        lemma_object_line_fields(last.0, stored_view(last.1));
        assert(serialize_pairs(pairs) =~= serialize_pairs(p0) + seq!['\n'] + line);
        lemma_split_on_concat(serialize_pairs(p0), line, '\n');
        lemma_split_on_no_sep(line, '\n');
        assert(object_lines(pairs) =~= object_lines(p0).push(line));
        assert(seq![schema_line()] + object_lines(pairs) =~= seq![schema_line()] + object_lines(p0) + seq![line]);
    }
}

proof fn lemma_nonblank_keeps(lines: Seq<Seq<char>>)
    requires
        forall|i: int| 0 <= i < lines.len() ==> !is_blank_seq(#[trigger] lines[i]),
    ensures
        nonblank(lines) == lines,
    decreases lines.len(),
{
    if lines.len() > 0 {
        lemma_nonblank_keeps(lines.drop_last());
        assert(lines.drop_last().push(lines.last()) =~= lines);
    }
}

proof fn lemma_parse_object_lines(pairs: Seq<(Seq<char>, StoredObject)>)
    requires
        pairs_persistable(pairs),
    ensures
        parse_objects(object_lines(pairs)) == Ok::<_, (bool, Seq<char>)>(
            crate::strmap::pairs_to_map(pairs).map_values(|o: StoredObject| stored_view(o)),
        ),
    decreases pairs.len(),
{
    let m = crate::strmap::pairs_to_map(pairs).map_values(|o: StoredObject| stored_view(o));
    if pairs.len() == 0 {
        assert(m =~= Map::<Seq<char>, (Seq<char>, Seq<u8>, Seq<char>)>::empty());
    } else {
        let p0 = pairs.drop_last();
        assert(pairs_persistable(p0)) by {
            assert forall|i: int| 0 <= i < p0.len() implies stored_consistent(p0[i].0, stored_view(#[trigger] p0[i].1))
                && !is_blank_seq(p0[i].1.media_type@) by {
                assert(p0[i] == pairs[i]);
            }
        }
        lemma_parse_object_lines(p0);
        let last = pairs.last();
        assert(stored_consistent(last.0, stored_view(last.1)) && !is_blank_seq(last.1.media_type@));
        lemma_object_line_outcome(last.0, stored_view(last.1));
        assert(object_lines(pairs).drop_last() =~= object_lines(p0));
        assert(object_lines(pairs).last() == object_line(last.0, stored_view(last.1)));
        let m0 = crate::strmap::pairs_to_map(p0).map_values(|o: StoredObject| stored_view(o));
        assert(m =~= m0.insert(last.0, stored_view(last.1)));
    }
}

/// Reading back the persisted text of a store gives exactly the objects
/// written, for stores whose objects are consistent with their CIDs and
/// tags and carry a non-blank media type.
pub proof fn lemma_store_round_trip(objects: StrMap<StoredObject>)
    requires
        objects.wf(),
        forall|k: Seq<char>|
            #[trigger] objects.map().dom().contains(k) ==> stored_consistent(k, stored_view(objects.map()[k]))
                && !is_blank_seq(objects.map()[k].media_type@),
    ensures
        parse_store(serialize_pairs(objects.pairs())) == Ok::<_, (bool, Seq<char>)>(
            objects.map().map_values(|o: StoredObject| stored_view(o)),
        ),
{
    reveal_strlit("schema|kamn.content.file-store.v1");
    let pairs = objects.pairs();
    objects.lemma_well_formed();
    assert(pairs_persistable(pairs)) by {
        assert forall|i: int| 0 <= i < pairs.len() implies stored_consistent(pairs[i].0, stored_view(#[trigger] pairs[i].1))
            && !is_blank_seq(pairs[i].1.media_type@) by {
            assert(objects.map().dom().contains(pairs[i].0));
        }
    }
    let text = serialize_pairs(pairs);
    lemma_serialized_segments(pairs);
    let segs = split_on(text, '\n');
    let lines = seq![schema_line()] + object_lines(pairs);
    assert forall|i: int| 0 <= i < lines.len() implies !is_blank_seq(#[trigger] lines[i]) && (lines[i].len() > 0
        && lines[i].last() != '\r') by {
        if i == 0 {
            assert(lines[0] == schema_line());
            assert(!is_ws(schema_line()[0]));
        } else {
            assert(lines[i] == object_lines(pairs)[i - 1]);
            let p = pairs[i - 1];
            lemma_object_line_fields(p.0, stored_view(p.1));
            assert(!is_ws(lines[i][0]));
        }
    }
    assert(payload_lines(text) =~= lines);
    lemma_nonblank_keeps(lines);
    assert(lines.skip(1) =~= object_lines(pairs));
    lemma_parse_object_lines(pairs);
}

/// Calls `String::from_utf8`. Assumed: it succeeds exactly when the bytes are
/// valid UTF-8, and the string then holds the characters they decode to.
#[verifier::external_body]
fn string_from_utf8(bytes: Vec<u8>) -> (r: Option<String>)
    ensures
        r is Some <==> valid_utf8(bytes@),
        r matches Some(s) ==> s@ == decode_utf8(bytes@),
{
    String::from_utf8(bytes).ok()
}

/// Parses one object line of a persisted store.
pub fn parse_object_line(line: &[char]) -> (r: Result<(String, StoredObject), ContentStorageError>)
    ensures
        r is Ok <==> object_line_outcome(line@) is Ok,
        r matches Ok((cid, o)) ==> object_line_outcome(line@) == Ok::<
            (Seq<char>, (Seq<char>, Seq<u8>, Seq<char>)),
            (bool, Seq<char>),
        >((cid@, stored_view(o))),
        r matches Err(e) ==> store_error_matches(e, object_line_outcome(line@)->Err_0),
{
    let f = split_chars(line, '|');
    let ghost fv = split_on(line@, '|');
    assert(f@.len() == fv.len());
    assert(forall|i: int| 0 <= i < f@.len() ==> #[trigger] f@[i]@ == fv[i]) by {
        assert forall|i: int| 0 <= i < f@.len() implies #[trigger] f@[i]@ == fv[i] by {
            assert(views_of(f@)[i] == f@[i]@);
        }
    }
    let object_word = chars_of("object");
    if f.len() != 5 || !chars_eq(f[0].as_slice(), object_word.as_slice()) {
        return Err(ContentStorageError::InvalidPayload(string_from_chars(line)));
    }
    let cid = string_from_chars(f[1].as_slice());
    validate_cid(cid.as_str())?;
    let bad = string_from_chars(line);
    let media_bytes = match decode_hex(string_from_chars(f[2].as_slice()).as_str()) {
        Some(b) => b,
        None => {
            return Err(ContentStorageError::InvalidPayload(bad));
        },
    };
    let media_type = match string_from_utf8(media_bytes) {
        Some(m) => m,
        None => {
            return Err(ContentStorageError::InvalidPayload(bad));
        },
    };
    if is_blank(media_type.as_str()) {
        return Err(ContentStorageError::InvalidPayload(bad));
    }
    let payload_bytes = match decode_hex(string_from_chars(f[3].as_slice()).as_str()) {
        Some(b) => b,
        None => {
            return Err(ContentStorageError::InvalidPayload(bad));
        },
    };
    let expected_cid = cid_for_payload(payload_bytes.as_slice());
    if !str_eq(expected_cid.as_str(), cid.as_str()) {
        return Err(ContentStorageError::InvalidPayload(bad));
    }
    let expected_integrity_tag = integrity_tag_for_payload(payload_bytes.as_slice());
    let integrity_tag = string_from_chars(f[4].as_slice());
    if !str_eq(expected_integrity_tag.as_str(), integrity_tag.as_str()) {
        return Err(ContentStorageError::InvalidPayload(bad));
    }
    Ok((cid, StoredObject { media_type, payload: payload_bytes, integrity_tag }))
}

/// Parses a persisted store text into its objects keyed by CID.
pub fn parse_content_store_payload(payload: &str) -> (r: Result<
    StrMap<StoredObject>,
    ContentStorageError,
>)
    ensures
        r is Ok <==> parse_store(payload@) is Ok,
        r matches Ok(m) ==> m.wf() && m.map().map_values(|o: StoredObject| stored_view(o))
            == parse_store(payload@)->Ok_0,
        r matches Err(e) ==> store_error_matches(e, parse_store(payload@)->Err_0),
{
    let text = chars_of(payload);
    let segs = split_chars(text.as_slice(), '\n');
    let ghost segv = split_on(payload@, '\n');
    let ghost all_lines = payload_lines(payload@);
    let mut lines: Vec<Vec<char>> = Vec::new();
    let mut i: usize = 0;
    while i < segs.len()
        invariant
            text@ == payload@,
            views_of(segs@) == segv,
            segv == split_on(payload@, '\n'),
            all_lines == payload_lines(payload@),
            all_lines.len() == segv.len(),
            i <= segs@.len(),
            views_of(lines@) == nonblank(all_lines.take(i as int)),
        decreases segs@.len() - i,
    {
        let ghost li = all_lines[i as int];
        assert(views_of(segs@)[i as int] == segs@[i as int]@);
        let seg = &segs[i];
        let line = if i + 1 < segs.len() && seg.len() > 0 && seg[seg.len() - 1] == '\r' {
            slice_upto(seg.as_slice(), seg.len() - 1)
        } else {
            copy_chars(seg.as_slice())
        };
        assert(line@ == li);
        proof {
            assert(all_lines.take(i + 1).drop_last() =~= all_lines.take(i as int));
        }
        if !is_blank_chars(line.as_slice()) {
            lines.push(line);
            proof {
                assert(views_of(lines@) =~= nonblank(all_lines.take(i as int)).push(li));
            }
        }
        i = i + 1;
    }
    assert(all_lines.take(segs@.len() as int) =~= all_lines);
    let ghost lv = nonblank(all_lines);
    let mut objects: StrMap<StoredObject> = StrMap::new();
    if lines.len() == 0 {
        assert(objects.map().map_values(|o: StoredObject| stored_view(o)) =~= Map::empty());
        return Ok(objects);
    }
    assert(views_of(lines@)[0] == lines@[0]@);
    let schema = chars_of(CONTENT_STORE_SCHEMA_LINE);
    if !chars_eq(lines[0].as_slice(), schema.as_slice()) {
        return Err(ContentStorageError::InvalidPayload(string_from_chars(lines[0].as_slice())));
    }
    let ghost rest = lv.skip(1);
    let mut k: usize = 1;
    while k < lines.len()
        invariant
            views_of(lines@) == lv,
            lv == nonblank(payload_lines(payload@)),
            lv[0] == schema_line(),
            lv.len() >= 1,
            rest == lv.skip(1),
            1 <= k <= lines@.len(),
            objects.wf(),
            parse_objects(rest.take(k - 1)) is Ok,
            objects.map().map_values(|o: StoredObject| stored_view(o)) == parse_objects(
                rest.take(k - 1),
            )->Ok_0,
        decreases lines@.len() - k,
    {
        assert(views_of(lines@)[k as int] == lines@[k as int]@);
        assert(rest.take(k as int).drop_last() =~= rest.take(k - 1));
        assert(rest.take(k as int).last() == lv[k as int]);
        match parse_object_line(lines[k].as_slice()) {
            Err(e) => {
                proof {
                    assert(parse_objects(rest.take(k as int))->Err_0 == object_line_outcome(lv[k as int])->Err_0);
                    lemma_parse_objects_error_persists(rest, k as int);
                }
                return Err(e);
            },
            Ok((cid, object)) => {
                let ghost before = objects.map();
                let ghost ov = object;
                let ghost cv = cid@;
                objects.insert(cid, object);
                proof {
                    assert(objects.map().map_values(|o: StoredObject| stored_view(o)) =~= before.map_values(
                        |o: StoredObject| stored_view(o),
                    ).insert(cv, stored_view(ov)));
                }
            },
        }
        k = k + 1;
    }
    assert(rest.take(k - 1) =~= rest);
    Ok(objects)
}

/// The first `end` characters.
pub fn slice_upto(v: &[char], end: usize) -> (r: Vec<char>)
    requires
        end <= v@.len(),
    ensures
        r@ == v@.take(end as int),
{
    let mut r: Vec<char> = Vec::new();
    let mut i: usize = 0;
    while i < end
        invariant
            i <= end <= v@.len(),
            r@ == v@.take(i as int),
        decreases end - i,
    {
        r.push(v[i]);
        i = i + 1;
        assert(r@ =~= v@.take(i as int));
    }
    r
}

/// Persisted text of a store: the schema line, then one line per object in key order.
pub fn serialize_content_store_payload(objects: &StrMap<StoredObject>) -> (s: String)
    ensures
        s@ == serialize_pairs(objects.pairs()),
{
    let mut out = CONTENT_STORE_SCHEMA_LINE.to_owned();
    let mut i: usize = 0;
    while i < objects.len()
        invariant
            i <= objects.pairs().len(),
            out@ == serialize_pairs(objects.pairs().take(i as int)),
        decreases objects.pairs().len() - i,
    {
        let cid = objects.key_at(i);
        let object = objects.value_at(i);
        let ghost before = out@;
        out.append("\n");
        out.append("object|");
        out.append(cid.as_str());
        out.append("|");
        push_hex_bytes(&mut out, object.media_type.as_str().as_bytes());
        out.append("|");
        push_hex_bytes(&mut out, object.payload.as_slice());
        out.append("|");
        out.append(object.integrity_tag.as_str());
        proof {
            let p = objects.pairs().take(i + 1);
            assert(p.drop_last() =~= objects.pairs().take(i as int));
            assert(p.last() == objects.pairs()[i as int]);
            assert(out@ =~= before + "\n"@ + object_line(cid@, stored_view(*object)));
        }
        i = i + 1;
    }
    assert(objects.pairs().take(objects.pairs().len() as int) =~= objects.pairs());
    out
}

/// The error's message text.
pub open spec fn content_storage_error_message(e: ContentStorageError) -> Seq<char> {
    match e {
        ContentStorageError::EmptyField(field) => "field must not be empty: "@ + field@,
        ContentStorageError::Io(value) => "content storage I/O error: "@ + value@,
        ContentStorageError::InvalidPayload(value) => "content storage invalid payload: "@ + value@,
        ContentStorageError::InvalidCid(value) => "invalid content identifier: "@ + value@,
        ContentStorageError::InvalidContentUri(value) => "invalid content uri: "@ + value@,
        ContentStorageError::NotFound(value) => "content not found: "@ + value@,
        ContentStorageError::IntegrityMismatch { cid, expected, found } => "content integrity mismatch for "@ + cid@ + "; expected "@ + expected@ + ", found "@ + found@,
    }
}

impl ContentStorageError {
    /// The error's message text.
    pub fn message(&self) -> (r: String)
        ensures
            r@ == content_storage_error_message(*self),
    {
        match self {
            ContentStorageError::EmptyField(field) => {
                let mut out = String::new();
                out.append("field must not be empty: ");
                out.append(*field);
                proof {
                    assert(out@ =~= "field must not be empty: "@ + field@);
                }
                out
            },
            ContentStorageError::Io(value) => {
                let mut out = String::new();
                out.append("content storage I/O error: ");
                out.append(value.as_str());
                proof {
                    assert(out@ =~= "content storage I/O error: "@ + value@);
                }
                out
            },
            ContentStorageError::InvalidPayload(value) => {
                let mut out = String::new();
                out.append("content storage invalid payload: ");
                out.append(value.as_str());
                proof {
                    assert(out@ =~= "content storage invalid payload: "@ + value@);
                }
                out
            },
            ContentStorageError::InvalidCid(value) => {
                let mut out = String::new();
                out.append("invalid content identifier: ");
                out.append(value.as_str());
                proof {
                    assert(out@ =~= "invalid content identifier: "@ + value@);
                }
                out
            },
            ContentStorageError::InvalidContentUri(value) => {
                let mut out = String::new();
                out.append("invalid content uri: ");
                out.append(value.as_str());
                proof {
                    assert(out@ =~= "invalid content uri: "@ + value@);
                }
                out
            },
            ContentStorageError::NotFound(value) => {
                let mut out = String::new();
                out.append("content not found: ");
                out.append(value.as_str());
                proof {
                    assert(out@ =~= "content not found: "@ + value@);
                }
                out
            },
            ContentStorageError::IntegrityMismatch { cid, expected, found } => {
                let mut out = String::new();
                out.append("content integrity mismatch for ");
                out.append(cid.as_str());
                out.append("; expected ");
                out.append(expected.as_str());
                out.append(", found ");
                out.append(found.as_str());
                proof {
                    assert(out@ =~= "content integrity mismatch for "@ + cid@ + "; expected "@ + expected@ + ", found "@ + found@);
                }
                out
            },
        }
    }
}

} // verus!
