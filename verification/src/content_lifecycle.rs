//! Content retention, tombstone, and purge lifecycle contracts.
use vstd::prelude::*;
use crate::content_storage::{cid_from_content_uri, cid_valid, content_uri_for_cid, uri_prefix};
use crate::strmap::StrMap;
use crate::text::has_prefix;

verus! {

pub const SHORT_LIVED_RETAIN_SECS: u64 = 3_600;
pub const SHORT_LIVED_TOMBSTONE_SECS: u64 = 3_600;
pub const STANDARD_RETAIN_SECS: u64 = 86_400;
pub const STANDARD_TOMBSTONE_SECS: u64 = 86_400;
pub const COMPLIANCE_RETAIN_SECS: u64 = 31_536_000;
pub const COMPLIANCE_TOMBSTONE_SECS: u64 = 31_536_000;

/// Retention class used to derive expiry and tombstone windows.
#[derive(Debug, Clone, Copy, PartialEq, Eq, Structural)]
pub enum ContentRetentionClass {
    /// Ephemeral content retained for a short period.
    ShortLived,
    /// Default retention profile for standard content.
    Standard,
    /// Long-retention profile for compliance-sensitive content.
    Compliance,
}

/// Derived retention profile used by lifecycle calculations.
#[derive(Debug, Clone, Copy, PartialEq, Eq, Structural)]
pub struct ContentRetentionProfile {
    /// Seconds from creation until content becomes expired.
    pub retain_for_secs: u64,
    /// Seconds from tombstone until purge is eligible.
    pub tombstone_for_secs: u64,
}

/// Current lifecycle status for a content record at a point in time.
#[derive(Debug, Clone, Copy, PartialEq, Eq, Structural)]
pub enum ContentLifecycleStatus {
    /// Content is within retention window and accessible.
    Active,
    /// Content retention window elapsed and is due for tombstone.
    Expired,
    /// Content has been tombstoned and is waiting for purge window.
    Tombstoned,
    /// Content has been purged and cannot be accessed.
    Purged,
}

/// Cleanup action scheduler output for lifecycle maintenance.
#[derive(Debug, Clone, Copy, PartialEq, Eq, Structural)]
pub enum ContentCleanupActionKind {
    /// Mark content as tombstoned.
    Tombstone,
    /// Permanently purge content.
    Purge,
}

/// Scheduled cleanup action for a content identifier.
#[derive(Debug, Clone, PartialEq, Eq)]
pub struct ContentCleanupAction {
    /// Content identifier the action applies to.
    pub cid: String,
    /// Cleanup action to execute for the record.
    pub action: ContentCleanupActionKind,
}

/// Mutable lifecycle metadata tracked for a single content identifier.
#[derive(Debug, Clone, PartialEq, Eq)]
pub struct ContentLifecycleRecord {
    /// Canonical content identifier.
    pub cid: String,
    /// Retention class used to calculate lifecycle windows.
    pub retention_class: ContentRetentionClass,
    /// Unix timestamp when the content was registered.
    pub created_at_unix: u64,
    /// Unix timestamp when content first becomes expired.
    pub expires_at_unix: u64,
    /// Unix timestamp when tombstone was applied, if any.
    pub tombstoned_at_unix: Option<u64>,
    /// Unix timestamp after which purge is eligible, if tombstoned.
    pub purge_after_unix: Option<u64>,
    /// Unix timestamp when purge was executed, if any.
    pub purged_at_unix: Option<u64>,
}

impl ContentLifecycleRecord {
    /// An exact copy of the record.
    pub fn copy(&self) -> (r: Self)
        ensures
            r == *self,
    {
        ContentLifecycleRecord {
            cid: self.cid.clone(),
            retention_class: self.retention_class,
            created_at_unix: self.created_at_unix,
            expires_at_unix: self.expires_at_unix,
            tombstoned_at_unix: self.tombstoned_at_unix,
            purge_after_unix: self.purge_after_unix,
            purged_at_unix: self.purged_at_unix,
        }
    }
}

/// Lifecycle manager error taxonomy.
#[derive(Debug, Clone, PartialEq, Eq)]
pub enum ContentLifecycleError {
    /// A required input field was empty or zero.
    EmptyField(&'static str),
    /// CID failed canonical validation.
    InvalidCid(String),
    /// Content URI could not be parsed into a CID.
    InvalidContentUri(String),
    /// Lifecycle record already exists for CID.
    DuplicateContent(String),
    /// Lifecycle record does not exist for CID.
    NotFound(String),
    /// No cleanup action is due at the provided timestamp.
    NoCleanupDue(String),
    /// Content is expired and no longer accessible.
    Expired(String),
    /// Content is tombstoned and not accessible.
    Tombstoned(String),
    /// Content has been purged and is permanently inaccessible.
    Purged(String),
}

/// Retention windows of each class.
pub open spec fn spec_retention_profile(class: ContentRetentionClass) -> ContentRetentionProfile {
    match class {
        ContentRetentionClass::ShortLived => ContentRetentionProfile {
            retain_for_secs: 3_600,
            tombstone_for_secs: 3_600,
        },
        ContentRetentionClass::Standard => ContentRetentionProfile {
            retain_for_secs: 86_400,
            tombstone_for_secs: 86_400,
        },
        ContentRetentionClass::Compliance => ContentRetentionProfile {
            retain_for_secs: 31_536_000,
            tombstone_for_secs: 31_536_000,
        },
    }
}

/// Status of a record at `now`.
pub open spec fn spec_status(record: ContentLifecycleRecord, now: u64) -> ContentLifecycleStatus {
    if record.purged_at_unix is Some {
        ContentLifecycleStatus::Purged
    } else if record.tombstoned_at_unix is Some {
        ContentLifecycleStatus::Tombstoned
    } else if now > record.expires_at_unix {
        ContentLifecycleStatus::Expired
    } else {
        ContentLifecycleStatus::Active
    }
}

/// Cleanup action due for a record at `now`, if any.
pub open spec fn spec_due_action(record: ContentLifecycleRecord, now: u64) -> Option<
    ContentCleanupActionKind,
> {
    if record.purged_at_unix is Some {
        None
    } else if record.purge_after_unix is Some {
        if now > record.purge_after_unix->0 {
            Some(ContentCleanupActionKind::Purge)
        } else {
            None
        }
    } else if now > record.expires_at_unix {
        Some(ContentCleanupActionKind::Tombstone)
    } else {
        None
    }
}

/// Due actions for a sequence of (cid, record) entries, in entry order.
pub open spec fn spec_cleanup_plan(
    entries: Seq<(Seq<char>, ContentLifecycleRecord)>,
    now: u64,
) -> Seq<(Seq<char>, ContentCleanupActionKind)>
    decreases entries.len(),
{
    if entries.len() == 0 {
        Seq::empty()
    } else {
        let r = spec_cleanup_plan(entries.drop_last(), now);
        match spec_due_action(entries.last().1, now) {
            Some(a) => r.push((entries.last().0, a)),
            None => r,
        }
    }
}

/// The record after the cleanup `kind` is carried out at `now`: a purge
/// stamps the purge time; a tombstone stamps the tombstone time and the
/// purge deadline (now plus the class's tombstone window, saturating).
pub open spec fn spec_cleaned(
    record: ContentLifecycleRecord,
    kind: ContentCleanupActionKind,
    now: u64,
) -> ContentLifecycleRecord {
    match kind {
        ContentCleanupActionKind::Purge => ContentLifecycleRecord { purged_at_unix: Some(now), ..record },
        ContentCleanupActionKind::Tombstone => ContentLifecycleRecord {
            tombstoned_at_unix: Some(now),
            purge_after_unix: Some(
                now.saturating_add(spec_retention_profile(record.retention_class).tombstone_for_secs),
            ),
            ..record
        },
    }
}

/// The plan lists `(c, k)` exactly when some entry for `c` has `k` due.
proof fn lemma_plan_membership(
    entries: Seq<(Seq<char>, ContentLifecycleRecord)>,
    now: u64,
    c: Seq<char>,
    k: ContentCleanupActionKind,
)
    ensures
        spec_cleanup_plan(entries, now).contains((c, k)) <==> exists|j: int|
            0 <= j < entries.len() && entries[j].0 == c && spec_due_action(entries[j].1, now) == Some(k),
    decreases entries.len(),
{
    if entries.len() > 0 {
        let init = entries.drop_last();
        lemma_plan_membership(init, now, c, k);
        let r = spec_cleanup_plan(init, now);
        if exists|j: int| 0 <= j < entries.len() && entries[j].0 == c && spec_due_action(entries[j].1, now) == Some(k) {
            let j = choose|j: int| 0 <= j < entries.len() && entries[j].0 == c && spec_due_action(entries[j].1, now) == Some(k);
            if j < entries.len() - 1 {
                assert(init[j] == entries[j]);
                let w = choose|w: int| 0 <= w < r.len() && r[w] == (c, k);
                match spec_due_action(entries.last().1, now) {
                    Some(a) => assert(r.push((entries.last().0, a))[w] == (c, k)),
                    None => {},
                }
            } else {
                match spec_due_action(entries.last().1, now) {
                    Some(a) => assert(r.push((entries.last().0, a))[r.len() as int] == (c, k)),
                    None => {},
                }
            }
        }
        if spec_cleanup_plan(entries, now).contains((c, k)) {
            match spec_due_action(entries.last().1, now) {
                Some(a) => {
                    let p = r.push((entries.last().0, a));
                    let w = choose|w: int| 0 <= w < p.len() && p[w] == (c, k);
                    if w < r.len() {
                        assert(r[w] == (c, k));
                        let j = choose|j: int| 0 <= j < init.len() && init[j].0 == c && spec_due_action(init[j].1, now) == Some(k);
                        assert(entries[j] == init[j]);
                    } else {
                        assert(entries[entries.len() - 1] == entries.last());
                    }
                },
                None => {
                    let j = choose|j: int| 0 <= j < init.len() && init[j].0 == c && spec_due_action(init[j].1, now) == Some(k);
                    assert(entries[j] == init[j]);
                },
            }
        }
    }
}

/// Carrying out the cleanup due for a record settles it: after a purge the
/// content is `Purged` at every later time, after a tombstone it is
/// `Tombstoned` at every time, and no second cleanup is due at the same
/// moment.
pub proof fn lemma_cleanup_settles(record: ContentLifecycleRecord, now: u64, at: u64)
    requires
        spec_due_action(record, now) is Some,
    ensures
        spec_due_action(record, now) == Some(ContentCleanupActionKind::Purge) ==> spec_status(
            spec_cleaned(record, ContentCleanupActionKind::Purge, now),
            at,
        ) == ContentLifecycleStatus::Purged,
        spec_due_action(record, now) == Some(ContentCleanupActionKind::Tombstone) ==> spec_status(
            spec_cleaned(record, ContentCleanupActionKind::Tombstone, now),
            at,
        ) == ContentLifecycleStatus::Tombstoned,
        spec_due_action(spec_cleaned(record, spec_due_action(record, now)->0, now), now) is None,
{
}

/// The view of an action list.
pub open spec fn actions_view(actions: Seq<ContentCleanupAction>) -> Seq<
    (Seq<char>, ContentCleanupActionKind),
> {
    actions.map_values(|a: ContentCleanupAction| (a.cid@, a.action))
}

/// The record registration creates.
pub open spec fn spec_registered(
    cid: Seq<char>,
    class: ContentRetentionClass,
    created_at: u64,
    record: ContentLifecycleRecord,
) -> bool {
    &&& record.cid@ == cid
    &&& record.retention_class == class
    &&& record.created_at_unix == created_at
    &&& record.expires_at_unix == created_at.saturating_add(
        spec_retention_profile(class).retain_for_secs,
    )
    &&& record.tombstoned_at_unix is None
    &&& record.purge_after_unix is None
    &&& record.purged_at_unix is None
}

/// The record after a tombstone at `at` (unchanged when already tombstoned).
pub open spec fn spec_tombstoned(record: ContentLifecycleRecord, at: u64) -> ContentLifecycleRecord {
    if record.tombstoned_at_unix is None {
        ContentLifecycleRecord {
            tombstoned_at_unix: Some(at),
            purge_after_unix: Some(
                at.saturating_add(spec_retention_profile(record.retention_class).tombstone_for_secs),
            ),
            ..record
        }
    } else {
        record
    }
}

/// In-memory manager for content lifecycle registration and cleanup decisions.
#[derive(Debug, PartialEq, Eq)]
pub struct ContentLifecycleManager {
    records: StrMap<ContentLifecycleRecord>,
}

impl ContentLifecycleManager {
    /// Records by CID.
    pub closed spec fn records(&self) -> Map<Seq<char>, ContentLifecycleRecord> {
        self.records.map()
    }

    /// Records in CID order.
    pub closed spec fn entries(&self) -> Seq<(Seq<char>, ContentLifecycleRecord)> {
        self.records.pairs()
    }

    #[verifier::type_invariant]
    closed spec fn inv(&self) -> bool {
        self.records.wf()
    }

    /// Creates an empty lifecycle manager.
    pub fn new() -> (m: Self)
        ensures
            m.records() == Map::<Seq<char>, ContentLifecycleRecord>::empty(),
    {
        ContentLifecycleManager { records: StrMap::new() }
    }

    /// Returns the retention profile associated with a retention class.
    pub fn retention_profile(class: ContentRetentionClass) -> (p: ContentRetentionProfile)
        ensures
            p == spec_retention_profile(class),
    {
        match class {
            ContentRetentionClass::ShortLived => ContentRetentionProfile {
                retain_for_secs: SHORT_LIVED_RETAIN_SECS,
                tombstone_for_secs: SHORT_LIVED_TOMBSTONE_SECS,
            },
            ContentRetentionClass::Standard => ContentRetentionProfile {
                retain_for_secs: STANDARD_RETAIN_SECS,
                tombstone_for_secs: STANDARD_TOMBSTONE_SECS,
            },
            ContentRetentionClass::Compliance => ContentRetentionProfile {
                retain_for_secs: COMPLIANCE_RETAIN_SECS,
                tombstone_for_secs: COMPLIANCE_TOMBSTONE_SECS,
            },
        }
    }

    /// Registers a new content lifecycle record and computes expiry from profile.
    ///
    /// Fails when the CID is invalid, the timestamp is zero, or the CID is already registered.
    pub fn register(
        &mut self,
        cid: &str,
        retention_class: ContentRetentionClass,
        created_at_unix: u64,
    ) -> (r: Result<ContentLifecycleRecord, ContentLifecycleError>)
        ensures
            r is Ok <==> cid_valid(cid@) && created_at_unix != 0 && !old(
                self,
            ).records().dom().contains(cid@),
            !cid_valid(cid@) ==> (r matches Err(e) && e matches ContentLifecycleError::InvalidCid(
                v,
            ) && v@ == cid@),
            cid_valid(cid@) && created_at_unix == 0 ==> r == Err::<
                ContentLifecycleRecord,
                ContentLifecycleError,
            >(ContentLifecycleError::EmptyField("created_at_unix")),
            cid_valid(cid@) && created_at_unix != 0 && old(self).records().dom().contains(cid@) ==> (
            r matches Err(e) && e matches ContentLifecycleError::DuplicateContent(v) && v@ == cid@),
            r matches Ok(record) ==> spec_registered(cid@, retention_class, created_at_unix, record)
                && final(self).records() == old(self).records().insert(cid@, record),
            r is Err ==> final(self).records() == old(self).records(),
    {
        proof {
            use_type_invariant(&*self);
        }
        if content_uri_for_cid(cid).is_err() {
            return Err(ContentLifecycleError::InvalidCid(cid.to_owned()));
        }
        if created_at_unix == 0 {
            return Err(ContentLifecycleError::EmptyField("created_at_unix"));
        }
        if self.records.contains(cid) {
            return Err(ContentLifecycleError::DuplicateContent(cid.to_owned()));
        }
        let profile = Self::retention_profile(retention_class);
        let record = ContentLifecycleRecord {
            cid: cid.to_owned(),
            retention_class,
            created_at_unix,
            expires_at_unix: created_at_unix.saturating_add(profile.retain_for_secs),
            tombstoned_at_unix: None,
            purge_after_unix: None,
            purged_at_unix: None,
        };
        let stored = record.copy();
        let mut records = StrMap::new();
        std::mem::swap(&mut records, &mut self.records);
        records.insert(cid.to_owned(), stored);
        self.records = records;
        Ok(record)
    }

    /// Applies tombstone state to an existing record and sets purge eligibility.
    ///
    /// Idempotent for already-tombstoned records.
    pub fn apply_tombstone(&mut self, cid: &str, tombstoned_at_unix: u64) -> (r: Result<
        ContentLifecycleRecord,
        ContentLifecycleError,
    >)
        ensures
            r is Ok <==> tombstoned_at_unix != 0 && old(self).records().dom().contains(cid@) && old(
                self,
            ).records()[cid@].purged_at_unix is None,
            tombstoned_at_unix == 0 ==> r == Err::<ContentLifecycleRecord, ContentLifecycleError>(
                ContentLifecycleError::EmptyField("tombstoned_at_unix"),
            ),
            tombstoned_at_unix != 0 && !old(self).records().dom().contains(cid@) ==> (r matches Err(
                e,
            ) && e matches ContentLifecycleError::NotFound(v) && v@ == cid@),
            tombstoned_at_unix != 0 && old(self).records().dom().contains(cid@) && old(
                self,
            ).records()[cid@].purged_at_unix is Some ==> (r matches Err(e)
                && e matches ContentLifecycleError::Purged(v) && v@ == cid@),
            r matches Ok(record) ==> record == spec_tombstoned(
                old(self).records()[cid@],
                tombstoned_at_unix,
            ) && final(self).records() == old(self).records().insert(cid@, record),
            r is Err ==> final(self).records() == old(self).records(),
    {
        proof {
            use_type_invariant(&*self);
        }
        if tombstoned_at_unix == 0 {
            return Err(ContentLifecycleError::EmptyField("tombstoned_at_unix"));
        }
        let i = match self.records.find(cid) {
            Some(i) => i,
            None => {
                return Err(ContentLifecycleError::NotFound(cid.to_owned()));
            },
        };
        proof {
            self.records.lemma_well_formed();
        }
        let current = self.records.value_at(i);
        if current.purged_at_unix.is_some() {
            return Err(ContentLifecycleError::Purged(cid.to_owned()));
        }
        let mut record = current.copy();
        if record.tombstoned_at_unix.is_none() {
            let profile = Self::retention_profile(record.retention_class);
            record.tombstoned_at_unix = Some(tombstoned_at_unix);
            record.purge_after_unix = Some(tombstoned_at_unix.saturating_add(profile.tombstone_for_secs));
        }
        let stored = record.copy();
        let ghost before = self.records.pairs();
        let mut records = StrMap::new();
        std::mem::swap(&mut records, &mut self.records);
        records.set_value_at(i, stored);
        self.records = records;
        proof {
            crate::strmap::lemma_pairs_update_map(before, i as int, stored);
        }
        Ok(record)
    }

    /// Resolves the lifecycle status for a content identifier at `now_unix`.
    pub fn lifecycle_status(&self, cid: &str, now_unix: u64) -> (r: Result<
        ContentLifecycleStatus,
        ContentLifecycleError,
    >)
        ensures
            r is Ok <==> self.records().dom().contains(cid@),
            r matches Ok(status) ==> status == spec_status(self.records()[cid@], now_unix),
            r matches Err(e) ==> e matches ContentLifecycleError::NotFound(v) && v@ == cid@,
    {
        proof {
            use_type_invariant(self);
        }
        let record = match self.records.get(cid) {
            Some(record) => record,
            None => {
                return Err(ContentLifecycleError::NotFound(cid.to_owned()));
            },
        };
        if record.purged_at_unix.is_some() {
            return Ok(ContentLifecycleStatus::Purged);
        }
        if record.tombstoned_at_unix.is_some() {
            return Ok(ContentLifecycleStatus::Tombstoned);
        }
        if now_unix > record.expires_at_unix {
            return Ok(ContentLifecycleStatus::Expired);
        }
        Ok(ContentLifecycleStatus::Active)
    }

    /// Returns cleanup actions that are due at `now_unix`, in CID order.
    pub fn cleanup_due(&self, now_unix: u64) -> (actions: Vec<ContentCleanupAction>)
        ensures
            actions_view(actions@) == spec_cleanup_plan(self.entries(), now_unix),
            forall|c: Seq<char>, k: ContentCleanupActionKind| #[trigger]
                actions_view(actions@).contains((c, k)) <==> self.records().dom().contains(c)
                    && spec_due_action(self.records()[c], now_unix) == Some(k),
    {
        let mut actions: Vec<ContentCleanupAction> = Vec::new();
        let mut i: usize = 0;
        while i < self.records.len()
            invariant
                i <= self.entries().len(),
                actions_view(actions@) == spec_cleanup_plan(self.entries().take(i as int), now_unix),
            decreases self.entries().len() - i,
        {
            let cid = self.records.key_at(i);
            let record = self.records.value_at(i);
            proof {
                let t = self.entries().take(i + 1);
                assert(t.drop_last() =~= self.entries().take(i as int));
                assert(t.last() == self.entries()[i as int]);
            }
            if record.purged_at_unix.is_none() {
                match record.purge_after_unix {
                    Some(purge_after_unix) => {
                        if now_unix > purge_after_unix {
                            actions.push(
                                ContentCleanupAction {
                                    cid: cid.clone(),
                                    action: ContentCleanupActionKind::Purge,
                                },
                            );
                        }
                    },
                    None => {
                        if now_unix > record.expires_at_unix {
                            actions.push(
                                ContentCleanupAction {
                                    cid: cid.clone(),
                                    action: ContentCleanupActionKind::Tombstone,
                                },
                            );
                        }
                    },
                }
            }
            proof {
                let t = self.entries().take(i + 1);
                assert(actions_view(actions@) =~= spec_cleanup_plan(t, now_unix));
            }
            i = i + 1;
        }
        assert(self.entries().take(self.entries().len() as int) =~= self.entries());
        proof {
            use_type_invariant(self);
            self.records.lemma_well_formed();
            assert forall|c: Seq<char>, k: ContentCleanupActionKind| #[trigger]
                actions_view(actions@).contains((c, k)) <==> self.records().dom().contains(c)
                    && spec_due_action(self.records()[c], now_unix) == Some(k) by {
                lemma_plan_membership(self.entries(), now_unix, c, k);
                if self.records().dom().contains(c) {
                    let j = choose|j: int| 0 <= j < self.records.pairs().len() && self.records.pairs()[j].0 == c;
                    assert(self.entries()[j] == self.records.pairs()[j]);
                }
            }
        }
        actions
    }

    /// Executes the cleanup action due for `cid` at `now_unix`.
    ///
    /// Returns the action performed (`Tombstone` or `Purge`) when one is due.
    pub fn execute_cleanup(&mut self, cid: &str, now_unix: u64) -> (r: Result<
        ContentCleanupActionKind,
        ContentLifecycleError,
    >)
        ensures
            !old(self).records().dom().contains(cid@) ==> (r matches Err(e)
                && e matches ContentLifecycleError::NotFound(v) && v@ == cid@),
            old(self).records().dom().contains(cid@) && old(self).records()[cid@].purged_at_unix is Some
                ==> (r matches Err(e) && e matches ContentLifecycleError::Purged(v) && v@ == cid@),
            old(self).records().dom().contains(cid@) ==> (r is Ok <==> spec_due_action(
                old(self).records()[cid@],
                now_unix,
            ) is Some),
            r matches Ok(a) ==> spec_due_action(old(self).records()[cid@], now_unix) == Some(a),
            old(self).records().dom().contains(cid@) && old(self).records()[cid@].purged_at_unix is None
                && spec_due_action(old(self).records()[cid@], now_unix) is None ==> (r matches Err(e)
                && e matches ContentLifecycleError::NoCleanupDue(v) && v@ == cid@),
            r matches Ok(a) ==> final(self).records() == old(self).records().insert(
                cid@,
                spec_cleaned(old(self).records()[cid@], a, now_unix),
            ),
            r is Err ==> final(self).records() == old(self).records(),
    {
        proof {
            use_type_invariant(&*self);
        }
        let i = match self.records.find(cid) {
            Some(i) => i,
            None => {
                return Err(ContentLifecycleError::NotFound(cid.to_owned()));
            },
        };
        proof {
            self.records.lemma_well_formed();
        }
        let current = self.records.value_at(i);
        if current.purged_at_unix.is_some() {
            return Err(ContentLifecycleError::Purged(cid.to_owned()));
        }
        let mut record = current.copy();
        let action;
        match record.purge_after_unix {
            Some(purge_after_unix) => {
                if now_unix > purge_after_unix {
                    record.purged_at_unix = Some(now_unix);
                    action = ContentCleanupActionKind::Purge;
                } else {
                    return Err(ContentLifecycleError::NoCleanupDue(cid.to_owned()));
                }
            },
            None => {
                if now_unix > record.expires_at_unix {
                    let profile = Self::retention_profile(record.retention_class);
                    record.tombstoned_at_unix = Some(now_unix);
                    record.purge_after_unix = Some(now_unix.saturating_add(profile.tombstone_for_secs));
                    action = ContentCleanupActionKind::Tombstone;
                } else {
                    return Err(ContentLifecycleError::NoCleanupDue(cid.to_owned()));
                }
            },
        }
        let ghost before = self.records.pairs();
        let ghost stored = record;
        let mut records = StrMap::new();
        std::mem::swap(&mut records, &mut self.records);
        records.set_value_at(i, record);
        self.records = records;
        proof {
            crate::strmap::lemma_pairs_update_map(before, i as int, stored);
        }
        Ok(action)
    }

    /// Fails unless content is currently accessible at `now_unix`.
    pub fn assert_accessible(&self, cid: &str, now_unix: u64) -> (r: Result<(), ContentLifecycleError>)
        ensures
            r is Ok <==> self.records().dom().contains(cid@) && spec_status(
                self.records()[cid@],
                now_unix,
            ) == ContentLifecycleStatus::Active,
            !self.records().dom().contains(cid@) ==> (r matches Err(e)
                && e matches ContentLifecycleError::NotFound(v) && v@ == cid@),
            self.records().dom().contains(cid@) ==> match spec_status(self.records()[cid@], now_unix) {
                ContentLifecycleStatus::Active => r is Ok,
                ContentLifecycleStatus::Expired => r matches Err(e)
                    && e matches ContentLifecycleError::Expired(v) && v@ == cid@,
                ContentLifecycleStatus::Tombstoned => r matches Err(e)
                    && e matches ContentLifecycleError::Tombstoned(v) && v@ == cid@,
                ContentLifecycleStatus::Purged => r matches Err(e)
                    && e matches ContentLifecycleError::Purged(v) && v@ == cid@,
            },
    {
        match self.lifecycle_status(cid, now_unix)? {
            ContentLifecycleStatus::Active => Ok(()),
            ContentLifecycleStatus::Expired => Err(ContentLifecycleError::Expired(cid.to_owned())),
            ContentLifecycleStatus::Tombstoned => Err(
                ContentLifecycleError::Tombstoned(cid.to_owned()),
            ),
            ContentLifecycleStatus::Purged => Err(ContentLifecycleError::Purged(cid.to_owned())),
        }
    }

    /// Validates a content URI and enforces accessibility at `now_unix`.
    ///
    /// Returns the extracted CID when access is permitted.
    pub fn assert_uri_accessible(&self, content_uri: &str, now_unix: u64) -> (r: Result<
        String,
        ContentLifecycleError,
    >)
        ensures
            !(has_prefix(content_uri@, uri_prefix()) && cid_valid(
                content_uri@.skip(uri_prefix().len() as int),
            )) ==> (r matches Err(e) && e matches ContentLifecycleError::InvalidContentUri(v) && v@
                == content_uri@),
            has_prefix(content_uri@, uri_prefix()) && cid_valid(
                content_uri@.skip(uri_prefix().len() as int),
            ) ==> ({
                let cid = content_uri@.skip(uri_prefix().len() as int);
                &&& r is Ok <==> self.records().dom().contains(cid) && spec_status(
                    self.records()[cid],
                    now_unix,
                ) == ContentLifecycleStatus::Active
                &&& r matches Ok(c) ==> c@ == cid
            }),
    {
        let cid = match cid_from_content_uri(content_uri) {
            Ok(cid) => cid,
            Err(_) => {
                return Err(ContentLifecycleError::InvalidContentUri(content_uri.to_owned()));
            },
        };
        self.assert_accessible(cid.as_str(), now_unix)?;
        Ok(cid)
    }
}

/// The error's message text.
pub open spec fn content_lifecycle_error_message(e: ContentLifecycleError) -> Seq<char> {
    match e {
        ContentLifecycleError::EmptyField(field) => "field must not be empty: "@ + field@,
        ContentLifecycleError::InvalidCid(cid) => "invalid cid: "@ + cid@,
        ContentLifecycleError::InvalidContentUri(uri) => "invalid content uri: "@ + uri@,
        ContentLifecycleError::DuplicateContent(cid) => "duplicate lifecycle registration: "@ + cid@,
        ContentLifecycleError::NotFound(cid) => "content lifecycle record not found: "@ + cid@,
        ContentLifecycleError::NoCleanupDue(cid) => "no cleanup action due for "@ + cid@,
        ContentLifecycleError::Expired(cid) => "content is expired: "@ + cid@,
        ContentLifecycleError::Tombstoned(cid) => "content is tombstoned: "@ + cid@,
        ContentLifecycleError::Purged(cid) => "content is purged: "@ + cid@,
    }
}

impl ContentLifecycleError {
    /// The error's message text.
    pub fn message(&self) -> (r: String)
        ensures
            r@ == content_lifecycle_error_message(*self),
    {
        match self {
            ContentLifecycleError::EmptyField(field) => {
                let mut out = String::new();
                out.append("field must not be empty: ");
                out.append(*field);
                proof {
                    assert(out@ =~= "field must not be empty: "@ + field@);
                }
                out
            },
            ContentLifecycleError::InvalidCid(cid) => {
                let mut out = String::new();
                out.append("invalid cid: ");
                out.append(cid.as_str());
                proof {
                    assert(out@ =~= "invalid cid: "@ + cid@);
                }
                out
            },
            ContentLifecycleError::InvalidContentUri(uri) => {
                let mut out = String::new();
                out.append("invalid content uri: ");
                out.append(uri.as_str());
                proof {
                    assert(out@ =~= "invalid content uri: "@ + uri@);
                }
                out
            },
            ContentLifecycleError::DuplicateContent(cid) => {
                let mut out = String::new();
                out.append("duplicate lifecycle registration: ");
                out.append(cid.as_str());
                proof {
                    assert(out@ =~= "duplicate lifecycle registration: "@ + cid@);
                }
                out
            },
            ContentLifecycleError::NotFound(cid) => {
                let mut out = String::new();
                out.append("content lifecycle record not found: ");
                out.append(cid.as_str());
                proof {
                    assert(out@ =~= "content lifecycle record not found: "@ + cid@);
                }
                out
            },
            ContentLifecycleError::NoCleanupDue(cid) => {
                let mut out = String::new();
                out.append("no cleanup action due for ");
                out.append(cid.as_str());
                proof {
                    assert(out@ =~= "no cleanup action due for "@ + cid@);
                }
                out
            },
            ContentLifecycleError::Expired(cid) => {
                let mut out = String::new();
                out.append("content is expired: ");
                out.append(cid.as_str());
                proof {
                    assert(out@ =~= "content is expired: "@ + cid@);
                }
                out
            },
            ContentLifecycleError::Tombstoned(cid) => {
                let mut out = String::new();
                out.append("content is tombstoned: ");
                out.append(cid.as_str());
                proof {
                    assert(out@ =~= "content is tombstoned: "@ + cid@);
                }
                out
            },
            ContentLifecycleError::Purged(cid) => {
                let mut out = String::new();
                out.append("content is purged: ");
                out.append(cid.as_str());
                proof {
                    assert(out@ =~= "content is purged: "@ + cid@);
                }
                out
            },
        }
    }
}

/// Retention windows: short-lived content is kept an hour, standard content
/// a day (twenty-four short-lived windows) and compliance content a year
/// (three hundred sixty-five standard windows); a longer-lived class is kept
/// strictly longer, and each class keeps its tombstone as long as it keeps
/// the content.
pub proof fn lemma_retention_windows(c: ContentRetentionClass, d: ContentRetentionClass)
    ensures
        spec_retention_profile(ContentRetentionClass::ShortLived).retain_for_secs == 3_600,
        spec_retention_profile(ContentRetentionClass::Standard).retain_for_secs == 24 * spec_retention_profile(
            ContentRetentionClass::ShortLived,
        ).retain_for_secs,
        spec_retention_profile(ContentRetentionClass::Compliance).retain_for_secs == 365
            * spec_retention_profile(ContentRetentionClass::Standard).retain_for_secs,
        spec_retention_profile(c).tombstone_for_secs == spec_retention_profile(c).retain_for_secs,
        c == ContentRetentionClass::ShortLived && d != ContentRetentionClass::ShortLived
            ==> spec_retention_profile(c).retain_for_secs < spec_retention_profile(d).retain_for_secs,
        c == ContentRetentionClass::Standard && d == ContentRetentionClass::Compliance
            ==> spec_retention_profile(c).retain_for_secs < spec_retention_profile(d).retain_for_secs,
{
}

/// Each class's windows are its named constants.
pub proof fn lemma_retention_constants(c: ContentRetentionClass)
    ensures
        c == ContentRetentionClass::ShortLived ==> spec_retention_profile(c).retain_for_secs
            == SHORT_LIVED_RETAIN_SECS && spec_retention_profile(c).tombstone_for_secs
            == SHORT_LIVED_TOMBSTONE_SECS,
        c == ContentRetentionClass::Standard ==> spec_retention_profile(c).retain_for_secs
            == STANDARD_RETAIN_SECS && spec_retention_profile(c).tombstone_for_secs
            == STANDARD_TOMBSTONE_SECS,
        c == ContentRetentionClass::Compliance ==> spec_retention_profile(c).retain_for_secs
            == COMPLIANCE_RETAIN_SECS && spec_retention_profile(c).tombstone_for_secs
            == COMPLIANCE_TOMBSTONE_SECS,
{
}

/// Content registered at `t` expires at `t` plus its class's retention: an
/// hour, a day or a year.
pub proof fn lemma_registration_expiry(cid: Seq<char>, t: u64, record: ContentLifecycleRecord)
    ensures
        spec_registered(cid, ContentRetentionClass::Compliance, t, record) && t <= u64::MAX - 31_536_000
            ==> record.expires_at_unix == t + 31_536_000,
        spec_registered(cid, ContentRetentionClass::Standard, t, record) && t <= u64::MAX - 86_400
            ==> record.expires_at_unix == t + 86_400,
        spec_registered(cid, ContentRetentionClass::ShortLived, t, record) && t <= u64::MAX - 3_600
            ==> record.expires_at_unix == t + 3_600,
{
}

} // verus!
