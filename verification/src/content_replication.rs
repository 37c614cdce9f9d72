//! Replica tracking, availability health, and repair planning for stored content.
//!
//! The manager keeps, per content id, the set of replica nodes, the time of
//! the last check, the number of failed repair attempts and the repair that
//! is pending, if any. Health compares the replica count with the policy's
//! minimum; repairs are planned until the target count is reached or the
//! attempts run out.
use vstd::prelude::*;
use crate::content_storage::{verify_error, verify_ok, ContentStorageAdapter, ContentStorageError};
use crate::strmap::{str_set_from, StrMap};
use crate::text::{dec_seq, dec_string, is_blank, is_blank_seq, str_views};

verus! {

/// Replica counts and repair budget.
#[derive(Debug, Clone, PartialEq, Eq)]
pub struct ContentReplicationPolicy {
    pub minimum_replicas: u16,
    pub target_replicas: u16,
    pub max_repair_attempts: u8,
}

/// Availability of one content id.
#[derive(Debug, Clone, Copy, PartialEq, Eq, Structural)]
pub enum ContentAvailabilityHealth {
    Healthy,
    Degraded,
    Unavailable,
}

/// Availability report of one content id.
#[derive(Debug, Clone, PartialEq, Eq)]
pub struct ContentAvailabilitySnapshot {
    pub cid: String,
    pub health: ContentAvailabilityHealth,
    pub available_replicas: u16,
    pub minimum_replicas: u16,
    pub target_replicas: u16,
    pub repair_attempts: u8,
    pub last_checked_unix: u64,
}

/// Alert for content that is not healthy.
#[derive(Debug, Clone, PartialEq, Eq)]
pub struct ContentAvailabilityAlert {
    pub cid: String,
    pub health: ContentAvailabilityHealth,
    pub available_replicas: u16,
    pub minimum_replicas: u16,
    pub target_replicas: u16,
    pub repair_attempts: u8,
}

/// Why a repair is planned.
#[derive(Debug, Clone, Copy, PartialEq, Eq, Structural)]
pub enum ContentRepairReason {
    UnderReplicated,
    MissingContent,
}

/// A planned repair.
#[derive(Debug, Clone, PartialEq, Eq)]
pub struct ContentRepairAction {
    pub cid: String,
    pub missing_replicas: u16,
    pub reason: ContentRepairReason,
    pub attempt: u8,
}

/// Errors of replication tracking.
#[derive(Debug, Clone, PartialEq, Eq)]
pub enum ContentReplicationError {
    InvalidPolicy(&'static str),
    EmptyField(&'static str),
    UnknownContent(String),
    RepairAttemptsExceeded { cid: String, max_attempts: u8 },
    Storage(ContentStorageError),
}

impl ContentReplicationPolicy {
    /// A policy: at least one replica, a target no below the minimum, and at
    /// least one repair attempt.
    pub fn new(minimum_replicas: u16, target_replicas: u16, max_repair_attempts: u8) -> (r: Result<
        Self,
        ContentReplicationError,
    >)
        ensures
            minimum_replicas == 0 ==> (r matches Err(e) && e matches ContentReplicationError::InvalidPolicy(
                f,
            ) && f@ == "minimum_replicas"@),
            minimum_replicas > 0 && target_replicas < minimum_replicas ==> (r matches Err(e)
                && e matches ContentReplicationError::InvalidPolicy(f) && f@
                == "target_replicas must be >= minimum_replicas"@),
            minimum_replicas > 0 && target_replicas >= minimum_replicas && max_repair_attempts == 0
                ==> (r matches Err(e) && e matches ContentReplicationError::InvalidPolicy(f) && f@
                == "max_repair_attempts"@),
            minimum_replicas > 0 && target_replicas >= minimum_replicas && max_repair_attempts > 0
                ==> r == Ok::<_, ContentReplicationError>(
                ContentReplicationPolicy { minimum_replicas, target_replicas, max_repair_attempts },
            ),
    {
        if minimum_replicas == 0 {
            return Err(ContentReplicationError::InvalidPolicy("minimum_replicas"));
        }
        if target_replicas < minimum_replicas {
            return Err(
                ContentReplicationError::InvalidPolicy("target_replicas must be >= minimum_replicas"),
            );
        }
        if max_repair_attempts == 0 {
            return Err(ContentReplicationError::InvalidPolicy("max_repair_attempts"));
        }
        Ok(ContentReplicationPolicy { minimum_replicas, target_replicas, max_repair_attempts })
    }
}

/// Health for a replica count: none is unavailable, fewer than the minimum
/// is degraded.
pub open spec fn health_spec(minimum_replicas: u16, available_replicas: u16) -> ContentAvailabilityHealth {
    if available_replicas == 0 {
        ContentAvailabilityHealth::Unavailable
    } else if available_replicas < minimum_replicas {
        ContentAvailabilityHealth::Degraded
    } else {
        ContentAvailabilityHealth::Healthy
    }
}

/// Health classification of a replica count.
pub fn health_for_replicas(minimum_replicas: u16, available_replicas: u16) -> (h:
    ContentAvailabilityHealth)
    ensures
        h == health_spec(minimum_replicas, available_replicas),
{
    if available_replicas == 0 {
        return ContentAvailabilityHealth::Unavailable;
    }
    if available_replicas < minimum_replicas {
        return ContentAvailabilityHealth::Degraded;
    }
    ContentAvailabilityHealth::Healthy
}

/// The replica node ids as a set; a blank id is refused.
pub fn normalize_replica_nodes(replica_nodes: &[&str]) -> (r: Result<StrMap<()>, ContentReplicationError>)
    ensures
        (exists|i: int| 0 <= i < replica_nodes@.len() && is_blank_seq(#[trigger] replica_nodes@[i]@))
            ==> (r matches Err(e) && e matches ContentReplicationError::EmptyField(f) && f@
            == "replica_node"@),
        (forall|i: int| 0 <= i < replica_nodes@.len() ==> !is_blank_seq(#[trigger] replica_nodes@[i]@))
            ==> (r matches Ok(s) && s.wf() && s.map().dom() == node_set(replica_nodes@)),
{
    let mut names: Vec<String> = Vec::new();
    let mut i: usize = 0;
    while i < replica_nodes.len()
        invariant
            i <= replica_nodes@.len(),
            str_views(names@) == node_views(replica_nodes@).take(i as int),
            forall|j: int| 0 <= j < i ==> !is_blank_seq(#[trigger] replica_nodes@[j]@),
        decreases replica_nodes@.len() - i,
    {
        let node: &str = replica_nodes[i];
        if is_blank(node) {
            return Err(ContentReplicationError::EmptyField("replica_node"));
        }
        let ghost before = str_views(names@);
        names.push(node.to_owned());
        proof {
            assert(str_views(names@) =~= before.push(node@));
            assert(node_views(replica_nodes@).take(i + 1) =~= node_views(replica_nodes@).take(
                i as int,
            ).push(node@));
        }
        i = i + 1;
    }
    assert(node_views(replica_nodes@).take(i as int) =~= node_views(replica_nodes@));
    Ok(str_set_from(&names))
}

/// Character views of node ids.
pub open spec fn node_views(v: Seq<&str>) -> Seq<Seq<char>> {
    v.map_values(|s: &str| s@)
}

/// The set of node ids.
pub open spec fn node_set(v: Seq<&str>) -> Set<Seq<char>> {
    node_views(v).to_set()
}

/// Replication state of one content id.
pub struct ReplicaRecordModel {
    pub replicas: Set<Seq<char>>,
    pub last_checked_unix: u64,
    pub repair_attempts: u8,
    pub pending_repair: Option<ContentRepairReason>,
}

/// Replica count as reported (a `u16`, as the stored count is cast).
pub open spec fn replica_count(m: ReplicaRecordModel) -> u16 {
    m.replicas.len() as u16
}

/// What a snapshot reports for content `cid` in state `m`.
pub open spec fn snapshot_of(
    s: ContentAvailabilitySnapshot,
    cid: Seq<char>,
    m: ReplicaRecordModel,
    p: ContentReplicationPolicy,
) -> bool {
    &&& s.cid@ == cid
    &&& s.health == health_spec(p.minimum_replicas, replica_count(m))
    &&& s.available_replicas == replica_count(m)
    &&& s.minimum_replicas == p.minimum_replicas
    &&& s.target_replicas == p.target_replicas
    &&& s.repair_attempts == m.repair_attempts
    &&& s.last_checked_unix == m.last_checked_unix
}

/// Alerts as values: (cid, health, available, minimum, target, attempts).
pub open spec fn alert_view(a: ContentAvailabilityAlert) -> (Seq<char>, ContentAvailabilityHealth, u16, u16, u16, u8) {
    (a.cid@, a.health, a.available_replicas, a.minimum_replicas, a.target_replicas, a.repair_attempts)
}

/// Alerts for the unhealthy entries, in entry order.
pub open spec fn alerts_of(
    entries: Seq<(Seq<char>, ReplicaRecordModel)>,
    p: ContentReplicationPolicy,
) -> Seq<(Seq<char>, ContentAvailabilityHealth, u16, u16, u16, u8)>
    decreases entries.len(),
{
    if entries.len() == 0 {
        Seq::empty()
    } else {
        let prev = alerts_of(entries.drop_last(), p);
        let (cid, m) = entries.last();
        let h = health_spec(p.minimum_replicas, replica_count(m));
        if h == ContentAvailabilityHealth::Healthy {
            prev
        } else {
            prev.push(
                (cid, h, replica_count(m), p.minimum_replicas, p.target_replicas, m.repair_attempts),
            )
        }
    }
}

/// One record's repair planning: its new state, and the planned repair as
/// (missing replicas, reason, attempt number), if one is planned.
pub open spec fn plan_record(p: ContentReplicationPolicy, m: ReplicaRecordModel) -> (
    ReplicaRecordModel,
    Option<(u16, ContentRepairReason, u8)>,
) {
    let available = replica_count(m);
    if available >= p.target_replicas || m.repair_attempts >= p.max_repair_attempts {
        (ReplicaRecordModel { pending_repair: None, ..m }, None)
    } else if m.pending_repair is Some {
        (m, None)
    } else {
        let reason = if available == 0 {
            ContentRepairReason::MissingContent
        } else {
            ContentRepairReason::UnderReplicated
        };
        (
            ReplicaRecordModel { pending_repair: Some(reason), ..m },
            Some(((p.target_replicas - available) as u16, reason, (m.repair_attempts + 1) as u8)),
        )
    }
}

/// Repair actions as values: (cid, missing replicas, reason, attempt).
pub open spec fn action_view(a: ContentRepairAction) -> (Seq<char>, u16, ContentRepairReason, u8) {
    (a.cid@, a.missing_replicas, a.reason, a.attempt)
}

/// Actions planned over the entries, in entry order.
pub open spec fn actions_of(
    entries: Seq<(Seq<char>, ReplicaRecordModel)>,
    p: ContentReplicationPolicy,
) -> Seq<(Seq<char>, u16, ContentRepairReason, u8)>
    decreases entries.len(),
{
    if entries.len() == 0 {
        Seq::empty()
    } else {
        let prev = actions_of(entries.drop_last(), p);
        let (cid, m) = entries.last();
        match plan_record(p, m).1 {
            Some(a) => prev.push((cid, a.0, a.1, a.2)),
            None => prev,
        }
    }
}

/// Planning settles: planning a second time changes nothing and plans nothing.
pub proof fn lemma_plan_record_settles(p: ContentReplicationPolicy, m: ReplicaRecordModel)
    ensures
        plan_record(p, plan_record(p, m).0).0 == plan_record(p, m).0,
        plan_record(p, plan_record(p, m).0).1 is None,
{
}

/// No tracked content has used more repair attempts than the policy allows.
pub open spec fn attempts_within_budget(v: Map<Seq<char>, ReplicaRecordModel>, p: ContentReplicationPolicy) -> bool {
    forall|k: Seq<char>| #[trigger] v.dom().contains(k) ==> v[k].repair_attempts <= p.max_repair_attempts
}

/// Entries that agree with a map: keys strictly increasing, each entry in
/// the map, each key of the map among the entries.
pub open spec fn entries_agree(
    entries: Seq<(Seq<char>, ReplicaRecordModel)>,
    m: Map<Seq<char>, ReplicaRecordModel>,
) -> bool {
    &&& crate::text::strictly_sorted(entries.map_values(|e: (Seq<char>, ReplicaRecordModel)| e.0))
    &&& forall|i: int| 0 <= i < entries.len() ==> #[trigger] m.dom().contains(entries[i].0) && m[entries[i].0] == entries[i].1
    &&& forall|k: Seq<char>| #[trigger] m.dom().contains(k) ==> exists|i: int| 0 <= i < entries.len() && entries[i].0 == k
}

/// The alert reported for content `cid` in state `m`.
pub open spec fn alert_of(
    cid: Seq<char>,
    m: ReplicaRecordModel,
    p: ContentReplicationPolicy,
) -> (Seq<char>, ContentAvailabilityHealth, u16, u16, u16, u8) {
    (cid, health_spec(p.minimum_replicas, replica_count(m)), replica_count(m), p.minimum_replicas, p.target_replicas, m.repair_attempts)
}

proof fn lemma_alerts_members(
    entries: Seq<(Seq<char>, ReplicaRecordModel)>,
    p: ContentReplicationPolicy,
    x: (Seq<char>, ContentAvailabilityHealth, u16, u16, u16, u8),
)
    ensures
        alerts_of(entries, p).contains(x) <==> exists|j: int|
            0 <= j < entries.len() && x == alert_of(entries[j].0, entries[j].1, p) && x.1
                != ContentAvailabilityHealth::Healthy,
    decreases entries.len(),
{
    if entries.len() > 0 {
        let init = entries.drop_last();
        lemma_alerts_members(init, p, x);
        let prev = alerts_of(init, p);
        let last = alert_of(entries.last().0, entries.last().1, p);
        if exists|j: int| 0 <= j < entries.len() && x == alert_of(entries[j].0, entries[j].1, p) && x.1
            != ContentAvailabilityHealth::Healthy {
            let j = choose|j: int| 0 <= j < entries.len() && x == alert_of(entries[j].0, entries[j].1, p) && x.1
                != ContentAvailabilityHealth::Healthy;
            if j < entries.len() - 1 {
                assert(init[j] == entries[j]);
                let w = choose|w: int| 0 <= w < prev.len() && prev[w] == x;
                if last.1 != ContentAvailabilityHealth::Healthy {
                    assert(prev.push(last)[w] == x);
                }
            } else {
                assert(prev.push(last)[prev.len() as int] == x);
            }
        }
        if alerts_of(entries, p).contains(x) {
            if last.1 == ContentAvailabilityHealth::Healthy {
                let j = choose|j: int| 0 <= j < init.len() && x == alert_of(init[j].0, init[j].1, p) && x.1
                    != ContentAvailabilityHealth::Healthy;
                assert(entries[j] == init[j]);
            } else {
                let q = prev.push(last);
                let w = choose|w: int| 0 <= w < q.len() && q[w] == x;
                if w < prev.len() {
                    assert(prev[w] == x);
                    let j = choose|j: int| 0 <= j < init.len() && x == alert_of(init[j].0, init[j].1, p) && x.1
                        != ContentAvailabilityHealth::Healthy;
                    assert(entries[j] == init[j]);
                } else {
                    assert(entries[entries.len() - 1] == entries.last());
                }
            }
        }
    }
}

/// The alert list names exactly the unhealthy tracked content: content in
/// state `m` gets an alert exactly when it is not healthy, and that alert
/// carries what its availability snapshot reports; every alert is of that
/// kind.
pub proof fn lemma_alerts_are_unhealthy_snapshots(
    entries: Seq<(Seq<char>, ReplicaRecordModel)>,
    v: Map<Seq<char>, ReplicaRecordModel>,
    p: ContentReplicationPolicy,
    cid: Seq<char>,
    s: ContentAvailabilitySnapshot,
)
    requires
        entries_agree(entries, v),
    ensures
        v.dom().contains(cid) && snapshot_of(s, cid, v[cid], p) ==> (alerts_of(entries, p).contains(
            (s.cid@, s.health, s.available_replicas, s.minimum_replicas, s.target_replicas, s.repair_attempts),
        ) <==> s.health != ContentAvailabilityHealth::Healthy),
        forall|x: (Seq<char>, ContentAvailabilityHealth, u16, u16, u16, u8)| #[trigger]
            alerts_of(entries, p).contains(x) ==> v.dom().contains(x.0) && x == alert_of(x.0, v[x.0], p)
                && x.1 != ContentAvailabilityHealth::Healthy,
{
    assert forall|x: (Seq<char>, ContentAvailabilityHealth, u16, u16, u16, u8)| #[trigger]
        alerts_of(entries, p).contains(x) implies v.dom().contains(x.0) && x == alert_of(x.0, v[x.0], p)
            && x.1 != ContentAvailabilityHealth::Healthy by {
        lemma_alerts_members(entries, p, x);
        let j = choose|j: int| 0 <= j < entries.len() && x == alert_of(entries[j].0, entries[j].1, p) && x.1
            != ContentAvailabilityHealth::Healthy;
        assert(v.dom().contains(entries[j].0));
    }
    if v.dom().contains(cid) && snapshot_of(s, cid, v[cid], p) {
        let x = (s.cid@, s.health, s.available_replicas, s.minimum_replicas, s.target_replicas, s.repair_attempts);
        lemma_alerts_members(entries, p, x);
        let j = choose|j: int| 0 <= j < entries.len() && entries[j].0 == cid;
        assert(v.dom().contains(entries[j].0));
        assert(x == alert_of(entries[j].0, entries[j].1, p));
    }
}

proof fn lemma_actions_members(
    entries: Seq<(Seq<char>, ReplicaRecordModel)>,
    p: ContentReplicationPolicy,
    x: (Seq<char>, u16, ContentRepairReason, u8),
)
    ensures
        actions_of(entries, p).contains(x) <==> exists|j: int|
            0 <= j < entries.len() && entries[j].0 == x.0 && plan_record(p, entries[j].1).1 == Some(
                (x.1, x.2, x.3),
            ),
    decreases entries.len(),
{
    if entries.len() > 0 {
        let init = entries.drop_last();
        lemma_actions_members(init, p, x);
        let prev = actions_of(init, p);
        let (c, m) = entries.last();
        if exists|j: int| 0 <= j < entries.len() && entries[j].0 == x.0 && plan_record(p, entries[j].1).1 == Some(
            (x.1, x.2, x.3),
        ) {
            let j = choose|j: int| 0 <= j < entries.len() && entries[j].0 == x.0 && plan_record(p, entries[j].1).1 == Some(
                (x.1, x.2, x.3),
            );
            if j < entries.len() - 1 {
                assert(init[j] == entries[j]);
                let w = choose|w: int| 0 <= w < prev.len() && prev[w] == x;
                match plan_record(p, m).1 {
                    Some(a) => assert(prev.push((c, a.0, a.1, a.2))[w] == x),
                    None => {},
                }
            } else {
                let a = plan_record(p, m).1->0;
                assert(prev.push((c, a.0, a.1, a.2))[prev.len() as int] == x);
            }
        }
        if actions_of(entries, p).contains(x) {
            match plan_record(p, m).1 {
                Some(a) => {
                    let q = prev.push((c, a.0, a.1, a.2));
                    let w = choose|w: int| 0 <= w < q.len() && q[w] == x;
                    if w < prev.len() {
                        assert(prev[w] == x);
                        let j = choose|j: int| 0 <= j < init.len() && init[j].0 == x.0 && plan_record(p, init[j].1).1
                            == Some((x.1, x.2, x.3));
                        assert(entries[j] == init[j]);
                    } else {
                        assert(entries[entries.len() - 1] == entries.last());
                    }
                },
                None => {
                    let j = choose|j: int| 0 <= j < init.len() && init[j].0 == x.0 && plan_record(p, init[j].1).1
                        == Some((x.1, x.2, x.3));
                    assert(entries[j] == init[j]);
                },
            }
        }
    }
}

proof fn lemma_actions_none(entries: Seq<(Seq<char>, ReplicaRecordModel)>, p: ContentReplicationPolicy)
    requires
        forall|j: int| 0 <= j < entries.len() ==> (#[trigger] plan_record(p, entries[j].1)).1 is None,
    ensures
        actions_of(entries, p) == Seq::<(Seq<char>, u16, ContentRepairReason, u8)>::empty(),
    decreases entries.len(),
{
    if entries.len() > 0 {
        let init = entries.drop_last();
        assert forall|j: int| 0 <= j < init.len() implies (#[trigger] plan_record(p, init[j].1)).1 is None by {
            assert(init[j] == entries[j]);
        }
        lemma_actions_none(init, p);
        assert(plan_record(p, entries[entries.len() - 1].1).1 is None);
    }
}

/// Repair planning: tracked content gets a repair action exactly when it is
/// below target, within its attempt budget and without a pending repair;
/// the action asks for the missing replicas, names `MissingContent` when no
/// replica is left (else `UnderReplicated`) and is attempt number one more
/// than the attempts made. Planning again, with nothing changed in between,
/// plans nothing.
pub proof fn lemma_plan_repairs(
    entries: Seq<(Seq<char>, ReplicaRecordModel)>,
    v: Map<Seq<char>, ReplicaRecordModel>,
    p: ContentReplicationPolicy,
    cid: Seq<char>,
    missing: u16,
    reason: ContentRepairReason,
    attempt: u8,
    next_entries: Seq<(Seq<char>, ReplicaRecordModel)>,
)
    requires
        entries_agree(entries, v),
        entries_agree(next_entries, v.map_values(|m: ReplicaRecordModel| plan_record(p, m).0)),
    ensures
        v.dom().contains(cid) ==> (actions_of(entries, p).contains((cid, missing, reason, attempt)) <==> {
            let m = v[cid];
            let n = replica_count(m);
            &&& n < p.target_replicas
            &&& m.repair_attempts < p.max_repair_attempts
            &&& m.pending_repair is None
            &&& missing == p.target_replicas - n
            &&& reason == (if n == 0 {
                ContentRepairReason::MissingContent
            } else {
                ContentRepairReason::UnderReplicated
            })
            &&& attempt == m.repair_attempts + 1
        }),
        !v.dom().contains(cid) ==> !actions_of(entries, p).contains((cid, missing, reason, attempt)),
        actions_of(next_entries, p) == Seq::<(Seq<char>, u16, ContentRepairReason, u8)>::empty(),
{
    let x = (cid, missing, reason, attempt);
    lemma_actions_members(entries, p, x);
    if v.dom().contains(cid) {
        let j = choose|j: int| 0 <= j < entries.len() && entries[j].0 == cid;
        assert(v.dom().contains(entries[j].0));
        if actions_of(entries, p).contains(x) {
            let i = choose|i: int| 0 <= i < entries.len() && entries[i].0 == x.0 && plan_record(p, entries[i].1).1
                == Some((x.1, x.2, x.3));
            assert(v.dom().contains(entries[i].0));
        }
    } else if actions_of(entries, p).contains(x) {
        let i = choose|i: int| 0 <= i < entries.len() && entries[i].0 == x.0 && plan_record(p, entries[i].1).1
            == Some((x.1, x.2, x.3));
        assert(v.dom().contains(entries[i].0));
    }
    let nv = v.map_values(|m: ReplicaRecordModel| plan_record(p, m).0);
    assert forall|j: int| 0 <= j < next_entries.len() implies (#[trigger] plan_record(p, next_entries[j].1)).1 is None by {
        assert(nv.dom().contains(next_entries[j].0));
        lemma_plan_record_settles(p, v[next_entries[j].0]);
    }
    lemma_actions_none(next_entries, p);
}

struct ContentReplicationRecord {
    replicas: StrMap<()>,
    last_checked_unix: u64,
    repair_attempts: u8,
    pending_repair: Option<ContentRepairReason>,
}

spec fn record_model(r: ContentReplicationRecord) -> ReplicaRecordModel {
    ReplicaRecordModel {
        replicas: r.replicas.map().dom(),
        last_checked_unix: r.last_checked_unix,
        repair_attempts: r.repair_attempts,
        pending_repair: r.pending_repair,
    }
}

/// Tracks replicas and repairs per content id.
pub struct ContentReplicationManager {
    policy: ContentReplicationPolicy,
    records: StrMap<ContentReplicationRecord>,
}

impl View for ContentReplicationManager {
    type V = Map<Seq<char>, ReplicaRecordModel>;

    closed spec fn view(&self) -> Map<Seq<char>, ReplicaRecordModel> {
        self.records.map().map_values(|r: ContentReplicationRecord| record_model(r))
    }
}

/// A copy of a set of names.
fn copy_name_set(s: &StrMap<()>) -> (r: StrMap<()>)
    requires
        s.wf(),
    ensures
        r.wf(),
        r.map().dom() == s.map().dom(),
{
    let names = s.keys_vec();
    proof {
        s.lemma_keys_to_set();
    }
    str_set_from(&names)
}

impl ContentReplicationManager {
    #[verifier::type_invariant]
    closed spec fn inv(&self) -> bool {
        &&& self.records.wf()
        &&& forall|k: Seq<char>| #[trigger]
            self.records.map().dom().contains(k) ==> self.records.map()[k].replicas.wf()
        &&& forall|k: Seq<char>| #[trigger]
            self.records.map().dom().contains(k) ==> self.records.map()[k].repair_attempts
                <= self.policy.max_repair_attempts
    }

    /// The policy in force.
    pub closed spec fn policy_spec(&self) -> ContentReplicationPolicy {
        self.policy
    }

    /// Entries in content-id order.
    pub closed spec fn entries(&self) -> Seq<(Seq<char>, ReplicaRecordModel)> {
        self.records.pairs().map_values(
            |e: (Seq<char>, ContentReplicationRecord)| (e.0, record_model(e.1)),
        )
    }

    /// A manager with no tracked content.
    pub fn new(policy: ContentReplicationPolicy) -> (m: Self)
        ensures
            m@ == Map::<Seq<char>, ReplicaRecordModel>::empty(),
            m.policy_spec() == policy,
            attempts_within_budget(m@, m.policy_spec()),
    {
        let m = ContentReplicationManager { policy, records: StrMap::new() };
        assert(m@ =~= Map::<Seq<char>, ReplicaRecordModel>::empty());
        m
    }

    fn snapshot(&self, cid: &str, i: usize) -> (s: ContentAvailabilitySnapshot)
        requires
            self.records.wf(),
            i < self.records.pairs().len(),
            self.records.pairs()[i as int].1.replicas.wf(),
        ensures
            snapshot_of(s, cid@, record_model(self.records.pairs()[i as int].1), self.policy),
    {
        let record = self.records.value_at(i);
        proof {
            record.replicas.lemma_dom_len();
        }
        let available_replicas = #[verifier::truncate] (record.replicas.len() as u16);
        ContentAvailabilitySnapshot {
            cid: cid.to_owned(),
            health: health_for_replicas(self.policy.minimum_replicas, available_replicas),
            available_replicas,
            minimum_replicas: self.policy.minimum_replicas,
            target_replicas: self.policy.target_replicas,
            repair_attempts: record.repair_attempts,
            last_checked_unix: record.last_checked_unix,
        }
    }

    /// Availability of a tracked content id.
    pub fn availability(&self, cid: &str) -> (r: Result<ContentAvailabilitySnapshot, ContentReplicationError>)
        ensures
            !self@.dom().contains(cid@) ==> (r matches Err(e) && e matches ContentReplicationError::UnknownContent(
                c,
            ) && c@ == cid@),
            self@.dom().contains(cid@) ==> (r matches Ok(s) && snapshot_of(s, cid@, self@[cid@], self.policy_spec())),
            attempts_within_budget(self@, self.policy_spec()),
    {
        proof {
            use_type_invariant(self);
            self.records.lemma_well_formed();
        }
        match self.records.find(cid) {
            None => Err(ContentReplicationError::UnknownContent(cid.to_owned())),
            Some(i) => {
                proof {
                    assert(self.records.map().dom().contains(self.records.pairs()[i as int].0));
                }
                Ok(self.snapshot(cid, i))
            },
        }
    }
}

impl ContentReplicationManager {
    proof fn lemma_entries(&self)
        requires
            self.records.wf(),
        ensures
            entries_agree(self.entries(), self@),
            self.entries().len() == self.records.pairs().len(),
            forall|i: int| 0 <= i < self.entries().len() ==> #[trigger] self.entries()[i] == (
                self.records.pairs()[i].0,
                record_model(self.records.pairs()[i].1),
            ),
    {
        self.records.lemma_well_formed();
        let es = self.entries();
        assert(es.map_values(|e: (Seq<char>, ReplicaRecordModel)| e.0) =~= self.records.keys());
        assert forall|k: Seq<char>| #[trigger] self@.dom().contains(k) implies exists|i: int|
            0 <= i < es.len() && es[i].0 == k by {
            let i = choose|i: int| 0 <= i < self.records.pairs().len() && self.records.pairs()[i].0 == k;
            assert(es[i].0 == k);
        }
    }

    /// Alerts for every tracked content id that is not healthy, in id order.
    pub fn availability_alerts(&self) -> (r: Vec<ContentAvailabilityAlert>)
        ensures
            entries_agree(self.entries(), self@),
            r@.map_values(|a: ContentAvailabilityAlert| alert_view(a)) == alerts_of(
                self.entries(),
                self.policy_spec(),
            ),
    {
        proof {
            use_type_invariant(self);
            self.lemma_entries();
            self.records.lemma_well_formed();
        }
        let ghost es = self.entries();
        let n = self.records.len();
        let mut out: Vec<ContentAvailabilityAlert> = Vec::new();
        let mut i: usize = 0;
        while i < n
            invariant
                self.records.wf(),
                forall|k: Seq<char>| #[trigger]
                    self.records.map().dom().contains(k) ==> self.records.map()[k].replicas.wf(),
                forall|j: int|
                    0 <= j < self.records.pairs().len() ==> #[trigger] self.records.map().dom().contains(
                        self.records.pairs()[j].0,
                    ) && self.records.map()[self.records.pairs()[j].0] == self.records.pairs()[j].1,
                n == self.records.pairs().len(),
                es == self.entries(),
                es.len() == n,
                forall|j: int| 0 <= j < es.len() ==> #[trigger] es[j] == (
                    self.records.pairs()[j].0,
                    record_model(self.records.pairs()[j].1),
                ),
                i <= n,
                out@.map_values(|a: ContentAvailabilityAlert| alert_view(a)) == alerts_of(
                    es.take(i as int),
                    self.policy,
                ),
            decreases n - i,
        {
            let cid = self.records.key_at(i);
            let record = self.records.value_at(i);
            proof {
                assert(self.records.map().dom().contains(self.records.pairs()[i as int].0));
                record.replicas.lemma_dom_len();
                assert(es.take(i + 1).drop_last() =~= es.take(i as int));
                assert(es.take(i + 1).last() == es[i as int]);
            }
            let available_replicas = #[verifier::truncate] (record.replicas.len() as u16);
            let health = health_for_replicas(self.policy.minimum_replicas, available_replicas);
            let ghost before = out@;
            match health {
                ContentAvailabilityHealth::Healthy => {},
                _ => {
                    out.push(
                        ContentAvailabilityAlert {
                            cid: cid.clone(),
                            health,
                            available_replicas,
                            minimum_replicas: self.policy.minimum_replicas,
                            target_replicas: self.policy.target_replicas,
                            repair_attempts: record.repair_attempts,
                        },
                    );
                },
            }
            proof {
                assert(out@.map_values(|a: ContentAvailabilityAlert| alert_view(a)) =~= alerts_of(
                    es.take(i + 1),
                    self.policy,
                ));
            }
            i = i + 1;
        }
        proof {
            assert(es.take(n as int) =~= es);
        }
        out
    }

    /// Plans one repair per record that is below target, within its attempt
    /// budget and without a pending repair, and marks it pending; records at
    /// target or out of attempts have their pending repair cleared.
    pub fn plan_repairs(&mut self) -> (r: Vec<ContentRepairAction>)
        ensures
            entries_agree(old(self).entries(), old(self)@),
            final(self)@ == old(self)@.map_values(
                |m: ReplicaRecordModel| plan_record(old(self).policy_spec(), m).0,
            ),
            final(self).policy_spec() == old(self).policy_spec(),
            attempts_within_budget(final(self)@, final(self).policy_spec()),
            r@.map_values(|a: ContentRepairAction| action_view(a)) == actions_of(
                old(self).entries(),
                old(self).policy_spec(),
            ),
    {
        proof {
            use_type_invariant(&*self);
            self.lemma_entries();
            self.records.lemma_well_formed();
        }
        let ghost es = self.entries();
        let ghost old_view = self@;
        let ghost old_pairs = self.records.pairs();
        let ghost pol = self.policy;
        let mut records: StrMap<ContentReplicationRecord> = StrMap::new();
        std::mem::swap(&mut records, &mut self.records);
        proof {
            records.lemma_well_formed();
            assert forall|j: int| 0 <= j < records.pairs().len() implies (#[trigger] records.pairs()[j]).1.replicas.wf()
                && records.pairs()[j].1.repair_attempts <= pol.max_repair_attempts by {
                assert(records.map().dom().contains(records.pairs()[j].0));
            }
        }
        let n = records.len();
        let mut out: Vec<ContentRepairAction> = Vec::new();
        let mut i: usize = 0;
        while i < n
            invariant
                records.wf(),
                pol == self.policy,
                n == records.pairs().len(),
                old_pairs.len() == n,
                es.len() == n,
                forall|j: int| 0 <= j < n ==> #[trigger] es[j] == (
                    old_pairs[j].0,
                    record_model(old_pairs[j].1),
                ),
                forall|j: int| 0 <= j < n ==> (#[trigger] records.pairs()[j]).0 == old_pairs[j].0,
                forall|j: int| 0 <= j < n ==> (#[trigger] records.pairs()[j]).1.replicas.wf(),
                forall|j: int| 0 <= j < n ==> (#[trigger] records.pairs()[j]).1.repair_attempts
                    <= pol.max_repair_attempts,
                forall|j: int| 0 <= j < i ==> record_model((#[trigger] records.pairs()[j]).1)
                    == plan_record(pol, record_model(old_pairs[j].1)).0,
                forall|j: int| i <= j < n ==> (#[trigger] records.pairs()[j]).1 == old_pairs[j].1,
                i <= n,
                out@.map_values(|a: ContentRepairAction| action_view(a)) == actions_of(
                    es.take(i as int),
                    pol,
                ),
            decreases n - i,
        {
            let record = records.value_at(i);
            proof {
                record.replicas.lemma_dom_len();
                assert(es.take(i + 1).drop_last() =~= es.take(i as int));
                assert(es.take(i + 1).last() == es[i as int]);
                assert(*record == old_pairs[i as int].1);
            }
            let available_replicas = #[verifier::truncate] (record.replicas.len() as u16);
            let attempts = record.repair_attempts;
            let ghost before = out@;
            let ghost om = record_model(*record);
            let new_pending: Option<ContentRepairReason>;
            if available_replicas >= self.policy.target_replicas || attempts >= self.policy.max_repair_attempts {
                new_pending = None;
            } else if record.pending_repair.is_some() {
                new_pending = record.pending_repair;
            } else {
                let reason = if available_replicas == 0 {
                    ContentRepairReason::MissingContent
                } else {
                    ContentRepairReason::UnderReplicated
                };
                out.push(
                    ContentRepairAction {
                        cid: records.key_at(i).clone(),
                        missing_replicas: self.policy.target_replicas - available_replicas,
                        reason,
                        attempt: attempts + 1,
                    },
                );
                new_pending = Some(reason);
            }
            let replicas = copy_name_set(&record.replicas);
            let updated = ContentReplicationRecord {
                replicas,
                last_checked_unix: record.last_checked_unix,
                repair_attempts: attempts,
                pending_repair: new_pending,
            };
            proof {
                assert(record_model(updated) == plan_record(pol, om).0);
                assert(out@.map_values(|a: ContentRepairAction| action_view(a)) =~= actions_of(
                    es.take(i + 1),
                    pol,
                ));
            }
            records.set_value_at(i, updated);
            i = i + 1;
        }
        proof {
            assert(es.take(n as int) =~= es);
            records.lemma_well_formed();
            assert forall|k: Seq<char>| #[trigger] records.map().dom().contains(k) implies records.map()[k].replicas.wf()
                && records.map()[k].repair_attempts <= pol.max_repair_attempts by {
                let j = choose|j: int| 0 <= j < records.pairs().len() && records.pairs()[j].0 == k;
                assert(records.map()[records.pairs()[j].0] == records.pairs()[j].1);
            }
        }
        self.records = records;
        proof {
            self.records.lemma_well_formed();
            let nv = self@;
            let expect = old_view.map_values(|m: ReplicaRecordModel| plan_record(pol, m).0);
            assert forall|k: Seq<char>| nv.dom().contains(k) <==> expect.dom().contains(k) by {
                if nv.dom().contains(k) {
                    let j = choose|j: int| 0 <= j < self.records.pairs().len() && self.records.pairs()[j].0 == k;
                    assert(old_pairs[j].0 == k);
                }
                if expect.dom().contains(k) {
                    let j = choose|j: int| 0 <= j < old_pairs.len() && old_pairs[j].0 == k;
                    assert(self.records.pairs()[j].0 == k);
                }
            }
            assert forall|k: Seq<char>| nv.dom().contains(k) implies nv[k] == expect[k] by {
                let j = choose|j: int| 0 <= j < self.records.pairs().len() && self.records.pairs()[j].0 == k;
                assert(self.records.map()[self.records.pairs()[j].0] == self.records.pairs()[j].1);
                assert(old_pairs[j].0 == k);
            }
            assert(nv =~= expect);
        }
        out
    }
}

impl ContentReplicationManager {
    /// Replaces the stored record at position `i`, keeping the invariant.
    fn replace_record(&mut self, i: usize, record: ContentReplicationRecord)
        requires
            old(self).records.wf(),
            i < old(self).records.pairs().len(),
            record.replicas.wf(),
            record.repair_attempts <= old(self).policy.max_repair_attempts,
        ensures
            final(self)@ == old(self)@.insert(old(self).records.pairs()[i as int].0, record_model(record)),
            final(self).policy_spec() == old(self).policy_spec(),
            attempts_within_budget(final(self)@, final(self).policy_spec()),
    {
        proof {
            use_type_invariant(&*self);
            self.records.lemma_well_formed();
        }
        let ghost before = self.records.pairs();
        let ghost old_view = self@;
        let mut records: StrMap<ContentReplicationRecord> = StrMap::new();
        std::mem::swap(&mut records, &mut self.records);
        let ghost stored = record;
        records.set_value_at(i, record);
        proof {
            crate::strmap::lemma_pairs_update_map(before, i as int, stored);
            assert forall|k: Seq<char>| #[trigger] records.map().dom().contains(k) implies records.map()[k].replicas.wf() by {
                if k != before[i as int].0 {
                    assert(old_view.dom().contains(k));
                }
            }
        }
        self.records = records;
        proof {
            assert(self@ =~= old_view.insert(before[i as int].0, record_model(stored)));
        }
    }

    /// Records a successful repair: the node joins the replicas, the check
    /// time is updated, and the attempt count and pending repair are reset.
    pub fn apply_repair_success(&mut self, cid: &str, replica_node: &str, checked_at_unix: u64) -> (r:
        Result<ContentAvailabilitySnapshot, ContentReplicationError>)
        ensures
            final(self).policy_spec() == old(self).policy_spec(),
            attempts_within_budget(final(self)@, final(self).policy_spec()),
            is_blank_seq(replica_node@) ==> (r matches Err(e) && e matches ContentReplicationError::EmptyField(
                f,
            ) && f@ == "replica_node"@ && final(self)@ == old(self)@),
            !is_blank_seq(replica_node@) && checked_at_unix == 0 ==> (r matches Err(e)
                && e matches ContentReplicationError::EmptyField(f) && f@ == "checked_at_unix"@
                && final(self)@ == old(self)@),
            !is_blank_seq(replica_node@) && checked_at_unix != 0 && !old(self)@.dom().contains(cid@)
                ==> (r matches Err(e) && e matches ContentReplicationError::UnknownContent(c) && c@
                == cid@ && final(self)@ == old(self)@),
            !is_blank_seq(replica_node@) && checked_at_unix != 0 && old(self)@.dom().contains(cid@)
                ==> {
                let m = ReplicaRecordModel {
                    replicas: old(self)@[cid@].replicas.insert(replica_node@),
                    last_checked_unix: checked_at_unix,
                    repair_attempts: 0,
                    pending_repair: None,
                };
                r matches Ok(s) && final(self)@ == old(self)@.insert(cid@, m) && snapshot_of(
                    s,
                    cid@,
                    m,
                    old(self).policy_spec(),
                )
            },
    {
        proof {
            use_type_invariant(&*self);
            self.records.lemma_well_formed();
        }
        if is_blank(replica_node) {
            return Err(ContentReplicationError::EmptyField("replica_node"));
        }
        if checked_at_unix == 0 {
            return Err(ContentReplicationError::EmptyField("checked_at_unix"));
        }
        let i = match self.records.find(cid) {
            Some(i) => i,
            None => {
                return Err(ContentReplicationError::UnknownContent(cid.to_owned()));
            },
        };
        let record = self.records.value_at(i);
        proof {
            assert(self.records.map().dom().contains(self.records.pairs()[i as int].0));
        }
        let mut replicas = copy_name_set(&record.replicas);
        replicas.insert(replica_node.to_owned(), ());
        let updated = ContentReplicationRecord {
            replicas,
            last_checked_unix: checked_at_unix,
            repair_attempts: 0,
            pending_repair: None,
        };
        proof {
            assert(updated.replicas.map().dom() =~= self@[cid@].replicas.insert(replica_node@));
        }
        let ghost um = record_model(updated);
        self.replace_record(i, updated);
        proof {
            use_type_invariant(&*self);
            self.records.lemma_well_formed();
            assert(self@.dom().contains(cid@));
            assert(self@[cid@] == um);
            assert(self.records.map().dom().contains(cid@));
        }
        let j = match self.records.find(cid) {
            Some(j) => j,
            None => {
                return Err(ContentReplicationError::UnknownContent(cid.to_owned()));
            },
        };
        proof {
            assert(self.records.map().dom().contains(self.records.pairs()[j as int].0));
        }
        Ok(self.snapshot(cid, j))
    }

    /// Records a failed repair: one more attempt, unless the budget is spent.
    pub fn apply_repair_failure(&mut self, cid: &str, checked_at_unix: u64) -> (r: Result<
        (),
        ContentReplicationError,
    >)
        ensures
            final(self).policy_spec() == old(self).policy_spec(),
            attempts_within_budget(final(self)@, final(self).policy_spec()),
            checked_at_unix == 0 ==> (r matches Err(e) && e matches ContentReplicationError::EmptyField(
                f,
            ) && f@ == "checked_at_unix"@ && final(self)@ == old(self)@),
            checked_at_unix != 0 && !old(self)@.dom().contains(cid@) ==> (r matches Err(e)
                && e matches ContentReplicationError::UnknownContent(c) && c@ == cid@ && final(self)@
                == old(self)@),
            checked_at_unix != 0 && old(self)@.dom().contains(cid@) && old(self)@[cid@].repair_attempts
                >= old(self).policy_spec().max_repair_attempts ==> (r matches Err(e)
                && e matches ContentReplicationError::RepairAttemptsExceeded { cid: c, max_attempts }
                && c@ == cid@ && max_attempts == old(self).policy_spec().max_repair_attempts
                && final(self)@ == old(self)@),
            checked_at_unix != 0 && old(self)@.dom().contains(cid@) && old(self)@[cid@].repair_attempts
                < old(self).policy_spec().max_repair_attempts ==> (r is Ok && final(self)@ == old(
                self,
            )@.insert(
                cid@,
                ReplicaRecordModel {
                    replicas: old(self)@[cid@].replicas,
                    last_checked_unix: checked_at_unix,
                    repair_attempts: (old(self)@[cid@].repair_attempts + 1) as u8,
                    pending_repair: None,
                },
            )),
    {
        proof {
            use_type_invariant(&*self);
            self.records.lemma_well_formed();
        }
        if checked_at_unix == 0 {
            return Err(ContentReplicationError::EmptyField("checked_at_unix"));
        }
        let i = match self.records.find(cid) {
            Some(i) => i,
            None => {
                return Err(ContentReplicationError::UnknownContent(cid.to_owned()));
            },
        };
        let record = self.records.value_at(i);
        proof {
            assert(self.records.map().dom().contains(self.records.pairs()[i as int].0));
        }
        if record.repair_attempts >= self.policy.max_repair_attempts {
            return Err(
                ContentReplicationError::RepairAttemptsExceeded {
                    cid: cid.to_owned(),
                    max_attempts: self.policy.max_repair_attempts,
                },
            );
        }
        let replicas = copy_name_set(&record.replicas);
        let updated = ContentReplicationRecord {
            replicas,
            last_checked_unix: checked_at_unix,
            repair_attempts: record.repair_attempts + 1,
            pending_repair: None,
        };
        self.replace_record(i, updated);
        Ok(())
    }

    /// Records the replica nodes of content whose storage was checked: the
    /// replica set and check time are replaced, any pending repair is
    /// dropped, and the attempt count is kept (zero for new content).
    pub fn record_verified_replicas(&mut self, cid: &str, replica_nodes: &[&str], checked_at_unix: u64) -> (r:
        Result<ContentAvailabilitySnapshot, ContentReplicationError>)
        ensures
            final(self).policy_spec() == old(self).policy_spec(),
            attempts_within_budget(final(self)@, final(self).policy_spec()),
            checked_at_unix == 0 ==> (r matches Err(e) && e matches ContentReplicationError::EmptyField(
                f,
            ) && f@ == "checked_at_unix"@ && final(self)@ == old(self)@),
            checked_at_unix != 0 && (exists|i: int|
                0 <= i < replica_nodes@.len() && is_blank_seq(#[trigger] replica_nodes@[i]@)) ==> (r matches Err(
                e,
            ) && e matches ContentReplicationError::EmptyField(f) && f@ == "replica_node"@
                && final(self)@ == old(self)@),
            checked_at_unix != 0 && (forall|i: int|
                0 <= i < replica_nodes@.len() ==> !is_blank_seq(#[trigger] replica_nodes@[i]@)) ==> {
                let m = ReplicaRecordModel {
                    replicas: node_set(replica_nodes@),
                    last_checked_unix: checked_at_unix,
                    repair_attempts: if old(self)@.dom().contains(cid@) {
                        old(self)@[cid@].repair_attempts
                    } else {
                        0
                    },
                    pending_repair: None,
                };
                r matches Ok(s) && final(self)@ == old(self)@.insert(cid@, m) && snapshot_of(
                    s,
                    cid@,
                    m,
                    old(self).policy_spec(),
                )
            },
    {
        proof {
            use_type_invariant(&*self);
            self.records.lemma_well_formed();
        }
        if checked_at_unix == 0 {
            return Err(ContentReplicationError::EmptyField("checked_at_unix"));
        }
        let replicas = normalize_replica_nodes(replica_nodes)?;
        let attempts = match self.records.find(cid) {
            Some(i) => {
                proof {
                    assert(self.records.map().dom().contains(self.records.pairs()[i as int].0));
                }
                self.records.value_at(i).repair_attempts
            },
            None => 0,
        };
        let record = ContentReplicationRecord {
            replicas,
            last_checked_unix: checked_at_unix,
            repair_attempts: attempts,
            pending_repair: None,
        };
        let ghost old_view = self@;
        let ghost stored = record;
        let mut records: StrMap<ContentReplicationRecord> = StrMap::new();
        std::mem::swap(&mut records, &mut self.records);
        records.insert(cid.to_owned(), record);
        proof {
            assert forall|k: Seq<char>| #[trigger] records.map().dom().contains(k) implies records.map()[k].replicas.wf() by {
                if k != cid@ {
                    assert(old_view.dom().contains(k));
                }
            }
        }
        self.records = records;
        proof {
            assert(self@ =~= old_view.insert(cid@, record_model(stored)));
            use_type_invariant(&*self);
            self.records.lemma_well_formed();
        }
        let j = match self.records.find(cid) {
            Some(j) => j,
            None => {
                return Err(ContentReplicationError::UnknownContent(cid.to_owned()));
            },
        };
        proof {
            assert(self.records.map().dom().contains(self.records.pairs()[j as int].0));
        }
        Ok(self.snapshot(cid, j))
    }

    /// Checks the content with the storage adapter (`head`, then `verify`,
    /// both asked about `cid`) and records its replica nodes. A storage
    /// failure is returned as `Storage` carrying the adapter's own error;
    /// when the adapter accepts, the result is that of
    /// [`ContentReplicationManager::record_verified_replicas`].
    pub fn register_content<A: ContentStorageAdapter>(
        &mut self,
        adapter: &A,
        cid: &str,
        replica_nodes: &[&str],
        checked_at_unix: u64,
    ) -> (r: Result<ContentAvailabilitySnapshot, ContentReplicationError>)
        ensures
            final(self).policy_spec() == old(self).policy_spec(),
            attempts_within_budget(final(self)@, final(self).policy_spec()),
            r is Err ==> final(self)@ == old(self)@,
            checked_at_unix == 0 ==> (r matches Err(e) && e matches ContentReplicationError::EmptyField(
                f,
            ) && f@ == "checked_at_unix"@),
            checked_at_unix != 0 && !verify_ok(adapter.stored(), cid@) ==> (r matches Err(e)
                && e matches ContentReplicationError::Storage(se) && verify_error(
                se,
                adapter.stored(),
                cid@,
            )),
            checked_at_unix != 0 && verify_ok(adapter.stored(), cid@) && (exists|i: int|
                0 <= i < replica_nodes@.len() && is_blank_seq(#[trigger] replica_nodes@[i]@)) ==> (r matches Err(
                e,
            ) && e matches ContentReplicationError::EmptyField(f) && f@ == "replica_node"@),
            checked_at_unix != 0 && verify_ok(adapter.stored(), cid@) && (forall|i: int|
                0 <= i < replica_nodes@.len() ==> !is_blank_seq(#[trigger] replica_nodes@[i]@)) ==> {
                let m = ReplicaRecordModel {
                    replicas: node_set(replica_nodes@),
                    last_checked_unix: checked_at_unix,
                    repair_attempts: if old(self)@.dom().contains(cid@) {
                        old(self)@[cid@].repair_attempts
                    } else {
                        0
                    },
                    pending_repair: None,
                };
                r matches Ok(s) && final(self)@ == old(self)@.insert(cid@, m) && snapshot_of(
                    s,
                    cid@,
                    m,
                    old(self).policy_spec(),
                )
            },
    {
        proof {
            use_type_invariant(&*self);
        }
        if checked_at_unix == 0 {
            return Err(ContentReplicationError::EmptyField("checked_at_unix"));
        }
        match adapter.head(cid) {
            Ok(_) => {},
            Err(e) => {
                return Err(ContentReplicationError::Storage(e));
            },
        }
        match adapter.verify(cid) {
            Ok(_) => {},
            Err(e) => {
                return Err(ContentReplicationError::Storage(e));
            },
        }
        self.record_verified_replicas(cid, replica_nodes, checked_at_unix)
    }
}

/// The error's message text.
pub open spec fn content_replication_error_message(e: ContentReplicationError) -> Seq<char> {
    match e {
        ContentReplicationError::InvalidPolicy(field) => "invalid replication policy: "@ + field@,
        ContentReplicationError::EmptyField(field) => "field must not be empty: "@ + field@,
        ContentReplicationError::UnknownContent(cid) => "content not tracked for replication: "@ + cid@,
        ContentReplicationError::RepairAttemptsExceeded { cid, max_attempts } => "repair attempts exceeded for "@ + cid@ + "; maximum configured attempts: "@ + dec_seq(max_attempts as nat),
        ContentReplicationError::Storage(error) => "storage validation failed: "@ + crate::content_storage::content_storage_error_message(error),
    }
}

impl ContentReplicationError {
    /// The error's message text.
    pub fn message(&self) -> (r: String)
        ensures
            r@ == content_replication_error_message(*self),
    {
        match self {
            ContentReplicationError::InvalidPolicy(field) => {
                let mut out = String::new();
                out.append("invalid replication policy: ");
                out.append(*field);
                proof {
                    assert(out@ =~= "invalid replication policy: "@ + field@);
                }
                out
            },
            ContentReplicationError::EmptyField(field) => {
                let mut out = String::new();
                out.append("field must not be empty: ");
                out.append(*field);
                proof {
                    assert(out@ =~= "field must not be empty: "@ + field@);
                }
                out
            },
            ContentReplicationError::UnknownContent(cid) => {
                let mut out = String::new();
                out.append("content not tracked for replication: ");
                out.append(cid.as_str());
                proof {
                    assert(out@ =~= "content not tracked for replication: "@ + cid@);
                }
                out
            },
            ContentReplicationError::RepairAttemptsExceeded { cid, max_attempts } => {
                let mut out = String::new();
                out.append("repair attempts exceeded for ");
                out.append(cid.as_str());
                out.append("; maximum configured attempts: ");
                out.append(dec_string(*max_attempts as u64).as_str());
                proof {
                    assert(out@ =~= "repair attempts exceeded for "@ + cid@ + "; maximum configured attempts: "@ + dec_seq(max_attempts as nat));
                }
                out
            },
            ContentReplicationError::Storage(error) => {
                let mut out = String::new();
                out.append("storage validation failed: ");
                out.append(error.message().as_str());
                proof {
                    assert(out@ =~= "storage validation failed: "@ + crate::content_storage::content_storage_error_message(*error));
                }
                out
            },
        }
    }
}

} // verus!
