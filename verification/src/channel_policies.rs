//! Channel-level authorization and retention policy contracts.
//!
//! A [`ChannelPermissionEngine`] holds one policy record per channel: its
//! members, its admins, one [`PermissionRule`] per [`ChannelAction`] and a
//! [`RetentionPolicy`]. Every record it holds passed registration, and a
//! snapshot exported from an engine restores to an engine with the same
//! records.
use vstd::prelude::*;
use crate::did::{agent_did_error_text, agent_did_valid, AgentDid};
use crate::sorting::{sort_stamped, sort_strings, stamp_leq, stamped_view, str_leq};
use crate::strmap::{str_set_from, StrMap};
use crate::text::{concat, copy_strings, is_blank, is_blank_seq, str_views};

verus! {

/// Schema version used for serialized [`ChannelPolicySnapshot`] payloads.
pub const CHANNEL_POLICY_SNAPSHOT_SCHEMA_VERSION: u16 = 1;

/// Channel operations that require permission checks.
#[derive(Debug, Clone, Copy, PartialEq, Eq, Structural)]
pub enum ChannelAction {
    /// Send a message into the channel.
    Send,
    /// Read message history from the channel.
    Read,
    /// Invite a new member into the channel.
    Invite,
    /// Remove an existing member from the channel.
    Remove,
    /// Update channel policy configuration.
    Configure,
}

/// Authorization rule used to evaluate a [`ChannelAction`].
#[derive(Debug, Clone, PartialEq, Eq)]
pub enum PermissionRule {
    /// Allow any actor, regardless of membership.
    All,
    /// Allow only registered channel members.
    Members,
    /// Allow only channel administrators.
    Admins,
    /// Allow only explicitly listed actor DIDs (a set: order and repeats
    /// carry no meaning).
    Allowlist(Vec<String>),
}

/// Retention strategy applied to channel message history.
#[derive(Debug, Clone, Copy, PartialEq, Eq, Structural)]
pub enum RetentionPolicy {
    /// Keep all messages indefinitely.
    Forever,
    /// Retain messages no older than the given age window in seconds.
    MaxAgeSeconds(u64),
    /// Keep only the most recent `N` messages.
    MaxMessageCount(usize),
}

/// Permission configuration for every supported channel action.
#[derive(Debug, Clone, PartialEq, Eq)]
pub struct ChannelPermissions {
    /// Rule used for [`ChannelAction::Send`].
    pub send: PermissionRule,
    /// Rule used for [`ChannelAction::Read`].
    pub read: PermissionRule,
    /// Rule used for [`ChannelAction::Invite`].
    pub invite: PermissionRule,
    /// Rule used for [`ChannelAction::Remove`].
    pub remove: PermissionRule,
    /// Rule used for [`ChannelAction::Configure`].
    pub configure: PermissionRule,
    /// Retention policy used for pruning candidate evaluation.
    pub retention: RetentionPolicy,
}

/// Message metadata used by retention evaluation.
#[derive(Debug, Clone, PartialEq, Eq)]
pub struct RetentionMessage {
    /// Message identifier unique within the channel.
    pub id: String,
    /// Message creation timestamp in Unix seconds.
    pub created_at_secs: u64,
}

/// Serializable snapshot of all registered channel policy records.
#[derive(Debug, Clone, PartialEq, Eq)]
pub struct ChannelPolicySnapshot {
    /// Snapshot schema version for compatibility checks.
    pub schema_version: u16,
    /// Serialized channel policy records.
    pub channels: Vec<ChannelPolicySnapshotChannel>,
}

/// Serializable policy record for a single channel.
#[derive(Debug, Clone, PartialEq, Eq)]
pub struct ChannelPolicySnapshotChannel {
    /// Unique channel identifier.
    pub channel_id: String,
    /// Member DID set serialized as a sorted list.
    pub members: Vec<String>,
    /// Admin DID set serialized as a sorted list.
    pub admins: Vec<String>,
    /// Permission and retention rules for the channel.
    pub permissions: ChannelPermissions,
}

/// Errors emitted by channel registration, authorization, and retention checks.
#[derive(Debug, Clone, PartialEq, Eq)]
pub enum ChannelPolicyError {
    /// Registration rejected because `channel_id` is empty.
    EmptyChannelId,
    /// Registration rejected because the channel already exists.
    DuplicateChannelId(String),
    /// Registration rejected because the members list is empty.
    EmptyMembers,
    /// Registration rejected because the admins list is empty.
    EmptyAdmins,
    /// An actor or member/admin DID failed validation.
    InvalidDid(String),
    /// Registration rejected because an admin is not in the members set.
    AdminNotMember(String),
    /// Channel lookup failed because no policy record exists.
    NotFound(String),
    /// Action authorization failed for the actor under the configured rule.
    Unauthorized {
        /// DID of the actor that failed authorization.
        actor: String,
        /// Action that was denied.
        action: ChannelAction,
        /// Permission rule evaluated for this action.
        rule: PermissionRule,
    },
    /// Permission configuration failed rule-level validation.
    InvalidPermissionRule(String),
    /// Retention policy failed policy-level validation.
    InvalidRetentionPolicy(String),
}

/// Errors emitted while restoring or loading channel policy snapshots.
#[derive(Debug, Clone, PartialEq, Eq)]
pub enum ChannelPolicySnapshotError {
    /// Snapshot schema version does not match the runtime expectation.
    SchemaVersionMismatch {
        /// Schema version required by the running engine.
        expected: u16,
        /// Schema version provided by the snapshot payload.
        found: u16,
    },
    /// Snapshot channel record failed normal channel policy validation.
    ChannelPolicy(ChannelPolicyError),
}

// ---------------------------------------------------------------------------
// Mathematical model
// ---------------------------------------------------------------------------

/// A permission rule with the allowlist read as the character sequences of
/// its entries.
pub enum RuleModel {
    All,
    Members,
    Admins,
    Allowlist(Seq<Seq<char>>),
}

/// The permissions of a channel as values.
pub struct PermissionsModel {
    pub send: RuleModel,
    pub read: RuleModel,
    pub invite: RuleModel,
    pub remove: RuleModel,
    pub configure: RuleModel,
    pub retention: RetentionPolicy,
}

/// A registered channel: its member set, admin set and permissions.
pub struct ChannelModel {
    pub members: Set<Seq<char>>,
    pub admins: Set<Seq<char>>,
    pub permissions: PermissionsModel,
}

pub open spec fn rule_model(r: PermissionRule) -> RuleModel {
    match r {
        PermissionRule::All => RuleModel::All,
        PermissionRule::Members => RuleModel::Members,
        PermissionRule::Admins => RuleModel::Admins,
        PermissionRule::Allowlist(v) => RuleModel::Allowlist(str_views(v@)),
    }
}

pub open spec fn permissions_model(p: ChannelPermissions) -> PermissionsModel {
    PermissionsModel {
        send: rule_model(p.send),
        read: rule_model(p.read),
        invite: rule_model(p.invite),
        remove: rule_model(p.remove),
        configure: rule_model(p.configure),
        retention: p.retention,
    }
}

/// The rule that governs `action`.
pub open spec fn rule_for(p: PermissionsModel, action: ChannelAction) -> RuleModel {
    match action {
        ChannelAction::Send => p.send,
        ChannelAction::Read => p.read,
        ChannelAction::Invite => p.invite,
        ChannelAction::Remove => p.remove,
        ChannelAction::Configure => p.configure,
    }
}

/// Whether `rule` lets `actor` act, given the channel's members and admins.
pub open spec fn rule_allows(
    rule: RuleModel,
    actor: Seq<char>,
    members: Set<Seq<char>>,
    admins: Set<Seq<char>>,
) -> bool {
    match rule {
        RuleModel::All => true,
        RuleModel::Members => members.contains(actor),
        RuleModel::Admins => admins.contains(actor),
        RuleModel::Allowlist(values) => values.contains(actor),
    }
}

/// The first entry of `s` that is not a valid agent DID.
pub open spec fn first_invalid_did(s: Seq<Seq<char>>) -> Option<Seq<char>>
    decreases s.len(),
{
    if s.len() == 0 {
        None
    } else if !agent_did_valid(s[0]) {
        Some(s[0])
    } else {
        first_invalid_did(s.drop_first())
    }
}

/// The first admin that is not a valid DID or not a member.
pub open spec fn first_bad_admin(admins: Seq<Seq<char>>, members: Set<Seq<char>>) -> Option<
    Seq<char>,
>
    decreases admins.len(),
{
    if admins.len() == 0 {
        None
    } else if !agent_did_valid(admins[0]) || !members.contains(admins[0]) {
        Some(admins[0])
    } else {
        first_bad_admin(admins.drop_first(), members)
    }
}

/// Why an allowlist for the action named `label` is refused, if it is: it is
/// empty, or it holds an invalid DID (the least one in string order is named).
pub open spec fn allowlist_fault(label: Seq<char>, values: Seq<Seq<char>>) -> Option<Seq<char>> {
    if values.len() == 0 {
        Some("allowlist for "@ + label + " must not be empty"@)
    } else {
        match first_invalid_did(values.sort_by(str_leq())) {
            Some(v) => Some("allowlist for "@ + label + " contains invalid did: "@ + v),
            None => None,
        }
    }
}

pub open spec fn rule_fault(label: Seq<char>, r: RuleModel) -> Option<Seq<char>> {
    match r {
        RuleModel::Allowlist(values) => allowlist_fault(label, values),
        _ => None,
    }
}

/// The first refused rule, checking send, read, invite, remove, configure.
pub open spec fn permissions_fault(p: PermissionsModel) -> Option<Seq<char>> {
    if rule_fault("send"@, p.send) is Some {
        rule_fault("send"@, p.send)
    } else if rule_fault("read"@, p.read) is Some {
        rule_fault("read"@, p.read)
    } else if rule_fault("invite"@, p.invite) is Some {
        rule_fault("invite"@, p.invite)
    } else if rule_fault("remove"@, p.remove) is Some {
        rule_fault("remove"@, p.remove)
    } else {
        rule_fault("configure"@, p.configure)
    }
}

/// Text carried by the retention refusal.
pub open spec fn retention_fault_text() -> Seq<char> {
    "max message count must be greater than zero"@
}

/// Why a registration is refused, in the order the checks are made.
pub enum RegistrationFault {
    EmptyChannelId,
    DuplicateChannelId,
    EmptyMembers,
    EmptyAdmins,
    InvalidRetentionPolicy,
    InvalidPermissionRule(Seq<char>),
    InvalidDid(Seq<char>),
    AdminNotMember(Seq<char>),
}

pub open spec fn registration_fault(
    existing: Set<Seq<char>>,
    id: Seq<char>,
    members: Seq<Seq<char>>,
    admins: Seq<Seq<char>>,
    p: PermissionsModel,
) -> Option<RegistrationFault> {
    if is_blank_seq(id) {
        Some(RegistrationFault::EmptyChannelId)
    } else if existing.contains(id) {
        Some(RegistrationFault::DuplicateChannelId)
    } else if members.len() == 0 {
        Some(RegistrationFault::EmptyMembers)
    } else if admins.len() == 0 {
        Some(RegistrationFault::EmptyAdmins)
    } else if p.retention == RetentionPolicy::MaxMessageCount(0) {
        Some(RegistrationFault::InvalidRetentionPolicy)
    } else if permissions_fault(p) is Some {
        Some(RegistrationFault::InvalidPermissionRule(permissions_fault(p)->0))
    } else if first_invalid_did(members) is Some {
        Some(RegistrationFault::InvalidDid(agent_did_error_text(first_invalid_did(members)->0)))
    } else if first_bad_admin(admins, members.to_set()) is Some {
        let a = first_bad_admin(admins, members.to_set())->0;
        if !agent_did_valid(a) {
            Some(RegistrationFault::InvalidDid(agent_did_error_text(a)))
        } else {
            Some(RegistrationFault::AdminNotMember(a))
        }
    } else {
        None
    }
}

/// The error value that reports `f` for a registration of channel `id`.
pub open spec fn reports_fault(e: ChannelPolicyError, f: RegistrationFault, id: Seq<char>) -> bool {
    match f {
        RegistrationFault::EmptyChannelId => e is EmptyChannelId,
        RegistrationFault::DuplicateChannelId => e matches ChannelPolicyError::DuplicateChannelId(
            v,
        ) && v@ == id,
        RegistrationFault::EmptyMembers => e is EmptyMembers,
        RegistrationFault::EmptyAdmins => e is EmptyAdmins,
        RegistrationFault::InvalidRetentionPolicy => e matches ChannelPolicyError::InvalidRetentionPolicy(
            t,
        ) && t@ == retention_fault_text(),
        RegistrationFault::InvalidPermissionRule(text) => e matches ChannelPolicyError::InvalidPermissionRule(
            t,
        ) && t@ == text,
        RegistrationFault::InvalidDid(text) => e matches ChannelPolicyError::InvalidDid(t) && t@
            == text,
        RegistrationFault::AdminNotMember(a) => e matches ChannelPolicyError::AdminNotMember(v)
            && v@ == a,
    }
}

/// The record a successful registration stores.
pub open spec fn registered_model(
    members: Seq<Seq<char>>,
    admins: Seq<Seq<char>>,
    p: PermissionsModel,
) -> ChannelModel {
    ChannelModel { members: members.to_set(), admins: admins.to_set(), permissions: p }
}

/// What every registered channel satisfies.
pub open spec fn channel_valid(id: Seq<char>, c: ChannelModel) -> bool {
    &&& !is_blank_seq(id)
    &&& c.members != Set::<Seq<char>>::empty()
    &&& c.admins != Set::<Seq<char>>::empty()
    &&& forall|m: Seq<char>| #[trigger] c.members.contains(m) ==> agent_did_valid(m)
    &&& forall|a: Seq<char>| #[trigger] c.admins.contains(a) ==> c.members.contains(a)
    &&& c.permissions.retention != RetentionPolicy::MaxMessageCount(0)
    &&& permissions_fault(c.permissions) is None
}

// ---------------------------------------------------------------------------
// Validation helpers
// ---------------------------------------------------------------------------

proof fn lemma_first_invalid_step(s: Seq<Seq<char>>, i: int)
    requires
        0 <= i < s.len(),
        agent_did_valid(s[i]),
    ensures
        first_invalid_did(s.skip(i)) == first_invalid_did(s.skip(i + 1)),
{
    assert(s.skip(i).drop_first() =~= s.skip(i + 1));
}

proof fn lemma_first_bad_admin_step(s: Seq<Seq<char>>, members: Set<Seq<char>>, i: int)
    requires
        0 <= i < s.len(),
        agent_did_valid(s[i]),
        members.contains(s[i]),
    ensures
        first_bad_admin(s.skip(i), members) == first_bad_admin(s.skip(i + 1), members),
{
    assert(s.skip(i).drop_first() =~= s.skip(i + 1));
}

/// Index of the first entry that is not a valid agent DID.
fn first_invalid(values: &Vec<String>) -> (r: Option<usize>)
    ensures
        r matches Some(i) ==> i < values@.len() && first_invalid_did(str_views(values@)) == Some(
            values@[i as int]@,
        ),
        r is None ==> first_invalid_did(str_views(values@)) is None,
{
    let ghost sv = str_views(values@);
    let mut i: usize = 0;
    assert(sv.skip(0) =~= sv);
    while i < values.len()
        invariant
            i <= values@.len(),
            sv == str_views(values@),
            first_invalid_did(sv) == first_invalid_did(sv.skip(i as int)),
        decreases values@.len() - i,
    {
        if AgentDid::parse(values[i].as_str()).is_err() {
            proof {
                assert(sv.skip(i as int)[0] == sv[i as int]);
            }
            return Some(i);
        }
        proof {
            lemma_first_invalid_step(sv, i as int);
        }
        i = i + 1;
    }
    proof {
        assert(sv.skip(i as int).len() == 0);
    }
    None
}

fn validate_did(value: &str) -> (r: Result<(), ChannelPolicyError>)
    ensures
        r is Ok <==> agent_did_valid(value@),
        r matches Err(e) ==> e matches ChannelPolicyError::InvalidDid(t) && t@
            == agent_did_error_text(value@),
{
    match AgentDid::parse(value) {
        Ok(_) => Ok(()),
        Err(detail) => Err(ChannelPolicyError::InvalidDid(detail)),
    }
}

fn validate_retention_policy(policy: &RetentionPolicy) -> (r: Result<(), ChannelPolicyError>)
    ensures
        r is Ok <==> *policy != RetentionPolicy::MaxMessageCount(0),
        r matches Err(e) ==> e matches ChannelPolicyError::InvalidRetentionPolicy(t) && t@
            == retention_fault_text(),
{
    match policy {
        RetentionPolicy::MaxMessageCount(0) => Err(
            ChannelPolicyError::InvalidRetentionPolicy(
                "max message count must be greater than zero".to_owned(),
            ),
        ),
        _ => Ok(()),
    }
}

fn validate_permission_rule(action: &str, rule: &PermissionRule) -> (r: Result<
    (),
    ChannelPolicyError,
>)
    ensures
        r is Ok <==> rule_fault(action@, rule_model(*rule)) is None,
        r matches Err(e) ==> e matches ChannelPolicyError::InvalidPermissionRule(t) && t@
            == rule_fault(action@, rule_model(*rule))->0,
{
    match rule {
        PermissionRule::Allowlist(values) => {
            if values.len() == 0 {
                let t = concat(concat("allowlist for ", action).as_str(), " must not be empty");
                return Err(ChannelPolicyError::InvalidPermissionRule(t));
            }
            let sorted = sort_strings(copy_strings(values));
            match first_invalid(&sorted) {
                Some(i) => {
                    let head = concat(concat("allowlist for ", action).as_str(), " contains invalid did: ");
                    let t = concat(head.as_str(), sorted[i].as_str());
                    Err(ChannelPolicyError::InvalidPermissionRule(t))
                },
                None => Ok(()),
            }
        },
        _ => Ok(()),
    }
}

fn validate_permission_rules(permissions: &ChannelPermissions) -> (r: Result<(), ChannelPolicyError>)
    ensures
        r is Ok <==> permissions_fault(permissions_model(*permissions)) is None,
        r matches Err(e) ==> e matches ChannelPolicyError::InvalidPermissionRule(t) && t@
            == permissions_fault(permissions_model(*permissions))->0,
{
    validate_permission_rule("send", &permissions.send)?;
    validate_permission_rule("read", &permissions.read)?;
    validate_permission_rule("invite", &permissions.invite)?;
    validate_permission_rule("remove", &permissions.remove)?;
    validate_permission_rule("configure", &permissions.configure)?;
    Ok(())
}

fn is_authorized(rule: &PermissionRule, actor: &str, members: &StrMap<()>, admins: &StrMap<()>) -> (b:
    bool)
    requires
        members.wf(),
        admins.wf(),
    ensures
        b == rule_allows(rule_model(*rule), actor@, members.map().dom(), admins.map().dom()),
{
    match rule {
        PermissionRule::All => true,
        PermissionRule::Members => members.contains(actor),
        PermissionRule::Admins => admins.contains(actor),
        PermissionRule::Allowlist(values) => {
            let mut i: usize = 0;
            while i < values.len()
                invariant
                    i <= values@.len(),
                    rule_model(*rule) == RuleModel::Allowlist(str_views(values@)),
                    forall|j: int| 0 <= j < i ==> values@[j]@ != actor@,
                decreases values@.len() - i,
            {
                if crate::text::str_eq(values[i].as_str(), actor) {
                    proof {
                        assert(str_views(values@)[i as int] == actor@);
                        assert(str_views(values@).contains(actor@));
                    }
                    return true;
                }
                i = i + 1;
            }
            proof {
                if str_views(values@).contains(actor@) {
                    let j = choose|j: int| 0 <= j < str_views(values@).len() && str_views(values@)[j] == actor@;
                    assert(values@[j]@ == actor@);
                }
            }
            false
        },
    }
}

/// A copy of a permission rule.
fn copy_rule(rule: &PermissionRule) -> (r: PermissionRule)
    ensures
        rule_model(r) == rule_model(*rule),
{
    match rule {
        PermissionRule::All => PermissionRule::All,
        PermissionRule::Members => PermissionRule::Members,
        PermissionRule::Admins => PermissionRule::Admins,
        PermissionRule::Allowlist(values) => PermissionRule::Allowlist(copy_strings(values)),
    }
}

/// A copy of a permission set.
fn copy_permissions(p: &ChannelPermissions) -> (r: ChannelPermissions)
    ensures
        permissions_model(r) == permissions_model(*p),
{
    ChannelPermissions {
        send: copy_rule(&p.send),
        read: copy_rule(&p.read),
        invite: copy_rule(&p.invite),
        remove: copy_rule(&p.remove),
        configure: copy_rule(&p.configure),
        retention: p.retention,
    }
}

proof fn lemma_first_invalid_none(s: Seq<Seq<char>>)
    ensures
        first_invalid_did(s) is None <==> forall|j: int| 0 <= j < s.len() ==> agent_did_valid(
            #[trigger] s[j],
        ),
    decreases s.len(),
{
    if s.len() > 0 {
        lemma_first_invalid_none(s.drop_first());
        if forall|j: int| 0 <= j < s.len() ==> agent_did_valid(#[trigger] s[j]) {
            assert forall|j: int| 0 <= j < s.drop_first().len() implies agent_did_valid(
                #[trigger] s.drop_first()[j],
            ) by {
                assert(s.drop_first()[j] == s[j + 1]);
            }
        }
        if first_invalid_did(s) is None {
            assert forall|j: int| 0 <= j < s.len() implies agent_did_valid(#[trigger] s[j]) by {
                if j > 0 {
                    assert(s[j] == s.drop_first()[j - 1]);
                }
            }
        }
    }
}

proof fn lemma_first_invalid_some(s: Seq<Seq<char>>)
    ensures
        first_invalid_did(s) matches Some(x) ==> !agent_did_valid(x) && s.contains(x),
    decreases s.len(),
{
    if s.len() > 0 && agent_did_valid(s[0]) {
        lemma_first_invalid_some(s.drop_first());
        if first_invalid_did(s) is Some {
            let x = first_invalid_did(s)->0;
            let j = choose|j: int| 0 <= j < s.drop_first().len() && s.drop_first()[j] == x;
            assert(s[j + 1] == x);
        }
    }
}

proof fn lemma_first_bad_admin_none(s: Seq<Seq<char>>, members: Set<Seq<char>>)
    ensures
        first_bad_admin(s, members) is None <==> forall|j: int|
            0 <= j < s.len() ==> agent_did_valid(#[trigger] s[j]) && members.contains(s[j]),
    decreases s.len(),
{
    if s.len() > 0 {
        lemma_first_bad_admin_none(s.drop_first(), members);
        if forall|j: int| 0 <= j < s.len() ==> agent_did_valid(#[trigger] s[j]) && members.contains(s[j]) {
            assert forall|j: int| 0 <= j < s.drop_first().len() implies agent_did_valid(
                #[trigger] s.drop_first()[j],
            ) && members.contains(s.drop_first()[j]) by {
                assert(s.drop_first()[j] == s[j + 1]);
            }
        }
        if first_bad_admin(s, members) is None {
            assert forall|j: int| 0 <= j < s.len() implies agent_did_valid(#[trigger] s[j])
                && members.contains(s[j]) by {
                if j > 0 {
                    assert(s[j] == s.drop_first()[j - 1]);
                }
            }
        }
    }
}

/// Policy record of one channel.
#[derive(Debug, PartialEq, Eq)]
struct ChannelPolicyRecord {
    members: StrMap<()>,
    admins: StrMap<()>,
    permissions: ChannelPermissions,
}

spec fn record_model(r: ChannelPolicyRecord) -> ChannelModel {
    ChannelModel {
        members: r.members.map().dom(),
        admins: r.admins.map().dom(),
        permissions: permissions_model(r.permissions),
    }
}

spec fn record_ok(id: Seq<char>, r: ChannelPolicyRecord) -> bool {
    r.members.wf() && r.admins.wf() && channel_valid(id, record_model(r))
}

/// In-memory registry that enforces channel permission and retention contracts.
#[derive(Debug, PartialEq, Eq)]
pub struct ChannelPermissionEngine {
    channels: StrMap<ChannelPolicyRecord>,
}

impl View for ChannelPermissionEngine {
    type V = Map<Seq<char>, ChannelModel>;

    /// Registered channels by identifier.
    closed spec fn view(&self) -> Map<Seq<char>, ChannelModel> {
        self.channels.map().map_values(|r: ChannelPolicyRecord| record_model(r))
    }
}

impl ChannelPermissionEngine {
    #[verifier::type_invariant]
    closed spec fn inv(&self) -> bool {
        &&& self.channels.wf()
        &&& forall|k: Seq<char>| #[trigger]
            self.channels.map().dom().contains(k) ==> record_ok(k, self.channels.map()[k])
    }

    /// Create an empty permission engine.
    pub fn new() -> (e: Self)
        ensures
            e@ == Map::<Seq<char>, ChannelModel>::empty(),
    {
        let e = ChannelPermissionEngine { channels: StrMap::new() };
        assert(e@ =~= Map::<Seq<char>, ChannelModel>::empty());
        e
    }

    /// Register a channel with members, admins, and policy rules.
    ///
    /// The checks run in this order, and the first that fails is reported:
    /// blank identifier, duplicate identifier, no members, no admins,
    /// retention policy, permission rules (send, read, invite, remove,
    /// configure), member DIDs in the given order, then each admin in the
    /// given order (its DID, then its membership).
    pub fn register_channel(
        &mut self,
        channel_id: &str,
        members: Vec<String>,
        admins: Vec<String>,
        permissions: ChannelPermissions,
    ) -> (r: Result<(), ChannelPolicyError>)
        ensures
            match registration_fault(
                old(self)@.dom(),
                channel_id@,
                str_views(members@),
                str_views(admins@),
                permissions_model(permissions),
            ) {
                None => r is Ok && final(self)@ == old(self)@.insert(
                    channel_id@,
                    registered_model(
                        str_views(members@),
                        str_views(admins@),
                        permissions_model(permissions),
                    ),
                ),
                Some(f) => r matches Err(e) && reports_fault(e, f, channel_id@) && final(self)@
                    == old(self)@,
            },
    {
        proof {
            use_type_invariant(&*self);
        }
        let ghost mv = str_views(members@);
        let ghost av = str_views(admins@);
        let ghost pm = permissions_model(permissions);
        if is_blank(channel_id) {
            return Err(ChannelPolicyError::EmptyChannelId);
        }
        if self.channels.contains(channel_id) {
            return Err(ChannelPolicyError::DuplicateChannelId(channel_id.to_owned()));
        }
        if members.len() == 0 {
            return Err(ChannelPolicyError::EmptyMembers);
        }
        if admins.len() == 0 {
            return Err(ChannelPolicyError::EmptyAdmins);
        }
        validate_retention_policy(&permissions.retention)?;
        validate_permission_rules(&permissions)?;
        proof {
            lemma_first_invalid_some(mv);
            lemma_first_invalid_none(mv);
        }
        if let Some(i) = first_invalid(&members) {
            validate_did(members[i].as_str())?;
        }
        let member_set = str_set_from(&members);
        let mut i: usize = 0;
        assert(av.skip(0) =~= av);
        #[verifier::loop_isolation(false)]
        while i < admins.len()
            invariant
                i <= admins@.len(),
                av == str_views(admins@),
                member_set.wf(),
                member_set.map().dom() == mv.to_set(),
                first_bad_admin(av, mv.to_set()) == first_bad_admin(av.skip(i as int), mv.to_set()),
            decreases admins@.len() - i,
        {
            proof {
                assert(av.skip(i as int)[0] == av[i as int]);
            }
            validate_did(admins[i].as_str())?;
            if !member_set.contains(admins[i].as_str()) {
                return Err(ChannelPolicyError::AdminNotMember(admins[i].clone()));
            }
            proof {
                lemma_first_bad_admin_step(av, mv.to_set(), i as int);
            }
            i = i + 1;
        }
        proof {
            assert(av.skip(i as int).len() == 0);
            lemma_first_bad_admin_none(av, mv.to_set());
            assert(mv.to_set().contains(mv[0]));
            assert(av.to_set().contains(av[0]));
        }
        let admin_set = str_set_from(&admins);
        let record = ChannelPolicyRecord { members: member_set, admins: admin_set, permissions };
        proof {
            assert(record_model(record) == registered_model(mv, av, pm));
            assert forall|a: Seq<char>| #[trigger] av.to_set().contains(a) implies mv.to_set().contains(a) by {
                let j = choose|j: int| 0 <= j < av.len() && av[j] == a;
                assert(agent_did_valid(av[j]) && mv.to_set().contains(av[j]));
            }
            assert forall|m: Seq<char>| #[trigger] mv.to_set().contains(m) implies agent_did_valid(m) by {
                let j = choose|j: int| 0 <= j < mv.len() && mv[j] == m;
                assert(agent_did_valid(mv[j]));
            }
            assert(record_ok(channel_id@, record));
        }
        let ghost old_view = self@;
        let mut chans: StrMap<ChannelPolicyRecord> = StrMap::new();
        std::mem::swap(&mut chans, &mut self.channels);
        chans.insert(channel_id.to_owned(), record);
        self.channels = chans;
        proof {
            assert(self@ =~= old_view.insert(channel_id@, registered_model(mv, av, pm)));
        }
        Ok(())
    }
}

/// Seconds elapsed from `created` to `now`, or zero when `created` is later.
pub open spec fn message_age(now: u64, created: u64) -> int {
    if now >= created {
        now - created
    } else {
        0
    }
}

/// Messages as (creation time, identifier) values.
pub open spec fn messages_model(v: Seq<RetentionMessage>) -> Seq<(u64, Seq<char>)> {
    v.map_values(|m: RetentionMessage| (m.created_at_secs, m.id@))
}

/// Identifiers of (creation time, identifier) values.
pub open spec fn message_ids(v: Seq<(u64, Seq<char>)>) -> Seq<Seq<char>> {
    v.map_values(|m: (u64, Seq<char>)| m.1)
}

/// Identifiers that `policy` marks for pruning, in the order they are
/// returned: under an age window, the messages older than the window, by
/// identifier; under a count limit, the oldest messages beyond the limit,
/// oldest first (ties by identifier).
pub open spec fn retention_selection(
    policy: RetentionPolicy,
    now: u64,
    msgs: Seq<(u64, Seq<char>)>,
) -> Seq<Seq<char>> {
    match policy {
        RetentionPolicy::Forever => Seq::empty(),
        RetentionPolicy::MaxAgeSeconds(max_age) => message_ids(
            msgs.filter(|m: (u64, Seq<char>)| message_age(now, m.0) > max_age),
        ).sort_by(str_leq()),
        RetentionPolicy::MaxMessageCount(limit) => if msgs.len() <= limit {
            Seq::empty()
        } else {
            message_ids(msgs.sort_by(stamp_leq()).take(msgs.len() - limit))
        },
    }
}

/// Identifiers of the messages older than `max_age` at `now`, in input order.
fn expired_ids(now: u64, max_age: u64, messages: &Vec<RetentionMessage>) -> (r: Vec<String>)
    ensures
        str_views(r@) == message_ids(
            messages_model(messages@).filter(
                |m: (u64, Seq<char>)| message_age(now, m.0) > max_age,
            ),
        ),
{
    let ghost mm = messages_model(messages@);
    let ghost pred = |m: (u64, Seq<char>)| message_age(now, m.0) > max_age;
    let mut r: Vec<String> = Vec::new();
    let mut i: usize = 0;
    assert(mm.take(0) =~= Seq::<(u64, Seq<char>)>::empty());
    assert(message_ids(mm.take(0).filter(pred)) =~= Seq::<Seq<char>>::empty());
    while i < messages.len()
        invariant
            i <= messages@.len(),
            mm == messages_model(messages@),
            pred == (|m: (u64, Seq<char>)| message_age(now, m.0) > max_age),
            str_views(r@) == message_ids(mm.take(i as int).filter(pred)),
        decreases messages@.len() - i,
    {
        let created = messages[i].created_at_secs;
        let age = now.saturating_sub(created);
        proof {
            reveal(Seq::filter);
            assert(mm.take(i + 1).drop_last() =~= mm.take(i as int));
            assert(mm.take(i + 1).last() == mm[i as int]);
            assert(mm[i as int] == (created, messages@[i as int].id@));
        }
        if age > max_age {
            let id = messages[i].id.clone();
            let ghost old_r = r@;
            r.push(id);
            proof {
                reveal(Seq::filter);
                assert(str_views(r@) =~= str_views(old_r).push(id@));
                assert(mm.take(i + 1).filter(pred) == mm.take(i as int).filter(pred).push(mm[i as int]));
                assert(message_ids(mm.take(i + 1).filter(pred)) =~= message_ids(
                    mm.take(i as int).filter(pred),
                ).push(id@));
            }
        } else {
            proof {
                reveal(Seq::filter);
                assert(mm.take(i + 1).filter(pred) == mm.take(i as int).filter(pred));
            }
        }
        i = i + 1;
    }
    assert(mm.take(i as int) =~= mm);
    r
}

/// The first `count` identifiers of the messages ordered by creation time,
/// then identifier.
fn oldest_ids(messages: &Vec<RetentionMessage>, count: usize) -> (r: Vec<String>)
    requires
        count <= messages@.len(),
    ensures
        str_views(r@) == message_ids(messages_model(messages@).sort_by(stamp_leq()).take(count as int)),
{
    let ghost mm = messages_model(messages@);
    let mut stamped: Vec<(u64, String)> = Vec::new();
    let mut i: usize = 0;
    while i < messages.len()
        invariant
            i <= messages@.len(),
            mm == messages_model(messages@),
            stamped_view(stamped@) == mm.take(i as int),
        decreases messages@.len() - i,
    {
        let id = messages[i].id.clone();
        let ghost old_s = stamped@;
        stamped.push((messages[i].created_at_secs, id));
        proof {
            assert(stamped_view(stamped@) =~= stamped_view(old_s).push(mm[i as int]));
            assert(mm.take(i + 1) =~= mm.take(i as int).push(mm[i as int]));
        }
        i = i + 1;
    }
    assert(mm.take(i as int) =~= mm);
    let sorted = sort_stamped(stamped);
    let ghost sv = stamped_view(sorted@);
    proof {
        let leq = stamp_leq();
        crate::sorting::lemma_stamp_leq_total();
        mm.lemma_sort_by_ensures(leq);
        assert(sv.len() == mm.len()) by {
            assert(sv.to_multiset().len() == mm.to_multiset().len());
            sv.to_multiset_ensures();
            mm.to_multiset_ensures();
        }
    }
    let mut r: Vec<String> = Vec::new();
    let mut j: usize = 0;
    while j < count
        invariant
            j <= count,
            count <= sorted@.len(),
            sv == stamped_view(sorted@),
            str_views(r@) == message_ids(sv.take(j as int)),
        decreases count - j,
    {
        let id = sorted[j].1.clone();
        let ghost old_r = r@;
        r.push(id);
        proof {
            assert(str_views(r@) =~= str_views(old_r).push(id@));
            assert(message_ids(sv.take(j + 1)) =~= message_ids(sv.take(j as int)).push(sv[j as int].1));
        }
        j = j + 1;
    }
    r
}

impl ChannelPermissionEngine {
    /// Authorize an actor for a channel action using stored policy rules.
    ///
    /// The actor's DID is checked first, then the channel's existence, then
    /// the rule for `action`.
    pub fn authorize(&self, channel_id: &str, actor: &str, action: ChannelAction) -> (r: Result<
        (),
        ChannelPolicyError,
    >)
        ensures
            !agent_did_valid(actor@) ==> (r matches Err(e) && e matches ChannelPolicyError::InvalidDid(
                t,
            ) && t@ == agent_did_error_text(actor@)),
            agent_did_valid(actor@) && !self@.dom().contains(channel_id@) ==> (r matches Err(e)
                && e matches ChannelPolicyError::NotFound(c) && c@ == channel_id@),
            agent_did_valid(actor@) && self@.dom().contains(channel_id@) ==> {
                let c = self@[channel_id@];
                let rule = rule_for(c.permissions, action);
                if rule_allows(rule, actor@, c.members, c.admins) {
                    r is Ok
                } else {
                    r matches Err(e) && e matches ChannelPolicyError::Unauthorized {
                        actor: a,
                        action: act,
                        rule: rl,
                    } && a@ == actor@ && act == action && rule_model(rl) == rule
                }
            },
    {
        proof {
            use_type_invariant(self);
            self.channels.lemma_well_formed();
        }
        validate_did(actor)?;
        let record = match self.channels.get(channel_id) {
            Some(rec) => rec,
            None => {
                return Err(ChannelPolicyError::NotFound(channel_id.to_owned()));
            },
        };
        let rule = match action {
            ChannelAction::Send => &record.permissions.send,
            ChannelAction::Read => &record.permissions.read,
            ChannelAction::Invite => &record.permissions.invite,
            ChannelAction::Remove => &record.permissions.remove,
            ChannelAction::Configure => &record.permissions.configure,
        };
        proof {
            assert(record_ok(channel_id@, *record));
        }
        if is_authorized(rule, actor, &record.members, &record.admins) {
            Ok(())
        } else {
            Err(ChannelPolicyError::Unauthorized { actor: actor.to_owned(), action, rule: copy_rule(rule) })
        }
    }

    /// Compute message IDs that are eligible for pruning under the channel's
    /// retention policy.
    pub fn retention_candidates(
        &self,
        channel_id: &str,
        now_secs: u64,
        messages: Vec<RetentionMessage>,
    ) -> (r: Result<Vec<String>, ChannelPolicyError>)
        ensures
            !self@.dom().contains(channel_id@) ==> (r matches Err(e)
                && e matches ChannelPolicyError::NotFound(c) && c@ == channel_id@),
            self@.dom().contains(channel_id@) ==> (r matches Ok(ids) && str_views(ids@)
                == retention_selection(
                self@[channel_id@].permissions.retention,
                now_secs,
                messages_model(messages@),
            )),
    {
        proof {
            use_type_invariant(self);
            self.channels.lemma_well_formed();
        }
        let record = match self.channels.get(channel_id) {
            Some(rec) => rec,
            None => {
                return Err(ChannelPolicyError::NotFound(channel_id.to_owned()));
            },
        };
        match record.permissions.retention {
            RetentionPolicy::Forever => {
                let r: Vec<String> = Vec::new();
                assert(str_views(r@) =~= Seq::<Seq<char>>::empty());
                Ok(r)
            },
            RetentionPolicy::MaxAgeSeconds(max_age) => {
                let ids = expired_ids(now_secs, max_age, &messages);
                Ok(sort_strings(ids))
            },
            RetentionPolicy::MaxMessageCount(limit) => {
                if messages.len() <= limit {
                    let r: Vec<String> = Vec::new();
                    assert(str_views(r@) =~= Seq::<Seq<char>>::empty());
                    return Ok(r);
                }
                Ok(oldest_ids(&messages, messages.len() - limit))
            },
        }
    }
}

/// Registers the channels of a snapshot in order into an empty engine: the
/// channels that result, or the index of the first refused channel and why.
pub open spec fn snapshot_replay(chs: Seq<ChannelPolicySnapshotChannel>) -> Result<
    Map<Seq<char>, ChannelModel>,
    (int, RegistrationFault),
>
    decreases chs.len(),
{
    if chs.len() == 0 {
        Ok(Map::empty())
    } else {
        match snapshot_replay(chs.drop_last()) {
            Err(e) => Err(e),
            Ok(m) => {
                let c = chs.last();
                match registration_fault(
                    m.dom(),
                    c.channel_id@,
                    str_views(c.members@),
                    str_views(c.admins@),
                    permissions_model(c.permissions),
                ) {
                    Some(f) => Err((chs.len() - 1, f)),
                    None => Ok(
                        m.insert(
                            c.channel_id@,
                            registered_model(
                                str_views(c.members@),
                                str_views(c.admins@),
                                permissions_model(c.permissions),
                            ),
                        ),
                    ),
                }
            },
        }
    }
}

proof fn lemma_replay_error_persists(s: Seq<ChannelPolicySnapshotChannel>, k: int)
    requires
        0 <= k <= s.len(),
        snapshot_replay(s.take(k)) is Err,
    ensures
        snapshot_replay(s) == snapshot_replay(s.take(k)),
    decreases s.len(),
{
    if k == s.len() {
        assert(s.take(k) =~= s);
    } else {
        assert(s.drop_last().take(k) =~= s.take(k));
        lemma_replay_error_persists(s.drop_last(), k);
    }
}

/// Channel identifiers of a snapshot, in order.
pub open spec fn snapshot_ids(chs: Seq<ChannelPolicySnapshotChannel>) -> Seq<Seq<char>> {
    chs.map_values(|c: ChannelPolicySnapshotChannel| c.channel_id@)
}

/// The channels of `m` whose identifiers occur in `ids`.
spec fn restrict_to(m: Map<Seq<char>, ChannelModel>, ids: Seq<Seq<char>>) -> Map<Seq<char>, ChannelModel> {
    m.restrict(ids.to_set())
}

impl ChannelPermissionEngine {
    /// Export the current engine state into a serializable snapshot payload.
    ///
    /// Channels come in identifier order, members and admins each in string
    /// order; replaying the snapshot's registrations rebuilds exactly this
    /// engine, and every channel it holds satisfies the registration rules.
    pub fn export_snapshot(&self) -> (s: ChannelPolicySnapshot)
        ensures
            s.schema_version == CHANNEL_POLICY_SNAPSHOT_SCHEMA_VERSION,
            snapshot_replay(s.channels@) == Ok::<_, (int, RegistrationFault)>(self@),
            crate::text::strictly_sorted(snapshot_ids(s.channels@)),
            forall|i: int|
                0 <= i < s.channels@.len() ==> crate::text::strictly_sorted(
                    str_views(#[trigger] s.channels@[i].members@),
                ) && crate::text::strictly_sorted(str_views(s.channels@[i].admins@)),
            forall|k: Seq<char>| #[trigger] self@.dom().contains(k) ==> channel_valid(k, self@[k]),
    {
        proof {
            use_type_invariant(self);
            self.channels.lemma_well_formed();
            self.channels.lemma_keys_to_set();
        }
        let ghost keys = self.channels.keys();
        let ghost full = self@;
        let n = self.channels.len();
        let mut out: Vec<ChannelPolicySnapshotChannel> = Vec::new();
        let mut i: usize = 0;
        assert(restrict_to(full, keys.take(0)) =~= Map::<Seq<char>, ChannelModel>::empty());
        while i < n
            invariant
                i <= n,
                n == self.channels.pairs().len(),
                keys == self.channels.keys(),
                full == self@,
                self.channels.wf(),
                crate::text::strictly_sorted(keys),
                keys.to_set() == self.channels.map().dom(),
                forall|j: int|
                    0 <= j < self.channels.pairs().len() ==> #[trigger] self.channels.map().dom().contains(
                        self.channels.pairs()[j].0,
                    ) && self.channels.map()[self.channels.pairs()[j].0] == self.channels.pairs()[j].1,
                forall|k: Seq<char>| #[trigger]
                    self.channels.map().dom().contains(k) ==> record_ok(k, self.channels.map()[k]),
                out@.len() == i,
                snapshot_ids(out@) == keys.take(i as int),
                forall|j: int|
                    0 <= j < i ==> crate::text::strictly_sorted(str_views(#[trigger] out@[j].members@))
                        && crate::text::strictly_sorted(str_views(out@[j].admins@)),
                snapshot_replay(out@) == Ok::<_, (int, RegistrationFault)>(restrict_to(full, keys.take(i as int))),
            decreases n - i,
        {
            let id = self.channels.key_at(i).clone();
            let record = self.channels.value_at(i);
            let ghost k = keys[i as int];
            proof {
                assert(keys[i as int] == self.channels.pairs()[i as int].0);
                assert(self.channels.map().dom().contains(self.channels.pairs()[i as int].0));
                assert(self.channels.map()[k] == *record);
                assert(record_ok(k, *record));
                assert(full[k] == record_model(*record));
                record.members.lemma_well_formed();
                record.admins.lemma_well_formed();
                record.members.lemma_keys_to_set();
                record.admins.lemma_keys_to_set();
            }
            let members = record.members.keys_vec();
            let admins = record.admins.keys_vec();
            let permissions = copy_permissions(&record.permissions);
            let ch = ChannelPolicySnapshotChannel { channel_id: id, members, admins, permissions };
            proof {
                let prev = restrict_to(full, keys.take(i as int));
                let mv = str_views(members@);
                let av = str_views(admins@);
                let c = record_model(*record);
                assert(full[k] == c);
                // the identifier is new
                assert(!prev.dom().contains(k)) by {
                    if keys.take(i as int).contains(k) {
                        let j = choose|j: int| 0 <= j < i && keys.take(i as int)[j] == k;
                        crate::text::lemma_strictly_sorted_distinct(keys, j, i as int);
                    }
                }
                // member and admin lists are non-empty, valid, and admins are members
                assert(mv.len() > 0) by {
                    if mv.len() == 0 {
                        assert(mv.to_set() =~= Set::<Seq<char>>::empty());
                    }
                }
                assert(av.len() > 0) by {
                    if av.len() == 0 {
                        assert(av.to_set() =~= Set::<Seq<char>>::empty());
                    }
                }
                assert forall|j: int| 0 <= j < mv.len() implies agent_did_valid(#[trigger] mv[j]) by {
                    assert(mv.to_set().contains(mv[j]));
                }
                assert forall|j: int| 0 <= j < av.len() implies agent_did_valid(#[trigger] av[j])
                    && mv.to_set().contains(av[j]) by {
                    assert(av.to_set().contains(av[j]));
                }
                lemma_first_invalid_none(mv);
                lemma_first_bad_admin_none(av, mv.to_set());
                assert(registration_fault(prev.dom(), k, mv, av, permissions_model(ch.permissions)) is None);
                assert(registered_model(mv, av, permissions_model(ch.permissions)) == c);
                let next = out@.push(ch);
                assert(next.drop_last() =~= out@);
                assert(restrict_to(full, keys.take(i + 1)) =~= prev.insert(k, c)) by {
                    assert(keys.take(i + 1) =~= keys.take(i as int).push(k));
                    keys.take(i as int).lemma_push_to_set_commute(k);
                }
            }
            out.push(ch);
            proof {
                assert(snapshot_ids(out@) =~= keys.take(i + 1));
            }
            i = i + 1;
        }
        proof {
            assert(keys.take(i as int) =~= keys);
            assert(restrict_to(full, keys) =~= full);
            assert forall|k: Seq<char>| #[trigger] full.dom().contains(k) implies channel_valid(k, full[k]) by {
                assert(record_ok(k, self.channels.map()[k]));
            }
        }
        ChannelPolicySnapshot { schema_version: CHANNEL_POLICY_SNAPSHOT_SCHEMA_VERSION, channels: out }
    }
}

/// The error that restoring `snapshot` reports for the first refused channel.
pub open spec fn reports_replay_fault(
    e: ChannelPolicySnapshotError,
    chs: Seq<ChannelPolicySnapshotChannel>,
    fault: (int, RegistrationFault),
) -> bool {
    e matches ChannelPolicySnapshotError::ChannelPolicy(inner) && reports_fault(
        inner,
        fault.1,
        chs[fault.0].channel_id@,
    )
}

impl ChannelPermissionEngine {
    /// Restore engine state from a snapshot after schema and policy
    /// validation: the snapshot's channels are registered in order into an
    /// empty engine, and the state is replaced only if all of them pass.
    pub fn restore_snapshot(&mut self, snapshot: ChannelPolicySnapshot) -> (r: Result<
        (),
        ChannelPolicySnapshotError,
    >)
        ensures
            snapshot.schema_version != CHANNEL_POLICY_SNAPSHOT_SCHEMA_VERSION ==> (r matches Err(
                e,
            ) && e == ChannelPolicySnapshotError::SchemaVersionMismatch {
                expected: CHANNEL_POLICY_SNAPSHOT_SCHEMA_VERSION,
                found: snapshot.schema_version,
            } && final(self)@ == old(self)@),
            snapshot.schema_version == CHANNEL_POLICY_SNAPSHOT_SCHEMA_VERSION ==> match snapshot_replay(
                snapshot.channels@,
            ) {
                Ok(m) => r is Ok && final(self)@ == m,
                Err(fault) => r matches Err(e) && reports_replay_fault(e, snapshot.channels@, fault)
                    && final(self)@ == old(self)@,
            },
    {
        if snapshot.schema_version != CHANNEL_POLICY_SNAPSHOT_SCHEMA_VERSION {
            return Err(
                ChannelPolicySnapshotError::SchemaVersionMismatch {
                    expected: CHANNEL_POLICY_SNAPSHOT_SCHEMA_VERSION,
                    found: snapshot.schema_version,
                },
            );
        }
        match Self::replay(&snapshot.channels) {
            Ok(restored) => {
                *self = restored;
                Ok(())
            },
            Err(e) => Err(e),
        }
    }

    /// Registers the channels in order into an empty engine.
    fn replay(channels: &Vec<ChannelPolicySnapshotChannel>) -> (r: Result<
        ChannelPermissionEngine,
        ChannelPolicySnapshotError,
    >)
        ensures
            match snapshot_replay(channels@) {
                Ok(m) => r matches Ok(engine) && engine@ == m,
                Err(fault) => r matches Err(e) && reports_replay_fault(e, channels@, fault),
            },
    {
        let mut restored = ChannelPermissionEngine::new();
        let mut i: usize = 0;
        assert(channels@.take(0) =~= Seq::<ChannelPolicySnapshotChannel>::empty());
        while i < channels.len()
            invariant
                i <= channels@.len(),
                snapshot_replay(channels@.take(i as int)) == Ok::<_, (int, RegistrationFault)>(
                    restored@,
                ),
            decreases channels@.len() - i,
        {
            let ch = &channels[i];
            let ghost before = restored@;
            let ghost prefix = channels@.take(i + 1);
            proof {
                assert(prefix.drop_last() =~= channels@.take(i as int));
                assert(prefix.last() == channels@[i as int]);
            }
            let result = restored.register_channel(
                ch.channel_id.as_str(),
                copy_strings(&ch.members),
                copy_strings(&ch.admins),
                copy_permissions(&ch.permissions),
            );
            match result {
                Ok(()) => {},
                Err(e) => {
                    proof {
                        lemma_replay_error_persists(channels@, i + 1);
                    }
                    return Err(ChannelPolicySnapshotError::ChannelPolicy(e));
                },
            }
            i = i + 1;
        }
        proof {
            assert(channels@.take(i as int) =~= channels@);
        }
        Ok(restored)
    }

    /// Construct a new engine from a snapshot payload.
    pub fn from_snapshot(snapshot: ChannelPolicySnapshot) -> (r: Result<Self, ChannelPolicySnapshotError>)
        ensures
            snapshot.schema_version != CHANNEL_POLICY_SNAPSHOT_SCHEMA_VERSION ==> (r matches Err(
                e,
            ) && e == ChannelPolicySnapshotError::SchemaVersionMismatch {
                expected: CHANNEL_POLICY_SNAPSHOT_SCHEMA_VERSION,
                found: snapshot.schema_version,
            }),
            snapshot.schema_version == CHANNEL_POLICY_SNAPSHOT_SCHEMA_VERSION ==> match snapshot_replay(
                snapshot.channels@,
            ) {
                Ok(m) => r matches Ok(engine) && engine@ == m,
                Err(fault) => r matches Err(e) && reports_replay_fault(e, snapshot.channels@, fault),
            },
    {
        let mut engine = Self::new();
        match engine.restore_snapshot(snapshot) {
            Ok(()) => Ok(engine),
            Err(e) => Err(e),
        }
    }
}

/// Each action is decided by the channel's own permission for that action,
/// as given at registration: sending by `send`, reading by `read`, inviting
/// by `invite`, removing by `remove`, configuring by `configure`.
pub proof fn lemma_action_rule_is_own_permission(perms: ChannelPermissions, action: ChannelAction)
    ensures
        action == ChannelAction::Send ==> rule_for(permissions_model(perms), action) == rule_model(perms.send),
        action == ChannelAction::Read ==> rule_for(permissions_model(perms), action) == rule_model(perms.read),
        action == ChannelAction::Invite ==> rule_for(permissions_model(perms), action) == rule_model(
            perms.invite,
        ),
        action == ChannelAction::Remove ==> rule_for(permissions_model(perms), action) == rule_model(
            perms.remove,
        ),
        action == ChannelAction::Configure ==> rule_for(permissions_model(perms), action) == rule_model(
            perms.configure,
        ),
{
}

/// An actor who is a member but not an admin is refused every action whose
/// permission is `Admins`, and allowed every action whose permission is
/// `Members`, whatever the other permissions say.
pub proof fn lemma_admins_rule_refuses_plain_members(
    perms: ChannelPermissions,
    action: ChannelAction,
    actor: Seq<char>,
    members: Set<Seq<char>>,
    admins: Set<Seq<char>>,
)
    requires
        members.contains(actor),
        !admins.contains(actor),
    ensures
        rule_model(perms.remove) == RuleModel::Admins && action == ChannelAction::Remove ==> !rule_allows(
            rule_for(permissions_model(perms), action),
            actor,
            members,
            admins,
        ),
        rule_model(perms.remove) == RuleModel::Members && action == ChannelAction::Remove ==> rule_allows(
            rule_for(permissions_model(perms), action),
            actor,
            members,
            admins,
        ),
{
    lemma_action_rule_is_own_permission(perms, action);
}

} // verus!
