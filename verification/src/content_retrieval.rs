//! Content retrieval authorization, caching, and audit-event contracts.
//!
//! A request is authorized by its scope (a task allowlist, or the read rule
//! of a channel), answered from the cache while its entry is fresh, or else
//! read from storage and cached; every authorized answer and every denial is
//! recorded as an audit event.
use vstd::prelude::*;
use crate::channel_policies::{
    rule_allows, rule_for, ChannelAction, ChannelPermissionEngine, ChannelPolicyError,
};
use crate::content_storage::{
    cid_prefix, cid_valid, verify_error, verify_ok, ContentObject, ContentStorageAdapter,
    ContentStorageError,
};
use crate::did::{agent_did_error_text, agent_did_valid, AgentDid};
use crate::strmap::StrMap;
use crate::text::{concat, is_blank, is_blank_seq, is_hex_char, str_eq};

verus! {

/// Retrieval engine cache configuration.
#[derive(Debug, Clone, PartialEq, Eq)]
pub struct ContentRetrievalConfig {
    /// Maximum seconds cached retrieval entries remain valid.
    pub cache_ttl_secs: u64,
}

impl ContentRetrievalConfig {
    /// Builds a validated retrieval config; the TTL must be positive.
    pub fn new(cache_ttl_secs: u64) -> (r: Result<Self, ContentRetrievalError>)
        ensures
            cache_ttl_secs == 0 ==> (r matches Err(e) && e matches ContentRetrievalError::InvalidConfig(
                f,
            ) && f@ == "cache_ttl_secs"@),
            cache_ttl_secs != 0 ==> r == Ok::<_, ContentRetrievalError>(
                ContentRetrievalConfig { cache_ttl_secs },
            ),
    {
        if cache_ttl_secs == 0 {
            return Err(ContentRetrievalError::InvalidConfig("cache_ttl_secs"));
        }
        Ok(ContentRetrievalConfig { cache_ttl_secs })
    }
}

/// Resource scope requested for content retrieval.
#[derive(Debug, Clone, PartialEq, Eq)]
pub enum ContentRetrievalScope {
    /// Channel-scoped retrieval keyed by channel identifier.
    Channel(String),
    /// Task-scoped retrieval keyed by task identifier.
    Task(String),
}

/// Authenticated retrieval request envelope.
#[derive(Debug, Clone, PartialEq, Eq)]
pub struct ContentRetrievalRequest {
    /// Content identifier requested by caller.
    pub cid: String,
    /// Requester DID initiating the read.
    pub requester: String,
    /// Retrieval scope controlling authorization path.
    pub scope: ContentRetrievalScope,
    /// Unix timestamp when the request was created.
    pub requested_at_unix: u64,
}

/// Authorization outcome recorded for retrieval attempts.
#[derive(Debug, Clone, Copy, PartialEq, Eq, Structural)]
pub enum ContentRetrievalOutcome {
    /// Request was authorized and answered.
    Allowed,
    /// Request failed authorization.
    Denied,
}

/// Audit event emitted for each retrieval decision.
#[derive(Debug, Clone, PartialEq, Eq)]
pub struct ContentRetrievalAuditEvent {
    pub cid: String,
    pub requester: String,
    pub scope: ContentRetrievalScope,
    pub requested_at_unix: u64,
    pub outcome: ContentRetrievalOutcome,
    pub cache_hit: bool,
}

/// Retrieval result returned to authorized callers.
#[derive(Debug, Clone, PartialEq, Eq)]
pub struct ContentRetrievalResult {
    pub cid: String,
    pub media_type: String,
    pub payload: Vec<u8>,
    pub from_cache: bool,
}

/// Retrieval engine error taxonomy.
#[derive(Debug, Clone, PartialEq, Eq)]
pub enum ContentRetrievalError {
    InvalidConfig(&'static str),
    EmptyField(&'static str),
    InvalidDid(String),
    Unauthorized { requester: String, scope: ContentRetrievalScope },
    MissingChannelPermissions(String),
    ChannelPolicy(ChannelPolicyError),
    Storage(ContentStorageError),
}

// ---------------------------------------------------------------------------
// Model
// ---------------------------------------------------------------------------

/// A scope as values.
pub enum ScopeModel {
    Channel(Seq<char>),
    Task(Seq<char>),
}

pub open spec fn scope_model(s: ContentRetrievalScope) -> ScopeModel {
    match s {
        ContentRetrievalScope::Channel(v) => ScopeModel::Channel(v@),
        ContentRetrievalScope::Task(v) => ScopeModel::Task(v@),
    }
}

/// The scope's part of a cache key.
pub open spec fn scope_key(s: ScopeModel) -> Seq<char> {
    match s {
        ScopeModel::Channel(v) => "channel:"@ + v,
        ScopeModel::Task(v) => "task:"@ + v,
    }
}

/// The cache key of a request: requester, scope and cid.
pub open spec fn cache_key_text(r: ContentRetrievalRequest) -> Seq<char> {
    r.requester@ + "|"@ + scope_key(scope_model(r.scope)) + "|"@ + r.cid@
}

/// A cached answer.
pub struct CacheEntryModel {
    pub cid: Seq<char>,
    pub media_type: Seq<char>,
    pub payload: Seq<u8>,
    pub expires_at_unix: u64,
}

/// A character sequence with no `|` in it.
pub open spec fn bar_free(s: Seq<char>) -> bool {
    forall|i: int| 0 <= i < s.len() ==> #[trigger] s[i] != '|'
}

/// The cache key `k` ends in `|` followed by the `|`-free CID `c`.
pub open spec fn key_names_cid(k: Seq<char>, c: Seq<char>) -> bool {
    &&& bar_free(c)
    &&& c.len() < k.len()
    &&& k[k.len() - c.len() - 1] == '|'
    &&& k.skip(k.len() - c.len()) == c
}

/// A key names at most one `|`-free CID: the text after its last `|`.
proof fn lemma_key_names_one_cid(k: Seq<char>, c1: Seq<char>, c2: Seq<char>)
    requires
        key_names_cid(k, c1),
        key_names_cid(k, c2),
    ensures
        c1 == c2,
{
    if c1.len() < c2.len() {
        let p = k.len() - c1.len() - 1;
        let o = k.len() - c2.len();
        assert(k.skip(o)[p - o] == k[p]);
        assert(c2[p - o] == '|');
    } else if c2.len() < c1.len() {
        let p = k.len() - c2.len() - 1;
        let o = k.len() - c1.len();
        assert(k.skip(o)[p - o] == k[p]);
        assert(c1[p - o] == '|');
    }
}

/// The cache key of a request names the request's CID when that CID has no `|`.
proof fn lemma_cache_key_names_cid(r: ContentRetrievalRequest)
    requires
        bar_free(r.cid@),
    ensures
        key_names_cid(cache_key_text(r), r.cid@),
{
    reveal_strlit("|");
    let head = r.requester@ + "|"@ + scope_key(scope_model(r.scope));
    let k = cache_key_text(r);
    assert(k == (head + "|"@) + r.cid@);
    assert(k.skip(k.len() - r.cid@.len()) =~= r.cid@);
    assert(k[k.len() - r.cid@.len() - 1] == (head + "|"@)[head.len() as int]);
}

/// A well-formed CID has no `|` in it.
proof fn lemma_cid_bar_free(c: Seq<char>)
    requires
        cid_valid(c),
    ensures
        bar_free(c),
{
    reveal_strlit("kamn:cid:v1:");
    let n = cid_prefix().len() as int;
    assert forall|i: int| 0 <= i < c.len() implies #[trigger] c[i] != '|' by {
        if i < n {
            assert(c.subrange(0, n)[i] == c[i]);
        } else {
            assert(c.skip(n)[i - n] == c[i]);
            assert(is_hex_char(c.skip(n)[i - n]));
        }
    }
}

/// An audit event as values.
pub struct AuditEventModel {
    pub cid: Seq<char>,
    pub requester: Seq<char>,
    pub scope: ScopeModel,
    pub requested_at_unix: u64,
    pub outcome: ContentRetrievalOutcome,
    pub cache_hit: bool,
}

pub open spec fn event_model(e: ContentRetrievalAuditEvent) -> AuditEventModel {
    AuditEventModel {
        cid: e.cid@,
        requester: e.requester@,
        scope: scope_model(e.scope),
        requested_at_unix: e.requested_at_unix,
        outcome: e.outcome,
        cache_hit: e.cache_hit,
    }
}

/// The event recorded for `r` with `outcome`.
pub open spec fn event_for(r: ContentRetrievalRequest, outcome: ContentRetrievalOutcome, cache_hit: bool) -> AuditEventModel {
    AuditEventModel {
        cid: r.cid@,
        requester: r.requester@,
        scope: scope_model(r.scope),
        requested_at_unix: r.requested_at_unix,
        outcome,
        cache_hit,
    }
}

/// Expiry of an answer cached at `requested_at` (saturating).
pub open spec fn expiry(requested_at: u64, ttl: u64) -> u64 {
    if requested_at + ttl > u64::MAX {
        u64::MAX
    } else {
        (requested_at + ttl) as u64
    }
}

/// Whether a channel engine lets `actor` read `channel`.
pub open spec fn channel_read_permitted(
    channels: Map<Seq<char>, crate::channel_policies::ChannelModel>,
    channel: Seq<char>,
    actor: Seq<char>,
) -> bool {
    &&& agent_did_valid(actor)
    &&& channels.dom().contains(channel)
    &&& rule_allows(
        rule_for(channels[channel].permissions, ChannelAction::Read),
        actor,
        channels[channel].members,
        channels[channel].admins,
    )
}

/// The allowlists after `requester` is granted reads of `task`.
pub open spec fn with_task_reader(
    allow: Map<Seq<char>, Set<Seq<char>>>,
    task: Seq<char>,
    requester: Seq<char>,
) -> Map<Seq<char>, Set<Seq<char>>> {
    allow.insert(
        task,
        if allow.dom().contains(task) {
            allow[task]
        } else {
            Set::<Seq<char>>::empty()
        }.insert(requester),
    )
}

/// Whether `requester` may read the content of `task`.
pub open spec fn may_read_task(
    allow: Map<Seq<char>, Set<Seq<char>>>,
    task: Seq<char>,
    requester: Seq<char>,
) -> bool {
    allow.dom().contains(task) && allow[task].contains(requester)
}

/// Why a request is denied.
pub enum Denial {
    Unauthorized,
    MissingChannelPermissions,
    ChannelPolicy,
}

/// The denial of `r`, if any, given the task allowlists and the channel
/// engine handed in.
pub open spec fn denial(
    allow: Map<Seq<char>, Set<Seq<char>>>,
    r: ContentRetrievalRequest,
    channels: Option<Map<Seq<char>, crate::channel_policies::ChannelModel>>,
) -> Option<Denial> {
    match scope_model(r.scope) {
        ScopeModel::Task(t) => if allow.dom().contains(t) && allow[t].contains(r.requester@) {
            None
        } else {
            Some(Denial::Unauthorized)
        },
        ScopeModel::Channel(c) => match channels {
            None => Some(Denial::MissingChannelPermissions),
            Some(m) => if channel_read_permitted(m, c, r.requester@) {
                None
            } else {
                Some(Denial::ChannelPolicy)
            },
        },
    }
}

pub open spec fn reports_denial(e: ContentRetrievalError, d: Denial, r: ContentRetrievalRequest) -> bool {
    match d {
        Denial::Unauthorized => e matches ContentRetrievalError::Unauthorized { requester, scope }
            && requester@ == r.requester@ && scope_model(scope) == scope_model(r.scope),
        Denial::MissingChannelPermissions => e matches ContentRetrievalError::MissingChannelPermissions(
            c,
        ) && scope_model(r.scope) == ScopeModel::Channel(c@),
        Denial::ChannelPolicy => e is ChannelPolicy,
    }
}

fn validate_did(value: &str) -> (r: Result<(), ContentRetrievalError>)
    ensures
        r is Ok <==> agent_did_valid(value@),
        r matches Err(e) ==> e matches ContentRetrievalError::InvalidDid(t) && t@ == agent_did_error_text(value@),
{
    match AgentDid::parse(value) {
        Ok(_) => Ok(()),
        Err(detail) => Err(ContentRetrievalError::InvalidDid(detail)),
    }
}

fn copy_scope(s: &ContentRetrievalScope) -> (r: ContentRetrievalScope)
    ensures
        r == *s,
{
    match s {
        ContentRetrievalScope::Channel(v) => ContentRetrievalScope::Channel(v.clone()),
        ContentRetrievalScope::Task(v) => ContentRetrievalScope::Task(v.clone()),
    }
}

impl ContentRetrievalRequest {
    /// Constructs a validated request, checking in order: the cid, the
    /// requester DID, the scope id, and the request time.
    pub fn new(cid: &str, requester: &str, scope: ContentRetrievalScope, requested_at_unix: u64) -> (r:
        Result<Self, ContentRetrievalError>)
        ensures
            is_blank_seq(cid@) ==> (r matches Err(e) && e matches ContentRetrievalError::EmptyField(f)
                && f@ == "cid"@),
            !is_blank_seq(cid@) && !agent_did_valid(requester@) ==> (r matches Err(e)
                && e matches ContentRetrievalError::InvalidDid(t) && t@ == agent_did_error_text(
                requester@,
            )),
            !is_blank_seq(cid@) && agent_did_valid(requester@) && (scope matches ContentRetrievalScope::Channel(
                v,
            ) && is_blank_seq(v@)) ==> (r matches Err(e) && e matches ContentRetrievalError::EmptyField(f)
                && f@ == "channel_id"@),
            !is_blank_seq(cid@) && agent_did_valid(requester@) && (scope matches ContentRetrievalScope::Task(
                v,
            ) && is_blank_seq(v@)) ==> (r matches Err(e) && e matches ContentRetrievalError::EmptyField(f)
                && f@ == "task_id"@),
            r is Ok ==> !is_blank_seq(cid@) && agent_did_valid(requester@) && requested_at_unix != 0,
            !is_blank_seq(cid@) && agent_did_valid(requester@) && !is_blank_seq(
                match scope {
                    ContentRetrievalScope::Channel(v) => v@,
                    ContentRetrievalScope::Task(v) => v@,
                },
            ) ==> if requested_at_unix == 0 {
                r matches Err(e) && e matches ContentRetrievalError::EmptyField(f) && f@
                    == "requested_at_unix"@
            } else {
                r matches Ok(q) && q.cid@ == cid@ && q.requester@ == requester@ && q.scope == scope
                    && q.requested_at_unix == requested_at_unix
            },
    {
        if is_blank(cid) {
            return Err(ContentRetrievalError::EmptyField("cid"));
        }
        validate_did(requester)?;
        match &scope {
            ContentRetrievalScope::Channel(v) => {
                if is_blank(v.as_str()) {
                    return Err(ContentRetrievalError::EmptyField("channel_id"));
                }
            },
            ContentRetrievalScope::Task(v) => {
                if is_blank(v.as_str()) {
                    return Err(ContentRetrievalError::EmptyField("task_id"));
                }
            },
        }
        if requested_at_unix == 0 {
            return Err(ContentRetrievalError::EmptyField("requested_at_unix"));
        }
        Ok(ContentRetrievalRequest {
            cid: cid.to_owned(),
            requester: requester.to_owned(),
            scope,
            requested_at_unix,
        })
    }
}

/// The cache key of a request: `requester|scope|cid`, the scope written as
/// `channel:<id>` or `task:<id>`.
pub fn cache_key(request: &ContentRetrievalRequest) -> (k: String)
    ensures
        k@ == cache_key_text(*request),
{
    let scope = match &request.scope {
        ContentRetrievalScope::Channel(v) => concat("channel:", v.as_str()),
        ContentRetrievalScope::Task(v) => concat("task:", v.as_str()),
    };
    let k = concat(request.requester.as_str(), "|");
    let k = concat(k.as_str(), scope.as_str());
    let k = concat(k.as_str(), "|");
    concat(k.as_str(), request.cid.as_str())
}

struct CachedContent {
    cid: String,
    media_type: String,
    payload: Vec<u8>,
    expires_at_unix: u64,
}

spec fn cached_model(c: CachedContent) -> CacheEntryModel {
    CacheEntryModel {
        cid: c.cid@,
        media_type: c.media_type@,
        payload: c.payload@,
        expires_at_unix: c.expires_at_unix,
    }
}

fn copy_bytes(v: &Vec<u8>) -> (r: Vec<u8>)
    ensures
        r@ == v@,
{
    let mut r: Vec<u8> = Vec::new();
    let mut i: usize = 0;
    while i < v.len()
        invariant
            i <= v@.len(),
            r@ == v@.take(i as int),
        decreases v@.len() - i,
    {
        r.push(v[i]);
        proof {
            assert(r@ =~= v@.take(i + 1));
        }
        i = i + 1;
    }
    assert(v@.take(i as int) =~= v@);
    r
}

fn copy_cached(c: &CachedContent) -> (r: CachedContent)
    ensures
        cached_model(r) == cached_model(*c),
{
    CachedContent {
        cid: c.cid.clone(),
        media_type: c.media_type.clone(),
        payload: copy_bytes(&c.payload),
        expires_at_unix: c.expires_at_unix,
    }
}

fn copy_event(e: &ContentRetrievalAuditEvent) -> (r: ContentRetrievalAuditEvent)
    ensures
        r == *e,
{
    ContentRetrievalAuditEvent {
        cid: e.cid.clone(),
        requester: e.requester.clone(),
        scope: copy_scope(&e.scope),
        requested_at_unix: e.requested_at_unix,
        outcome: e.outcome,
        cache_hit: e.cache_hit,
    }
}

fn event_of(request: &ContentRetrievalRequest, outcome: ContentRetrievalOutcome, cache_hit: bool) -> (e:
    ContentRetrievalAuditEvent)
    ensures
        event_model(e) == event_for(*request, outcome, cache_hit),
{
    ContentRetrievalAuditEvent {
        cid: request.cid.clone(),
        requester: request.requester.clone(),
        scope: copy_scope(&request.scope),
        requested_at_unix: request.requested_at_unix,
        outcome,
        cache_hit,
    }
}

/// The channel engine handed in, as values.
pub open spec fn engine_view(o: Option<&ChannelPermissionEngine>) -> Option<
    Map<Seq<char>, crate::channel_policies::ChannelModel>,
> {
    match o {
        Some(e) => Some(e@),
        None => None,
    }
}

/// Retrieval engine implementing scope-based authorization and cache behavior.
pub struct ContentRetrievalEngine {
    config: ContentRetrievalConfig,
    task_read_allowlist: StrMap<StrMap<()>>,
    cache: StrMap<CachedContent>,
    audit_events: Vec<ContentRetrievalAuditEvent>,
}

fn copy_names(s: &StrMap<()>) -> (r: StrMap<()>)
    requires
        s.wf(),
    ensures
        r.wf(),
        r.map().dom() == s.map().dom(),
{
    let names = s.keys_vec();
    proof {
        s.lemma_keys_to_set();
    }
    crate::strmap::str_set_from(&names)
}

impl ContentRetrievalEngine {
    #[verifier::type_invariant]
    closed spec fn inv(&self) -> bool {
        &&& self.task_read_allowlist.wf()
        &&& forall|k: Seq<char>| #[trigger]
            self.task_read_allowlist.map().dom().contains(k) ==> self.task_read_allowlist.map()[k].wf()
        &&& self.cache.wf()
        &&& forall|k: Seq<char>| #[trigger]
            self.cache.map().dom().contains(k) ==> key_names_cid(k, self.cache.map()[k].cid@)
    }

    /// Requesters allowed to read, by task id.
    pub closed spec fn allow(&self) -> Map<Seq<char>, Set<Seq<char>>> {
        self.task_read_allowlist.map().map_values(|s: StrMap<()>| s.map().dom())
    }

    /// Cached answers, by cache key.
    pub closed spec fn cached(&self) -> Map<Seq<char>, CacheEntryModel> {
        self.cache.map().map_values(|c: CachedContent| cached_model(c))
    }

    /// Audit events, oldest first.
    pub closed spec fn events(&self) -> Seq<AuditEventModel> {
        self.audit_events@.map_values(|e: ContentRetrievalAuditEvent| event_model(e))
    }

    /// Cache lifetime of an answer.
    pub closed spec fn ttl(&self) -> u64 {
        self.config.cache_ttl_secs
    }

    /// Creates a retrieval engine with no grants, cache or events.
    pub fn new(config: ContentRetrievalConfig) -> (e: Self)
        ensures
            e.allow() == Map::<Seq<char>, Set<Seq<char>>>::empty(),
            e.cached() == Map::<Seq<char>, CacheEntryModel>::empty(),
            e.events() == Seq::<AuditEventModel>::empty(),
            e.ttl() == config.cache_ttl_secs,
    {
        let e = ContentRetrievalEngine {
            config,
            task_read_allowlist: StrMap::new(),
            cache: StrMap::new(),
            audit_events: Vec::new(),
        };
        assert(e.allow() =~= Map::<Seq<char>, Set<Seq<char>>>::empty());
        assert(e.cached() =~= Map::<Seq<char>, CacheEntryModel>::empty());
        assert(e.events() =~= Seq::<AuditEventModel>::empty());
        e
    }

    /// Grants task-scoped read permission to a requester DID.
    pub fn grant_task_read(&mut self, task_id: &str, requester: &str) -> (r: Result<(), ContentRetrievalError>)
        ensures
            final(self).cached() == old(self).cached(),
            final(self).events() == old(self).events(),
            final(self).ttl() == old(self).ttl(),
            is_blank_seq(task_id@) ==> (r matches Err(e) && e matches ContentRetrievalError::EmptyField(f)
                && f@ == "task_id"@ && final(self).allow() == old(self).allow()),
            !is_blank_seq(task_id@) && !agent_did_valid(requester@) ==> (r matches Err(e)
                && e matches ContentRetrievalError::InvalidDid(t) && t@ == agent_did_error_text(requester@)
                && final(self).allow() == old(self).allow()),
            !is_blank_seq(task_id@) && agent_did_valid(requester@) ==> (r is Ok && final(self).allow()
                == with_task_reader(old(self).allow(), task_id@, requester@)),
    {
        proof {
            use_type_invariant(&*self);
            self.task_read_allowlist.lemma_well_formed();
        }
        if is_blank(task_id) {
            return Err(ContentRetrievalError::EmptyField("task_id"));
        }
        validate_did(requester)?;
        let ghost old_allow = self.allow();
        let ghost old_map = self.task_read_allowlist.map();
        let mut set = match self.task_read_allowlist.find(task_id) {
            Some(i) => {
                proof {
                    assert(self.task_read_allowlist.map().dom().contains(
                        self.task_read_allowlist.pairs()[i as int].0,
                    ));
                }
                copy_names(self.task_read_allowlist.value_at(i))
            },
            None => StrMap::new(),
        };
        set.insert(requester.to_owned(), ());
        let ghost new_set = set.map().dom();
        let mut lists: StrMap<StrMap<()>> = StrMap::new();
        std::mem::swap(&mut lists, &mut self.task_read_allowlist);
        lists.insert(task_id.to_owned(), set);
        proof {
            assert forall|k: Seq<char>| #[trigger] lists.map().dom().contains(k) implies lists.map()[k].wf() by {
                if k != task_id@ {
                    assert(old_map.dom().contains(k));
                }
            }
        }
        self.task_read_allowlist = lists;
        proof {
            assert(new_set =~= if old_allow.dom().contains(task_id@) {
                old_allow[task_id@]
            } else {
                Set::<Seq<char>>::empty()
            }.insert(requester@));
            assert(self.allow() =~= old_allow.insert(task_id@, new_set));
        }
        Ok(())
    }

    /// Drops every cached answer for `cid`.
    pub fn invalidate_cache_for_cid(&mut self, cid: &str)
        ensures
            final(self).allow() == old(self).allow(),
            final(self).events() == old(self).events(),
            final(self).ttl() == old(self).ttl(),
            final(self).cached().dom() == old(self).cached().dom().filter(
                |k: Seq<char>| old(self).cached()[k].cid != cid@,
            ),
            forall|k: Seq<char>| #[trigger] final(self).cached().dom().contains(k) ==> final(self).cached()[k]
                == old(self).cached()[k],
            bar_free(cid@) ==> forall|q: ContentRetrievalRequest|
                q.cid@ == cid@ ==> !#[trigger] final(self).cached().dom().contains(cache_key_text(q)),
    {
        proof {
            use_type_invariant(&*self);
            self.cache.lemma_well_formed();
        }
        let ghost old_cached = self.cached();
        let ghost old_pairs = self.cache.pairs();
        let mut kept: StrMap<CachedContent> = StrMap::new();
        let n = self.cache.len();
        let mut i: usize = 0;
        while i < n
            invariant
                self.cache.wf(),
                kept.wf(),
                n == self.cache.pairs().len(),
                old_pairs == self.cache.pairs(),
                old_cached == self.cached(),
                i <= n,
                forall|j: int|
                    0 <= j < self.cache.pairs().len() ==> #[trigger] self.cache.map().dom().contains(
                        self.cache.pairs()[j].0,
                    ) && self.cache.map()[self.cache.pairs()[j].0] == self.cache.pairs()[j].1,
                forall|k: Seq<char>| #[trigger] kept.map().dom().contains(k) <==> (exists|j: int|
                    0 <= j < i && old_pairs[j].0 == k) && old_cached[k].cid != cid@,
                forall|k: Seq<char>| #[trigger] kept.map().dom().contains(k) ==> cached_model(kept.map()[k])
                    == old_cached[k],
            decreases n - i,
        {
            let key = self.cache.key_at(i);
            let entry = self.cache.value_at(i);
            proof {
                assert(self.cache.map().dom().contains(old_pairs[i as int].0));
            }
            if !str_eq(entry.cid.as_str(), cid) {
                kept.insert(key.clone(), copy_cached(entry));
            }
            proof {
                assert forall|k: Seq<char>| #[trigger] kept.map().dom().contains(k) <==> (exists|j: int|
                    0 <= j < i + 1 && old_pairs[j].0 == k) && old_cached[k].cid != cid@ by {
                    if exists|j: int| 0 <= j < i + 1 && old_pairs[j].0 == k {
                        let j = choose|j: int| 0 <= j < i + 1 && old_pairs[j].0 == k;
                        if j < i {
                        }
                    }
                }
            }
            i = i + 1;
        }
        let mut replaced = kept;
        std::mem::swap(&mut replaced, &mut self.cache);
        proof {
            let nc = self.cached();
            assert forall|k: Seq<char>| nc.dom().contains(k) <==> old_cached.dom().filter(
                |k: Seq<char>| old_cached[k].cid != cid@,
            ).contains(k) by {
                if old_cached.dom().contains(k) {
                    let j = choose|j: int| 0 <= j < old_pairs.len() && old_pairs[j].0 == k;
                    assert(old_pairs[j].0 == k);
                }
            }
            assert(nc.dom() =~= old_cached.dom().filter(|k: Seq<char>| old_cached[k].cid != cid@));
            use_type_invariant(&*self);
            if bar_free(cid@) {
                assert forall|q: ContentRetrievalRequest| q.cid@ == cid@ implies !#[trigger] nc.dom().contains(
                    cache_key_text(q),
                ) by {
                    let k = cache_key_text(q);
                    if nc.dom().contains(k) {
                        lemma_cache_key_names_cid(q);
                        lemma_key_names_one_cid(k, cid@, self.cache.map()[k].cid@);
                    }
                }
            }
        }
    }

    /// Returns retrieval audit events accumulated by this engine, oldest first.
    pub fn audit_events(&self) -> (r: Vec<ContentRetrievalAuditEvent>)
        ensures
            r@.map_values(|e: ContentRetrievalAuditEvent| event_model(e)) == self.events(),
    {
        let mut r: Vec<ContentRetrievalAuditEvent> = Vec::new();
        let mut i: usize = 0;
        while i < self.audit_events.len()
            invariant
                i <= self.audit_events@.len(),
                r@ == self.audit_events@.take(i as int),
            decreases self.audit_events@.len() - i,
        {
            r.push(copy_event(&self.audit_events[i]));
            proof {
                assert(r@ =~= self.audit_events@.take(i + 1));
            }
            i = i + 1;
        }
        proof {
            assert(self.audit_events@.take(i as int) =~= self.audit_events@);
            assert(r@.map_values(|e: ContentRetrievalAuditEvent| event_model(e)) =~= self.events());
        }
        r
    }

    fn record_event(&mut self, event: ContentRetrievalAuditEvent)
        ensures
            final(self).allow() == old(self).allow(),
            final(self).cached() == old(self).cached(),
            final(self).ttl() == old(self).ttl(),
            final(self).events() == old(self).events().push(event_model(event)),
    {
        proof {
            use_type_invariant(&*self);
        }
        let ghost before = self.events();
        let mut events: Vec<ContentRetrievalAuditEvent> = Vec::new();
        std::mem::swap(&mut events, &mut self.audit_events);
        events.push(event);
        self.audit_events = events;
        proof {
            assert(self.events() =~= before.push(event_model(event)));
        }
    }
}

impl ContentRetrievalEngine {
    fn authorize(&self, request: &ContentRetrievalRequest, channel_permissions: Option<&ChannelPermissionEngine>) -> (r:
        Result<(), ContentRetrievalError>)
        ensures
            match denial(self.allow(), *request, engine_view(channel_permissions)) {
                None => r is Ok,
                Some(d) => r matches Err(e) && reports_denial(e, d, *request),
            },
    {
        proof {
            use_type_invariant(self);
            self.task_read_allowlist.lemma_well_formed();
        }
        match &request.scope {
            ContentRetrievalScope::Task(task_id) => {
                let allowed = match self.task_read_allowlist.find(task_id.as_str()) {
                    Some(i) => {
                        proof {
                            assert(self.task_read_allowlist.map().dom().contains(
                                self.task_read_allowlist.pairs()[i as int].0,
                            ));
                        }
                        self.task_read_allowlist.value_at(i).contains(request.requester.as_str())
                    },
                    None => false,
                };
                if !allowed {
                    return Err(
                        ContentRetrievalError::Unauthorized {
                            requester: request.requester.clone(),
                            scope: copy_scope(&request.scope),
                        },
                    );
                }
                Ok(())
            },
            ContentRetrievalScope::Channel(channel_id) => {
                match channel_permissions {
                    None => Err(ContentRetrievalError::MissingChannelPermissions(channel_id.clone())),
                    Some(engine) => match engine.authorize(
                        channel_id.as_str(),
                        request.requester.as_str(),
                        ChannelAction::Read,
                    ) {
                        Ok(()) => Ok(()),
                        Err(e) => Err(ContentRetrievalError::ChannelPolicy(e)),
                    },
                }
            },
        }
    }

    /// Caches an answer read from storage and records the retrieval.
    fn store_fetched(&mut self, request: &ContentRetrievalRequest, key: String, object: ContentObject) -> (res:
        ContentRetrievalResult)
        requires
            key@ == cache_key_text(*request),
            object.cid@ == request.cid@,
            bar_free(request.cid@),
        ensures
            !res.from_cache,
            res.cid@ == object.cid@,
            res.media_type@ == object.media_type@,
            res.payload@ == object.payload@,
            final(self).allow() == old(self).allow(),
            final(self).ttl() == old(self).ttl(),
            final(self).cached() == old(self).cached().insert(
                cache_key_text(*request),
                CacheEntryModel {
                    cid: object.cid@,
                    media_type: object.media_type@,
                    payload: object.payload@,
                    expires_at_unix: expiry(request.requested_at_unix, old(self).ttl()),
                },
            ),
            final(self).events() == old(self).events().push(
                event_for(*request, ContentRetrievalOutcome::Allowed, false),
            ),
    {
        proof {
            use_type_invariant(&*self);
        }
        let expires_at_unix = request.requested_at_unix.saturating_add(self.config.cache_ttl_secs);
        let entry = CachedContent {
            cid: object.cid.clone(),
            media_type: object.media_type.clone(),
            payload: copy_bytes(&object.payload),
            expires_at_unix,
        };
        let ghost old_cached = self.cached();
        let ghost em = cached_model(entry);
        let mut cache: StrMap<CachedContent> = StrMap::new();
        std::mem::swap(&mut cache, &mut self.cache);
        proof {
            lemma_cache_key_names_cid(*request);
        }
        cache.insert(key, entry);
        self.cache = cache;
        proof {
            assert(self.cached() =~= old_cached.insert(cache_key_text(*request), em));
        }
        self.record_event(event_of(request, ContentRetrievalOutcome::Allowed, false));
        ContentRetrievalResult {
            cid: object.cid,
            media_type: object.media_type,
            payload: object.payload,
            from_cache: false,
        }
    }

    /// Retrieves content for an authorized request: a denial is recorded and
    /// returned; a fresh cached answer (request time not past its expiry) is
    /// returned as such; otherwise storage is asked about the request's CID
    /// (`verify`, then `get`): its failure is returned as `Storage` carrying
    /// the adapter's error, and the stored object is returned and cached
    /// until the request time plus the TTL.
    pub fn retrieve<A: ContentStorageAdapter>(
        &mut self,
        adapter: &A,
        request: &ContentRetrievalRequest,
        channel_permissions: Option<&ChannelPermissionEngine>,
    ) -> (r: Result<ContentRetrievalResult, ContentRetrievalError>)
        ensures
            final(self).allow() == old(self).allow(),
            final(self).ttl() == old(self).ttl(),
            ({
                let key = cache_key_text(*request);
                let hit = old(self).cached().dom().contains(key) && request.requested_at_unix
                    <= old(self).cached()[key].expires_at_unix;
                let stored = adapter.stored();
                match denial(old(self).allow(), *request, engine_view(channel_permissions)) {
                    Some(d) => r matches Err(e) && reports_denial(e, d, *request) && final(self).cached()
                        == old(self).cached() && final(self).events() == old(self).events().push(
                        event_for(*request, ContentRetrievalOutcome::Denied, false),
                    ),
                    None => if hit {
                        r matches Ok(res) && res.from_cache && res.cid@ == old(self).cached()[key].cid
                            && res.media_type@ == old(self).cached()[key].media_type && res.payload@
                            == old(self).cached()[key].payload && final(self).cached() == old(
                            self,
                        ).cached() && final(self).events() == old(self).events().push(
                            event_for(*request, ContentRetrievalOutcome::Allowed, true),
                        )
                    } else if verify_ok(stored, request.cid@) {
                        r matches Ok(res) && !res.from_cache && res.cid@ == request.cid@
                            && res.media_type@ == stored[request.cid@].0 && res.payload@
                            == stored[request.cid@].1 && final(self).cached() == old(
                            self,
                        ).cached().insert(
                            key,
                            CacheEntryModel {
                                cid: request.cid@,
                                media_type: stored[request.cid@].0,
                                payload: stored[request.cid@].1,
                                expires_at_unix: expiry(request.requested_at_unix, old(self).ttl()),
                            },
                        ) && final(self).events() == old(self).events().push(
                            event_for(*request, ContentRetrievalOutcome::Allowed, false),
                        )
                    } else {
                        r matches Err(e) && e matches ContentRetrievalError::Storage(se)
                            && verify_error(se, stored, request.cid@) && final(self).cached() == old(
                            self,
                        ).cached() && final(self).events() == old(self).events()
                    },
                }
            }),
    {
        proof {
            use_type_invariant(&*self);
            self.cache.lemma_well_formed();
        }
        match self.authorize(request, channel_permissions) {
            Ok(()) => {},
            Err(error) => {
                self.record_event(event_of(request, ContentRetrievalOutcome::Denied, false));
                return Err(error);
            },
        }
        let key = cache_key(request);
        match self.cache.find(key.as_str()) {
            Some(i) => {
                let cached = self.cache.value_at(i);
                proof {
                    assert(self.cache.map().dom().contains(self.cache.pairs()[i as int].0));
                }
                if request.requested_at_unix <= cached.expires_at_unix {
                    let result = ContentRetrievalResult {
                        cid: cached.cid.clone(),
                        media_type: cached.media_type.clone(),
                        payload: copy_bytes(&cached.payload),
                        from_cache: true,
                    };
                    self.record_event(event_of(request, ContentRetrievalOutcome::Allowed, true));
                    return Ok(result);
                }
            },
            None => {},
        }
        match adapter.verify(request.cid.as_str()) {
            Ok(()) => {},
            Err(e) => {
                return Err(ContentRetrievalError::Storage(e));
            },
        }
        let object = match adapter.get(request.cid.as_str()) {
            Ok(o) => o,
            Err(e) => {
                return Err(ContentRetrievalError::Storage(e));
            },
        };
        proof {
            lemma_cid_bar_free(request.cid@);
        }
        Ok(self.store_fetched(request, key, object))
    }
}

/// A grant of task reads is never taken back by a later grant, and the
/// granted requester may read the task from then on.
pub proof fn lemma_task_grant_persists(
    allow: Map<Seq<char>, Set<Seq<char>>>,
    task: Seq<char>,
    requester: Seq<char>,
    other_task: Seq<char>,
    other_requester: Seq<char>,
)
    requires
        may_read_task(allow, task, requester),
    ensures
        may_read_task(with_task_reader(allow, task, requester), task, requester),
        may_read_task(with_task_reader(allow, other_task, other_requester), task, requester),
{
}

/// A task-scoped request by a requester granted reads of that task is never
/// denied, whatever channel engine is handed in.
pub proof fn lemma_granted_reader_not_denied(
    allow: Map<Seq<char>, Set<Seq<char>>>,
    request: ContentRetrievalRequest,
    channels: Option<Map<Seq<char>, crate::channel_policies::ChannelModel>>,
)
    requires
        scope_model(request.scope) matches ScopeModel::Task(t) && may_read_task(allow, t, request.requester@),
    ensures
        denial(allow, request, channels) is None,
{
}

} // verus!
