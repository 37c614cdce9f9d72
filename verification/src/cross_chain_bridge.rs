//! Cross-chain ingress/egress bridge routing and approval contracts.
//!
//! The engine validates listener and approver identities, enforces the
//! configured route maps of the Ethereum and Solana lanes, and gates
//! outbound dispatch on an approval quorum.
use vstd::prelude::*;
use crate::did::{agent_did_error_text, agent_did_valid, AgentDid};
use crate::strmap::{
    keyed_pairs, least_key_where, pairs_to_map, str_map_from_pairs, str_set_from, StrMap,
};
use crate::text::{dec_seq, dec_string, is_blank, is_blank_seq, lex_le, str_eq, str_views, strictly_sorted};

verus! {

pub const CROSS_CHAIN_INVALID_BRIDGE_AGENT_DID_REASON_CODE: &'static str =
    "cross_chain_bridge_invalid_bridge_agent_did";
pub const CROSS_CHAIN_INVALID_LISTENER_DID_REASON_CODE: &'static str =
    "cross_chain_bridge_invalid_listener_did";
pub const CROSS_CHAIN_INVALID_APPROVER_DID_REASON_CODE: &'static str =
    "cross_chain_bridge_invalid_approver_did";
pub const CROSS_CHAIN_INVALID_ROUTE_TARGET_DID_REASON_CODE: &'static str =
    "cross_chain_bridge_invalid_route_target_did";
pub const CROSS_CHAIN_INVALID_INBOUND_LISTENER_DID_REASON_CODE: &'static str =
    "cross_chain_bridge_invalid_inbound_listener_did";
pub const CROSS_CHAIN_INVALID_INBOUND_TARGET_DID_REASON_CODE: &'static str =
    "cross_chain_bridge_invalid_inbound_target_did";
pub const CROSS_CHAIN_INVALID_OUTBOUND_APPROVER_DID_REASON_CODE: &'static str =
    "cross_chain_bridge_invalid_outbound_approver_did";

/// Supported external networks for cross-chain bridge routes.
#[derive(Debug, Clone, Copy, PartialEq, Eq, Structural, PartialOrd, Ord, Hash)]
pub enum CrossChainNetwork {
    /// Ethereum bridge lane.
    Ethereum,
    /// Solana bridge lane.
    Solana,
}

impl CrossChainNetwork {
    /// Lane label used in messages.
    pub fn label(self) -> (s: &'static str)
        ensures
            s@ == network_label(self),
    {
        match self {
            CrossChainNetwork::Ethereum => "ethereum",
            CrossChainNetwork::Solana => "solana",
        }
    }
}

pub open spec fn network_label(n: CrossChainNetwork) -> Seq<char> {
    match n {
        CrossChainNetwork::Ethereum => "ethereum"@,
        CrossChainNetwork::Solana => "solana"@,
    }
}

/// Static bridge configuration for listener/approver controls and routes.
///
/// The DID lists are sets (order and repeats carry no meaning); each route
/// list maps an external channel id to a target DID, a later pair for the
/// same channel replacing an earlier one.
#[derive(Debug, Clone, PartialEq, Eq)]
pub struct CrossChainBridgeConfig {
    /// DID used as the bridge service identity.
    pub bridge_agent_did: String,
    /// Listener DIDs authorized to submit inbound observations.
    pub authorized_listener_dids: Vec<String>,
    /// Approver DIDs authorized for outbound dispatch quorum.
    pub authorized_approver_dids: Vec<String>,
    /// Required unique approvals before dispatching outbound envelopes.
    pub required_approvals: usize,
    /// Routes from external Ethereum channel id to target DID.
    pub ethereum_routes: Vec<(String, String)>,
    /// Routes from external Solana channel id to target DID.
    pub solana_routes: Vec<(String, String)>,
}

/// Inbound bridge observation submitted by a listener: the routing fields of
/// the inbound envelope.
#[derive(Debug, Clone, PartialEq, Eq)]
pub struct CrossChainInboundRequest {
    /// Listener DID that observed the inbound event.
    pub listener_did: String,
    /// Unix timestamp when the event was observed.
    pub observed_at_unix: u64,
    /// External network lane used for routing.
    pub chain: CrossChainNetwork,
    /// External channel the inbound envelope arrived on.
    pub external_channel_id: String,
    /// Target agent DID the inbound envelope names.
    pub target_agent_did: String,
}

/// Approval quorum material for an outbound dispatch request.
#[derive(Debug, Clone, PartialEq, Eq)]
pub struct CrossChainOutboundApproval {
    /// External network lane being dispatched.
    pub chain: CrossChainNetwork,
    /// Outbound request identifier.
    pub request_id: String,
    /// Required approval threshold for dispatch.
    pub required_approvals: usize,
    /// Unique approver DIDs that approved this dispatch, in string order.
    pub approved_by: Vec<String>,
}

/// Error surface for cross-chain bridge configuration and processing.
#[derive(Debug, Clone, PartialEq, Eq)]
pub enum CrossChainBridgeError {
    /// Required field was empty.
    EmptyField(&'static str),
    /// DID value failed validation.
    InvalidDid { field: &'static str, reason_code: &'static str, detail: String },
    /// Required approvals value was invalid for configured approver set.
    InvalidRequiredApprovals { required: usize, approver_count: usize },
    /// Listener DID is not authorized.
    UnauthorizedListener(String),
    /// Approver DID is not authorized.
    UnauthorizedApprover(String),
    /// Duplicate approval from the same approver.
    DuplicateApproval(String),
    /// Provided approvals are below quorum threshold.
    InsufficientApprovals { required: usize, provided: usize },
    /// Route channel id was not found for the selected chain.
    UnknownRouteChannel { chain: CrossChainNetwork, channel_id: String },
    /// Route target DID did not match inbound envelope target DID.
    RouteTargetMismatch {
        chain: CrossChainNetwork,
        external_channel_id: String,
        expected_target_did: String,
        provided_target_did: String,
    },
    /// Downstream bridge adapter error.
    Bridge(String),
}

/// Stable reason marker of an error.
pub open spec fn bridge_reason_code(e: CrossChainBridgeError) -> Seq<char> {
    match e {
        CrossChainBridgeError::EmptyField(_) => "cross_chain_bridge_empty_field"@,
        CrossChainBridgeError::InvalidDid { reason_code, .. } => reason_code@,
        CrossChainBridgeError::InvalidRequiredApprovals { .. } => "cross_chain_bridge_invalid_required_approvals"@,
        CrossChainBridgeError::UnauthorizedListener(_) => "cross_chain_bridge_unauthorized_listener"@,
        CrossChainBridgeError::UnauthorizedApprover(_) => "cross_chain_bridge_unauthorized_approver"@,
        CrossChainBridgeError::DuplicateApproval(_) => "cross_chain_bridge_duplicate_approval"@,
        CrossChainBridgeError::InsufficientApprovals { .. } => "cross_chain_bridge_insufficient_approvals"@,
        CrossChainBridgeError::UnknownRouteChannel { .. } => "cross_chain_bridge_unknown_route_channel"@,
        CrossChainBridgeError::RouteTargetMismatch { .. } => "cross_chain_bridge_route_target_mismatch"@,
        CrossChainBridgeError::Bridge(_) => "cross_chain_bridge_adapter_error"@,
    }
}

impl CrossChainBridgeError {
    /// Stable reason taxonomy for cross-chain bridge errors.
    pub fn reason_code(&self) -> (r: &'static str)
        ensures
            r@ == bridge_reason_code(*self),
    {
        match self {
            CrossChainBridgeError::EmptyField(_) => "cross_chain_bridge_empty_field",
            CrossChainBridgeError::InvalidDid { reason_code, .. } => reason_code,
            CrossChainBridgeError::InvalidRequiredApprovals { .. } => "cross_chain_bridge_invalid_required_approvals",
            CrossChainBridgeError::UnauthorizedListener(_) => "cross_chain_bridge_unauthorized_listener",
            CrossChainBridgeError::UnauthorizedApprover(_) => "cross_chain_bridge_unauthorized_approver",
            CrossChainBridgeError::DuplicateApproval(_) => "cross_chain_bridge_duplicate_approval",
            CrossChainBridgeError::InsufficientApprovals { .. } => "cross_chain_bridge_insufficient_approvals",
            CrossChainBridgeError::UnknownRouteChannel { .. } => "cross_chain_bridge_unknown_route_channel",
            CrossChainBridgeError::RouteTargetMismatch { .. } => "cross_chain_bridge_route_target_mismatch",
            CrossChainBridgeError::Bridge(_) => "cross_chain_bridge_adapter_error",
        }
    }
}

// ---------------------------------------------------------------------------
// Mathematical model
// ---------------------------------------------------------------------------

/// Why a bridge request or configuration is refused.
pub enum BridgeFault {
    EmptyField(Seq<char>),
    InvalidDid(Seq<char>, Seq<char>, Seq<char>),
    InvalidRequiredApprovals(usize, nat),
    UnauthorizedListener(Seq<char>),
    UnauthorizedApprover(Seq<char>),
    DuplicateApproval(Seq<char>),
    InsufficientApprovals(usize, nat),
    UnknownRouteChannel(CrossChainNetwork, Seq<char>),
    RouteTargetMismatch(CrossChainNetwork, Seq<char>, Seq<char>, Seq<char>),
}

pub open spec fn reports_bridge_fault(e: CrossChainBridgeError, f: BridgeFault) -> bool {
    match f {
        BridgeFault::EmptyField(n) => e matches CrossChainBridgeError::EmptyField(x) && x@ == n,
        BridgeFault::InvalidDid(field, reason, detail) => e matches CrossChainBridgeError::InvalidDid {
            field: x,
            reason_code: y,
            detail: z,
        } && x@ == field && y@ == reason && z@ == detail,
        BridgeFault::InvalidRequiredApprovals(r, c) => e matches CrossChainBridgeError::InvalidRequiredApprovals {
            required: x,
            approver_count: y,
        } && x == r && y == c,
        BridgeFault::UnauthorizedListener(d) => e matches CrossChainBridgeError::UnauthorizedListener(x)
            && x@ == d,
        BridgeFault::UnauthorizedApprover(d) => e matches CrossChainBridgeError::UnauthorizedApprover(x)
            && x@ == d,
        BridgeFault::DuplicateApproval(d) => e matches CrossChainBridgeError::DuplicateApproval(x)
            && x@ == d,
        BridgeFault::InsufficientApprovals(r, p) => e matches CrossChainBridgeError::InsufficientApprovals {
            required: x,
            provided: y,
        } && x == r && y == p,
        BridgeFault::UnknownRouteChannel(c, id) => e matches CrossChainBridgeError::UnknownRouteChannel {
            chain: x,
            channel_id: y,
        } && x == c && y@ == id,
        BridgeFault::RouteTargetMismatch(c, id, expected, provided) => e matches CrossChainBridgeError::RouteTargetMismatch {
            chain: w,
            external_channel_id: x,
            expected_target_did: y,
            provided_target_did: z,
        } && w == c && x@ == id && y@ == expected && z@ == provided,
    }
}

/// The refusal of `value` as a DID named `field`, if it is not one.
pub open spec fn did_fault(value: Seq<char>, field: Seq<char>, reason: Seq<char>) -> Option<BridgeFault> {
    if agent_did_valid(value) {
        None
    } else {
        Some(BridgeFault::InvalidDid(field, reason, agent_did_error_text(value)))
    }
}

/// A set as a map to unit values.
pub open spec fn unit_map(s: Set<Seq<char>>) -> Map<Seq<char>, ()> {
    Map::new(|k: Seq<char>| s.contains(k), |k: Seq<char>| ())
}

pub open spec fn did_bad() -> spec_fn(Seq<char>, ()) -> bool {
    |k: Seq<char>, u: ()| !agent_did_valid(k)
}

pub open spec fn route_bad() -> spec_fn(Seq<char>, String) -> bool {
    |k: Seq<char>, t: String| is_blank_seq(k) || !agent_did_valid(t@)
}

/// The refusal of the first (in string order) invalid DID of `s`.
pub open spec fn set_fault(s: Set<Seq<char>>, field: Seq<char>, reason: Seq<char>) -> Option<BridgeFault> {
    match least_key_where(unit_map(s), did_bad()) {
        Some(k) => Some(BridgeFault::InvalidDid(field, reason, agent_did_error_text(k))),
        None => None,
    }
}

/// The refusal of the first (in channel order) bad route of `m`.
pub open spec fn routes_fault(
    m: Map<Seq<char>, String>,
    channel_field: Seq<char>,
    target_field: Seq<char>,
) -> Option<BridgeFault> {
    match least_key_where(m, route_bad()) {
        Some(k) => if is_blank_seq(k) {
            Some(BridgeFault::EmptyField(channel_field))
        } else {
            Some(
                BridgeFault::InvalidDid(
                    target_field,
                    "cross_chain_bridge_invalid_route_target_did"@,
                    agent_did_error_text(m[k]@),
                ),
            )
        },
        None => None,
    }
}

pub open spec fn did_set(v: Seq<String>) -> Set<Seq<char>> {
    str_views(v).to_set()
}

/// Routes as a map from channel id to target DID.
pub open spec fn route_map(v: Seq<(String, String)>) -> Map<Seq<char>, String> {
    pairs_to_map(keyed_pairs(v))
}

/// The first refusal of a configuration, in the order the checks are made.
pub open spec fn config_fault(c: CrossChainBridgeConfig) -> Option<BridgeFault> {
    let listeners = did_set(c.authorized_listener_dids@);
    let approvers = did_set(c.authorized_approver_dids@);
    if did_fault(c.bridge_agent_did@, "bridge_agent_did"@, "cross_chain_bridge_invalid_bridge_agent_did"@) is Some {
        did_fault(c.bridge_agent_did@, "bridge_agent_did"@, "cross_chain_bridge_invalid_bridge_agent_did"@)
    } else if c.authorized_listener_dids@.len() == 0 {
        Some(BridgeFault::EmptyField("authorized_listener_dids"@))
    } else if set_fault(listeners, "authorized_listener_dids[]"@, "cross_chain_bridge_invalid_listener_did"@) is Some {
        set_fault(listeners, "authorized_listener_dids[]"@, "cross_chain_bridge_invalid_listener_did"@)
    } else if c.authorized_approver_dids@.len() == 0 {
        Some(BridgeFault::EmptyField("authorized_approver_dids"@))
    } else if set_fault(approvers, "authorized_approver_dids[]"@, "cross_chain_bridge_invalid_approver_did"@) is Some {
        set_fault(approvers, "authorized_approver_dids[]"@, "cross_chain_bridge_invalid_approver_did"@)
    } else if c.required_approvals == 0 || c.required_approvals > approvers.len() {
        Some(BridgeFault::InvalidRequiredApprovals(c.required_approvals, approvers.len()))
    } else if c.ethereum_routes@.len() == 0 {
        Some(BridgeFault::EmptyField("ethereum_routes"@))
    } else if routes_fault(
        route_map(c.ethereum_routes@),
        "ethereum_routes.channel_id"@,
        "ethereum_routes.target_did"@,
    ) is Some {
        routes_fault(
            route_map(c.ethereum_routes@),
            "ethereum_routes.channel_id"@,
            "ethereum_routes.target_did"@,
        )
    } else if c.solana_routes@.len() == 0 {
        Some(BridgeFault::EmptyField("solana_routes"@))
    } else {
        routes_fault(route_map(c.solana_routes@), "solana_routes.channel_id"@, "solana_routes.target_did"@)
    }
}

// ---------------------------------------------------------------------------
// Validation helpers
// ---------------------------------------------------------------------------

fn validate_non_empty(field: &'static str, value: &str) -> (r: Result<(), CrossChainBridgeError>)
    ensures
        r is Ok <==> !is_blank_seq(value@),
        r matches Err(e) ==> reports_bridge_fault(e, BridgeFault::EmptyField(field@)),
{
    if is_blank(value) {
        return Err(CrossChainBridgeError::EmptyField(field));
    }
    Ok(())
}

fn parse_agent_did(value: &str, field: &'static str, reason_code: &'static str) -> (r: Result<
    (),
    CrossChainBridgeError,
>)
    ensures
        match did_fault(value@, field@, reason_code@) {
            None => r is Ok,
            Some(f) => r matches Err(e) && reports_bridge_fault(e, f),
        },
{
    match AgentDid::parse(value) {
        Ok(_) => Ok(()),
        Err(detail) => Err(CrossChainBridgeError::InvalidDid { field, reason_code, detail }),
    }
}

/// The distinct DIDs of `v` as a sorted set, once each is checked valid;
/// the least invalid one (in string order) is reported.
fn validate_did_set(v: &Vec<String>, field: &'static str, reason_code: &'static str) -> (r: Result<
    StrMap<()>,
    CrossChainBridgeError,
>)
    ensures
        match set_fault(did_set(v@), field@, reason_code@) {
            None => r matches Ok(m) && m.wf() && m.map().dom() == did_set(v@),
            Some(f) => r matches Err(e) && reports_bridge_fault(e, f),
        },
{
    let set = str_set_from(v);
    proof {
        assert(set.map() =~= unit_map(did_set(v@)));
    }
    let n = set.len();
    let mut i: usize = 0;
    while i < n
        invariant
            set.wf(),
            n == set.pairs().len(),
            i <= n,
            set.map() == unit_map(did_set(v@)),
            forall|j: int| 0 <= j < i ==> !did_bad()(#[trigger] set.pairs()[j].0, set.pairs()[j].1),
        decreases n - i,
    {
        let key = set.key_at(i);
        match AgentDid::parse(key.as_str()) {
            Ok(_) => {},
            Err(detail) => {
                proof {
                    set.lemma_least_key_found(i as int, did_bad());
                }
                return Err(CrossChainBridgeError::InvalidDid { field, reason_code, detail });
            },
        }
        i = i + 1;
    }
    proof {
        set.lemma_least_key_none(did_bad());
    }
    Ok(set)
}

/// The routes of `v` as a sorted map, once each is checked; the first bad
/// route in channel order is reported.
fn validate_routes(
    v: &Vec<(String, String)>,
    channel_field: &'static str,
    target_field: &'static str,
) -> (r: Result<StrMap<String>, CrossChainBridgeError>)
    ensures
        match routes_fault(route_map(v@), channel_field@, target_field@) {
            None => r matches Ok(m) && m.wf() && m.map() == route_map(v@),
            Some(f) => r matches Err(e) && reports_bridge_fault(e, f),
        },
{
    let routes = str_map_from_pairs(v);
    let n = routes.len();
    let mut i: usize = 0;
    while i < n
        invariant
            routes.wf(),
            n == routes.pairs().len(),
            i <= n,
            routes.map() == route_map(v@),
            forall|j: int| 0 <= j < i ==> !route_bad()(#[trigger] routes.pairs()[j].0, routes.pairs()[j].1),
        decreases n - i,
    {
        let channel_id = routes.key_at(i);
        let target = routes.value_at(i);
        if is_blank(channel_id.as_str()) {
            proof {
                routes.lemma_least_key_found(i as int, route_bad());
            }
            return Err(CrossChainBridgeError::EmptyField(channel_field));
        }
        match AgentDid::parse(target.as_str()) {
            Ok(_) => {},
            Err(detail) => {
                proof {
                    routes.lemma_least_key_found(i as int, route_bad());
                    routes.lemma_well_formed();
                }
                return Err(
                    CrossChainBridgeError::InvalidDid {
                        field: target_field,
                        reason_code: CROSS_CHAIN_INVALID_ROUTE_TARGET_DID_REASON_CODE,
                        detail,
                    },
                );
            },
        }
        i = i + 1;
    }
    proof {
        routes.lemma_least_key_none(route_bad());
    }
    Ok(routes)
}

// ---------------------------------------------------------------------------
// Engine
// ---------------------------------------------------------------------------

/// Engine holding a validated bridge configuration.
#[derive(Debug, PartialEq, Eq)]
pub struct CrossChainBridgeEngine {
    bridge_agent_did: String,
    listeners: StrMap<()>,
    approvers: StrMap<()>,
    required_approvals: usize,
    ethereum_routes: StrMap<String>,
    solana_routes: StrMap<String>,
}

impl CrossChainBridgeEngine {
    #[verifier::type_invariant]
    closed spec fn inv(&self) -> bool {
        &&& self.listeners.wf()
        &&& self.approvers.wf()
        &&& self.ethereum_routes.wf()
        &&& self.solana_routes.wf()
    }

    /// The bridge's own DID.
    pub closed spec fn bridge_did(&self) -> Seq<char> {
        self.bridge_agent_did@
    }

    /// Authorized listener DIDs.
    pub closed spec fn listener_set(&self) -> Set<Seq<char>> {
        self.listeners.map().dom()
    }

    /// Authorized approver DIDs.
    pub closed spec fn approver_set(&self) -> Set<Seq<char>> {
        self.approvers.map().dom()
    }

    /// Approvals needed for an outbound dispatch.
    pub closed spec fn required(&self) -> usize {
        self.required_approvals
    }

    /// Routes of a lane, from external channel id to target DID.
    pub closed spec fn routes(&self, chain: CrossChainNetwork) -> Map<Seq<char>, String> {
        match chain {
            CrossChainNetwork::Ethereum => self.ethereum_routes.map(),
            CrossChainNetwork::Solana => self.solana_routes.map(),
        }
    }

    /// Constructs a bridge engine from a configuration, checked in this
    /// order: bridge DID, listeners (non-empty, then each DID in string
    /// order), approvers (likewise), the approval threshold (between one and
    /// the number of distinct approvers), then the Ethereum and Solana routes
    /// (non-empty, then each channel in order: its id, then its target DID).
    pub fn new(config: CrossChainBridgeConfig) -> (r: Result<Self, CrossChainBridgeError>)
        ensures
            match config_fault(config) {
                Some(f) => r matches Err(e) && reports_bridge_fault(e, f),
                None => r matches Ok(engine) && engine.bridge_did() == config.bridge_agent_did@
                    && engine.listener_set() == did_set(config.authorized_listener_dids@)
                    && engine.approver_set() == did_set(config.authorized_approver_dids@)
                    && engine.required() == config.required_approvals && engine.routes(
                    CrossChainNetwork::Ethereum,
                ) == route_map(config.ethereum_routes@) && engine.routes(CrossChainNetwork::Solana)
                    == route_map(config.solana_routes@),
            },
    {
        parse_agent_did(
            config.bridge_agent_did.as_str(),
            "bridge_agent_did",
            CROSS_CHAIN_INVALID_BRIDGE_AGENT_DID_REASON_CODE,
        )?;
        if config.authorized_listener_dids.len() == 0 {
            return Err(CrossChainBridgeError::EmptyField("authorized_listener_dids"));
        }
        let listeners = validate_did_set(
            &config.authorized_listener_dids,
            "authorized_listener_dids[]",
            CROSS_CHAIN_INVALID_LISTENER_DID_REASON_CODE,
        )?;
        if config.authorized_approver_dids.len() == 0 {
            return Err(CrossChainBridgeError::EmptyField("authorized_approver_dids"));
        }
        let approvers = validate_did_set(
            &config.authorized_approver_dids,
            "authorized_approver_dids[]",
            CROSS_CHAIN_INVALID_APPROVER_DID_REASON_CODE,
        )?;
        let approver_count = approvers.len();
        proof {
            approvers.lemma_dom_len();
        }
        if config.required_approvals == 0 || config.required_approvals > approver_count {
            return Err(
                CrossChainBridgeError::InvalidRequiredApprovals {
                    required: config.required_approvals,
                    approver_count,
                },
            );
        }
        if config.ethereum_routes.len() == 0 {
            return Err(CrossChainBridgeError::EmptyField("ethereum_routes"));
        }
        let ethereum_routes = validate_routes(
            &config.ethereum_routes,
            "ethereum_routes.channel_id",
            "ethereum_routes.target_did",
        )?;
        if config.solana_routes.len() == 0 {
            return Err(CrossChainBridgeError::EmptyField("solana_routes"));
        }
        let solana_routes = validate_routes(
            &config.solana_routes,
            "solana_routes.channel_id",
            "solana_routes.target_did",
        )?;
        Ok(
            CrossChainBridgeEngine {
                bridge_agent_did: config.bridge_agent_did,
                listeners,
                approvers,
                required_approvals: config.required_approvals,
                ethereum_routes,
                solana_routes,
            },
        )
    }
}

/// The first refusal of an inbound request, in the order the checks are made.
pub open spec fn inbound_fault(
    listeners: Set<Seq<char>>,
    routes: Map<Seq<char>, String>,
    request: CrossChainInboundRequest,
) -> Option<BridgeFault> {
    let listener = request.listener_did@;
    let target = request.target_agent_did@;
    let channel = request.external_channel_id@;
    if did_fault(
        listener,
        "cross_chain_inbound_request.listener_did"@,
        "cross_chain_bridge_invalid_inbound_listener_did"@,
    ) is Some {
        did_fault(
            listener,
            "cross_chain_inbound_request.listener_did"@,
            "cross_chain_bridge_invalid_inbound_listener_did"@,
        )
    } else if did_fault(
        target,
        "cross_chain_inbound_request.inbound.target_agent_did"@,
        "cross_chain_bridge_invalid_inbound_target_did"@,
    ) is Some {
        did_fault(
            target,
            "cross_chain_inbound_request.inbound.target_agent_did"@,
            "cross_chain_bridge_invalid_inbound_target_did"@,
        )
    } else if !listeners.contains(listener) {
        Some(BridgeFault::UnauthorizedListener(listener))
    } else if !routes.dom().contains(channel) {
        Some(BridgeFault::UnknownRouteChannel(request.chain, channel))
    } else if routes[channel]@ != target {
        Some(BridgeFault::RouteTargetMismatch(request.chain, channel, routes[channel]@, target))
    } else {
        None
    }
}

/// The check of the approval at position `i`, given those before it.
pub open spec fn approval_check(approvers: Set<Seq<char>>, s: Seq<Seq<char>>, i: int) -> Option<BridgeFault> {
    if !agent_did_valid(s[i]) {
        Some(
            BridgeFault::InvalidDid(
                "approver_dids[]"@,
                "cross_chain_bridge_invalid_outbound_approver_did"@,
                agent_did_error_text(s[i]),
            ),
        )
    } else if !approvers.contains(s[i]) {
        Some(BridgeFault::UnauthorizedApprover(s[i]))
    } else if exists|j: int| 0 <= j < i && s[j] == s[i] {
        Some(BridgeFault::DuplicateApproval(s[i]))
    } else {
        None
    }
}

/// The first refused approval among the first `n`.
pub open spec fn approvals_scan(approvers: Set<Seq<char>>, s: Seq<Seq<char>>, n: int) -> Option<BridgeFault>
    decreases n,
{
    if n <= 0 {
        None
    } else if approvals_scan(approvers, s, n - 1) is Some {
        approvals_scan(approvers, s, n - 1)
    } else {
        approval_check(approvers, s, n - 1)
    }
}

proof fn lemma_approvals_scan_persists(approvers: Set<Seq<char>>, s: Seq<Seq<char>>, a: int, b: int)
    requires
        0 <= a <= b,
        approvals_scan(approvers, s, a) is Some,
    ensures
        approvals_scan(approvers, s, b) == approvals_scan(approvers, s, a),
    decreases b - a,
{
    if b > a {
        lemma_approvals_scan_persists(approvers, s, a, b - 1);
    }
}

/// The first refusal of an outbound dispatch.
pub open spec fn outbound_fault(
    approvers: Set<Seq<char>>,
    required: usize,
    routes: Map<Seq<char>, String>,
    chain: CrossChainNetwork,
    destination_channel_id: Seq<char>,
    approver_dids: Seq<Seq<char>>,
) -> Option<BridgeFault> {
    if is_blank_seq(destination_channel_id) {
        Some(BridgeFault::EmptyField("bridge_outbound_request.destination_channel_id"@))
    } else if !routes.dom().contains(destination_channel_id) {
        Some(BridgeFault::UnknownRouteChannel(chain, destination_channel_id))
    } else if approvals_scan(approvers, approver_dids, approver_dids.len() as int) is Some {
        approvals_scan(approvers, approver_dids, approver_dids.len() as int)
    } else if approver_dids.len() < required {
        Some(BridgeFault::InsufficientApprovals(required, approver_dids.len()))
    } else {
        None
    }
}

impl CrossChainBridgeEngine {
    fn route_table(&self, chain: CrossChainNetwork) -> (r: &StrMap<String>)
        requires
            self.ethereum_routes.wf(),
            self.solana_routes.wf(),
        ensures
            r.wf(),
            r.map() == self.routes(chain),
    {
        match chain {
            CrossChainNetwork::Ethereum => &self.ethereum_routes,
            CrossChainNetwork::Solana => &self.solana_routes,
        }
    }

    /// Validates an inbound request: both DIDs, the listener's authorization,
    /// the route of its channel on its lane, and the route's target.
    pub fn validate_inbound_request(&self, request: &CrossChainInboundRequest) -> (r: Result<
        (),
        CrossChainBridgeError,
    >)
        ensures
            match inbound_fault(self.listener_set(), self.routes(request.chain), *request) {
                None => r is Ok,
                Some(f) => r matches Err(e) && reports_bridge_fault(e, f),
            },
    {
        proof {
            use_type_invariant(self);
        }
        parse_agent_did(
            request.listener_did.as_str(),
            "cross_chain_inbound_request.listener_did",
            CROSS_CHAIN_INVALID_INBOUND_LISTENER_DID_REASON_CODE,
        )?;
        parse_agent_did(
            request.target_agent_did.as_str(),
            "cross_chain_inbound_request.inbound.target_agent_did",
            CROSS_CHAIN_INVALID_INBOUND_TARGET_DID_REASON_CODE,
        )?;
        if !self.listeners.contains(request.listener_did.as_str()) {
            return Err(CrossChainBridgeError::UnauthorizedListener(request.listener_did.clone()));
        }
        let routes = self.route_table(request.chain);
        let expected = match routes.get(request.external_channel_id.as_str()) {
            Some(t) => t,
            None => {
                return Err(
                    CrossChainBridgeError::UnknownRouteChannel {
                        chain: request.chain,
                        channel_id: request.external_channel_id.clone(),
                    },
                );
            },
        };
        if !str_eq(expected.as_str(), request.target_agent_did.as_str()) {
            return Err(
                CrossChainBridgeError::RouteTargetMismatch {
                    chain: request.chain,
                    external_channel_id: request.external_channel_id.clone(),
                    expected_target_did: expected.clone(),
                    provided_target_did: request.target_agent_did.clone(),
                },
            );
        }
        Ok(())
    }

    /// Validates the destination channel and the approvals of an outbound
    /// dispatch: each approver DID in the given order (valid, authorized,
    /// not repeated), then the quorum.
    pub fn authorize_outbound_dispatch(
        &self,
        chain: CrossChainNetwork,
        request_id: &str,
        destination_channel_id: &str,
        approver_dids: Vec<String>,
    ) -> (r: Result<CrossChainOutboundApproval, CrossChainBridgeError>)
        ensures
            match outbound_fault(
                self.approver_set(),
                self.required(),
                self.routes(chain),
                chain,
                destination_channel_id@,
                str_views(approver_dids@),
            ) {
                Some(f) => r matches Err(e) && reports_bridge_fault(e, f),
                None => r matches Ok(a) && a.chain == chain && a.request_id@ == request_id@
                    && a.required_approvals == self.required() && strictly_sorted(
                    str_views(a.approved_by@),
                ) && str_views(a.approved_by@).to_set() == str_views(approver_dids@).to_set(),
            },
    {
        proof {
            use_type_invariant(self);
        }
        validate_non_empty("bridge_outbound_request.destination_channel_id", destination_channel_id)?;
        let routes = self.route_table(chain);
        if !routes.contains(destination_channel_id) {
            return Err(
                CrossChainBridgeError::UnknownRouteChannel {
                    chain,
                    channel_id: destination_channel_id.to_owned(),
                },
            );
        }
        let ghost sv = str_views(approver_dids@);
        let ghost aset = self.approver_set();
        let n = approver_dids.len();
        let mut i: usize = 0;
        #[verifier::loop_isolation(false)]
        while i < n
            invariant
                i <= n,
                n == approver_dids@.len(),
                sv == str_views(approver_dids@),
                aset == self.approvers.map().dom(),
                self.approvers.wf(),
                approvals_scan(aset, sv, i as int) is None,
            decreases n - i,
        {
            let did = approver_dids[i].as_str();
            assert(sv[i as int] == did@);
            match AgentDid::parse(did) {
                Ok(_) => {},
                Err(detail) => {
                    proof {
                        lemma_approvals_scan_persists(aset, sv, i + 1, n as int);
                    }
                    return Err(
                        CrossChainBridgeError::InvalidDid {
                            field: "approver_dids[]",
                            reason_code: CROSS_CHAIN_INVALID_OUTBOUND_APPROVER_DID_REASON_CODE,
                            detail,
                        },
                    );
                },
            }
            if !self.approvers.contains(did) {
                proof {
                    lemma_approvals_scan_persists(aset, sv, i + 1, n as int);
                }
                return Err(CrossChainBridgeError::UnauthorizedApprover(approver_dids[i].clone()));
            }
            let mut j: usize = 0;
            #[verifier::loop_isolation(false)]
            while j < i
                invariant
                    j <= i < n,
                    n == approver_dids@.len(),
                    sv == str_views(approver_dids@),
                    forall|q: int| 0 <= q < j ==> sv[q] != sv[i as int],
                decreases i - j,
            {
                if str_eq(approver_dids[j].as_str(), approver_dids[i].as_str()) {
                    proof {
                        assert(sv[j as int] == sv[i as int]);
                        assert(approvals_scan(aset, sv, i + 1) == approval_check(aset, sv, i as int));
                        lemma_approvals_scan_persists(aset, sv, i + 1, n as int);
                    }
                    return Err(CrossChainBridgeError::DuplicateApproval(approver_dids[i].clone()));
                }
                j = j + 1;
            }
            i = i + 1;
        }
        if n < self.required_approvals {
            return Err(
                CrossChainBridgeError::InsufficientApprovals {
                    required: self.required_approvals,
                    provided: n,
                },
            );
        }
        let approved = str_set_from(&approver_dids);
        let approved_by = approved.keys_vec();
        proof {
            approved.lemma_well_formed();
            approved.lemma_keys_to_set();
        }
        Ok(
            CrossChainOutboundApproval {
                chain,
                request_id: request_id.to_owned(),
                required_approvals: self.required_approvals,
                approved_by,
            },
        )
    }
}

/// The error's message text.
pub open spec fn cross_chain_bridge_error_message(e: CrossChainBridgeError) -> Seq<char> {
    match e {
        CrossChainBridgeError::EmptyField(field) => "field must not be empty: "@ + field@,
        CrossChainBridgeError::InvalidDid { field, reason_code, detail } => "invalid did field "@ + field@ + ": "@ + reason_code@ + " ("@ + detail@ + ")"@,
        CrossChainBridgeError::InvalidRequiredApprovals { required, approver_count } => "invalid required approvals "@ + dec_seq(required as nat) + ", approver count "@ + dec_seq(approver_count as nat),
        CrossChainBridgeError::UnauthorizedListener(value) => "unauthorized listener did: "@ + value@,
        CrossChainBridgeError::UnauthorizedApprover(value) => "unauthorized approver did: "@ + value@,
        CrossChainBridgeError::DuplicateApproval(value) => "duplicate approval from: "@ + value@,
        CrossChainBridgeError::InsufficientApprovals { required, provided } => "insufficient approvals: required "@ + dec_seq(required as nat) + ", provided "@ + dec_seq(provided as nat),
        CrossChainBridgeError::UnknownRouteChannel { chain, channel_id } => network_label(chain) + " route not found: "@ + channel_id@,
        CrossChainBridgeError::RouteTargetMismatch { chain, external_channel_id, expected_target_did, provided_target_did } => network_label(chain) + " route target mismatch for "@ + external_channel_id@ + ", expected "@ + expected_target_did@ + ", got "@ + provided_target_did@,
        CrossChainBridgeError::Bridge(value) => "cross-chain bridge error: "@ + value@,
    }
}

impl CrossChainBridgeError {
    /// The error's message text.
    pub fn message(&self) -> (r: String)
        ensures
            r@ == cross_chain_bridge_error_message(*self),
    {
        match self {
            CrossChainBridgeError::EmptyField(field) => {
                let mut out = String::new();
                out.append("field must not be empty: ");
                out.append(*field);
                proof {
                    assert(out@ =~= "field must not be empty: "@ + field@);
                }
                out
            },
            CrossChainBridgeError::InvalidDid { field, reason_code, detail } => {
                let mut out = String::new();
                out.append("invalid did field ");
                out.append(*field);
                out.append(": ");
                out.append(*reason_code);
                out.append(" (");
                out.append(detail.as_str());
                out.append(")");
                proof {
                    assert(out@ =~= "invalid did field "@ + field@ + ": "@ + reason_code@ + " ("@ + detail@ + ")"@);
                }
                out
            },
            CrossChainBridgeError::InvalidRequiredApprovals { required, approver_count } => {
                let mut out = String::new();
                out.append("invalid required approvals ");
                out.append(dec_string(*required as u64).as_str());
                out.append(", approver count ");
                out.append(dec_string(*approver_count as u64).as_str());
                proof {
                    assert(out@ =~= "invalid required approvals "@ + dec_seq(required as nat) + ", approver count "@ + dec_seq(approver_count as nat));
                }
                out
            },
            CrossChainBridgeError::UnauthorizedListener(value) => {
                let mut out = String::new();
                out.append("unauthorized listener did: ");
                out.append(value.as_str());
                proof {
                    assert(out@ =~= "unauthorized listener did: "@ + value@);
                }
                out
            },
            CrossChainBridgeError::UnauthorizedApprover(value) => {
                let mut out = String::new();
                out.append("unauthorized approver did: ");
                out.append(value.as_str());
                proof {
                    assert(out@ =~= "unauthorized approver did: "@ + value@);
                }
                out
            },
            CrossChainBridgeError::DuplicateApproval(value) => {
                let mut out = String::new();
                out.append("duplicate approval from: ");
                out.append(value.as_str());
                proof {
                    assert(out@ =~= "duplicate approval from: "@ + value@);
                }
                out
            },
            CrossChainBridgeError::InsufficientApprovals { required, provided } => {
                let mut out = String::new();
                out.append("insufficient approvals: required ");
                out.append(dec_string(*required as u64).as_str());
                out.append(", provided ");
                out.append(dec_string(*provided as u64).as_str());
                proof {
                    assert(out@ =~= "insufficient approvals: required "@ + dec_seq(required as nat) + ", provided "@ + dec_seq(provided as nat));
                }
                out
            },
            CrossChainBridgeError::UnknownRouteChannel { chain, channel_id } => {
                let mut out = String::new();
                out.append(CrossChainNetwork::label(*chain));
                out.append(" route not found: ");
                out.append(channel_id.as_str());
                proof {
                    assert(out@ =~= network_label(*chain) + " route not found: "@ + channel_id@);
                }
                out
            },
            CrossChainBridgeError::RouteTargetMismatch { chain, external_channel_id, expected_target_did, provided_target_did } => {
                let mut out = String::new();
                out.append(CrossChainNetwork::label(*chain));
                out.append(" route target mismatch for ");
                out.append(external_channel_id.as_str());
                out.append(", expected ");
                out.append(expected_target_did.as_str());
                out.append(", got ");
                out.append(provided_target_did.as_str());
                proof {
                    assert(out@ =~= network_label(*chain) + " route target mismatch for "@ + external_channel_id@ + ", expected "@ + expected_target_did@ + ", got "@ + provided_target_did@);
                }
                out
            },
            CrossChainBridgeError::Bridge(value) => {
                let mut out = String::new();
                out.append("cross-chain bridge error: ");
                out.append(value.as_str());
                proof {
                    assert(out@ =~= "cross-chain bridge error: "@ + value@);
                }
                out
            },
        }
    }
}

} // verus!
