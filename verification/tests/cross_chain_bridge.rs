use kamn_core::cross_chain_bridge::{
    CrossChainBridgeConfig, CrossChainBridgeEngine, CrossChainBridgeError,
    CrossChainInboundRequest, CrossChainNetwork,
};

fn config() -> CrossChainBridgeConfig {
    let ethereum_routes = vec![(
        "ethereum:sepolia:contract:escrow-v1".to_owned(),
        "kamn:did:agent:target-eth".to_owned(),
    )];
    let solana_routes = vec![(
        "solana:devnet:program:task-v1".to_owned(),
        "kamn:did:agent:target-sol".to_owned(),
    )];
    CrossChainBridgeConfig {
        bridge_agent_did: "kamn:did:agent:bridge-crosschain-1".to_owned(),
        authorized_listener_dids: vec!["kamn:did:agent:listener-1".to_owned()],
        authorized_approver_dids: vec![
            "kamn:did:agent:approver-1".to_owned(),
            "kamn:did:agent:approver-2".to_owned(),
        ],
        required_approvals: 2,
        ethereum_routes,
        solana_routes,
    }
}

#[test]
fn constructor_rejects_empty_ethereum_routes() {
    let mut config = config();
    config.ethereum_routes.clear();
    assert_eq!(
        CrossChainBridgeEngine::new(config),
        Err(CrossChainBridgeError::EmptyField("ethereum_routes"))
    );
}

#[test]
fn constructor_rejects_invalid_required_approvals_threshold() {
    let mut config = config();
    config.required_approvals = 3;
    assert_eq!(
        CrossChainBridgeEngine::new(config),
        Err(CrossChainBridgeError::InvalidRequiredApprovals { required: 3, approver_count: 2 })
    );
}

fn expect_err<T>(r: Result<T, CrossChainBridgeError>) -> CrossChainBridgeError {
    match r {
        Ok(_) => panic!("expected an error"),
        Err(e) => e,
    }
}

#[test]
fn constructor_checks_dids_and_routes_in_order() {
    let mut c = config();
    c.bridge_agent_did = "bridge".to_owned();
    assert_eq!(
        expect_err(CrossChainBridgeEngine::new(c)),
        CrossChainBridgeError::InvalidDid {
            field: "bridge_agent_did",
            reason_code: "cross_chain_bridge_invalid_bridge_agent_did",
            detail: "invalid agent did prefix: bridge".to_owned(),
        }
    );
    let mut c = config();
    c.authorized_listener_dids = vec!["zz".to_owned(), "kamn:did:agent:l".to_owned(), "aa".to_owned()];
    let e = expect_err(CrossChainBridgeEngine::new(c));
    assert_eq!(
        e,
        CrossChainBridgeError::InvalidDid {
            field: "authorized_listener_dids[]",
            reason_code: "cross_chain_bridge_invalid_listener_did",
            detail: "invalid agent did prefix: aa".to_owned(),
        }
    );
    assert_eq!(e.reason_code(), "cross_chain_bridge_invalid_listener_did");
    let mut c = config();
    c.authorized_approver_dids = vec![
        "kamn:did:agent:approver-1".to_owned(),
        "kamn:did:agent:approver-1".to_owned(),
    ];
    assert_eq!(
        expect_err(CrossChainBridgeEngine::new(c)),
        CrossChainBridgeError::InvalidRequiredApprovals { required: 2, approver_count: 1 }
    );
    let mut c = config();
    c.solana_routes.push((" ".to_owned(), "kamn:did:agent:x".to_owned()));
    let e = expect_err(CrossChainBridgeEngine::new(c));
    assert_eq!(e, CrossChainBridgeError::EmptyField("solana_routes.channel_id"));
    assert_eq!(e.reason_code(), "cross_chain_bridge_empty_field");
    let mut c = config();
    c.ethereum_routes.push(("chan".to_owned(), "nope".to_owned()));
    assert_eq!(
        expect_err(CrossChainBridgeEngine::new(c)),
        CrossChainBridgeError::InvalidDid {
            field: "ethereum_routes.target_did",
            reason_code: "cross_chain_bridge_invalid_route_target_did",
            detail: "invalid agent did prefix: nope".to_owned(),
        }
    );
}

fn inbound(listener: &str, chain: CrossChainNetwork, channel: &str, target: &str) -> CrossChainInboundRequest {
    CrossChainInboundRequest {
        listener_did: listener.to_owned(),
        observed_at_unix: 1,
        chain,
        external_channel_id: channel.to_owned(),
        target_agent_did: target.to_owned(),
    }
}

#[test]
fn inbound_requests_follow_routes() {
    let engine = CrossChainBridgeEngine::new(config()).expect("engine should build");
    let ok = inbound(
        "kamn:did:agent:listener-1",
        CrossChainNetwork::Ethereum,
        "ethereum:sepolia:contract:escrow-v1",
        "kamn:did:agent:target-eth",
    );
    assert!(engine.validate_inbound_request(&ok).is_ok());
    let stranger = inbound(
        "kamn:did:agent:listener-9",
        CrossChainNetwork::Ethereum,
        "ethereum:sepolia:contract:escrow-v1",
        "kamn:did:agent:target-eth",
    );
    assert_eq!(
        expect_err(engine.validate_inbound_request(&stranger)),
        CrossChainBridgeError::UnauthorizedListener("kamn:did:agent:listener-9".to_owned())
    );
    let wrong_lane = inbound(
        "kamn:did:agent:listener-1",
        CrossChainNetwork::Solana,
        "ethereum:sepolia:contract:escrow-v1",
        "kamn:did:agent:target-eth",
    );
    assert_eq!(
        expect_err(engine.validate_inbound_request(&wrong_lane)),
        CrossChainBridgeError::UnknownRouteChannel {
            chain: CrossChainNetwork::Solana,
            channel_id: "ethereum:sepolia:contract:escrow-v1".to_owned(),
        }
    );
    let mismatch = inbound(
        "kamn:did:agent:listener-1",
        CrossChainNetwork::Solana,
        "solana:devnet:program:task-v1",
        "kamn:did:agent:target-eth",
    );
    assert_eq!(
        expect_err(engine.validate_inbound_request(&mismatch)),
        CrossChainBridgeError::RouteTargetMismatch {
            chain: CrossChainNetwork::Solana,
            external_channel_id: "solana:devnet:program:task-v1".to_owned(),
            expected_target_did: "kamn:did:agent:target-sol".to_owned(),
            provided_target_did: "kamn:did:agent:target-eth".to_owned(),
        }
    );
    let bad_target = inbound("kamn:did:agent:listener-1", CrossChainNetwork::Solana, "x", "t");
    assert_eq!(
        expect_err(engine.validate_inbound_request(&bad_target)).reason_code(),
        "cross_chain_bridge_invalid_inbound_target_did"
    );
    assert_eq!(CrossChainNetwork::Solana.label(), "solana");
}

#[test]
fn outbound_dispatch_requires_quorum() {
    let engine = CrossChainBridgeEngine::new(config()).expect("engine should build");
    let approval = engine
        .authorize_outbound_dispatch(
            CrossChainNetwork::Solana,
            "req-1",
            "solana:devnet:program:task-v1",
            vec!["kamn:did:agent:approver-2".to_owned(), "kamn:did:agent:approver-1".to_owned()],
        )
        .expect("quorum should be met");
    assert_eq!(
        approval.approved_by,
        vec!["kamn:did:agent:approver-1".to_owned(), "kamn:did:agent:approver-2".to_owned()]
    );
    assert_eq!(approval.required_approvals, 2);
    assert_eq!(approval.request_id, "req-1");
    assert_eq!(
        expect_err(engine.authorize_outbound_dispatch(
            CrossChainNetwork::Solana,
            "req-1",
            "solana:devnet:program:task-v1",
            vec!["kamn:did:agent:approver-1".to_owned()],
        )),
        CrossChainBridgeError::InsufficientApprovals { required: 2, provided: 1 }
    );
    assert_eq!(
        expect_err(engine.authorize_outbound_dispatch(
            CrossChainNetwork::Solana,
            "req-1",
            "solana:devnet:program:task-v1",
            vec!["kamn:did:agent:approver-1".to_owned(), "kamn:did:agent:approver-1".to_owned()],
        )),
        CrossChainBridgeError::DuplicateApproval("kamn:did:agent:approver-1".to_owned())
    );
    assert_eq!(
        expect_err(engine.authorize_outbound_dispatch(
            CrossChainNetwork::Ethereum,
            "req-1",
            "ethereum:sepolia:contract:escrow-v1",
            vec!["kamn:did:agent:approver-3".to_owned()],
        )),
        CrossChainBridgeError::UnauthorizedApprover("kamn:did:agent:approver-3".to_owned())
    );
    assert_eq!(
        expect_err(engine.authorize_outbound_dispatch(CrossChainNetwork::Ethereum, "r", " ", vec![])),
        CrossChainBridgeError::EmptyField("bridge_outbound_request.destination_channel_id")
    );
}
