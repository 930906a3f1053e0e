use monas_state_node::auth_capability::AuthCapability;
use monas_state_node::content_network::ContentNetwork;
use monas_state_node::content_storage_repository::compute_content_id;
use monas_state_node::errors::{CrdtError, NetworkError, StateNodeError};
use monas_state_node::events::Event;
use monas_state_node::identity::Identity;
use monas_state_node::keyed::Keyed;
use monas_state_node::node_service::{remove_low_capacity_members, ServiceConfig};
use monas_state_node::service_steps::{
    create_content_step, delete_content_step, redundancy_step, update_content_step, ChangeState,
    ContentRequest, CreateRequest, CreateState, RedundancyRequest, RedundancyState, StepAction,
    StepInput,
};
use monas_state_node::ucan::AuthorizationResult;
use monas_state_node::value_objects::{ContentId, NodeId};
use p256::ecdsa::SigningKey;

fn public_key() -> Vec<u8> {
    let signing_key = SigningKey::random(&mut rand_core::OsRng);
    signing_key
        .verifying_key()
        .to_encoded_point(false)
        .as_bytes()
        .to_vec()
}

fn network(content_id: &str, members: &[&str]) -> ContentNetwork {
    let cid = ContentId::new(content_id.to_string()).unwrap();
    let first = NodeId::new(members[0].to_string()).unwrap();
    let mut net = ContentNetwork::new(cid, first, public_key()).unwrap();
    for m in &members[1..] {
        net.add_member_with_public_key(NodeId::new(m.to_string()).unwrap(), public_key())
            .unwrap();
    }
    net
}

fn change_request(content_id: &str, local: &str, auth: bool) -> ContentRequest {
    ContentRequest {
        content_id: content_id.to_string(),
        local_node_id: local.to_string(),
        timestamp: 42,
        has_token: true,
        has_signature: true,
        auth_configured: auth,
        authz_configured: auth,
        policy_store_configured: false,
    }
}

fn finished_error(action: StepAction) -> StateNodeError {
    match action {
        StepAction::Finish(Err(e)) => e,
        other => panic!("expected a refusal, got {:?}", other),
    }
}

fn user(id: &str) -> Identity {
    Identity::user(id.to_string()).unwrap()
}

#[test]
fn test_update_content_success() {
    let q = change_request("content-1", "node-1", false);
    let (s, a) = update_content_step(&q, ChangeState::Start, StepInput::Begin);
    assert_eq!(s, ChangeState::AwaitNetwork);
    assert!(matches!(a, StepAction::LookUpNetwork { ref content_id } if content_id == "content-1"));
    let net = network("content-1", &["node-1", "node-2"]);
    let (s, a) = update_content_step(&q, s, StepInput::NetworkLookedUp(Ok(Some(net))));
    assert_eq!(s, ChangeState::AwaitChange);
    assert!(matches!(a, StepAction::UpdateContent { ref content_id } if content_id == "content-1"));
    let (s, a) = update_content_step(&q, s, StepInput::Saved(Ok(())));
    assert_eq!(s, ChangeState::AwaitPublish);
    assert!(matches!(a, StepAction::Publish(Event::ContentUpdated { .. })));
    let (s, a) = update_content_step(&q, s, StepInput::Published(Ok(())));
    assert_eq!(s, ChangeState::AwaitRedundancy);
    assert!(matches!(a, StepAction::MaintainRedundancy { ref content_id } if content_id == "content-1"));
    let (s, a) = update_content_step(&q, s, StepInput::RedundancyChecked);
    assert_eq!(s, ChangeState::Finished);
    match a {
        StepAction::Finish(Ok(Event::ContentUpdated {
            content_id,
            updated_node_id,
            timestamp,
        })) => {
            assert_eq!(content_id, "content-1");
            assert_eq!(updated_node_id, "node-1");
            assert_eq!(timestamp, 42);
        }
        other => panic!("Expected ContentUpdated event, got {:?}", other),
    }
}

#[test]
fn test_update_content_fails_if_not_member() {
    let q = change_request("content-1", "node-1", false);
    let (s, _) = update_content_step(&q, ChangeState::Start, StepInput::Begin);
    let net = network("content-1", &["node-2", "node-3"]);
    let (s, a) = update_content_step(&q, s, StepInput::NetworkLookedUp(Ok(Some(net))));
    assert_eq!(s, ChangeState::Finished);
    let e = finished_error(a);
    assert!(e.message().contains("not a member"));
    assert!(matches!(e, StateNodeError::NotAMember { ref node_id, .. } if node_id == "node-1"));
}

#[test]
fn test_update_content_fails_if_network_not_found() {
    let q = change_request("nonexistent", "node-1", true);
    let (s, _) = update_content_step(&q, ChangeState::Start, StepInput::Begin);
    let (s, a) = update_content_step(&q, s, StepInput::NetworkLookedUp(Ok(None)));
    assert_eq!(s, ChangeState::Finished);
    let e = finished_error(a);
    assert!(e.message().contains("Content not found"));
}

#[test]
fn update_with_services_authenticates_then_authorizes_writing() {
    let q = change_request("content-1", "node-1", true);
    let (s, _) = update_content_step(&q, ChangeState::Start, StepInput::Begin);
    let net = network("content-1", &["node-1"]);
    let (s, a) = update_content_step(&q, s, StepInput::NetworkLookedUp(Ok(Some(net))));
    assert_eq!(s, ChangeState::AwaitAuthentication);
    assert!(matches!(a, StepAction::Authenticate));
    let (s, a) = update_content_step(&q, s, StepInput::Authenticated(Ok(user("alice"))));
    assert_eq!(s, ChangeState::AwaitAuthorization);
    match a {
        StepAction::Authorize { identity, content_id, capability } => {
            assert_eq!(identity.id(), "alice");
            assert_eq!(content_id, "content-1");
            assert_eq!(capability, AuthCapability::WriteContent);
        }
        other => panic!("expected an authorization, got {:?}", other),
    }
    let (s, a) = update_content_step(
        &q,
        s,
        StepInput::Authorized(Ok(AuthorizationResult::Granted)),
    );
    assert_eq!(s, ChangeState::AwaitChange);
    assert!(matches!(a, StepAction::UpdateContent { .. }));
}

#[test]
fn update_checks_membership_before_the_services() {
    let mut q = change_request("content-1", "node-1", true);
    q.authz_configured = false;
    let (s, _) = update_content_step(&q, ChangeState::Start, StepInput::Begin);
    let outsider = network("content-1", &["node-2"]);
    let (_, a) = update_content_step(&q, s, StepInput::NetworkLookedUp(Ok(Some(outsider))));
    assert!(matches!(finished_error(a), StateNodeError::NotAMember { .. }));
    let (s, _) = update_content_step(&q, ChangeState::Start, StepInput::Begin);
    let member = network("content-1", &["node-1"]);
    let (_, a) = update_content_step(&q, s, StepInput::NetworkLookedUp(Ok(Some(member))));
    assert!(matches!(
        finished_error(a),
        StateNodeError::InvalidConfiguration(ref m) if m == "Authorization not configured"
    ));
}

#[test]
fn update_refusals_of_credentials_and_outside_failures() {
    let mut q = change_request("content-1", "node-1", false);
    q.has_token = false;
    let (_, a) = update_content_step(&q, ChangeState::Start, StepInput::Begin);
    assert!(matches!(
        finished_error(a),
        StateNodeError::AuthenticationFailed(ref m) if m == "Authentication token is required"
    ));
    q.has_token = true;
    q.has_signature = false;
    let (_, a) = update_content_step(&q, ChangeState::Start, StepInput::Begin);
    assert!(matches!(
        finished_error(a),
        StateNodeError::AuthenticationFailed(ref m) if m == "Request signature is required"
    ));
    let empty = change_request("", "node-1", false);
    let (_, a) = update_content_step(&empty, ChangeState::Start, StepInput::Begin);
    assert!(matches!(finished_error(a), StateNodeError::ValueError(_)));
    let q = change_request("content-1", "node-1", true);
    let (_, a) = update_content_step(
        &q,
        ChangeState::AwaitNetwork,
        StepInput::NetworkLookedUp(Err("disk".to_string())),
    );
    assert!(matches!(finished_error(a), StateNodeError::StorageError(ref m) if m == "disk"));
    let (_, a) = update_content_step(
        &q,
        ChangeState::AwaitAuthentication,
        StepInput::Authenticated(Err("bad token".to_string())),
    );
    assert!(matches!(
        finished_error(a),
        StateNodeError::AuthenticationFailed(ref m) if m == "bad token"
    ));
    let (_, a) = update_content_step(
        &q,
        ChangeState::AwaitAuthorization,
        StepInput::Authorized(Ok(AuthorizationResult::Denied { reason: "no".to_string() })),
    );
    assert!(matches!(finished_error(a), StateNodeError::AuthorizationFailed(ref m) if m == "no"));
    let (_, a) = update_content_step(
        &q,
        ChangeState::AwaitChange,
        StepInput::Saved(Err("crdt".to_string())),
    );
    assert!(matches!(
        finished_error(a),
        StateNodeError::CrdtError(CrdtError::StorageError(ref m)) if m == "crdt"
    ));
    let (_, a) = update_content_step(
        &q,
        ChangeState::AwaitPublish,
        StepInput::Published(Err("down".to_string())),
    );
    assert!(matches!(
        finished_error(a),
        StateNodeError::NetworkError(NetworkError::ProtocolError(ref m)) if m == "down"
    ));
    let (s, a) = update_content_step(&q, ChangeState::AwaitChange, StepInput::MembersAdded);
    assert_eq!(s, ChangeState::Finished);
    assert!(matches!(finished_error(a), StateNodeError::Internal(_)));
}

#[test]
fn delete_removes_network_then_policy_then_publishes() {
    let mut q = change_request("content-1", "node-1", true);
    q.policy_store_configured = true;
    let (s, _) = delete_content_step(&q, ChangeState::Start, StepInput::Begin);
    let net = network("content-1", &["node-1", "node-2"]);
    let (s, _) = delete_content_step(&q, s, StepInput::NetworkLookedUp(Ok(Some(net))));
    let (s, a) = delete_content_step(&q, s, StepInput::Authenticated(Ok(user("owner"))));
    assert!(matches!(
        a,
        StepAction::Authorize { capability: AuthCapability::DeleteContent, .. }
    ));
    let (s, a) = delete_content_step(
        &q,
        s,
        StepInput::Authorized(Ok(AuthorizationResult::Granted)),
    );
    assert!(matches!(a, StepAction::DeleteNetwork { ref content_id } if content_id == "content-1"));
    let (s, a) = delete_content_step(&q, s, StepInput::Saved(Ok(())));
    assert_eq!(s, ChangeState::AwaitPolicyDeletion);
    assert!(matches!(a, StepAction::DeletePolicy { ref content_id } if content_id == "content-1"));
    let (s, a) = delete_content_step(&q, s, StepInput::Saved(Ok(())));
    assert!(matches!(a, StepAction::Publish(Event::ContentDeleted { .. })));
    let (s, a) = delete_content_step(&q, s, StepInput::Published(Ok(())));
    assert_eq!(s, ChangeState::Finished);
    match a {
        StepAction::Finish(Ok(Event::ContentDeleted {
            content_id,
            deleted_by_node_id,
            timestamp,
        })) => {
            assert_eq!(content_id, "content-1");
            assert_eq!(deleted_by_node_id, "node-1");
            assert_eq!(timestamp, 42);
        }
        other => panic!("expected ContentDeleted, got {:?}", other),
    }
}

#[test]
fn delete_refuses_a_non_member_and_reports_storage_failures() {
    let q = change_request("content-1", "node-9", false);
    let (s, _) = delete_content_step(&q, ChangeState::Start, StepInput::Begin);
    let net = network("content-1", &["node-1"]);
    let (_, a) = delete_content_step(&q, s, StepInput::NetworkLookedUp(Ok(Some(net))));
    assert!(finished_error(a).message().contains("not a member"));
    let (_, a) = delete_content_step(
        &q,
        ChangeState::AwaitChange,
        StepInput::Saved(Err("locked".to_string())),
    );
    assert!(matches!(finished_error(a), StateNodeError::StorageError(ref m) if m == "locked"));
    let (s, a) = delete_content_step(&q, ChangeState::AwaitChange, StepInput::Saved(Ok(())));
    assert_eq!(s, ChangeState::AwaitPublish);
    assert!(matches!(a, StepAction::Publish(Event::ContentDeleted { .. })));
    let (_, a) = delete_content_step(&q, ChangeState::AwaitRedundancy, StepInput::RedundancyChecked);
    assert!(matches!(finished_error(a), StateNodeError::Internal(_)));
}

fn create_request(data: &[u8]) -> CreateRequest {
    CreateRequest {
        data: data.to_vec(),
        local_node_id: "node-1".to_string(),
        timestamp: 7,
        has_token: true,
        has_signature: true,
        auth_configured: true,
        authz_configured: true,
        policy_store_configured: false,
    }
}

fn capacities(entries: &[(&str, u64)]) -> Keyed<u64> {
    let mut k = Keyed::new();
    for (id, c) in entries {
        k.insert(id.to_string(), *c);
    }
    k
}

/// Runs a creation up to the choice of members.
fn create_until_peers(q: &CreateRequest) -> (CreateState, String) {
    let (s, a) = create_content_step(q, CreateState::Start, StepInput::Begin);
    assert!(matches!(a, StepAction::Authenticate));
    let (s, a) = create_content_step(q, s, StepInput::Authenticated(Ok(user("test-user"))));
    match &a {
        StepAction::Authorize { content_id, capability, .. } => {
            assert_eq!(content_id, &compute_content_id(&q.data));
            assert_eq!(*capability, AuthCapability::WriteContent);
        }
        other => panic!("expected an authorization, got {:?}", other),
    }
    let (s, a) = create_content_step(q, s, StepInput::Authorized(Ok(AuthorizationResult::Granted)));
    assert!(matches!(a, StepAction::CreateContent));
    let cid = compute_content_id(&q.data);
    let (s, a) = create_content_step(q, s, StepInput::ContentStored(Ok(cid.clone())));
    assert!(matches!(a, StepAction::FindPeers { ref content_id, count: 3 } if *content_id == cid));
    (s, cid)
}

#[test]
fn test_create_content_with_peers() {
    let q = create_request(b"test data");
    let (s, cid) = create_until_peers(&q);
    let closest = vec!["peer-1".to_string(), "peer-2".to_string()];
    let caps = capacities(&[("peer-1", 500), ("peer-2", 1000)]);
    let (s, a) = create_content_step(&q, s, StepInput::PeersFound(Ok((closest, caps))));
    match &a {
        StepAction::SaveNewNetwork { content_id, member_nodes } => {
            assert_eq!(content_id, &cid);
            assert_eq!(member_nodes, &vec!["peer-2".to_string(), "peer-1".to_string()]);
        }
        other => panic!("expected a network to store, got {:?}", other),
    }
    let (s, a) = create_content_step(&q, s, StepInput::Saved(Ok(())));
    assert!(matches!(a, StepAction::Publish(Event::ContentCreated { .. })));
    let (s, a) = create_content_step(&q, s, StepInput::Published(Ok(())));
    assert!(matches!(s, CreateState::Finished));
    match a {
        StepAction::Finish(Ok(Event::ContentCreated {
            creator_node_id,
            member_nodes,
            content_size,
            ..
        })) => {
            assert_eq!(creator_node_id, "node-1");
            assert!(!member_nodes.is_empty());
            assert_eq!(content_size, 9);
        }
        other => panic!("Expected ContentCreated event, got {:?}", other),
    }
}

#[test]
fn test_create_content_excludes_creator() {
    let q = create_request(b"test data");
    let (s, _) = create_until_peers(&q);
    let closest = vec!["node-1".to_string(), "peer-1".to_string()];
    let caps = capacities(&[("node-1", 1000), ("peer-1", 500)]);
    let (s, _) = create_content_step(&q, s, StepInput::PeersFound(Ok((closest, caps))));
    let (s, _) = create_content_step(&q, s, StepInput::Saved(Ok(())));
    let (_, a) = create_content_step(&q, s, StepInput::Published(Ok(())));
    match a {
        StepAction::Finish(Ok(Event::ContentCreated { member_nodes, .. })) => {
            assert!(!member_nodes.contains(&"node-1".to_string()));
            assert!(member_nodes.contains(&"peer-1".to_string()));
        }
        other => panic!("Expected ContentCreated event, got {:?}", other),
    }
}

#[test]
fn test_create_content_fails_without_peers() {
    let q = create_request(b"test data");
    let (s, _) = create_until_peers(&q);
    let (s, a) = create_content_step(
        &q,
        s,
        StepInput::PeersFound(Ok((Vec::new(), Keyed::new()))),
    );
    assert!(matches!(s, CreateState::Finished));
    let e = finished_error(a);
    assert!(e.message().contains("No available member nodes found"));
}

#[test]
fn create_stores_the_owner_policy_when_configured() {
    let mut q = create_request(b"payload");
    q.policy_store_configured = true;
    let (s, cid) = create_until_peers(&q);
    let closest = vec!["peer-1".to_string()];
    let (s, _) = create_content_step(
        &q,
        s,
        StepInput::PeersFound(Ok((closest, capacities(&[("peer-1", 10)])))),
    );
    let (s, a) = create_content_step(&q, s, StepInput::Saved(Ok(())));
    match a {
        StepAction::SavePolicy { content_id, owner } => {
            assert_eq!(content_id, cid);
            assert_eq!(owner.id(), "test-user");
        }
        other => panic!("expected a policy to store, got {:?}", other),
    }
    let (_, a) = create_content_step(&q, s, StepInput::Saved(Err("full".to_string())));
    assert!(matches!(finished_error(a), StateNodeError::StorageError(ref m) if m == "full"));
}

#[test]
fn create_refuses_missing_services_in_order() {
    let mut q = create_request(b"x");
    q.auth_configured = false;
    let (_, a) = create_content_step(&q, CreateState::Start, StepInput::Begin);
    assert!(matches!(
        finished_error(a),
        StateNodeError::InvalidConfiguration(ref m) if m == "Authentication not configured"
    ));
    q.auth_configured = true;
    q.authz_configured = false;
    let (_, a) = create_content_step(&q, CreateState::Start, StepInput::Begin);
    assert!(matches!(
        finished_error(a),
        StateNodeError::InvalidConfiguration(ref m) if m == "Authorization not configured"
    ));
    q.has_token = false;
    let (_, a) = create_content_step(&q, CreateState::Start, StepInput::Begin);
    assert!(matches!(
        finished_error(a),
        StateNodeError::AuthenticationFailed(ref m) if m == "Authentication token is required"
    ));
    let q = create_request(b"x");
    let (_, a) = create_content_step(
        &q,
        CreateState::AwaitContentStore { owner: user("u") },
        StepInput::ContentStored(Err("crdt down".to_string())),
    );
    assert!(matches!(
        finished_error(a),
        StateNodeError::CrdtError(CrdtError::StorageError(ref m)) if m == "crdt down"
    ));
    let (_, a) = create_content_step(
        &q,
        CreateState::AwaitPeers { owner: user("u"), content_id: "c".to_string() },
        StepInput::PeersFound(Err("unreachable".to_string())),
    );
    assert!(matches!(
        finished_error(a),
        StateNodeError::NetworkError(NetworkError::ConnectionFailed(ref m)) if m == "unreachable"
    ));
}

fn redundancy_request(min: usize) -> RedundancyRequest {
    RedundancyRequest {
        content_id: "content-1".to_string(),
        local_node_id: "node-1".to_string(),
        config: ServiceConfig { min_replication_factor: min, capacity_threshold_bytes: 100 },
    }
}

fn completed(action: &StepAction) -> bool {
    matches!(action, StepAction::Complete(Ok(())))
}

#[test]
fn redundancy_removes_low_capacity_members_one_event_each() {
    let q = redundancy_request(2);
    let (s, a) = redundancy_step(&q, RedundancyState::Start, StepInput::Begin);
    assert!(matches!(a, StepAction::LookUpNetwork { .. }));
    let members = ["node-1", "node-2", "node-3", "node-4"];
    let (s, a) = redundancy_step(
        &q,
        s,
        StepInput::NetworkLookedUp(Ok(Some(network("content-1", &members)))),
    );
    match &a {
        StepAction::QueryCapacities { node_ids } => assert_eq!(node_ids.len(), 4),
        other => panic!("expected a capacity query, got {:?}", other),
    }
    let caps = capacities(&[("node-1", 500), ("node-2", 50), ("node-3", 50), ("node-4", 500)]);
    let (s, a) = redundancy_step(&q, s, StepInput::CapacitiesReported(Ok(caps)));
    assert!(matches!(s, RedundancyState::AwaitRefreshedNetwork { .. }));
    assert!(matches!(a, StepAction::LookUpNetwork { .. }));
    let (s, a) = redundancy_step(
        &q,
        s,
        StepInput::NetworkLookedUp(Ok(Some(network("content-1", &members)))),
    );
    match &a {
        StepAction::Publish(Event::ContentNetworkManagerRemoved {
            removed_node_id,
            member_nodes,
            reason,
            ..
        }) => {
            assert_eq!(removed_node_id, "node-2");
            assert_eq!(member_nodes.len(), 3);
            assert_eq!(reason, "low_capacity");
        }
        other => panic!("expected a removal, got {:?}", other),
    }
    let (s, a) = redundancy_step(&q, s, StepInput::Published(Ok(())));
    assert!(matches!(
        a,
        StepAction::Publish(Event::ContentNetworkManagerRemoved { ref removed_node_id, .. })
            if removed_node_id == "node-3"
    ));
    let (s, a) = redundancy_step(&q, s, StepInput::Published(Ok(())));
    match &a {
        StepAction::SaveNetwork(net) => {
            assert_eq!(net.member_count(), 2);
            assert!(net.has_member_str("node-1"));
            assert!(net.has_member_str("node-4"));
        }
        other => panic!("expected the network to be stored, got {:?}", other),
    }
    let (s, a) = redundancy_step(&q, s, StepInput::Saved(Ok(())));
    assert!(matches!(s, RedundancyState::Finished));
    assert!(completed(&a));
}

#[test]
fn redundancy_stops_removing_at_the_replication_factor() {
    let q = redundancy_request(3);
    let members = ["node-1", "node-2", "node-3", "node-4"];
    let low = vec!["node-2".to_string(), "node-3".to_string()];
    let (s, a) = redundancy_step(
        &q,
        RedundancyState::AwaitRefreshedNetwork { low_capacity_nodes: low },
        StepInput::NetworkLookedUp(Ok(Some(network("content-1", &members)))),
    );
    assert!(matches!(
        a,
        StepAction::Publish(Event::ContentNetworkManagerRemoved { ref removed_node_id, .. })
            if removed_node_id == "node-2"
    ));
    let (_, a) = redundancy_step(&q, s, StepInput::Published(Ok(())));
    match &a {
        StepAction::SaveNetwork(net) => assert_eq!(net.member_count(), 3),
        other => panic!("expected the network to be stored, got {:?}", other),
    }
}

#[test]
fn redundancy_asks_for_missing_members_and_skips_non_members() {
    let q = redundancy_request(3);
    let members = vec!["node-1".to_string(), "node-2".to_string()];
    let caps = capacities(&[("node-1", 500), ("node-2", 500)]);
    let (s, a) = redundancy_step(
        &q,
        RedundancyState::AwaitCapacities { members },
        StepInput::CapacitiesReported(Ok(caps)),
    );
    assert!(matches!(a, StepAction::AddMembers { count: 1, .. }));
    let (_, a) = redundancy_step(&q, s, StepInput::MembersAdded);
    assert!(matches!(a, StepAction::LookUpNetwork { ref content_id } if content_id == "content-1"));
    let (s, a) = redundancy_step(
        &q,
        RedundancyState::AwaitNetwork,
        StepInput::NetworkLookedUp(Ok(Some(network("content-1", &["node-7"])))),
    );
    assert!(matches!(s, RedundancyState::Finished));
    assert!(completed(&a));
    let (_, a) = redundancy_step(
        &q,
        RedundancyState::AwaitNetwork,
        StepInput::NetworkLookedUp(Ok(None)),
    );
    match a {
        StepAction::Complete(Err(e)) => assert!(e.message().contains("Content not found")),
        other => panic!("expected a refusal, got {:?}", other),
    }
}

#[test]
fn stepwise_removal_ends_where_removing_all_at_once_ends() {
    let members = ["node-1", "node-2", "node-3", "node-4", "node-5"];
    let low = vec![
        "node-1".to_string(),
        "node-3".to_string(),
        "node-9".to_string(),
        "node-4".to_string(),
        "node-5".to_string(),
    ];
    for min in 0..6usize {
        let q = redundancy_request(min);
        let (at_once, events) =
            remove_low_capacity_members(network("content-1", &members), &low, "node-1", min);
        let mut state = RedundancyState::AwaitRefreshedNetwork { low_capacity_nodes: low.clone() };
        let mut input = StepInput::NetworkLookedUp(Ok(Some(network("content-1", &members))));
        let mut published = 0usize;
        let stored = loop {
            let (s, a) = redundancy_step(&q, state, input);
            match a {
                StepAction::Publish(_) => {
                    published += 1;
                    state = s;
                    input = StepInput::Published(Ok(()));
                }
                StepAction::SaveNetwork(net) => break net,
                other => panic!("unexpected action {:?}", other),
            }
        };
        assert_eq!(published, events.len());
        assert_eq!(stored.member_nodes_as_strings(), at_once.member_nodes_as_strings());
    }
}
