use monas_state_node::content_storage_repository::{
    compute_content_id, ContentStorageRepository, CrslContentStorageRepository,
    InMemoryContentStorageRepository,
};
use monas_state_node::errors::{CrdtError, NetworkError, StateNodeError};
use monas_state_node::event_routing::{accepts_event, event_topic, subscriber_name};
use monas_state_node::events::Event;
use monas_state_node::inbox::{records_to_remove, ProcessedEventRecord};
use monas_state_node::key_store::KeyStore;
use monas_state_node::keyed::Keyed;
use monas_state_node::network::Libp2pNetwork;
use monas_state_node::node_service::{
    authorization_error, decide_sync_event, handler_action, plan_redundancy, verify_access_decision,
    ApplyOutcome, NoOpAccessControlRepository, ServiceConfig, SyncAction,
};
use monas_state_node::placement::select_by_capacity;
use monas_state_node::sync::{peers_except, PushResult, SyncResult};
use monas_state_node::ucan::AuthorizationResult;
use monas_state_node::value_objects::{ContentId, NodeId, ValueError};
use monas_state_node::access_control::ContentAccessControl;
use monas_state_node::content_network::ContentNetwork;
use monas_state_node::node_service::remove_low_capacity_members;
use p256::ecdsa::SigningKey;

#[test]
fn test_in_memory_save_and_fetch() {
    let mut repo = InMemoryContentStorageRepository::new();

    let data = b"hello world";
    let result = repo.save_content(None, data, "author-1").unwrap();
    assert!(result.created);
    assert!(result.version_cid.is_none());

    let fetched = repo.fetch_latest_by_genesis(&result.genesis_cid).unwrap();
    assert_eq!(fetched, Some(data.to_vec()));

    let new_data = b"hello world updated";
    let update_result = repo
        .save_content(Some(&result.genesis_cid), new_data, "author-1")
        .unwrap();
    assert!(!update_result.created);
    assert!(update_result.version_cid.is_some());

    let fetched = repo.fetch_latest_by_genesis(&result.genesis_cid).unwrap();
    assert_eq!(fetched, Some(new_data.to_vec()));
}

#[test]
fn content_ids_are_raw_sha256_cids() {
    let cid = compute_content_id(b"hello world");
    assert_eq!(cid, "bafkreifzjut3te2nhyekklss27nh3k72ysco7y32koao5eei66wof36n5e");
    assert_ne!(compute_content_id(b"hello world!"), cid);
}

#[test]
fn fetching_an_unknown_payload_is_an_error() {
    let repo = InMemoryContentStorageRepository::new();
    assert_eq!(repo.fetch_payload_by_cid("nope"), Err("Content not found: nope".to_string()));
    assert_eq!(repo.fetch_latest_by_genesis("nope"), Ok(None));
}

#[test]
fn payloads_are_kept_by_their_own_id() {
    let mut repo = InMemoryContentStorageRepository::new();
    let first = repo.save_content(None, b"v1", "a").unwrap();
    let second = repo.save_content(Some(&first.genesis_cid), b"v2", "a").unwrap();
    let v2 = second.version_cid.unwrap();
    assert_eq!(repo.fetch_payload_by_cid(&first.genesis_cid), Ok(b"v1".to_vec()));
    assert_eq!(repo.fetch_payload_by_cid(&v2), Ok(b"v2".to_vec()));
}

#[test]
fn crsl_stub_reports_ids_and_keeps_nothing() {
    let mut repo = CrslContentStorageRepository;
    let saved = repo.save_content(None, b"x", "a").unwrap();
    assert_eq!(saved.genesis_cid, compute_content_id(b"x"));
    assert!(saved.created);
    assert_eq!(repo.fetch_payload_by_cid(&saved.genesis_cid), Ok(Vec::new()));
    assert_eq!(repo.fetch_latest_by_genesis(&saved.genesis_cid), Ok(None));
}

#[test]
fn test_content_not_found_error() {
    let content_id = ContentId::new("content-1".to_string()).unwrap();
    let err = StateNodeError::ContentNotFound(content_id);
    assert_eq!(err.message(), "Content not found: content-1");
    assert_eq!(err.to_http_status(), 404);
}

#[test]
fn test_not_a_member_error() {
    let content_id = ContentId::new("content-1".to_string()).unwrap();
    let err = StateNodeError::NotAMember {
        node_id: "node-1".to_string(),
        content_id,
    };
    assert_eq!(err.message(), "Node node-1 is not a member of content network content-1");
    assert_eq!(err.to_http_status(), 403);
}

#[test]
fn test_insufficient_capacity_error() {
    let err = StateNodeError::InsufficientCapacity { required: 1000, available: 500 };
    assert_eq!(err.message(), "Insufficient capacity: required 1000, available 500");
    assert_eq!(err.to_http_status(), 507);
}

#[test]
fn test_no_available_members_error() {
    let err = StateNodeError::NoAvailableMembers;
    assert_eq!(err.message(), "No available member nodes found");
    assert_eq!(err.to_http_status(), 503);
}

#[test]
fn test_network_error() {
    let network_err = NetworkError::ConnectionFailed("peer offline".to_string());
    let err = StateNodeError::from(network_err);
    assert!(err.message().contains("Connection failed"));
    assert_eq!(err.to_http_status(), 503);
}

#[test]
fn test_crdt_error() {
    let crdt_err = CrdtError::InvalidOperation("bad op".to_string());
    let err = StateNodeError::from(crdt_err);
    assert!(err.message().contains("Invalid operation"));
    assert_eq!(err.to_http_status(), 500);
}

#[test]
fn test_anyhow_error_conversion() {
    let err = StateNodeError::from_message("Content network not found: content-1".to_string());
    assert_eq!(err.to_http_status(), 500);
}

#[test]
fn test_anyhow_error_conversion_not_a_member() {
    let err = StateNodeError::from_message("Local node node-1 is not a member".to_string());
    assert_eq!(err.to_http_status(), 403);
}

#[test]
fn messages_classify_capacity_and_members() {
    assert!(matches!(
        StateNodeError::from_message("no available member nodes here".to_string()),
        StateNodeError::NoAvailableMembers
    ));
    assert!(matches!(
        StateNodeError::from_message("low capacity".to_string()),
        StateNodeError::InsufficientCapacity { required: 0, available: 0 }
    ));
    let err = StateNodeError::from(ValueError::EmptyNodeId);
    assert_eq!(err.message(), "Value object error: Node ID cannot be empty");
    assert_eq!(err.to_http_status(), 400);
}

fn keyed(entries: &[(&str, u64)]) -> Keyed<u64> {
    let mut k = Keyed::new();
    for (id, v) in entries {
        k.insert(id.to_string(), *v);
    }
    k
}

fn strings(v: &[&str]) -> Vec<String> {
    v.iter().map(|s| s.to_string()).collect()
}

#[test]
fn selection_ranks_by_capacity_and_excludes() {
    let caps = keyed(&[("a", 10), ("b", 30), ("c", 20), ("me", 99)]);
    let chosen = select_by_capacity(&strings(&["me", "a", "b", "c", "d"]), &caps, &strings(&["me"]), 3);
    assert_eq!(chosen, strings(&["b", "c", "a"]));
}

#[test]
fn selection_keeps_candidate_order_among_equals() {
    let caps = keyed(&[("x", 5), ("y", 5), ("z", 7)]);
    let chosen = select_by_capacity(&strings(&["x", "y", "z", "w"]), &caps, &Vec::new(), 10);
    assert_eq!(chosen, strings(&["z", "x", "y", "w"]));
    let none = select_by_capacity(&strings(&["x"]), &caps, &strings(&["x"]), 3);
    assert!(none.is_empty());
}

#[test]
fn redundancy_plan_counts_healthy_members() {
    let caps = keyed(&[("a", 5), ("b", 2_000_000_000)]);
    let config = ServiceConfig::default();
    let plan = plan_redundancy(&strings(&["a", "b", "c"]), &caps, &config);
    assert_eq!(plan.low_capacity_nodes, strings(&["a", "c"]));
    assert_eq!(plan.healthy_count, 1);
    assert_eq!(plan.needed, 2);
}

#[test]
fn service_config_default() {
    let config = ServiceConfig::default();
    assert_eq!(config.min_replication_factor, 3);
    assert_eq!(config.capacity_threshold_bytes, 1_073_741_824);
}

#[test]
fn sync_decisions_follow_membership() {
    let updated = Event::ContentUpdated {
        content_id: "c".to_string(),
        updated_node_id: "other".to_string(),
        timestamp: 1,
    };
    assert_eq!(
        decide_sync_event(&updated, "me", Some(true)).1,
        ApplyOutcome::NeedsSync { content_id: "c".to_string() }
    );
    assert_eq!(decide_sync_event(&updated, "me", Some(false)).1, ApplyOutcome::Applied);
    assert_eq!(decide_sync_event(&updated, "me", None).1, ApplyOutcome::Ignored);
    assert_eq!(decide_sync_event(&updated, "other", Some(true)).1, ApplyOutcome::Ignored);

    let created = Event::ContentCreated {
        content_id: "c".to_string(),
        creator_node_id: "x".to_string(),
        content_size: 3,
        member_nodes: strings(&["me", "y"]),
        timestamp: 1,
    };
    let (action, outcome) = decide_sync_event(&created, "me", None);
    assert_eq!(outcome, ApplyOutcome::NeedsSync { content_id: "c".to_string() });
    assert_eq!(
        action,
        SyncAction::SaveNetwork { content_id: "c".to_string(), member_nodes: strings(&["me", "y"]) }
    );
    assert_eq!(decide_sync_event(&created, "z", None).1, ApplyOutcome::Applied);

    let deleted = Event::ContentDeleted {
        content_id: "c".to_string(),
        deleted_by_node_id: "x".to_string(),
        timestamp: 1,
    };
    assert_eq!(
        decide_sync_event(&deleted, "me", Some(false)),
        (SyncAction::DeleteNetwork { content_id: "c".to_string() }, ApplyOutcome::Applied)
    );
    assert_eq!(decide_sync_event(&deleted, "me", None), (SyncAction::Nothing, ApplyOutcome::Applied));
    assert_eq!(decide_sync_event(&deleted, "x", Some(true)), (SyncAction::Nothing, ApplyOutcome::Ignored));

    let requested = Event::ContentSyncRequested {
        content_id: "c".to_string(),
        requesting_node_id: "a".to_string(),
        source_node_id: "b".to_string(),
        timestamp: 1,
    };
    assert_eq!(decide_sync_event(&requested, "me", None), (SyncAction::Nothing, ApplyOutcome::Ignored));
}

#[test]
fn handler_adds_the_assigned_node_once() {
    let assigned = Event::AssignmentDecided {
        assigning_node_id: "x".to_string(),
        assigned_node_id: "n2".to_string(),
        content_id: "c".to_string(),
        timestamp: 1,
    };
    let existing = strings(&["n1"]);
    assert_eq!(
        handler_action(&assigned, Some(&existing)),
        SyncAction::SaveNetwork { content_id: "c".to_string(), member_nodes: strings(&["n1", "n2"]) }
    );
    let already = strings(&["n2"]);
    assert_eq!(
        handler_action(&assigned, Some(&already)),
        SyncAction::SaveNetwork { content_id: "c".to_string(), member_nodes: strings(&["n2"]) }
    );
    assert_eq!(handler_action(&assigned, None), SyncAction::Nothing);
}

#[test]
fn access_is_decided_by_the_cutoff() {
    let ac = ContentAccessControl::with_values("c".to_string(), 100, 2, 0);
    assert!(verify_access_decision(false, Some(&ac), 0));
    assert!(verify_access_decision(true, None, 0));
    assert!(!verify_access_decision(true, Some(&ac), 99));
    assert!(verify_access_decision(true, Some(&ac), 100));
}

#[test]
fn denial_becomes_an_authorization_error() {
    assert!(authorization_error(&AuthorizationResult::Granted).is_none());
    match authorization_error(&AuthorizationResult::Denied { reason: "no".to_string() }) {
        Some(StateNodeError::AuthorizationFailed(m)) => assert_eq!(m, "no"),
        _ => panic!("expected AuthorizationFailed"),
    }
}

#[test]
fn noop_access_control_repository_keeps_nothing() {
    let repo = NoOpAccessControlRepository;
    assert_eq!(repo.get_access_control("c"), Ok(None));
    assert!(repo.save_access_control(&ContentAccessControl::new("c".to_string())).is_ok());
    assert!(repo.delete_access_control("c").is_ok());
    assert_eq!(repo.list_access_controls(), Ok(Vec::new()));
    assert!(repo.flush().is_ok());
}

#[test]
fn peers_exclude_this_node() {
    assert_eq!(peers_except(&strings(&["a", "me", "b", "me"]), "me"), strings(&["a", "b"]));
    let s = SyncResult::new();
    assert_eq!(s.operations_applied, 0);
    assert!(PushResult::new().errors.is_empty());
}

#[test]
fn old_inbox_records_are_removed() {
    let records = vec![
        ProcessedEventRecord { event_id: "old".to_string(), processed_at: 1000, source_node: None },
        ProcessedEventRecord { event_id: "new".to_string(), processed_at: 9000, source_node: Some("n".to_string()) },
        ProcessedEventRecord { event_id: "future".to_string(), processed_at: 20000, source_node: None },
    ];
    assert_eq!(records_to_remove(&records, 10000, 5000), strings(&["old"]));
    assert!(records[0].is_expired_at(6000, 5000));
    assert!(!records[0].is_expired_at(5999, 5000));
}

#[test]
fn routing_uses_the_configured_topic() {
    assert_eq!(event_topic(None), "monas-events");
    assert_eq!(event_topic(Some("t".to_string())), "t");
    assert_eq!(subscriber_name("NodeCreated"), "subscriber-NodeCreated");
    let e = Event::NodeCreated { node_id: "n".to_string(), total_capacity: 1, available_capacity: 1, timestamp: 0 };
    assert!(accepts_event(&e, "NodeCreated"));
    assert!(!accepts_event(&e, "ContentCreated"));
}

#[test]
fn key_store_names_key_files() {
    let store = KeyStore::new("/keys".to_string());
    assert_eq!(store.base_path(), "/keys");
    assert_eq!(KeyStore::key_file_name("node"), "node.p256");
    assert_eq!(KeyStore::default_node_name(), "node");
}

#[test]
fn network_without_peers_finds_nothing() {
    let net = Libp2pNetwork::new().unwrap();
    assert_eq!(net.query_node_capacity("x"), None);
    assert!(net.query_assignable_cids(10).is_empty());
}

#[test]
fn low_capacity_members_are_removed_down_to_the_factor() {
    let key = || {
        SigningKey::random(&mut rand_core::OsRng)
            .verifying_key()
            .to_encoded_point(false)
            .as_bytes()
            .to_vec()
    };
    let mut net = ContentNetwork::new(
        ContentId::new("c".to_string()).unwrap(),
        NodeId::new("me".to_string()).unwrap(),
        key(),
    )
    .unwrap();
    for id in ["a", "b", "c"] {
        net.add_member_with_public_key(NodeId::new(id.to_string()).unwrap(), key()).unwrap();
    }
    let (net, events) = remove_low_capacity_members(net, &strings(&["me", "a", "b", "c"]), "me", 2);
    assert_eq!(net.member_count(), 2);
    assert_eq!(events.len(), 2);
    assert!(net.has_member_str("me"));
    assert!(net.has_member_str("c"));
}
