use monas_state_node::state_node::{
    build_assignment_request, create_node, decide_assignment, decide_assignment_with_choice,
};
use monas_state_node::events::Event;
use monas_state_node::storage::{Storage, StorageError};
use monas_state_node::universal_network::{UniversalNetwork, UniversalNetworkError};

#[test]
fn test_storage_creation() {
    let storage = Storage::new(1000).unwrap();
    assert_eq!(storage.total_capacity(), 1000);
    assert_eq!(storage.used_capacity(), 0);
    assert_eq!(storage.available_capacity(), 1000);
}

#[test]
fn test_storage_allocation() {
    let storage = Storage::new(1000).unwrap();
    let allocated = storage.allocate(300).unwrap();

    assert_eq!(allocated.used_capacity(), 300);
    assert_eq!(allocated.available_capacity(), 700);
}

#[test]
fn test_insufficient_capacity() {
    let storage = Storage::new(100).unwrap();
    let result = storage.allocate(200);

    assert!(matches!(result, Err(StorageError::InsufficientCapacity { .. })));
}

#[test]
fn test_deallocation() {
    let storage = Storage::new(1000).unwrap();
    let allocated = storage.allocate(300).unwrap();
    let deallocated = allocated.deallocate(100);

    assert_eq!(deallocated.used_capacity(), 200);
    assert_eq!(deallocated.available_capacity(), 800);
}

#[test]
fn storage_of_zero_capacity_is_refused() {
    assert_eq!(Storage::new(0), Err(StorageError::InvalidCapacity));
}

#[test]
fn insufficient_capacity_reports_the_amounts() {
    let storage = Storage::new(100).unwrap().allocate(40).unwrap();
    assert_eq!(
        storage.allocate(61),
        Err(StorageError::InsufficientCapacity { required: 61, available: 60 })
    );
}

#[test]
fn allocate_then_deallocate_restores_storage() {
    let storage = Storage::new(500).unwrap().allocate(120).unwrap();
    let back = storage.allocate(200).unwrap().deallocate(200);
    assert_eq!(back, storage);
}

#[test]
fn deallocation_stops_at_zero() {
    let storage = Storage::new(500).unwrap().allocate(20).unwrap();
    let freed = storage.deallocate(1000);
    assert_eq!(freed.used_capacity(), 0);
    assert_eq!(freed.available_capacity(), 500);
}

#[test]
fn test_universal_network_creation() {
    let network = UniversalNetwork::new();
    assert_eq!(network.node_count(), 0);
    assert_eq!(network.total_available_resources(), 0);
}

#[test]
fn test_add_nodes() {
    let mut network = UniversalNetwork::new();

    assert!(network.add_node("node_1".to_string(), 1000).is_ok());
    assert_eq!(network.node_count(), 1);
    assert!(network.contains_node("node_1"));
    assert_eq!(network.get_node_resources("node_1"), Some(1000));

    assert!(network.add_node("node_2".to_string(), 2000).is_ok());
    assert_eq!(network.total_available_resources(), 3000);

    assert_eq!(
        network.add_node("node_1".to_string(), 500).unwrap_err(),
        UniversalNetworkError::NodeAlreadyExists
    );
}

#[test]
fn test_remove_nodes() {
    let mut network = UniversalNetwork::new();
    network.add_node("node_1".to_string(), 1000).unwrap();
    network.add_node("node_2".to_string(), 2000).unwrap();

    assert!(network.remove_node("node_1").is_ok());
    assert_eq!(network.node_count(), 1);
    assert!(!network.contains_node("node_1"));
    assert_eq!(network.get_node_resources("node_1"), None);
    assert_eq!(network.total_available_resources(), 2000);

    assert_eq!(
        network.remove_node("nonexistent").unwrap_err(),
        UniversalNetworkError::NodeNotFound
    );
}

#[test]
fn test_update_resources() {
    let mut network = UniversalNetwork::new();
    network.add_node("node_1".to_string(), 1000).unwrap();

    assert!(network.update_node_resources("node_1", 1500).is_ok());
    assert_eq!(network.get_node_resources("node_1"), Some(1500));

    assert_eq!(
        network.update_node_resources("nonexistent", 500).unwrap_err(),
        UniversalNetworkError::NodeNotFound
    );
}

#[test]
fn test_find_nodes_with_sufficient_resources() {
    let mut network = UniversalNetwork::new();
    network.add_node("node_1".to_string(), 1000).unwrap();
    network.add_node("node_2".to_string(), 2000).unwrap();
    network.add_node("node_3".to_string(), 500).unwrap();

    let nodes = network.find_nodes_with_sufficient_resources(1000);
    assert_eq!(nodes.len(), 2);
    assert!(nodes.contains(&"node_1".to_string()));
    assert!(nodes.contains(&"node_2".to_string()));

    let nodes = network.find_nodes_with_sufficient_resources(2500);
    assert!(nodes.is_empty());
}

#[test]
fn test_get_unassigned_nodes() {
    let mut network = UniversalNetwork::new();
    network.add_node("node_1".to_string(), 1000).unwrap();
    network.add_node("node_2".to_string(), 2000).unwrap();
    network.add_node("node_3".to_string(), 1500).unwrap();
    network.add_node("node_4".to_string(), 500).unwrap();

    let mut assigned_networks = Vec::new();
    assigned_networks.push((
        "content_1".to_string(),
        vec!["node_1".to_string(), "node_2".to_string()],
    ));
    assigned_networks.push(("content_2".to_string(), vec!["node_3".to_string()]));

    let unassigned = network.get_unassigned_nodes(&assigned_networks);
    assert_eq!(unassigned.len(), 1);
    assert!(unassigned.contains(&"node_4".to_string()));
}

#[test]
fn add_then_remove_node_restores_network() {
    let mut network = UniversalNetwork::new();
    network.add_node("a".to_string(), 1).unwrap();
    let before = network.state_node_ids();
    network.add_node("b".to_string(), 2).unwrap();
    network.remove_node("b").unwrap();
    assert_eq!(network.state_node_ids(), before);
    assert_eq!(network.get_node_resources("b"), None);
}

#[test]
fn create_node_emits_event() {
    let (snap, events) = create_node("node-A".into(), 500);
    assert_eq!(snap.node_id, "node-A");
    assert_eq!(snap.total_capacity, 500);
    assert_eq!(snap.available_capacity, 500);
    assert_eq!(events.len(), 1);
    match &events[0] {
        Event::NodeCreated {
            node_id,
            total_capacity,
            available_capacity,
            ..
        } => {
            assert_eq!(node_id, "node-A");
            assert_eq!(*total_capacity, 500);
            assert_eq!(*available_capacity, 500);
        }
        _ => panic!("expected NodeCreated"),
    }
}

#[test]
fn build_assignment_request_uses_snapshot_values() {
    let (snap, _) = create_node("node-A".into(), 700);
    let req = build_assignment_request(&snap);
    assert_eq!(req.requesting_node_id, "node-A");
    assert_eq!(req.available_capacity, 700);
}

#[test]
fn decide_assignment_with_single_candidate() {
    let (snap, _) = create_node("node-A".into(), 700);
    let req = build_assignment_request(&snap);
    let candidates = vec!["cid-1".to_string()];
    let (resp, events) = decide_assignment("node-B", &req, &candidates);
    assert_eq!(resp.assigning_node_id, "node-B");
    assert_eq!(resp.assigned_content_network, Some("cn::cid-1".to_string()));
    assert_eq!(events.len(), 1);
    match &events[0] {
        Event::AssignmentDecided {
            assigning_node_id,
            assigned_node_id,
            content_id,
            ..
        } => {
            assert_eq!(assigning_node_id, "node-B");
            assert_eq!(assigned_node_id, "node-A");
            assert_eq!(content_id, "cid-1");
        }
        _ => panic!("expected AssignmentDecided"),
    }
}

#[test]
fn decide_assignment_without_candidates_assigns_nothing() {
    let (snap, _) = create_node("node-A".into(), 700);
    let req = build_assignment_request(&snap);
    let (resp, events) = decide_assignment("node-B", &req, &[]);
    assert_eq!(resp.assigned_content_network, None);
    assert!(events.is_empty());
}

#[test]
fn decide_assignment_picks_one_of_the_candidates() {
    let (snap, _) = create_node("node-A".into(), 700);
    let req = build_assignment_request(&snap);
    let candidates = vec!["x".to_string(), "y".to_string(), "z".to_string()];
    for _ in 0..20 {
        let (resp, events) = decide_assignment("node-B", &req, &candidates);
        let name = resp.assigned_content_network.unwrap();
        assert!(["cn::x", "cn::y", "cn::z"].contains(&name.as_str()));
        assert_eq!(events.len(), 1);
    }
}

#[test]
fn decision_with_given_choice_names_its_network() {
    let (snap, _) = create_node("node-A".into(), 1);
    let req = build_assignment_request(&snap);
    let (resp, events) = decide_assignment_with_choice("me", &req, Some("abc".to_string()));
    assert_eq!(resp.assigned_content_network.as_deref(), Some("cn::abc"));
    assert_eq!(events.len(), 1);
    let (resp, events) = decide_assignment_with_choice("me", &req, None);
    assert!(resp.assigned_content_network.is_none());
    assert!(events.is_empty());
}

#[test]
fn the_default_network_is_empty() {
    let network = UniversalNetwork::default();
    assert_eq!(network.node_count(), 0);
    assert_eq!(network.total_available_resources(), 0);
    assert!(network.state_node_ids().is_empty());
    assert!(!network.contains_node("node_1"));
}
