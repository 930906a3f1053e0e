use monas_state_node::content_network::{add_member_node, remove_member_node, ContentNetwork};
use monas_state_node::content_network_repository::ContentNetworkRepositoryImpl;
use monas_state_node::events::Event;
use monas_state_node::value_objects::{ContentId, NodeId, ValueError};
use p256::ecdsa::SigningKey;

fn generate_test_keypair() -> (SigningKey, Vec<u8>) {
    let signing_key = SigningKey::random(&mut rand_core::OsRng);
    let verifying_key = signing_key.verifying_key();
    let public_key = verifying_key.to_encoded_point(false).as_bytes().to_vec();
    (signing_key, public_key)
}

#[test]
fn add_member_node_emits_event_and_updates_set() {
    let content_id = ContentId::new("cid-1".to_string()).unwrap();
    let initial_node = NodeId::new("node-initial".to_string()).unwrap();
    let (_, public_key) = generate_test_keypair();
    let net = ContentNetwork::new(content_id, initial_node.clone(), public_key).unwrap();

    let node_a = NodeId::new("node-A".to_string()).unwrap();
    let (_, key_a) = generate_test_keypair();
    let (net, events) = add_member_node(net, node_a.clone(), key_a).unwrap();

    assert!(net.has_member(&node_a));
    assert_eq!(events.len(), 1);
    match &events[0] {
        Event::ContentNetworkManagerAdded {
            content_id,
            added_node_id,
            member_nodes,
            ..
        } => {
            assert_eq!(content_id, "cid-1");
            assert_eq!(added_node_id, "node-A");
            assert!(member_nodes.contains(&"node-A".to_string()));
        }
        _ => panic!("expected ContentNetworkManagerAdded"),
    }
}

#[test]
fn remove_member_node_emits_event_and_updates_set() {
    let content_id = ContentId::new("cid-1".to_string()).unwrap();
    let node_a = NodeId::new("node-A".to_string()).unwrap();
    let node_b = NodeId::new("node-B".to_string()).unwrap();
    let (_, public_key_a) = generate_test_keypair();
    let (_, public_key_b) = generate_test_keypair();

    let mut net = ContentNetwork::new(content_id, node_a.clone(), public_key_a).unwrap();
    net.add_member_with_public_key(node_b.clone(), public_key_b).unwrap();

    let (net, events) = remove_member_node(net, node_a.clone(), "low_capacity".into());

    assert!(!net.has_member(&node_a));
    assert!(net.has_member(&node_b));
    assert_eq!(events.len(), 1);
    match &events[0] {
        Event::ContentNetworkManagerRemoved {
            content_id,
            removed_node_id,
            member_nodes,
            reason,
            ..
        } => {
            assert_eq!(content_id, "cid-1");
            assert_eq!(removed_node_id, "node-A");
            assert!(!member_nodes.contains(&"node-A".to_string()));
            assert!(member_nodes.contains(&"node-B".to_string()));
            assert_eq!(reason, "low_capacity");
        }
        _ => panic!("expected ContentNetworkManagerRemoved"),
    }
}

#[test]
fn remove_member_node_no_op_if_not_member() {
    let content_id = ContentId::new("cid-1".to_string()).unwrap();
    let initial_node = NodeId::new("node-initial".to_string()).unwrap();
    let (_, public_key) = generate_test_keypair();
    let net = ContentNetwork::new(content_id, initial_node, public_key).unwrap();

    let node_x = NodeId::new("node-X".to_string()).unwrap();
    let (net, events) = remove_member_node(net, node_x.clone(), "test".into());

    assert!(events.is_empty());
    assert!(!net.has_member(&node_x));
}

#[test]
fn test_create_content_network_with_public_key() {
    let content_id = ContentId::new("test-content".to_string()).unwrap();
    let node_id = NodeId::new("node-1".to_string()).unwrap();
    let (_, public_key) = generate_test_keypair();

    let network =
        ContentNetwork::new(content_id.clone(), node_id.clone(), public_key.clone()).unwrap();

    assert_eq!(network.content_id(), &content_id);
    assert!(network.has_member(&node_id));
    assert_eq!(network.get_public_key(&node_id), Some(public_key.as_slice()));
}

#[test]
fn test_invalid_public_key_format() {
    let content_id = ContentId::new("test-content".to_string()).unwrap();
    let node_id = NodeId::new("node-1".to_string()).unwrap();
    let invalid_key = vec![0u8; 32]; // Wrong length

    let result = ContentNetwork::new(content_id, node_id, invalid_key);
    assert!(result.is_err());
    assert!(matches!(result.unwrap_err(), ValueError::InvalidPublicKeyFormat(_)));
}

#[test]
fn test_add_member_with_public_key() {
    let content_id = ContentId::new("test-content".to_string()).unwrap();
    let node1 = NodeId::new("node-1".to_string()).unwrap();
    let (_, key1) = generate_test_keypair();

    let mut network = ContentNetwork::new(content_id, node1, key1).unwrap();

    let node2 = NodeId::new("node-2".to_string()).unwrap();
    let (_, key2) = generate_test_keypair();

    let result = network.add_member_with_public_key(node2.clone(), key2.clone());
    assert!(result.is_ok());
    assert!(result.unwrap());
    assert_eq!(network.get_public_key(&node2), Some(key2.as_slice()));
}

#[test]
fn test_update_public_key() {
    let content_id = ContentId::new("test-content".to_string()).unwrap();
    let node_id = NodeId::new("node-1".to_string()).unwrap();
    let (_, old_key) = generate_test_keypair();

    let mut network = ContentNetwork::new(content_id, node_id.clone(), old_key.clone()).unwrap();

    let (_, new_key) = generate_test_keypair();
    network.update_public_key(&node_id, new_key.clone()).unwrap();

    assert_eq!(network.get_public_key(&node_id), Some(new_key.as_slice()));
    assert_ne!(network.get_public_key(&node_id), Some(old_key.as_slice()));
}

#[test]
fn test_remove_member_removes_public_key() {
    let content_id = ContentId::new("test-content".to_string()).unwrap();
    let node1 = NodeId::new("node-1".to_string()).unwrap();
    let node2 = NodeId::new("node-2".to_string()).unwrap();
    let (_, key1) = generate_test_keypair();
    let (_, key2) = generate_test_keypair();

    let mut network = ContentNetwork::new(content_id, node1, key1).unwrap();
    network.add_member_with_public_key(node2.clone(), key2).unwrap();

    network.remove_member(&node2);

    assert!(!network.has_member(&node2));
    assert_eq!(network.get_public_key(&node2), None);
}

#[test]
fn wrong_key_length_message_names_the_length() {
    let content_id = ContentId::new("c".to_string()).unwrap();
    let node_id = NodeId::new("n".to_string()).unwrap();
    match ContentNetwork::new(content_id, node_id, vec![4u8; 32]) {
        Err(ValueError::InvalidPublicKeyFormat(m)) => {
            assert_eq!(m, "Expected 65 bytes (P-256 uncompressed), got 32")
        }
        _ => panic!("expected InvalidPublicKeyFormat"),
    }
}

#[test]
fn a_65_byte_non_point_is_refused() {
    let content_id = ContentId::new("c".to_string()).unwrap();
    let node_id = NodeId::new("n".to_string()).unwrap();
    let mut bogus = vec![0u8; 65];
    bogus[0] = 4;
    assert!(matches!(
        ContentNetwork::new(content_id, node_id, bogus),
        Err(ValueError::InvalidPublicKeyFormat(_))
    ));
}

#[test]
fn members_are_listed_in_id_order() {
    let (_, k1) = generate_test_keypair();
    let (_, k2) = generate_test_keypair();
    let (_, k3) = generate_test_keypair();
    let mut net = ContentNetwork::new(
        ContentId::new("c".to_string()).unwrap(),
        NodeId::new("node-m".to_string()).unwrap(),
        k1,
    )
    .unwrap();
    net.add_member_with_public_key(NodeId::new("node-z".to_string()).unwrap(), k2).unwrap();
    net.add_member_with_public_key(NodeId::new("node-a".to_string()).unwrap(), k3).unwrap();
    assert_eq!(net.member_nodes_as_strings(), vec!["node-a", "node-m", "node-z"]);
    assert_eq!(net.member_count(), 3);
    assert!(net.has_member_str("node-z"));
    let ids: Vec<String> = net.member_nodes().iter().map(|n| n.as_str().to_string()).collect();
    assert_eq!(ids, vec!["node-a", "node-m", "node-z"]);
}

#[test]
fn the_last_member_is_kept() {
    let (_, k) = generate_test_keypair();
    let node = NodeId::new("only".to_string()).unwrap();
    let mut net = ContentNetwork::new(ContentId::new("c".to_string()).unwrap(), node.clone(), k).unwrap();
    assert!(!net.remove_member(&node));
    assert!(net.has_member(&node));
    let (net, events) = remove_member_node(net, node.clone(), "x".to_string());
    assert!(events.is_empty());
    assert_eq!(net.member_count(), 1);
}

#[test]
fn add_then_remove_restores_members_and_keys() {
    let (_, k1) = generate_test_keypair();
    let (_, k2) = generate_test_keypair();
    let first = NodeId::new("first".to_string()).unwrap();
    let second = NodeId::new("second".to_string()).unwrap();
    let mut net = ContentNetwork::new(ContentId::new("c".to_string()).unwrap(), first.clone(), k1.clone()).unwrap();
    assert_eq!(net.add_member_with_public_key(second.clone(), k2), Ok(true));
    assert!(net.remove_member(&second));
    assert_eq!(net.member_nodes_as_strings(), vec!["first"]);
    assert_eq!(net.get_public_key(&first), Some(k1.as_slice()));
}

#[test]
fn updating_the_key_of_a_stranger_is_refused() {
    let (_, k1) = generate_test_keypair();
    let (_, k2) = generate_test_keypair();
    let mut net = ContentNetwork::new(
        ContentId::new("c".to_string()).unwrap(),
        NodeId::new("a".to_string()).unwrap(),
        k1,
    )
    .unwrap();
    assert_eq!(
        net.update_public_key(&NodeId::new("b".to_string()).unwrap(), k2),
        Err(ValueError::NodeNotMember)
    );
}

#[test]
fn find_assignable_and_roundtrip_network() {
    let mut repo = ContentNetworkRepositoryImpl::default();
    repo.cids_by_required_capacity.push((300, "cid-1".into()));
    let cids = repo.find_assignable_cids(400);
    assert_eq!(cids, vec!["cid-1".to_string()]);

    let (_, key) = generate_test_keypair();
    let net = ContentNetwork::new(
        ContentId::new("cid-1".to_string()).unwrap(),
        NodeId::new("node-1".to_string()).unwrap(),
        key,
    )
    .unwrap();
    repo.save_content_network(net);
    let got = repo.get_content_network("cid-1");
    assert!(got.is_some());
}

#[test]
fn repository_keeps_one_network_per_content() {
    let mut repo = ContentNetworkRepositoryImpl::default();
    repo.cids_by_required_capacity.push((500, "big".into()));
    repo.cids_by_required_capacity.push((100, "small".into()));
    assert_eq!(repo.find_assignable_cids(200), vec!["small".to_string()]);
    assert_eq!(repo.find_assignable_cids(500), vec!["big".to_string(), "small".to_string()]);

    let (_, k1) = generate_test_keypair();
    let (_, k2) = generate_test_keypair();
    let first = ContentNetwork::new(ContentId::new("x".to_string()).unwrap(), NodeId::new("a".to_string()).unwrap(), k1).unwrap();
    let second = ContentNetwork::new(ContentId::new("x".to_string()).unwrap(), NodeId::new("b".to_string()).unwrap(), k2).unwrap();
    repo.save_content_network(first);
    repo.save_content_network(second);
    let got = repo.get_content_network("x").unwrap();
    assert_eq!(got.member_nodes_as_strings(), vec!["b"]);
    assert!(repo.get_content_network("y").is_none());
}
