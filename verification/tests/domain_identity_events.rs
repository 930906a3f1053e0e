use monas_state_node::events::Event;
use monas_state_node::identity::{Identity, IdentityError, IdentityType};

#[test]
fn test_event_type() {
    let event = Event::NodeCreated {
        node_id: "node-1".to_string(),
        total_capacity: 1000,
        available_capacity: 1000,
        timestamp: 12345,
    };
    assert_eq!(event.event_type(), "NodeCreated");

    let event = Event::ContentCreated {
        content_id: "cid-1".to_string(),
        creator_node_id: "node-1".to_string(),
        content_size: 100,
        member_nodes: vec!["node-1".to_string()],
        timestamp: 12345,
    };
    assert_eq!(event.event_type(), "ContentCreated");
}

#[test]
fn test_event_content_id() {
    let event = Event::ContentUpdated {
        content_id: "cid-1".to_string(),
        updated_node_id: "node-1".to_string(),
        timestamp: 12345,
    };
    assert_eq!(event.content_id(), Some("cid-1"));

    let event = Event::NodeCreated {
        node_id: "node-1".to_string(),
        total_capacity: 1000,
        available_capacity: 1000,
        timestamp: 12345,
    };
    assert_eq!(event.content_id(), None);
}

#[test]
fn event_timestamp_is_read_from_every_variant() {
    let event = Event::ContentDeleted {
        content_id: "cid-1".to_string(),
        deleted_by_node_id: "node-1".to_string(),
        timestamp: 77,
    };
    assert_eq!(event.timestamp(), 77);
    assert_eq!(event.event_type(), "ContentDeleted");
    assert_eq!(event.content_id(), Some("cid-1"));
}

#[test]
fn test_identity_creation() {
    let identity = Identity::user("alice".to_string()).unwrap();
    assert_eq!(identity.id(), "alice");
    assert!(identity.is_user());
    assert!(!identity.is_node());
}

#[test]
fn test_node_identity() {
    let identity = Identity::node("node123".to_string()).unwrap();
    assert_eq!(identity.id(), "node123");
    assert!(identity.is_node());
    assert!(!identity.is_user());
}

#[test]
fn test_empty_identifier_error() {
    let result = Identity::user("".to_string());
    assert!(matches!(result, Err(IdentityError::EmptyIdentifier)));
}

#[test]
fn test_identity_equality() {
    let id1 = Identity::user("alice".to_string()).unwrap();
    let id2 = Identity::user("alice".to_string()).unwrap();
    let id3 = Identity::user("bob".to_string()).unwrap();

    assert_eq!(id1, id2);
    assert_ne!(id1, id3);
}

#[test]
fn test_service_identity() {
    let identity = Identity::service("indexer".to_string()).unwrap();
    assert_eq!(identity.id(), "indexer");
    assert!(identity.is_service());
    assert!(!identity.is_user());
    assert!(!identity.is_node());
}

#[test]
fn same_id_of_other_type_is_another_identity() {
    let user = Identity::new("x".to_string(), IdentityType::User).unwrap();
    let node = Identity::new("x".to_string(), IdentityType::Node).unwrap();
    assert!(!user.same_as(&node));
    assert!(user.same_as(&user.duplicate()));
}
