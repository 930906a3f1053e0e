use monas_state_node::content_network::ContentNetwork;
use monas_state_node::errors::StateNodeError;
use monas_state_node::events::Event;
use monas_state_node::http_api::{
    content_response, created_response, decode_content_data, health_response, node_info_response,
    register_response, service_error_response, updated_response, ErrorResponse, BAD_REQUEST,
    INTERNAL_SERVER_ERROR, NOT_FOUND,
};
use monas_state_node::state_node::NodeSnapshot;
use monas_state_node::value_objects::{ContentId, NodeId};
use p256::ecdsa::SigningKey;

#[test]
fn health_reports_ok_and_the_node() {
    let r = health_response("node-1");
    assert_eq!(r.status, "ok");
    assert_eq!(r.node_id, "node-1");
}

#[test]
fn node_info_has_capacities_only_when_registered() {
    let snapshot = NodeSnapshot { node_id: "node-1".to_string(), total_capacity: 100, available_capacity: 40 };
    let r = node_info_response("node-1", Some(&snapshot));
    assert_eq!((r.total_capacity, r.available_capacity), (Some(100), Some(40)));
    let r = node_info_response("node-2", None);
    assert_eq!(r.node_id, "node-2");
    assert_eq!((r.total_capacity, r.available_capacity), (None, None));
    let reg = register_response(&snapshot);
    assert_eq!((reg.node_id.as_str(), reg.total_capacity, reg.available_capacity), ("node-1", 100, 40));
}

#[test]
fn content_data_must_be_base64() {
    assert_eq!(decode_content_data("aGVsbG8=").unwrap(), b"hello".to_vec());
    let (status, body) = decode_content_data("not base64!").unwrap_err();
    assert_eq!(status, BAD_REQUEST);
    assert!(body.error.starts_with("Invalid base64 data: "));
}

#[test]
fn creations_answer_with_the_event_contents() {
    let event = Event::ContentCreated {
        content_id: "cid".to_string(),
        creator_node_id: "n0".to_string(),
        content_size: 5,
        member_nodes: vec!["n1".to_string(), "n2".to_string()],
        timestamp: 1,
    };
    let r = created_response(event).unwrap();
    assert_eq!(r.content_id, "cid");
    assert_eq!(r.member_nodes, vec!["n1".to_string(), "n2".to_string()]);
    let other = Event::ContentDeleted { content_id: "cid".to_string(), deleted_by_node_id: "n".to_string(), timestamp: 1 };
    assert_eq!(
        created_response(other).unwrap_err(),
        (INTERNAL_SERVER_ERROR, ErrorResponse { error: "Unexpected event type".to_string() })
    );
}

#[test]
fn lookups_answer_404_for_unknown_content() {
    let key = SigningKey::random(&mut rand_core::OsRng).verifying_key().to_encoded_point(false).as_bytes().to_vec();
    let net = ContentNetwork::new(ContentId::new("cid".to_string()).unwrap(), NodeId::new("n1".to_string()).unwrap(), key).unwrap();
    let r = content_response("cid", Some(&net)).unwrap();
    assert_eq!(r.content_id, "cid");
    assert_eq!(r.member_nodes, vec!["n1".to_string()]);
    assert_eq!(
        content_response("zzz", None).unwrap_err(),
        (NOT_FOUND, ErrorResponse { error: "Content not found: zzz".to_string() })
    );
}

#[test]
fn service_failures_answer_500_with_the_message() {
    let (status, body) = service_error_response(&StateNodeError::StorageError("disk full".to_string()));
    assert_eq!(status, INTERNAL_SERVER_ERROR);
    assert_eq!(body.error, "Storage error: disk full");
    let u = updated_response("cid");
    assert_eq!(u.content_id, "cid");
    assert!(u.updated);
}
