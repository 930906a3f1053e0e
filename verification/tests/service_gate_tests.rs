use monas_state_node::access_control::{AccessControlError, AccessControlUpdate, ContentAccessControl};
use monas_state_node::auth_token::{AuthToken, AuthTokenPayload};
use monas_state_node::content_network::ContentNetwork;
use monas_state_node::errors::StateNodeError;
use monas_state_node::keyed::Keyed;
use monas_state_node::node_service::{
    apply_access_control_update, choose_members, require_access_update_credentials,
    require_credentials, require_member,
};
use monas_state_node::sync::{contents_to_sync, FetchOutcome, PushResult, SyncResult};
use monas_state_node::value_objects::{ContentId, NodeId};
use monas_state_node::node_service::check_update_signature;
use p256::ecdsa::signature::DigestSigner;
use p256::ecdsa::SigningKey;
use sha2::Digest;

fn token() -> AuthToken {
    AuthToken::new(
        AuthTokenPayload {
            iss: "monas:user:alice".to_string(),
            aud: "monas:user:alice".to_string(),
            exp: None,
            iat: 1,
            jti: "j".to_string(),
            att: vec![],
            fct: None,
        },
        vec![],
    )
}

fn public_key() -> Vec<u8> {
    let key = SigningKey::random(&mut rand_core::OsRng);
    key.verifying_key().to_encoded_point(false).as_bytes().to_vec()
}

fn strings(v: &[&str]) -> Vec<String> {
    v.iter().map(|s| s.to_string()).collect()
}

#[test]
fn credentials_are_checked_in_order() {
    let t = token();
    let sig: &[u8] = &[1, 2];
    assert!(require_credentials(Some(&t), Some(sig), true, true).is_ok());
    assert!(matches!(
        require_credentials(None, None, false, false),
        Err(StateNodeError::AuthenticationFailed(m)) if m == "Authentication token is required"
    ));
    assert!(matches!(
        require_credentials(Some(&t), None, false, false),
        Err(StateNodeError::AuthenticationFailed(m)) if m == "Request signature is required"
    ));
    assert!(matches!(
        require_credentials(Some(&t), Some(sig), false, true),
        Err(StateNodeError::InvalidConfiguration(m)) if m == "Authentication not configured"
    ));
    assert!(matches!(
        require_credentials(Some(&t), Some(sig), true, false),
        Err(StateNodeError::InvalidConfiguration(m)) if m == "Authorization not configured"
    ));
}

#[test]
fn only_members_pass_the_member_check() {
    let cid = ContentId::new("cid-1".to_string()).unwrap();
    let net = ContentNetwork::new(cid.clone(), NodeId::new("node-a".to_string()).unwrap(), public_key()).unwrap();
    assert!(require_member(&net, "node-a").is_ok());
    assert!(matches!(
        require_member(&net, "node-b"),
        Err(StateNodeError::NotAMember { node_id, content_id }) if node_id == "node-b" && content_id == cid
    ));
}

#[test]
fn members_are_chosen_by_capacity_without_the_creator() {
    let mut caps = Keyed::new();
    caps.insert("a".to_string(), 10u64);
    caps.insert("b".to_string(), 30u64);
    caps.insert("self".to_string(), 100u64);
    caps.insert("d".to_string(), 20u64);
    let closest = strings(&["a", "self", "b", "c", "d"]);
    let chosen = choose_members(&closest, &caps, &strings(&["self"]), 3).unwrap();
    assert_eq!(chosen, strings(&["b", "d", "a"]));
    assert!(matches!(
        choose_members(&strings(&["self"]), &caps, &strings(&["self"]), 3),
        Err(StateNodeError::NoAvailableMembers)
    ));
    assert!(matches!(choose_members(&closest, &caps, &strings(&[]), 0), Err(StateNodeError::NoAvailableMembers)));
}

#[test]
fn access_updates_start_from_a_fresh_state() {
    let update = AccessControlUpdate::new("cid".to_string(), 500);
    let state = apply_access_control_update(None, &update).unwrap();
    assert_eq!(state.content_id(), "cid");
    assert_eq!(state.min_valid_issued_at(), 500);
    assert_eq!(state.version(), 2);
}

#[test]
fn access_updates_move_the_cutoff_forward_only() {
    let existing = ContentAccessControl::with_values("cid".to_string(), 800, 5, 0);
    let update = AccessControlUpdate::new("cid".to_string(), 900);
    let state = apply_access_control_update(Some(existing.clone()), &update).unwrap();
    assert_eq!(state.min_valid_issued_at(), 900);
    assert_eq!(state.version(), 6);
    let back = AccessControlUpdate::new("cid".to_string(), 700);
    assert_eq!(
        apply_access_control_update(Some(existing), &back).unwrap_err(),
        AccessControlError::InvalidTimestamp { current: 800, requested: 700 }
    );
}

#[test]
fn access_update_credentials_are_checked_in_order() {
    let t = token();
    let sig: &[u8] = &[1];
    assert_eq!(require_access_update_credentials(true, Some(&t), Some(sig), true, true), Ok(()));
    assert_eq!(
        require_access_update_credentials(false, None, None, false, false),
        Err(AccessControlError::ContentNotFound)
    );
    assert_eq!(
        require_access_update_credentials(true, None, Some(sig), true, true),
        Err(AccessControlError::InvalidSignature)
    );
    assert_eq!(
        require_access_update_credentials(true, Some(&t), None, true, true),
        Err(AccessControlError::InvalidSignature)
    );
    assert_eq!(
        require_access_update_credentials(true, Some(&t), Some(sig), true, false),
        Err(AccessControlError::NotAuthorized)
    );
}

#[test]
fn sync_rounds_count_providers_and_operations() {
    let mut result = SyncResult::new();
    result.record_provider("p1", FetchOutcome::Applied(3));
    result.record_provider("p2", FetchOutcome::NoOperations);
    result.record_provider("p3", FetchOutcome::FetchFailed("timeout".to_string()));
    result.record_provider("p4", FetchOutcome::ApplyFailed("bad op".to_string()));
    assert_eq!(result.providers_contacted, 4);
    assert_eq!(result.operations_applied, 3);
    assert_eq!(
        result.errors,
        strings(&["Failed to fetch from p3: timeout", "Failed to apply operations from p4: bad op"])
    );
}

#[test]
fn push_rounds_count_members_and_operations() {
    let mut result = PushResult::new();
    result.record_push("n1", Ok(2));
    result.record_push("n2", Err("refused".to_string()));
    result.record_push("n3", Ok(5));
    assert_eq!(result.nodes_pushed, 2);
    assert_eq!(result.operations_sent, 7);
    assert_eq!(result.errors, strings(&["Failed to push to n2: refused"]));
}

#[test]
fn access_updates_need_the_owner_signature() {
    let key = SigningKey::random(&mut rand_core::OsRng);
    let public_key = key.verifying_key().to_encoded_point(false).as_bytes().to_vec();
    let unsigned = AccessControlUpdate::new("cid".to_string(), 900);
    assert_eq!(check_update_signature(&unsigned), Err(AccessControlError::InvalidSignature));

    let message = unsigned.signing_message();
    let (sig, _): (p256::ecdsa::Signature, _) = key.sign_digest(sha2::Sha256::new_with_prefix(&message));
    let signed = unsigned.clone().with_signature(sig.to_vec(), public_key.clone());
    assert_eq!(check_update_signature(&signed), Ok(()));

    let other = AccessControlUpdate::new("cid".to_string(), 901).with_signature(sig.to_vec(), public_key);
    assert_eq!(check_update_signature(&other), Err(AccessControlError::InvalidSignature));
}

#[test]
fn periodic_sync_pulls_the_contents_this_node_holds() {
    let net = |cid: &str, node: &str| {
        ContentNetwork::new(ContentId::new(cid.to_string()).unwrap(), NodeId::new(node.to_string()).unwrap(), public_key()).unwrap()
    };
    let networks = vec![net("c1", "me"), net("c2", "other"), net("c3", "me")];
    assert_eq!(contents_to_sync(&networks, "me"), strings(&["c1", "c3"]));
    assert!(contents_to_sync(&networks, "nobody").is_empty());
}
