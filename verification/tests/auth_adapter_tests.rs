use base64::engine::general_purpose::URL_SAFE_NO_PAD;
use base64::Engine;
use monas_state_node::access_policy::AccessPolicy;
use monas_state_node::auth_capability::AuthCapability;
use monas_state_node::auth_token::{AuthToken, AuthTokenPayload, Capability, CapabilityAction};
use monas_state_node::identity::{Identity, IdentityType};
use monas_state_node::keyed::Keyed;
use monas_state_node::monas_account::{MonasAccountAdapter, MonasAuthError, SignatureContext};
use monas_state_node::node_auth::{AuthContext, NodeAuthAdapter, NodeAuthError};
use monas_state_node::ucan::{AuthorizationRequest, AuthorizationResult, UcanAdapter, UcanAuthError, UcanParseError};
use monas_state_node::value_objects::ContentId;
use p256::ecdsa::signature::Signer;
use p256::ecdsa::{Signature, SigningKey};
use std::time::{SystemTime, UNIX_EPOCH};

fn now() -> u64 {
    SystemTime::now().duration_since(UNIX_EPOCH).unwrap().as_secs()
}

fn create_test_key() -> (SigningKey, Vec<u8>, String) {
    let signing_key = SigningKey::random(&mut rand_core::OsRng);
    let public_key = signing_key.verifying_key().to_encoded_point(false).as_bytes().to_vec();
    let key_id = format!("user:{}", hex::encode(&public_key));
    (signing_key, public_key, key_id)
}

#[test]
fn authenticate_self_contained_key_id() {
    let (_, _, key_id) = create_test_key();
    let adapter = MonasAccountAdapter::new();
    let identity = adapter.authenticate(&key_id, None).unwrap();
    assert!(identity.id().starts_with("04"));
    assert_eq!(identity.id().len(), 130);
    assert!(identity.is_user());
}

#[test]
fn authenticate_legacy_key_id_is_rejected() {
    let adapter = MonasAccountAdapter::new();
    let err = adapter.authenticate("user:alice", None).unwrap_err();
    assert!(err.message().contains("not self-contained"));
    assert_eq!(err, MonasAuthError::NotSelfContained { len: 5 });
}

#[test]
fn malformed_key_ids_are_rejected() {
    let adapter = MonasAccountAdapter::new();
    assert!(matches!(adapter.authenticate("invalid:key:format", None), Err(MonasAuthError::UnknownIdentityType(_))));
    assert!(matches!(adapter.authenticate("alice", None), Err(MonasAuthError::InvalidKeyIdFormat(_))));
    assert_eq!(adapter.authenticate("user:", None), Err(MonasAuthError::EmptyIdentifier));
    assert!(adapter.authenticate("unknown:test", None).is_err());
}

#[test]
fn key_with_bad_hex_is_rejected() {
    let bad = format!("user:04{}", "zz".repeat(64));
    assert_eq!(
        MonasAccountAdapter::extract_public_key_from_key_id(&bad),
        Err(MonasAuthError::InvalidHex)
    );
    assert_eq!(
        MonasAccountAdapter::extract_public_key_from_key_id("nocolon"),
        Err(MonasAuthError::MissingColon)
    );
}

#[test]
fn signature_with_context_is_checked() {
    let (signing_key, _, key_id) = create_test_key();
    let adapter = MonasAccountAdapter::new();
    let message = "test message";
    let signature: Signature = signing_key.sign(message.as_bytes());
    let context = SignatureContext::new(message.to_string(), signature.to_vec()).with_timestamp(now());
    assert!(adapter.verify_signature_with_context(&key_id, &context).is_ok());

    let bad = SignatureContext::new(message.to_string(), vec![0u8; 64]).with_timestamp(now());
    let err = adapter.verify_signature_with_context(&key_id, &bad).unwrap_err();
    assert!(err.message().contains("Signature verification failed"));
}

#[test]
fn old_or_future_timestamps_are_refused() {
    let (signing_key, _, key_id) = create_test_key();
    let adapter = MonasAccountAdapter::new();
    let message = "test message";
    let signature: Signature = signing_key.sign(message.as_bytes());
    let context = SignatureContext::new(message.to_string(), signature.to_vec()).with_timestamp(1_000_000);
    let err = adapter.verify_signature_with_context_at(&key_id, &context, 1_000_301).unwrap_err();
    assert!(err.message().contains("timestamp too old"));
    assert!(adapter.verify_signature_with_context_at(&key_id, &context, 1_000_300).is_ok());
    assert_eq!(
        adapter.verify_signature_with_context_at(&key_id, &context, 999_969),
        Err(MonasAuthError::FutureTimestamp)
    );
    assert!(adapter.verify_signature_with_context_at(&key_id, &context, 999_970).is_ok());
}

#[test]
fn is_valid_and_issuer_of_key_ids() {
    let (_, _, key_id) = create_test_key();
    let adapter = MonasAccountAdapter::new();
    assert!(adapter.is_valid_at(&key_id, None, now()));
    assert!(!adapter.is_valid_at("invalid", None, now()));
    let issuer = adapter.get_issuer(&key_id, None).unwrap().unwrap();
    assert!(issuer.id().starts_with("04"));
}

#[test]
fn request_signature_for_key_id_token() {
    let (signing_key, _, key_id) = create_test_key();
    let adapter = MonasAccountAdapter::new();
    let message = "update:content-1:1234567890:abc123";
    let signature: Signature = signing_key.sign(message.as_bytes());
    let t = now();
    assert!(adapter
        .verify_request_signature_at(&key_id, None, &signature.to_vec(), message, Some(t), t)
        .is_ok());
    assert!(adapter
        .verify_request_signature_at(&key_id, None, &vec![0u8; 64], message, Some(0), t)
        .is_err());
}

fn delegated_jwt(owner: &SigningKey, owner_kid: &str, recipient_kid: &str, content: &str, can: CapabilityAction, exp: u64, iat: u64) -> (String, AuthToken) {
    let header = r#"{"alg":"ES256","typ":"JWT","ver":"1.0"}"#;
    let payload_json = format!(
        r#"{{"iss":"{}","aud":"{}","exp":{},"iat":{},"jti":"j","att":[{{"with":"monas://content/{}","can":"read"}}]}}"#,
        owner_kid, recipient_kid, exp, iat, content
    );
    let h = URL_SAFE_NO_PAD.encode(header.as_bytes());
    let p = URL_SAFE_NO_PAD.encode(payload_json.as_bytes());
    let input = format!("{h}.{p}");
    let sig: Signature = owner.sign(input.as_bytes());
    let jwt = format!("{input}.{}", URL_SAFE_NO_PAD.encode(sig.to_bytes()));
    let parsed = AuthToken::new(
        AuthTokenPayload {
            iss: owner_kid.to_string(),
            aud: recipient_kid.to_string(),
            exp: Some(exp),
            iat,
            jti: "j".to_string(),
            att: vec![Capability { with: format!("monas://content/{}", content), can }],
            fct: None,
        },
        sig.to_vec(),
    );
    (jwt, parsed)
}

#[test]
fn delegated_jwt_names_its_audience_and_verifies() {
    let (owner_key, _, owner_kid) = create_test_key();
    let (recipient_key, _, recipient_kid) = create_test_key();
    let t = now();
    let (jwt, parsed) = delegated_jwt(&owner_key, &owner_kid, &recipient_kid, "content-1", CapabilityAction::Read, t + 3600, t);
    let adapter = MonasAccountAdapter::new();
    let identity = adapter.authenticate(&jwt, Some(&parsed)).unwrap();
    assert_eq!(format!("user:{}", identity.id()), recipient_kid);
    assert!(adapter.verify_jwt_signature_at(&jwt, &parsed, t).is_ok());
    assert!(adapter.is_valid_at(&jwt, Some(&parsed), t));
    assert_eq!(adapter.verify_jwt_signature_at(&jwt, &parsed, t + 3600), Err(MonasAuthError::JwtExpired));
    assert_eq!(adapter.authenticate(&jwt, None), Err(MonasAuthError::JwtParse));

    for i in 0..2u64 {
        let ts = t + i;
        let message = format!("read:content-1:{ts}");
        let sig: Signature = recipient_key.sign(message.as_bytes());
        let result = adapter.verify_request_signature_at(&jwt, Some(&parsed), &sig.to_vec(), &message, Some(ts), ts);
        assert!(result.is_ok(), "request {i} should verify: {result:?}");
    }
}

fn identity_of(kid: &str) -> Identity {
    Identity::new(kid.split_once(':').unwrap().1.to_string(), IdentityType::User).unwrap()
}

fn request(identity: Identity, cap: AuthCapability, token: Option<String>, signed: bool) -> AuthorizationRequest {
    AuthorizationRequest {
        identity,
        resource: "content-1".to_string(),
        capability: cap,
        token,
        request_signature: if signed { Some(vec![1, 2, 3]) } else { None },
    }
}

#[test]
fn owner_is_always_granted() {
    let (_, _, owner_kid) = create_test_key();
    let owner = identity_of(&owner_kid);
    let policy = AccessPolicy::new(ContentId::new("content-1".to_string()).unwrap(), owner.clone());
    let adapter = UcanAdapter::new();
    let r = adapter.authorize_at(&request(owner, AuthCapability::DeleteContent, None, false), Some(&policy), None, now());
    assert_eq!(r, AuthorizationResult::Granted);
}

#[test]
fn authorization_denials() {
    let (_, _, owner_kid) = create_test_key();
    let (_, _, other_kid) = create_test_key();
    let policy = AccessPolicy::new(ContentId::new("content-1".to_string()).unwrap(), identity_of(&owner_kid));
    let adapter = UcanAdapter::new();
    let other = identity_of(&other_kid);
    assert_eq!(
        adapter.authorize_at(&request(other.clone(), AuthCapability::ReadContent, None, true), None, None, now()),
        AuthorizationResult::Denied { reason: "No access policy found for resource".to_string() }
    );
    assert_eq!(
        adapter.authorize_at(&request(other.clone(), AuthCapability::ReadContent, None, true), Some(&policy), None, now()),
        AuthorizationResult::Denied { reason: "Non-owner access requires an AuthToken".to_string() }
    );
    assert_eq!(
        adapter.authorize_at(&request(other, AuthCapability::ReadContent, Some("x.y.z".to_string()), true), Some(&policy), None, now()),
        AuthorizationResult::Denied { reason: "AuthToken verification failed: Failed to parse AuthToken".to_string() }
    );
}

#[test]
fn delegated_token_grants_and_refuses() {
    let (owner_key, _, owner_kid) = create_test_key();
    let (_, _, recipient_kid) = create_test_key();
    let t = now();
    let (jwt, parsed) = delegated_jwt(&owner_key, &owner_kid, &recipient_kid, "content-1", CapabilityAction::Read, t + 3600, t);
    let policy = AccessPolicy::new(ContentId::new("content-1".to_string()).unwrap(), identity_of(&owner_kid));
    let adapter = UcanAdapter::new();
    let recipient = identity_of(&recipient_kid);

    let granted = adapter.authorize_at(&request(recipient.clone(), AuthCapability::ReadContent, Some(jwt.clone()), true), Some(&policy), Some(&parsed), t);
    assert_eq!(granted, AuthorizationResult::Granted);

    let wrong_cap = adapter.verify_auth_token_at(&jwt, &parsed, &request(recipient.clone(), AuthCapability::WriteContent, Some(jwt.clone()), true), 0, policy.owner(), t);
    assert_eq!(wrong_cap, Err(UcanAuthError::InsufficientCapability));

    let unsigned = adapter.verify_auth_token_at(&jwt, &parsed, &request(recipient.clone(), AuthCapability::ReadContent, Some(jwt.clone()), false), 0, policy.owner(), t);
    assert_eq!(unsigned, Err(UcanAuthError::RequestSignatureRequired));

    let expired = adapter.verify_auth_token_at(&jwt, &parsed, &request(recipient.clone(), AuthCapability::ReadContent, Some(jwt.clone()), true), 0, policy.owner(), t + 3600);
    assert_eq!(expired, Err(UcanAuthError::Expired));

    let invalidated = adapter.verify_auth_token_at(&jwt, &parsed, &request(recipient.clone(), AuthCapability::ReadContent, Some(jwt.clone()), true), t + 1, policy.owner(), t);
    assert_eq!(invalidated, Err(UcanAuthError::Invalidated { iat: t, min_valid_issued_at: t + 1 }));

    let stranger = identity_of(&create_test_key().2);
    let not_owner = adapter.verify_auth_token_at(&jwt, &parsed, &request(recipient.clone(), AuthCapability::ReadContent, Some(jwt.clone()), true), 0, &stranger, t);
    assert!(matches!(not_owner, Err(UcanAuthError::IssuerMismatch { .. })));

    match adapter.authorize_at(&request(recipient, AuthCapability::WriteContent, Some(jwt.clone()), true), Some(&policy), Some(&parsed), t) {
        AuthorizationResult::Denied { reason } => {
            assert_eq!(reason, "AuthToken verification failed: AuthToken does not grant required capability")
        }
        AuthorizationResult::Granted => panic!("expected a denial"),
    }
}

#[test]
fn ucan_helpers() {
    assert_eq!(UcanAdapter::map_capability_to_ucan(&AuthCapability::ReadMetadata), "content/read-metadata");
    let adapter = UcanAdapter::new();
    let ucan = adapter.parse_ucan("a.b.c").unwrap();
    assert!(adapter.verify_ucan(&ucan).is_err());
    assert!(adapter.parse_ucan("").is_err());
    assert!(adapter.parse_ucan("a..c").is_err());
    assert!(adapter.parse_ucan("a.b").is_err());
    let owner = Identity::new("04ab".to_string(), IdentityType::Service).unwrap();
    assert_eq!(UcanAdapter::identity_to_key_id(&owner), "service:04ab");
    let (_, pk, kid) = create_test_key();
    assert_eq!(UcanAdapter::extract_public_key_from_key_id(&kid), Some(pk.clone()));
    assert_eq!(UcanAdapter::extract_public_key_from_key_id(&format!("monas:{}", kid)), Some(pk));
    assert_eq!(UcanAdapter::extract_public_key_from_key_id("user:alice"), None);
}

fn registry_with(node_id: &str, key: &[u8]) -> Keyed<Vec<u8>> {
    let mut k = Keyed::new();
    k.insert(node_id.to_string(), key.to_vec());
    k
}

#[test]
fn node_tokens_are_read() {
    let adapter = NodeAuthAdapter::new(Keyed::new());
    assert_eq!(adapter.parse_node_token("node:abc"), Ok(("abc".to_string(), None)));
    assert_eq!(adapter.parse_node_token("node:abc:0102"), Ok(("abc".to_string(), Some(vec![1, 2]))));
    assert_eq!(adapter.parse_node_token("node:abc:"), Ok(("abc".to_string(), None)));
    assert_eq!(adapter.parse_node_token("node:"), Err(NodeAuthError::EmptyNodeId));
    assert_eq!(adapter.parse_node_token("node:abc:zz"), Err(NodeAuthError::InvalidSignatureHex));
    assert!(matches!(adapter.parse_node_token("user:abc"), Err(NodeAuthError::InvalidTokenFormat(_))));
    assert!(matches!(adapter.parse_node_token("node"), Err(NodeAuthError::InvalidTokenFormat(_))));
}

#[test]
fn node_is_authenticated_with_its_signature() {
    let signing_key = SigningKey::random(&mut rand_core::OsRng);
    let public_key = signing_key.verifying_key().to_encoded_point(false).as_bytes().to_vec();
    let node_id = "QmNode";
    let adapter = NodeAuthAdapter::new(registry_with(node_id, &public_key));
    let context = AuthContext { content_id: "test-content-123".to_string(), operation: "read".to_string() };
    let message = format!("{}:{}", context.content_id, context.operation);
    let signature: Signature = signing_key.sign(message.as_bytes());
    let token = format!("node:{}:{}", node_id, hex::encode(signature.to_der()));
    let identity = adapter.authenticate(&token, Some(&context), node_id).unwrap();
    assert_eq!(identity.id(), node_id);
    assert!(identity.is_node());

    let wrong: Signature = signing_key.sign(b"wrong-message");
    let bad = format!("node:{}:{}", node_id, hex::encode(wrong.to_der()));
    assert!(matches!(adapter.authenticate(&bad, Some(&context), node_id), Err(NodeAuthError::Signature(_))));

    assert!(adapter.authenticate(&format!("node:{}", node_id), None, node_id).is_ok());
    assert!(matches!(
        adapter.authenticate(&format!("node:{}", node_id), None, "QmOther"),
        Err(NodeAuthError::NodeIdMismatch { .. })
    ));
    assert!(matches!(
        adapter.authenticate("node:QmUnregistered", None, "QmUnregistered"),
        Err(NodeAuthError::PublicKeyNotFound(_))
    ));
    assert!(adapter.is_valid(&format!("node:{}", node_id)));
    assert!(!adapter.is_valid("node:QmUnregistered"));
    assert!(!adapter.is_valid("invalid:token"));
}

#[test]
fn ucan_capability_is_read_from_the_token_text() {
    let adapter = UcanAdapter::new();
    let ucan = adapter.parse_ucan("hdr.monas://content/abc:content/write.sig").unwrap();
    assert!(adapter.check_ucan_capability(&ucan, "monas://content/abc", &AuthCapability::WriteContent));
    assert!(!adapter.check_ucan_capability(&ucan, "monas://content/abc", &AuthCapability::DeleteContent));
    assert!(!adapter.check_ucan_capability(&ucan, "monas://content/xyz", &AuthCapability::WriteContent));
}

#[test]
fn authorization_by_the_clock_grants_fresh_delegations() {
    let (owner_key, _, owner_kid) = create_test_key();
    let (_, _, recipient_kid) = create_test_key();
    let t = now();
    let (jwt, parsed) = delegated_jwt(&owner_key, &owner_kid, &recipient_kid, "content-1", CapabilityAction::Write, t + 3600, t);
    let policy = AccessPolicy::new(ContentId::new("content-1".to_string()).unwrap(), identity_of(&owner_kid));
    let adapter = UcanAdapter::new();
    let recipient = identity_of(&recipient_kid);
    let req = request(recipient, AuthCapability::WriteContent, Some(jwt.clone()), true);
    assert_eq!(adapter.authorize(&req, Some(&policy), Some(&parsed)), AuthorizationResult::Granted);
    assert_eq!(adapter.verify_auth_token(&jwt, &parsed, &req, 0, policy.owner()), Ok(()));
    assert_eq!(
        adapter.verify_auth_token(&jwt, &parsed, &req, t + 1, policy.owner()),
        Err(UcanAuthError::Invalidated { iat: t, min_valid_issued_at: t + 1 })
    );
}

#[test]
fn ucan_authorization_is_refused_until_chains_verify() {
    let adapter = UcanAdapter::new();
    let (_, _, kid) = create_test_key();
    let req = request(identity_of(&kid), AuthCapability::ReadContent, None, false);
    assert_eq!(adapter.check_ucan_authorization("", &req), Err(UcanParseError::Empty));
    assert_eq!(adapter.check_ucan_authorization("a.b", &req), Err(UcanParseError::InvalidFormat { parts: 2 }));
    assert_eq!(adapter.check_ucan_authorization("a..c", &req), Err(UcanParseError::EmptyPart { index: 1 }));
    assert_eq!(adapter.check_ucan_authorization("a.b.c", &req), Err(UcanParseError::VerificationNotImplemented));
}

#[test]
fn public_keys_come_from_key_ids_or_an_error_names_the_form() {
    let (_, pk, kid) = create_test_key();
    assert_eq!(UcanAdapter::get_public_key_from_key_id(&kid), Ok(pk));
    assert_eq!(
        UcanAdapter::get_public_key_from_key_id("user:alice"),
        Err("Cannot extract public key from key ID 'user:alice': expected format 'type:{130-hex-char-public-key}'".to_string())
    );
}
