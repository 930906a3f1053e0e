use monas_state_node::access_control::ContentAccessControl;
use monas_state_node::auth_capability::AuthCapability;
use monas_state_node::auth_token::{
    decode_jwt, encode_jwt, AuthToken, AuthTokenHeader, AuthTokenParseError, AuthTokenPayload,
    Capability, CapabilityAction, JwtSegments,
};
use monas_state_node::auth_token_verifier::{AuthTokenVerifier, AuthTokenVerifyError};
use p256::ecdsa::signature::DigestSigner;
use p256::ecdsa::{Signature, SigningKey, VerifyingKey};
use sha2::{Digest, Sha256};
use std::time::{SystemTime, UNIX_EPOCH};

#[test]
fn test_auth_token_header_default() {
    let header = AuthTokenHeader::default();
    assert_eq!(header.alg, "ES256");
    assert_eq!(header.token_type, "JWT");
    assert_eq!(header.ver, "1.0");
}

#[test]
fn test_capability_action_conversion() {
    let auth_cap = AuthCapability::ReadContent;
    let share_cap = CapabilityAction::from_auth_capability(&auth_cap);
    assert_eq!(share_cap, CapabilityAction::Read);

    let converted_back = share_cap.to_auth_capability();
    assert_eq!(converted_back, AuthCapability::ReadContent);
}

fn sample_payload() -> AuthTokenPayload {
    AuthTokenPayload {
        iss: "monas:user:alice".to_string(),
        aud: "monas:user:bob".to_string(),
        exp: Some(1706744400),
        iat: 1706740800,
        jti: "550e61f7-98e0-45c3-b28c-1f8d72a6e6c4".to_string(),
        att: vec![Capability {
            with: "monas://content/abc123".to_string(),
            can: CapabilityAction::Read,
        }],
        fct: None,
    }
}

#[test]
fn test_auth_token_has_capability() {
    let token = AuthToken::new(sample_payload(), vec![]);
    assert!(token.has_capability("monas://content/abc123", &CapabilityAction::Read));
    assert!(!token.has_capability("monas://content/abc123", &CapabilityAction::Write));
    assert!(!token.has_capability("monas://content/other", &CapabilityAction::Read));
}

#[test]
fn test_auth_token_invalid_jwt_format() {
    assert!(matches!(
        decode_jwt("invalid"),
        Err(AuthTokenParseError::InvalidFormat { parts: 1 })
    ));
    assert!(matches!(
        decode_jwt("a.b"),
        Err(AuthTokenParseError::InvalidFormat { parts: 2 })
    ));
}

#[test]
fn test_auth_token_jwt_roundtrip() {
    let header = br#"{"alg":"ES256","typ":"JWT","ver":"1.0"}"#;
    let payload = br#"{"iss":"monas:user:alice","aud":"monas:user:bob"}"#;
    let signature = vec![7u8; 64];
    let jwt = encode_jwt(header, payload, &signature);
    let parts: JwtSegments = decode_jwt(&jwt).unwrap();
    assert_eq!(parts.header_json, header.to_vec());
    assert_eq!(parts.payload_json, payload.to_vec());
    assert_eq!(parts.signature, signature);
    assert_eq!(
        parts.signing_input(),
        format!("{}.{}", parts.header_b64, parts.payload_b64).into_bytes()
    );
}

#[test]
fn decode_jwt_reports_which_part_is_not_base64() {
    assert!(matches!(decode_jwt("!.e30.e30"), Err(AuthTokenParseError::HeaderDecode)));
    assert!(matches!(decode_jwt("e30.!.e30"), Err(AuthTokenParseError::PayloadDecode)));
    assert!(matches!(decode_jwt("e30.e30.!"), Err(AuthTokenParseError::SignatureDecode)));
}

#[test]
fn token_expiry_and_invalidation() {
    let token = AuthToken::new(sample_payload(), vec![]);
    assert!(!token.is_expired_at(1706744399));
    assert!(token.is_expired_at(1706744400));
    assert!(token.is_invalidated(Some(1706740801)));
    assert!(!token.is_invalidated(Some(1706740800)));
    assert!(!token.is_invalidated(None));
}

#[test]
fn write_satisfies_read_but_not_delete() {
    assert!(CapabilityAction::Write.satisfies(&CapabilityAction::Read));
    assert!(!CapabilityAction::Write.satisfies(&CapabilityAction::Delete));
    assert!(CapabilityAction::Read.satisfies(&CapabilityAction::Read));
}

fn generate_test_keypair() -> (SigningKey, Vec<u8>) {
    let signing_key = SigningKey::random(&mut rand_core::OsRng);
    let verifying_key = VerifyingKey::from(&signing_key);
    let public_key_bytes = verifying_key.to_encoded_point(false).as_bytes().to_vec();
    (signing_key, public_key_bytes)
}

fn now() -> u64 {
    SystemTime::now().duration_since(UNIX_EPOCH).unwrap().as_secs()
}

/// A token of the given actions on a content, with the bytes it is signed
/// over and its signature over their SHA-256 digest.
fn create_and_sign(
    signing_key: &SigningKey,
    issuer: &str,
    audience: &str,
    content_id: &str,
    actions: Vec<CapabilityAction>,
    exp: Option<u64>,
) -> (AuthToken, Vec<u8>) {
    let iat = now();
    let payload = AuthTokenPayload {
        iss: issuer.to_string(),
        aud: audience.to_string(),
        exp,
        iat,
        jti: format!("test-{}", iat),
        att: actions
            .into_iter()
            .map(|can| Capability { with: format!("monas://content/{}", content_id), can })
            .collect(),
        fct: None,
    };
    let signing_input = format!("header.{}", iat).into_bytes();
    let (signature, _): (Signature, _) =
        signing_key.sign_digest(Sha256::new_with_prefix(&signing_input));
    (AuthToken::new(payload, signature.to_vec()), signing_input)
}

#[test]
fn verify_valid_token() {
    let (key, issuer_pk) = generate_test_keypair();
    let (token, input) =
        create_and_sign(&key, "iss", "aud", "test-content-123", vec![CapabilityAction::Read], Some(now() + 3600));
    let result = AuthTokenVerifier::verify(&token, &input, &issuer_pk, "aud", "test-content-123", CapabilityAction::Read, None);
    assert!(result.is_ok());
    let verified = result.unwrap();
    assert_eq!(verified.content_id, "test-content-123");
    assert_eq!(verified.action, CapabilityAction::Read);
}

#[test]
fn verify_fails_with_wrong_signature() {
    let (key, _) = generate_test_keypair();
    let (_, wrong_pk) = generate_test_keypair();
    let (token, input) =
        create_and_sign(&key, "iss", "aud", "c", vec![CapabilityAction::Read], Some(now() + 3600));
    let result = AuthTokenVerifier::verify(&token, &input, &wrong_pk, "aud", "c", CapabilityAction::Read, None);
    assert!(matches!(result, Err(AuthTokenVerifyError::SignatureError(_))));
}

#[test]
fn verify_fails_with_expired_token() {
    let (key, pk) = generate_test_keypair();
    let (token, input) =
        create_and_sign(&key, "iss", "aud", "c", vec![CapabilityAction::Read], Some(now() - 1));
    let result = AuthTokenVerifier::verify(&token, &input, &pk, "aud", "c", CapabilityAction::Read, None);
    assert!(matches!(result, Err(AuthTokenVerifyError::Expired)));
}

#[test]
fn verify_fails_with_invalidated_token() {
    let (key, pk) = generate_test_keypair();
    let (token, input) =
        create_and_sign(&key, "iss", "aud", "c", vec![CapabilityAction::Read], Some(now() + 3600));
    let mut access_control = ContentAccessControl::new("c".to_string());
    access_control.invalidate_before(now() + 3600).unwrap();
    let result = AuthTokenVerifier::verify(&token, &input, &pk, "aud", "c", CapabilityAction::Read, Some(&access_control));
    assert!(matches!(result, Err(AuthTokenVerifyError::Invalidated)));
}

#[test]
fn verify_fails_with_insufficient_capability() {
    let (key, pk) = generate_test_keypair();
    let (token, input) =
        create_and_sign(&key, "iss", "aud", "c", vec![CapabilityAction::Read], Some(now() + 3600));
    let result = AuthTokenVerifier::verify(&token, &input, &pk, "aud", "c", CapabilityAction::Write, None);
    assert!(matches!(result, Err(AuthTokenVerifyError::InsufficientCapability { .. })));
}

#[test]
fn verify_write_satisfies_read() {
    let (key, pk) = generate_test_keypair();
    let (token, input) =
        create_and_sign(&key, "iss", "aud", "c", vec![CapabilityAction::Write], Some(now() + 3600));
    let result = AuthTokenVerifier::verify(&token, &input, &pk, "aud", "c", CapabilityAction::Read, None);
    assert!(result.is_ok());
}

#[test]
fn verify_fails_with_audience_mismatch() {
    let (key, pk) = generate_test_keypair();
    let (token, input) =
        create_and_sign(&key, "iss", "aud", "c", vec![CapabilityAction::Read], Some(now() + 3600));
    let result = AuthTokenVerifier::verify(&token, &input, &pk, "someone-else", "c", CapabilityAction::Read, None);
    assert!(matches!(result, Err(AuthTokenVerifyError::AudienceMismatch { .. })));
}

#[test]
fn verify_fails_with_content_id_mismatch() {
    let (key, pk) = generate_test_keypair();
    let (token, input) = create_and_sign(
        &key, "iss", "aud", "content-A", vec![CapabilityAction::Read], Some(now() + 3600),
    );
    let result = AuthTokenVerifier::verify(&token, &input, &pk, "aud", "content-B", CapabilityAction::Read, None);
    assert!(matches!(result, Err(AuthTokenVerifyError::InsufficientCapability { .. })));
}

#[test]
fn verify_fails_with_missing_expiration() {
    let (key, pk) = generate_test_keypair();
    let (token, input) = create_and_sign(&key, "iss", "aud", "c", vec![CapabilityAction::Read], None);
    let result = AuthTokenVerifier::verify(&token, &input, &pk, "aud", "c", CapabilityAction::Read, None);
    assert!(matches!(result, Err(AuthTokenVerifyError::MissingExpiration)));
}

#[test]
fn verify_fails_with_expiration_too_far() {
    let (key, pk) = generate_test_keypair();
    let (token, input) =
        create_and_sign(&key, "iss", "aud", "c", vec![CapabilityAction::Read], Some(now() + 48 * 3600));
    let result = AuthTokenVerifier::verify(&token, &input, &pk, "aud", "c", CapabilityAction::Read, None);
    assert!(matches!(result, Err(AuthTokenVerifyError::ExpirationTooFar)));
}

#[test]
fn verify_signature_only_succeeds() {
    let (key, pk) = generate_test_keypair();
    let (token, input) =
        create_and_sign(&key, "iss", "aud", "c", vec![CapabilityAction::Read], Some(now() + 3600));
    let result = AuthTokenVerifier::verify_signature_only(token, &input, &pk);
    assert!(result.is_ok());
}

#[test]
fn verify_owner_role_capabilities() {
    let (key, pk) = generate_test_keypair();
    let all = vec![
        CapabilityAction::Read,
        CapabilityAction::Write,
        CapabilityAction::Delete,
        CapabilityAction::Share,
        CapabilityAction::Revoke,
        CapabilityAction::Reencrypt,
    ];
    let (token, input) = create_and_sign(&key, "iss", "aud", "owned", all.clone(), Some(now() + 3600));
    for action in all {
        let result = AuthTokenVerifier::verify(&token, &input, &pk, "aud", "owned", action, None);
        assert!(result.is_ok(), "Owner should have {:?} capability", action);
    }
}

#[test]
fn verify_editor_role_capabilities() {
    let (key, pk) = generate_test_keypair();
    let (token, input) = create_and_sign(
        &key,
        "iss",
        "aud",
        "edited",
        vec![CapabilityAction::Read, CapabilityAction::Write],
        Some(now() + 3600),
    );
    assert!(AuthTokenVerifier::verify(&token, &input, &pk, "aud", "edited", CapabilityAction::Read, None).is_ok());
    assert!(AuthTokenVerifier::verify(&token, &input, &pk, "aud", "edited", CapabilityAction::Write, None).is_ok());
    assert!(matches!(
        AuthTokenVerifier::verify(&token, &input, &pk, "aud", "edited", CapabilityAction::Delete, None),
        Err(AuthTokenVerifyError::InsufficientCapability { .. })
    ));
}

#[test]
fn verify_at_a_fixed_time_decides_expiry_exactly() {
    let (key, pk) = generate_test_keypair();
    let (mut token, input) = create_and_sign(&key, "iss", "aud", "c", vec![CapabilityAction::Read], None);
    token.payload.iat = 1000;
    token.payload.exp = Some(4600);
    assert!(AuthTokenVerifier::verify_at(&token, &input, &pk, "aud", "c", CapabilityAction::Read, None, 4599).is_ok());
    assert!(matches!(
        AuthTokenVerifier::verify_at(&token, &input, &pk, "aud", "c", CapabilityAction::Read, None, 4600),
        Err(AuthTokenVerifyError::Expired)
    ));
}
