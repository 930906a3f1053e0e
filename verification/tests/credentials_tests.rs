use monas_state_node::auth_token::decode_jwt;
use monas_state_node::credentials::{
    own_token_claims, request_signing_message, share_grants, share_token_plan, sign_jwt,
    sign_key_id, sign_request, user_key_id, CredentialError,
};
use monas_state_node::crypto::{
    public_key_from_secret, sign_p256_message, verify_p256_message, verify_p256_signature,
    SigningError,
};
use monas_state_node::key_store::{KeyPairError, NodeKeyPair};
use monas_state_node::signature_verifier::SignatureVerifier;
use p256::ecdsa::signature::Verifier;
use sha2::Digest;

const SECRET_HEX: &str = "c9afa9d845ba75166b5c215767b1d6934e50c3db36e89b127b8a622b120f6721";

fn secret() -> Vec<u8> {
    hex::decode(SECRET_HEX).unwrap()
}

#[test]
fn request_message_without_body_joins_operation_resource_and_time() {
    assert_eq!(request_signing_message("delete", "bafk123", 1700000000, None), "delete:bafk123:1700000000");
    assert_eq!(request_signing_message("read", "content", 0, None), "read:content:0");
}

#[test]
fn request_message_with_body_is_hex_sha256_of_body_and_time() {
    let body = b"hello";
    let ts: u64 = 1700000000;
    let mut data = body.to_vec();
    data.extend_from_slice(&ts.to_be_bytes());
    let expected = hex::encode(sha2::Sha256::digest(&data));
    let message = request_signing_message("create", "content", ts, Some(body));
    assert_eq!(message, expected);
    assert_eq!(message.len(), 64);
    assert_ne!(message, request_signing_message("create", "content", ts + 1, Some(body)));
}

#[test]
fn request_message_of_empty_body_still_hashes() {
    let ts: u64 = 1;
    let expected = hex::encode(sha2::Sha256::digest(ts.to_be_bytes()));
    assert_eq!(request_signing_message("update", "x", ts, Some(b"")), expected);
}

#[test]
fn user_key_ids_take_sixteen_hex_digits() {
    let pk = [0x04u8, 0xab, 0xcd, 0xef, 0x01, 0x23, 0x45, 0x67, 0x89, 0xff];
    assert_eq!(user_key_id(&pk), "user:04abcdef01234567");
}

#[test]
fn signed_requests_verify_under_the_public_key() {
    let public_key = public_key_from_secret(&secret()).unwrap();
    assert_eq!(public_key.len(), 65);
    let signed = sign_request(SECRET_HEX, "delete", "bafk123", 1700000000, "").unwrap();
    assert_eq!(signed.message, "delete:bafk123:1700000000");
    assert_eq!(signed.timestamp, 1700000000);
    assert_eq!(signed.signature.len(), 64);
    assert_eq!(
        base64::Engine::decode(&base64::engine::general_purpose::STANDARD, &signed.signature_base64).unwrap(),
        signed.signature
    );
    assert_eq!(verify_p256_message(signed.message.as_bytes(), &signed.signature, &public_key), Ok(()));
    let key = p256::ecdsa::VerifyingKey::from_sec1_bytes(&public_key).unwrap();
    let sig = p256::ecdsa::Signature::from_slice(&signed.signature).unwrap();
    assert!(key.verify(signed.message.as_bytes(), &sig).is_ok());
}

#[test]
fn signed_requests_with_a_body_sign_the_digest_message() {
    let body_b64 = base64::Engine::encode(&base64::engine::general_purpose::STANDARD, b"payload");
    let signed = sign_request(SECRET_HEX, "create", "content", 42, &body_b64).unwrap();
    assert_eq!(signed.message, request_signing_message("create", "content", 42, Some(b"payload")));
}

#[test]
fn signing_is_deterministic() {
    let a = sign_request(SECRET_HEX, "read", "c", 7, "").unwrap();
    let b = sign_request(SECRET_HEX, "read", "c", 7, "").unwrap();
    assert_eq!(a.signature, b.signature);
}

#[test]
fn sign_request_refusals_come_in_order() {
    assert_eq!(sign_request("", "read", "c", 1, "").unwrap_err(), CredentialError::MissingArguments);
    assert_eq!(sign_request(SECRET_HEX, "", "c", 1, "").unwrap_err(), CredentialError::MissingArguments);
    assert_eq!(sign_request(SECRET_HEX, "read", "", 1, "").unwrap_err(), CredentialError::MissingArguments);
    assert_eq!(sign_request("zz", "read", "c", 1, "").unwrap_err(), CredentialError::InvalidPrivateKeyHex);
    let zero_key = "00".repeat(32);
    assert_eq!(sign_request(&zero_key, "read", "c", 1, "").unwrap_err(), CredentialError::InvalidPrivateKey);
    assert_eq!(sign_request(&zero_key, "read", "c", 1, "!!!").unwrap_err(), CredentialError::InvalidPrivateKey);
    assert_eq!(sign_request(SECRET_HEX, "read", "c", 1, "!!!").unwrap_err(), CredentialError::InvalidBody);
}

#[test]
fn key_id_signatures_pass_the_digest_check() {
    let public_key = public_key_from_secret(&secret()).unwrap();
    let key_id = "monas:user:abc";
    let sig_hex = sign_key_id(SECRET_HEX, key_id).unwrap();
    let sig = hex::decode(&sig_hex).unwrap();
    assert_eq!(sig.len(), 64);
    assert_eq!(verify_p256_signature(key_id.as_bytes(), &sig, &public_key), Ok(()));
    assert!(verify_p256_signature(b"other", &sig, &public_key).is_err());
}

#[test]
fn sign_key_id_refusals() {
    assert_eq!(sign_key_id("", "k").unwrap_err(), CredentialError::MissingArguments);
    assert_eq!(sign_key_id(SECRET_HEX, "").unwrap_err(), CredentialError::MissingArguments);
    assert_eq!(sign_key_id("0g", "k").unwrap_err(), CredentialError::InvalidPrivateKeyHex);
}

#[test]
fn own_tokens_grant_write_for_an_hour() {
    let pk = public_key_from_secret(&secret()).unwrap();
    let claims = own_token_claims(&pk, Some("bafk1"), 1000);
    assert_eq!(claims.iss, user_key_id(&pk));
    assert_eq!(claims.aud, claims.iss);
    assert_eq!(claims.iat, 1000);
    assert_eq!(claims.exp, 4600);
    assert_eq!(claims.grants.len(), 1);
    assert_eq!(claims.grants[0].with, "monas://content/bafk1");
    assert_eq!(claims.grants[0].can, "write");
    let all = own_token_claims(&pk, None, 0);
    assert_eq!(all.grants[0].with, "monas://content/*");
}

#[test]
fn share_grants_split_and_trim_actions() {
    let grants = share_grants("cid", " read , write,share ");
    let cans: Vec<&str> = grants.iter().map(|g| g.can.as_str()).collect();
    assert_eq!(cans, vec!["read", "write", "share"]);
    assert!(grants.iter().all(|g| g.with == "monas://content/cid"));
    assert_eq!(share_grants("cid", "").len(), 1);
}

#[test]
fn share_token_plan_names_owner_and_recipient() {
    let owner_pk = public_key_from_secret(&secret()).unwrap();
    let recipient_hex = "04aabbccddeeff0011";
    let plan = share_token_plan(SECRET_HEX, recipient_hex, "cid-9", "read,write", 100, 3600).unwrap();
    assert_eq!(plan.owner_public_key, owner_pk);
    assert_eq!(plan.owner_secret_key, secret());
    assert_eq!(plan.recipient_public_key, hex::decode(recipient_hex).unwrap());
    assert_eq!(plan.claims.iss, format!("user:{}", &hex::encode(&owner_pk)[..16]));
    assert_eq!(plan.claims.aud, "user:04aabbccddeeff00");
    assert_eq!(plan.claims.iat, 100);
    assert_eq!(plan.claims.exp, 3700);
    assert_eq!(plan.claims.grants.len(), 2);
}

#[test]
fn share_token_plan_refusals() {
    assert_eq!(share_token_plan("", "04aa", "c", "read", 0, 1).unwrap_err(), CredentialError::MissingArguments);
    assert_eq!(share_token_plan(SECRET_HEX, "", "c", "read", 0, 1).unwrap_err(), CredentialError::MissingArguments);
    assert_eq!(share_token_plan(SECRET_HEX, "04aa", "", "read", 0, 1).unwrap_err(), CredentialError::MissingArguments);
    assert_eq!(share_token_plan("xyz", "04aa", "c", "read", 0, 1).unwrap_err(), CredentialError::InvalidPrivateKeyHex);
    assert_eq!(share_token_plan(SECRET_HEX, "0x", "c", "read", 0, 1).unwrap_err(), CredentialError::InvalidRecipientKeyHex);
}

#[test]
fn signed_jwts_pass_the_wire_check() {
    let header = br#"{"alg":"ES256","typ":"JWT","ver":"1.0"}"#;
    let payload = br#"{"iss":"user:1","aud":"user:2","iat":1,"jti":"j","att":[]}"#;
    let token = sign_jwt(&secret(), header, payload).unwrap();
    let public_key = public_key_from_secret(&secret()).unwrap();
    assert_eq!(SignatureVerifier::verify_jwt_signature_wire(&token, &public_key), Ok(()));
    let segments = decode_jwt(&token).unwrap();
    assert_eq!(segments.header_json, header.to_vec());
    assert_eq!(segments.payload_json, payload.to_vec());
    let other = public_key_from_secret(&[7u8; 32]).unwrap();
    assert!(SignatureVerifier::verify_jwt_signature_wire(&token, &other).is_err());
}

#[test]
fn invalid_secret_keys_are_refused() {
    assert_eq!(public_key_from_secret(&[0u8; 32]), Err(SigningError::InvalidPrivateKey));
    assert_eq!(sign_p256_message(&[0u8; 32], b"m"), Err(SigningError::InvalidPrivateKey));
    assert_eq!(sign_jwt(&[0xffu8; 32], b"{}", b"{}"), Err(SigningError::InvalidPrivateKey));
}

#[test]
fn key_management_test_generate_key_pair() {
    let key_pair = NodeKeyPair::generate();
    let public_key = key_pair.public_key_bytes();

    assert_eq!(public_key.len(), 65);
    assert_eq!(public_key[0], 0x04);
}

#[test]
fn stored_key_bytes_read_back_to_the_same_pair() {
    let original = NodeKeyPair::generate();
    let loaded = NodeKeyPair::from_secret_bytes(&original.secret_key_bytes()).unwrap();
    assert_eq!(original.public_key_bytes(), loaded.public_key_bytes());
    assert_ne!(original.public_key_bytes(), NodeKeyPair::generate().public_key_bytes());
}

#[test]
fn stored_key_bytes_of_the_wrong_size_are_refused() {
    let err = NodeKeyPair::from_secret_bytes(&[1u8; 31]).unwrap_err();
    assert_eq!(err, KeyPairError::WrongLength { len: 31 });
    assert_eq!(err.message(), "Invalid key file: expected 32 bytes, got 31");
    let err = NodeKeyPair::from_secret_bytes(&[0u8; 32]).unwrap_err();
    assert_eq!(err, KeyPairError::InvalidKey);
    assert_eq!(err.message(), "Failed to parse signing key");
}

#[test]
fn node_key_signatures_verify() {
    let pair = NodeKeyPair::from_secret_bytes(&secret()).unwrap();
    assert_eq!(pair.public_key_bytes(), public_key_from_secret(&secret()).unwrap());
    let sig = pair.sign(b"hello").unwrap();
    assert_eq!(verify_p256_message(b"hello", &sig, &pair.public_key_bytes()), Ok(()));
}

#[test]
fn request_messages_differ_in_each_field() {
    let base = request_signing_message("update", "c1", 100, None);
    assert_ne!(base, request_signing_message("delete", "c1", 100, None));
    assert_ne!(base, request_signing_message("update", "c2", 100, None));
    assert_ne!(base, request_signing_message("update", "c1", 101, None));
    assert_eq!(base, request_signing_message("update", "c1", 100, None));
}
