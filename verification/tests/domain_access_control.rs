use monas_state_node::access_control::{
    AccessControlError, AccessControlEvent, AccessControlUpdate, ContentAccessControl,
};

#[test]
fn new_access_control_has_zero_min_valid_issued_at() {
    let ac = ContentAccessControl::new("content-1".to_string());
    assert_eq!(ac.content_id(), "content-1");
    assert_eq!(ac.min_valid_issued_at(), 0);
    assert_eq!(ac.version(), 1);
}

#[test]
fn is_token_valid_returns_true_for_valid_tokens() {
    let ac = ContentAccessControl::new("content-1".to_string());
    assert!(ac.is_token_valid(0));
    assert!(ac.is_token_valid(1000));
    assert!(ac.is_token_valid(u64::MAX));
}

#[test]
fn invalidate_before_updates_min_valid_issued_at() {
    let mut ac = ContentAccessControl::new("content-1".to_string());
    let event = ac.invalidate_before(1000).expect("Should succeed");

    assert_eq!(ac.min_valid_issued_at(), 1000);
    assert_eq!(ac.version(), 2);
    assert!(matches!(
        event,
        AccessControlEvent::TokensInvalidated {
            new_min_valid_issued_at: 1000,
            ..
        }
    ));
}

#[test]
fn invalidate_before_rejects_lower_timestamp() {
    let mut ac = ContentAccessControl::new("content-1".to_string());
    ac.invalidate_before(1000).expect("Should succeed");

    let err = ac
        .invalidate_before(500)
        .expect_err("Should fail with lower timestamp");
    assert!(matches!(
        err,
        AccessControlError::InvalidTimestamp {
            current: 1000,
            requested: 500
        }
    ));
}

#[test]
fn is_token_valid_after_invalidation() {
    let mut ac = ContentAccessControl::new("content-1".to_string());
    ac.invalidate_before(1000).expect("Should succeed");

    assert!(!ac.is_token_valid(0));
    assert!(!ac.is_token_valid(999));
    assert!(ac.is_token_valid(1000));
    assert!(ac.is_token_valid(1001));
}

#[test]
fn merge_higher_version_wins() {
    let mut ac1 = ContentAccessControl::with_values("content-1".to_string(), 100, 1, 1000);
    let ac2 = ContentAccessControl::with_values("content-1".to_string(), 200, 2, 2000);

    let changed = ac1.merge(&ac2);
    assert!(changed);
    assert_eq!(ac1.min_valid_issued_at(), 200);
    assert_eq!(ac1.version(), 2);
}

#[test]
fn merge_same_version_higher_min_wins() {
    let mut ac1 = ContentAccessControl::with_values("content-1".to_string(), 100, 1, 1000);
    let ac2 = ContentAccessControl::with_values("content-1".to_string(), 200, 1, 2000);

    let changed = ac1.merge(&ac2);
    assert!(changed);
    assert_eq!(ac1.min_valid_issued_at(), 200);
}

#[test]
fn merge_lower_version_does_not_change() {
    let mut ac1 = ContentAccessControl::with_values("content-1".to_string(), 200, 2, 2000);
    let ac2 = ContentAccessControl::with_values("content-1".to_string(), 100, 1, 1000);

    let changed = ac1.merge(&ac2);
    assert!(!changed);
    assert_eq!(ac1.min_valid_issued_at(), 200);
    assert_eq!(ac1.version(), 2);
}

#[test]
fn merge_different_content_id_does_not_change() {
    let mut ac1 = ContentAccessControl::with_values("content-1".to_string(), 100, 1, 1000);
    let ac2 = ContentAccessControl::with_values("content-2".to_string(), 200, 2, 2000);

    let changed = ac1.merge(&ac2);
    assert!(!changed);
    assert_eq!(ac1.min_valid_issued_at(), 100);
}

#[test]
fn access_control_update_signing_message_is_consistent() {
    let update = AccessControlUpdate::new("content-1".to_string(), 1000);
    let msg1 = update.signing_message();
    let msg2 = update.signing_message();

    assert_eq!(msg1, msg2);
    assert!(!msg1.is_empty());
}

#[test]
fn access_control_update_with_signature_sets_values() {
    let update = AccessControlUpdate::new("content-1".to_string(), 1000);
    assert!(update.signature().is_empty());
    assert!(update.signer_public_key().is_empty());

    let signature = vec![0x01, 0x02, 0x03];
    let public_key = vec![0x04, 0x05, 0x06];
    let signed_update = update.with_signature(signature.clone(), public_key.clone());

    assert_eq!(signed_update.signature(), &signature[..]);
    assert_eq!(signed_update.signer_public_key(), &public_key[..]);
}

#[test]
fn signing_message_is_content_bytes_then_big_endian_cutoff() {
    let update = AccessControlUpdate::new("ab".to_string(), 0x0102030405060708);
    assert_eq!(
        update.signing_message(),
        vec![b'a', b'b', 1, 2, 3, 4, 5, 6, 7, 8]
    );
}

#[test]
fn merge_is_commutative_on_examples() {
    let a = ContentAccessControl::with_values("c".to_string(), 100, 3, 10);
    let b = ContentAccessControl::with_values("c".to_string(), 300, 3, 20);
    let mut ab = a.clone();
    ab.merge(&b);
    let mut ba = b.clone();
    ba.merge(&a);
    assert_eq!(ab.version(), ba.version());
    assert_eq!(ab.min_valid_issued_at(), ba.min_valid_issued_at());
    assert_eq!(ab.min_valid_issued_at(), 300);
}

#[test]
fn merge_with_itself_changes_nothing() {
    let mut a = ContentAccessControl::with_values("c".to_string(), 100, 3, 10);
    let same = a.clone();
    assert!(!a.merge(&same));
    assert_eq!(a, same);
}

#[test]
fn access_control_errors_read_as_messages() {
    assert_eq!(
        AccessControlError::InvalidTimestamp { current: 1000, requested: 500 }.message(),
        "Invalid timestamp: requested 500 is less than current 1000"
    );
    assert_eq!(AccessControlError::ContentNotFound.message(), "Content not found");
    assert_eq!(AccessControlError::InvalidSignature.message(), "Invalid signature");
    assert_eq!(AccessControlError::NotAuthorized.message(), "Not authorized");
}
