use monas_state_node::access_policy::AccessPolicy;
use monas_state_node::events::current_timestamp;
use monas_state_node::identity::Identity;
use monas_state_node::value_objects::ContentId;

fn test_content_id() -> ContentId {
    ContentId::new("test-content".to_string()).unwrap()
}

fn test_owner() -> Identity {
    Identity::user("alice".to_string()).unwrap()
}

fn test_user(name: &str) -> Identity {
    Identity::user(name.to_string()).unwrap()
}

#[test]
fn test_access_policy_creation() {
    let content_id = test_content_id();
    let owner = test_owner();
    let policy = AccessPolicy::new(content_id.clone(), owner.clone());

    assert_eq!(policy.content_id(), &content_id);
    assert_eq!(policy.owner(), &owner);
    assert!(policy.is_owner(&owner));
    assert_eq!(policy.min_valid_issued_at(), 0);
}

#[test]
fn test_non_owner_is_not_owner() {
    let policy = AccessPolicy::new(test_content_id(), test_owner());
    let bob = test_user("bob");
    assert!(!policy.is_owner(&bob));
}

#[test]
fn test_token_valid_with_zero_min() {
    let policy = AccessPolicy::new(test_content_id(), test_owner());
    assert!(policy.is_token_valid(0));
    assert!(policy.is_token_valid(1000));
    assert!(policy.is_token_valid(u64::MAX));
}

#[test]
fn test_invalidate_tokens() {
    let mut policy = AccessPolicy::new(test_content_id(), test_owner());
    let before = current_timestamp();
    let new_min = policy.invalidate_tokens();
    assert!(new_min >= before);
    assert_eq!(policy.min_valid_issued_at(), new_min);

    // Tokens issued before invalidation are now invalid
    assert!(!policy.is_token_valid(before - 1));
    // Tokens issued at or after invalidation are valid
    assert!(policy.is_token_valid(new_min));
    assert!(policy.is_token_valid(new_min + 1));
}
