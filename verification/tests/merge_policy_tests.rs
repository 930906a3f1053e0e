use monas_state_node::access_policy::AccessPolicy;
use monas_state_node::identity::Identity;
use monas_state_node::merge_policy::{ContentPayload, MonasMergePolicy};
use monas_state_node::value_objects::ContentId;

fn policy(cutoff: u64) -> AccessPolicy {
    let mut p = AccessPolicy::new(
        ContentId::new("content-1".to_string()).unwrap(),
        Identity::user("alice".to_string()).unwrap(),
    );
    p.raise_min_valid_issued_at(cutoff);
    p
}

fn payload(data: &str, cutoff: u64) -> ContentPayload {
    ContentPayload {
        data: data.as_bytes().to_vec(),
        body_updated_at: 0,
        access_policy: Some(policy(cutoff)),
    }
}

/// A head written at `ts`: it keeps its parent's write order when it did
/// not change the body.
fn head(data: &str, cutoff: u64, ts: u64, parent: Option<ContentPayload>) -> ContentPayload {
    let mut value = payload(data, cutoff);
    value.body_updated_at = parent
        .as_ref()
        .filter(|p| p.data == value.data)
        .map_or(ts, |p| p.body_updated_at);
    value
}

fn cutoff_of(p: &ContentPayload) -> u64 {
    p.access_policy.as_ref().unwrap().min_valid_issued_at()
}

#[test]
fn write_after_revoke_keeps_the_cutoff() {
    let base = payload("AB", 0);
    let revoke = head("AB", 1000, 10, Some(base.clone()));
    let write = head("ABC", 0, 15, Some(base));

    let merged = MonasMergePolicy::resolve(&vec![revoke, write]);

    assert_eq!(merged.data, b"ABC");
    assert_eq!(cutoff_of(&merged), 1000);
}

#[test]
fn revoke_after_write_keeps_the_write() {
    let base = payload("AB", 0);
    let write = head("ABC", 0, 10, Some(base.clone()));
    let revoke = head("AB", 1000, 15, Some(base));

    let merged = MonasMergePolicy::resolve(&vec![write, revoke]);

    assert_eq!(merged.data, b"ABC");
    assert_eq!(cutoff_of(&merged), 1000);
}

#[test]
fn two_writes_newest_body_wins() {
    let base = payload("AB", 500);
    let older = head("ABX", 500, 10, Some(base.clone()));
    let newer = head("ABY", 500, 15, Some(base));

    let merged = MonasMergePolicy::resolve(&vec![older, newer]);

    assert_eq!(merged.data, b"ABY");
    assert_eq!(cutoff_of(&merged), 500);
}

#[test]
fn two_revokes_take_the_higher_cutoff() {
    let base = payload("AB", 0);
    let later_cutoff = head("AB", 2000, 10, Some(base.clone()));
    let newer_node = head("AB", 1000, 15, Some(base));

    let merged = MonasMergePolicy::resolve(&vec![later_cutoff, newer_node]);

    assert_eq!(merged.data, b"AB");
    assert_eq!(cutoff_of(&merged), 2000);
}

#[test]
fn head_without_parents_counts_as_a_write() {
    let orphan = head("ABC", 0, 10, None);
    let revoke = head("AB", 1000, 15, Some(payload("AB", 0)));

    let merged = MonasMergePolicy::resolve(&vec![orphan, revoke]);

    assert_eq!(merged.data, b"ABC");
    assert_eq!(cutoff_of(&merged), 1000);
}

#[test]
fn resolve_is_order_independent() {
    let base = payload("AB", 0);
    let a = head("AB", 1000, 10, Some(base.clone()));
    let b = head("ABC", 0, 15, Some(base));

    let ab = MonasMergePolicy::resolve(&vec![a.clone(), b.clone()]);
    let ba = MonasMergePolicy::resolve(&vec![b, a]);

    assert_eq!(ab, ba);
}

#[test]
fn write_register_is_associative_commutative_and_idempotent() {
    let a = head("old", 300, 10, None);
    let b = head("latest", 100, 30, None);
    let c = head("middle", 200, 20, None);
    let expected = MonasMergePolicy::resolve(&vec![a.clone(), b.clone(), c.clone()]);
    assert_eq!(expected.data, b"latest");
    assert_eq!(expected.body_updated_at, 30);
    assert_eq!(cutoff_of(&expected), 300);
    for [x, y, z] in [
        [a.clone(), b.clone(), c.clone()],
        [a.clone(), c.clone(), b.clone()],
        [b.clone(), a.clone(), c.clone()],
        [b.clone(), c.clone(), a.clone()],
        [c.clone(), a.clone(), b.clone()],
        [c, b, a],
    ] {
        let xy = MonasMergePolicy::resolve(&vec![x.clone(), y.clone()]);
        // A merge node carries the merged payload whatever its own time.
        let merged = xy.clone();
        assert_eq!(MonasMergePolicy::resolve(&vec![merged.clone(), z]), expected);
        assert_eq!(MonasMergePolicy::resolve(&vec![merged.clone(), merged]), xy);
    }
}

#[test]
fn simultaneous_writes_use_body_bytes_not_head_order_or_node_time() {
    let a = head("aaa", 100, 10, None);
    let b = head("zzz", 200, 10, None);
    let ab = MonasMergePolicy::resolve(&vec![a.clone(), b.clone()]);
    let ba = MonasMergePolicy::resolve(&vec![b, a]);
    assert_eq!(ab, ba);
    assert_eq!(ab.data, b"zzz");
    assert_eq!(ab.body_updated_at, 10);
    assert_eq!(cutoff_of(&ab), 200);
}

#[test]
fn ancestry_availability_does_not_change_the_body_winner() {
    let a = head("new", 100, 30, None);
    let b = head("old", 200, 20, None);
    let expected = MonasMergePolicy::resolve(&vec![a.clone(), b.clone()]);
    // Parents do not take part in the merge: the same heads give the same
    // result whichever ancestors are known.
    assert_eq!(MonasMergePolicy::resolve(&vec![a.clone(), b.clone()]), expected);
    assert_eq!(MonasMergePolicy::resolve(&vec![b, a]), expected);
}

#[test]
fn merge_policy_name() {
    assert_eq!(MonasMergePolicy.name(), "monas-fieldwise");
}

#[test]
fn heads_without_policies_merge_to_no_policy() {
    let a = ContentPayload { data: b"x".to_vec(), body_updated_at: 1, access_policy: None };
    let b = ContentPayload { data: b"y".to_vec(), body_updated_at: 1, access_policy: None };
    let merged = MonasMergePolicy::resolve(&vec![a, b]);
    assert_eq!(merged.data, b"y");
    assert!(merged.access_policy.is_none());
}
