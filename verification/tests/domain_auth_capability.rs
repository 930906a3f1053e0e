use monas_state_node::auth_capability::AuthCapability;

#[test]
fn test_capability_implies() {
    assert!(AuthCapability::WriteContent.implies(&AuthCapability::ReadContent));
    assert!(AuthCapability::DeleteContent.implies(&AuthCapability::WriteContent));
    assert!(AuthCapability::DeleteContent.implies(&AuthCapability::ReadContent));
    assert!(!AuthCapability::ReadContent.implies(&AuthCapability::WriteContent));
    assert!(AuthCapability::ManageMembers.implies(&AuthCapability::ReadMetadata));
    assert!(AuthCapability::ShareContent.implies(&AuthCapability::ReadContent));
}

#[test]
fn test_implied_capabilities() {
    let implied = AuthCapability::WriteContent.implied_capabilities();
    assert_eq!(implied.len(), 1);
    assert!(implied.contains(&AuthCapability::ReadContent));

    let implied = AuthCapability::DeleteContent.implied_capabilities();
    assert_eq!(implied.len(), 2);
    assert!(implied.contains(&AuthCapability::WriteContent));
    assert!(implied.contains(&AuthCapability::ReadContent));
}

#[test]
fn test_owner_capabilities() {
    let caps = AuthCapability::owner_capabilities();
    assert_eq!(caps.len(), 7);
    assert!(caps.contains(&AuthCapability::ReadContent));
    assert!(caps.contains(&AuthCapability::WriteContent));
    assert!(caps.contains(&AuthCapability::DeleteContent));
    assert!(caps.contains(&AuthCapability::ManageMembers));
    assert!(caps.contains(&AuthCapability::ShareContent));
    assert!(caps.contains(&AuthCapability::RevokeAccess));
    assert!(caps.contains(&AuthCapability::ReadMetadata));
}

#[test]
fn test_editor_capabilities() {
    let caps = AuthCapability::editor_capabilities();
    assert_eq!(caps.len(), 3);
    assert!(caps.contains(&AuthCapability::ReadContent));
    assert!(caps.contains(&AuthCapability::WriteContent));
    assert!(caps.contains(&AuthCapability::ReadMetadata));
}

#[test]
fn test_viewer_capabilities() {
    let caps = AuthCapability::viewer_capabilities();
    assert_eq!(caps.len(), 2);
    assert!(caps.contains(&AuthCapability::ReadContent));
    assert!(caps.contains(&AuthCapability::ReadMetadata));
}

#[test]
fn test_self_implies() {
    assert!(AuthCapability::ReadContent.implies(&AuthCapability::ReadContent));
    assert!(AuthCapability::WriteContent.implies(&AuthCapability::WriteContent));
}

#[test]
fn test_revoke_access_implications() {
    assert!(AuthCapability::RevokeAccess.implies(&AuthCapability::ShareContent));
    assert!(AuthCapability::RevokeAccess.implies(&AuthCapability::ReadContent));
}

#[test]
fn implication_is_transitive_on_every_triple() {
    let all = AuthCapability::owner_capabilities();
    for a in &all {
        for b in &all {
            for c in &all {
                if a.implies(b) && b.implies(c) {
                    assert!(a.implies(c));
                }
            }
        }
    }
}

#[test]
fn viewer_within_editor_within_owner() {
    let owner = AuthCapability::owner_capabilities();
    let editor = AuthCapability::editor_capabilities();
    let viewer = AuthCapability::viewer_capabilities();
    for v in &viewer {
        assert!(editor.contains(v));
    }
    for e in &editor {
        assert!(owner.contains(e));
    }
}
