//! Capabilities that an identity can hold over content, and their hierarchy.
use vstd::prelude::*;

verus! {

/// What an identity can do with content.
#[derive(Debug, Clone, Copy, PartialEq, Eq, Hash, Structural)]
pub enum AuthCapability {
    /// Read content data
    ReadContent,
    /// Write/update content data
    WriteContent,
    /// Delete content
    DeleteContent,
    /// Manage content network membership
    ManageMembers,
    /// Share content with others (delegate capabilities)
    ShareContent,
    /// Revoke access from others
    RevokeAccess,
    /// Read content metadata (without reading the actual data)
    ReadMetadata,
}

/// The capabilities that a capability implies besides itself.
pub open spec fn spec_implied(c: AuthCapability) -> Seq<AuthCapability> {
    match c {
        AuthCapability::ReadContent => seq![],
        AuthCapability::WriteContent => seq![AuthCapability::ReadContent],
        AuthCapability::DeleteContent => seq![
            AuthCapability::WriteContent,
            AuthCapability::ReadContent,
        ],
        AuthCapability::ManageMembers => seq![AuthCapability::ReadMetadata],
        AuthCapability::ShareContent => seq![AuthCapability::ReadContent],
        AuthCapability::RevokeAccess => seq![
            AuthCapability::ShareContent,
            AuthCapability::ReadContent,
        ],
        AuthCapability::ReadMetadata => seq![],
    }
}

/// The capability hierarchy: every capability implies itself; besides,
/// WriteContent implies ReadContent, DeleteContent implies WriteContent and
/// ReadContent, ManageMembers implies ReadMetadata, ShareContent implies
/// ReadContent, and RevokeAccess implies ShareContent and ReadContent.
pub open spec fn spec_implies(a: AuthCapability, b: AuthCapability) -> bool {
    a == b || match (a, b) {
        (AuthCapability::WriteContent, AuthCapability::ReadContent) => true,
        (AuthCapability::DeleteContent, AuthCapability::WriteContent) => true,
        (AuthCapability::DeleteContent, AuthCapability::ReadContent) => true,
        (AuthCapability::ManageMembers, AuthCapability::ReadMetadata) => true,
        (AuthCapability::ShareContent, AuthCapability::ReadContent) => true,
        (AuthCapability::RevokeAccess, AuthCapability::ShareContent) => true,
        (AuthCapability::RevokeAccess, AuthCapability::ReadContent) => true,
        _ => false,
    }
}

/// Every capability.
pub open spec fn spec_owner_capabilities() -> Seq<AuthCapability> {
    seq![
        AuthCapability::ReadContent,
        AuthCapability::WriteContent,
        AuthCapability::DeleteContent,
        AuthCapability::ManageMembers,
        AuthCapability::ShareContent,
        AuthCapability::RevokeAccess,
        AuthCapability::ReadMetadata,
    ]
}

/// The capabilities of an editor.
pub open spec fn spec_editor_capabilities() -> Seq<AuthCapability> {
    seq![AuthCapability::ReadContent, AuthCapability::WriteContent, AuthCapability::ReadMetadata]
}

/// The capabilities of a viewer.
pub open spec fn spec_viewer_capabilities() -> Seq<AuthCapability> {
    seq![AuthCapability::ReadContent, AuthCapability::ReadMetadata]
}

impl AuthCapability {
    /// Whether this capability implies `other`.
    ///
    /// WriteContent implies ReadContent; DeleteContent implies WriteContent
    /// and ReadContent; ManageMembers implies ReadMetadata; ShareContent
    /// implies ReadContent; RevokeAccess implies ShareContent and
    /// ReadContent; every capability implies itself.
    pub fn implies(&self, other: &AuthCapability) -> (r: bool)
        ensures
            r == spec_implies(*self, *other),
    {
        let r = match (self, other) {
            (AuthCapability::WriteContent, AuthCapability::ReadContent) => true,
            (AuthCapability::DeleteContent, AuthCapability::WriteContent) => true,
            (AuthCapability::DeleteContent, AuthCapability::ReadContent) => true,
            (AuthCapability::ManageMembers, AuthCapability::ReadMetadata) => true,
            (AuthCapability::ShareContent, AuthCapability::ReadContent) => true,
            (AuthCapability::RevokeAccess, AuthCapability::ShareContent) => true,
            (AuthCapability::RevokeAccess, AuthCapability::ReadContent) => true,
            (a, b) => *a == *b,
        };
        r
    }

    /// The capabilities implied by this one, itself excluded.
    pub fn implied_capabilities(&self) -> (r: Vec<AuthCapability>)
        ensures
            r@ == spec_implied(*self),
    {
        let r = match self {
            AuthCapability::ReadContent => vec![],
            AuthCapability::WriteContent => vec![AuthCapability::ReadContent],
            AuthCapability::DeleteContent => {
                vec![AuthCapability::WriteContent, AuthCapability::ReadContent]
            },
            AuthCapability::ManageMembers => vec![AuthCapability::ReadMetadata],
            AuthCapability::ShareContent => vec![AuthCapability::ReadContent],
            AuthCapability::RevokeAccess => {
                vec![AuthCapability::ShareContent, AuthCapability::ReadContent]
            },
            AuthCapability::ReadMetadata => vec![],
        };
        proof {
            assert(r@ =~= spec_implied(*self));
        }
        r
    }

    /// Every capability (the owner's).
    pub fn owner_capabilities() -> (r: Vec<AuthCapability>)
        ensures
            r@ == spec_owner_capabilities(),
    {
        let r = vec![
            AuthCapability::ReadContent,
            AuthCapability::WriteContent,
            AuthCapability::DeleteContent,
            AuthCapability::ManageMembers,
            AuthCapability::ShareContent,
            AuthCapability::RevokeAccess,
            AuthCapability::ReadMetadata,
        ];
        proof {
            assert(r@ =~= spec_owner_capabilities());
        }
        r
    }

    /// The editor's capabilities.
    pub fn editor_capabilities() -> (r: Vec<AuthCapability>)
        ensures
            r@ == spec_editor_capabilities(),
    {
        let r = vec![
            AuthCapability::ReadContent,
            AuthCapability::WriteContent,
            AuthCapability::ReadMetadata,
        ];
        proof {
            assert(r@ =~= spec_editor_capabilities());
        }
        r
    }

    /// The viewer's capabilities.
    pub fn viewer_capabilities() -> (r: Vec<AuthCapability>)
        ensures
            r@ == spec_viewer_capabilities(),
    {
        let r = vec![AuthCapability::ReadContent, AuthCapability::ReadMetadata];
        proof {
            assert(r@ =~= spec_viewer_capabilities());
        }
        r
    }
}

/// Every capability implies itself.
pub proof fn law_implies_reflexive(a: AuthCapability)
    ensures
        spec_implies(a, a),
{
}

/// The hierarchy is transitive: what an implied capability implies is
/// implied too.
pub proof fn law_implies_transitive(a: AuthCapability, b: AuthCapability, c: AuthCapability)
    requires
        spec_implies(a, b),
        spec_implies(b, c),
    ensures
        spec_implies(a, c),
{
}

/// The implied list is exactly the capabilities that are implied, other
/// than the capability itself.
pub proof fn law_implied_list_matches_hierarchy(a: AuthCapability, b: AuthCapability)
    ensures
        spec_implied(a).contains(b) <==> (spec_implies(a, b) && a != b),
{
    if spec_implied(a).contains(b) {
        let k = choose|k: int| 0 <= k < spec_implied(a).len() && spec_implied(a)[k] == b;
        assert(k == 0 || k == 1);
    }
    if spec_implies(a, b) && a != b {
        match (a, b) {
            (AuthCapability::DeleteContent, AuthCapability::ReadContent) => {
                assert(spec_implied(a)[1] == b);
            },
            (AuthCapability::RevokeAccess, AuthCapability::ReadContent) => {
                assert(spec_implied(a)[1] == b);
            },
            _ => {
                assert(spec_implied(a)[0] == b);
            },
        }
    }
}

/// Reading content implies no other capability; neither does reading
/// metadata.
pub proof fn law_reads_imply_only_themselves(b: AuthCapability)
    ensures
        spec_implies(AuthCapability::ReadContent, b) <==> b == AuthCapability::ReadContent,
        spec_implies(AuthCapability::ReadMetadata, b) <==> b == AuthCapability::ReadMetadata,
{
}

/// The owner holds every capability; an editor's capabilities are an
/// owner's; a viewer's capabilities are an editor's.
pub proof fn law_role_capabilities_nested(c: AuthCapability)
    ensures
        spec_owner_capabilities().contains(c),
        spec_editor_capabilities().contains(c) ==> spec_owner_capabilities().contains(c),
        spec_viewer_capabilities().contains(c) ==> spec_editor_capabilities().contains(c),
{
    match c {
        AuthCapability::ReadContent => assert(spec_owner_capabilities()[0] == c),
        AuthCapability::WriteContent => assert(spec_owner_capabilities()[1] == c),
        AuthCapability::DeleteContent => assert(spec_owner_capabilities()[2] == c),
        AuthCapability::ManageMembers => assert(spec_owner_capabilities()[3] == c),
        AuthCapability::ShareContent => assert(spec_owner_capabilities()[4] == c),
        AuthCapability::RevokeAccess => assert(spec_owner_capabilities()[5] == c),
        AuthCapability::ReadMetadata => assert(spec_owner_capabilities()[6] == c),
    }
    if spec_viewer_capabilities().contains(c) {
        let k = choose|k: int|
            0 <= k < spec_viewer_capabilities().len() && spec_viewer_capabilities()[k] == c;
        if k == 0 {
            assert(spec_editor_capabilities()[0] == c);
        } else {
            assert(spec_editor_capabilities()[2] == c);
        }
    }
}

} // verus!
