//! Access policy of a content: its owner and the invalidation cutoff for
//! delegated tokens.
use vstd::prelude::*;
use crate::events::current_timestamp;
use crate::identity::Identity;
use crate::value_objects::ContentId;

verus! {

/// The access rules of one content. Only the owner and a cutoff are kept;
/// access for others is decided by delegated tokens.
#[derive(Debug, Clone, PartialEq)]
pub struct AccessPolicy {
    content_id: ContentId,
    owner: Identity,
    created_at: u64,
    updated_at: u64,
    min_valid_issued_at: u64,
}

/// Errors of access policy storage.
#[derive(Debug, Clone, PartialEq, Eq)]
pub enum AccessPolicyError {
    Internal(String),
}

/// The abstract policy.
pub struct AccessPolicyView {
    pub content_id: Seq<char>,
    pub owner: Identity,
    pub created_at: u64,
    pub updated_at: u64,
    pub min_valid_issued_at: u64,
}

impl View for AccessPolicy {
    type V = AccessPolicyView;

    closed spec fn view(&self) -> AccessPolicyView {
        AccessPolicyView {
            content_id: self.content_id@,
            owner: self.owner,
            created_at: self.created_at,
            updated_at: self.updated_at,
            min_valid_issued_at: self.min_valid_issued_at,
        }
    }
}

impl AccessPolicy {
    /// A policy for `content_id` owned by `owner`, created now; every token
    /// is valid (cutoff 0).
    pub fn new(content_id: ContentId, owner: Identity) -> (r: Self)
        ensures
            r@.content_id == content_id@,
            r@.owner == owner,
            r@.min_valid_issued_at == 0,
            r@.created_at == r@.updated_at,
    {
        let now = current_timestamp();
        AccessPolicy { content_id, owner, created_at: now, updated_at: now, min_valid_issued_at: 0 }
    }

    /// A policy with the given values.
    pub fn from_parts(
        content_id: ContentId,
        owner: Identity,
        created_at: u64,
        updated_at: u64,
        min_valid_issued_at: u64,
    ) -> (r: Self)
        ensures
            r@ == (AccessPolicyView {
                content_id: content_id@,
                owner,
                created_at,
                updated_at,
                min_valid_issued_at,
            }),
    {
        AccessPolicy { content_id, owner, created_at, updated_at, min_valid_issued_at }
    }

    /// Whether `identity` is the owner.
    pub fn is_owner(&self, identity: &Identity) -> (r: bool)
        ensures
            r == self@.owner.same(identity),
    {
        self.owner.same_as(identity)
    }

    pub fn content_id(&self) -> (r: &ContentId)
        ensures
            r@ == self@.content_id,
    {
        &self.content_id
    }

    pub fn owner(&self) -> (r: &Identity)
        ensures
            *r == self@.owner,
    {
        &self.owner
    }

    pub fn created_at(&self) -> (r: u64)
        ensures
            r == self@.created_at,
    {
        self.created_at
    }

    pub fn updated_at(&self) -> (r: u64)
        ensures
            r == self@.updated_at,
    {
        self.updated_at
    }

    pub fn min_valid_issued_at(&self) -> (r: u64)
        ensures
            r == self@.min_valid_issued_at,
    {
        self.min_valid_issued_at
    }

    /// Whether a token issued at `issued_at` is still valid.
    pub fn is_token_valid(&self, issued_at: u64) -> (r: bool)
        ensures
            r == (issued_at >= self@.min_valid_issued_at),
    {
        issued_at >= self.min_valid_issued_at
    }

    /// Invalidates every token issued before now; the cutoff and the update
    /// time become the current time, which is returned.
    pub fn invalidate_tokens(&mut self) -> (r: u64)
        ensures
            final(self)@.min_valid_issued_at == r,
            final(self)@.updated_at == r,
            final(self)@.content_id == old(self)@.content_id,
            final(self)@.owner == old(self)@.owner,
            final(self)@.created_at == old(self)@.created_at,
    {
        let now = current_timestamp();
        self.min_valid_issued_at = now;
        self.updated_at = now;
        now
    }

    /// Raises the cutoff to `cutoff` unless it is already higher.
    pub fn raise_min_valid_issued_at(&mut self, cutoff: u64)
        ensures
            final(self)@.min_valid_issued_at == if cutoff > old(self)@.min_valid_issued_at {
                cutoff
            } else {
                old(self)@.min_valid_issued_at
            },
            final(self)@.content_id == old(self)@.content_id,
            final(self)@.owner == old(self)@.owner,
            final(self)@.created_at == old(self)@.created_at,
            final(self)@.updated_at == old(self)@.updated_at,
    {
        if cutoff > self.min_valid_issued_at {
            self.min_valid_issued_at = cutoff;
        }
    }

    /// A copy of this policy.
    pub fn duplicate(&self) -> (r: AccessPolicy)
        ensures
            r@ == self@,
    {
        AccessPolicy {
            content_id: self.content_id.duplicate(),
            owner: self.owner.duplicate(),
            created_at: self.created_at,
            updated_at: self.updated_at,
            min_valid_issued_at: self.min_valid_issued_at,
        }
    }
}

} // verus!
