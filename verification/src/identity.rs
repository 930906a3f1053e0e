//! Identities of users, nodes and services, independent of how they are
//! authenticated.
use vstd::prelude::*;

verus! {

/// The kind of an identity.
#[derive(Debug, Clone, Copy, PartialEq, Eq, Hash)]
pub enum IdentityType {
    /// End user
    User,
    /// State node
    Node,
    /// System service
    Service,
}

/// An identity: a non-empty identifier and its kind.
#[derive(Debug, Clone, PartialEq, Eq, Hash)]
pub struct Identity {
    id: String,
    identity_type: IdentityType,
}

/// Identity construction errors.
#[derive(Debug, Clone, PartialEq, Eq)]
pub enum IdentityError {
    EmptyIdentifier,
}

impl Identity {
    /// The identifier as characters.
    pub closed spec fn spec_id(&self) -> Seq<char> {
        self.id@
    }

    /// The kind of this identity.
    pub closed spec fn spec_type(&self) -> IdentityType {
        self.identity_type
    }

    /// Every identity has a non-empty identifier.
    pub closed spec fn wf(&self) -> bool {
        self.id@.len() > 0
    }

    /// Whether two identities denote the same principal.
    pub open spec fn same(&self, other: &Identity) -> bool {
        self.spec_id() == other.spec_id() && self.spec_type() == other.spec_type()
    }

    /// Creates an identity; an empty identifier is refused.
    pub fn new(id: String, identity_type: IdentityType) -> (r: Result<Self, IdentityError>)
        ensures
            r is Err <==> id@.len() == 0,
            r matches Ok(i) ==> i.wf() && i.spec_id() == id@ && i.spec_type() == identity_type,
            r matches Err(e) ==> e == IdentityError::EmptyIdentifier,
    {
        if id.as_str().is_empty() {
            return Err(IdentityError::EmptyIdentifier);
        }
        Ok(Self { id, identity_type })
    }

    /// Creates a user identity.
    pub fn user(id: String) -> (r: Result<Self, IdentityError>)
        ensures
            r is Err <==> id@.len() == 0,
            r matches Ok(i) ==> i.wf() && i.spec_id() == id@ && i.spec_type() == IdentityType::User,
            r matches Err(e) ==> e == IdentityError::EmptyIdentifier,
    {
        Self::new(id, IdentityType::User)
    }

    /// Creates a node identity.
    pub fn node(id: String) -> (r: Result<Self, IdentityError>)
        ensures
            r is Err <==> id@.len() == 0,
            r matches Ok(i) ==> i.wf() && i.spec_id() == id@ && i.spec_type() == IdentityType::Node,
            r matches Err(e) ==> e == IdentityError::EmptyIdentifier,
    {
        Self::new(id, IdentityType::Node)
    }

    /// Creates a service identity.
    pub fn service(id: String) -> (r: Result<Self, IdentityError>)
        ensures
            r is Err <==> id@.len() == 0,
            r matches Ok(i) ==> i.wf() && i.spec_id() == id@ && i.spec_type()
                == IdentityType::Service,
            r matches Err(e) ==> e == IdentityError::EmptyIdentifier,
    {
        Self::new(id, IdentityType::Service)
    }

    /// The identifier.
    pub fn id(&self) -> (r: &str)
        ensures
            r@ == self.spec_id(),
    {
        self.id.as_str()
    }

    /// The kind of this identity.
    pub fn identity_type(&self) -> (r: &IdentityType)
        ensures
            *r == self.spec_type(),
    {
        &self.identity_type
    }

    pub fn is_user(&self) -> (r: bool)
        ensures
            r == (self.spec_type() == IdentityType::User),
    {
        matches!(self.identity_type, IdentityType::User)
    }

    pub fn is_node(&self) -> (r: bool)
        ensures
            r == (self.spec_type() == IdentityType::Node),
    {
        matches!(self.identity_type, IdentityType::Node)
    }

    pub fn is_service(&self) -> (r: bool)
        ensures
            r == (self.spec_type() == IdentityType::Service),
    {
        matches!(self.identity_type, IdentityType::Service)
    }

    /// Whether `other` is the same principal (same identifier and kind).
    pub fn same_as(&self, other: &Identity) -> (r: bool)
        ensures
            r == self.same(other),
    {
        let same_type = match (self.identity_type, other.identity_type) {
            (IdentityType::User, IdentityType::User) => true,
            (IdentityType::Node, IdentityType::Node) => true,
            (IdentityType::Service, IdentityType::Service) => true,
            _ => false,
        };
        same_type && self.id == other.id
    }

    /// A copy of this identity.
    pub fn duplicate(&self) -> (r: Identity)
        ensures
            r == *self,
    {
        Identity { id: self.id.clone(), identity_type: self.identity_type }
    }
}

} // verus!
