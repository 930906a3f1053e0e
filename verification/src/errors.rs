//! Errors of the state node, their messages and the HTTP status each is
//! answered with.
use crate::text::{concat, contains_str, decimal_chars, decimal_string, has_substring, to_owned_string};
use crate::value_objects::{ContentId, NodeId, ValueError};
use vstd::prelude::*;
use vstd::std_specs::convert::FromSpecImpl;

verus! {

/// Main error type of state node operations.
#[derive(Debug)]
pub enum StateNodeError {
    ContentNotFound(ContentId),
    ContentAlreadyExists(ContentId),
    NodeNotFound(NodeId),
    InsufficientCapacity { required: u64, available: u64 },
    NoAvailableMembers,
    NotAMember { node_id: String, content_id: ContentId },
    PermissionDenied(String),
    InvalidUcanToken(String),
    AuthenticationFailed(String),
    AuthorizationFailed(String),
    NetworkError(NetworkError),
    PeerNotReachable(String),
    CrdtError(CrdtError),
    InvalidCid(String),
    InvalidConfiguration(String),
    StorageError(String),
    ValueError(ValueError),
    Internal(String),
}

/// Network errors.
#[derive(Debug)]
pub enum NetworkError {
    ConnectionFailed(String),
    Timeout(String),
    ProtocolError(String),
}

/// CRDT errors.
#[derive(Debug)]
pub enum CrdtError {
    ConflictResolutionFailed(String),
    InvalidOperation(String),
    StorageError(String),
}

/// The message of a value-object error.
pub open spec fn value_error_text(e: ValueError) -> Seq<char> {
    match e {
        ValueError::EmptyContentId => "Content ID cannot be empty"@,
        ValueError::EmptyNodeId => "Node ID cannot be empty"@,
        ValueError::InvalidCidFormat(s) => "Invalid CID format: "@ + s@,
        ValueError::InvalidNodeIdFormat(s) => "Invalid node ID format: "@ + s@,
        ValueError::EmptyMemberNodes => "Member nodes cannot be empty"@,
        ValueError::InvalidPublicKeyFormat(s) => "Invalid public key format: "@ + s@,
        ValueError::NodeNotMember => "Node is not a member of the content network"@,
    }
}

/// The message of a network error.
pub open spec fn network_error_text(e: NetworkError) -> Seq<char> {
    match e {
        NetworkError::ConnectionFailed(s) => "Connection failed: "@ + s@,
        NetworkError::Timeout(s) => "Timeout: "@ + s@,
        NetworkError::ProtocolError(s) => "Protocol error: "@ + s@,
    }
}

/// The message of a CRDT error.
pub open spec fn crdt_error_text(e: CrdtError) -> Seq<char> {
    match e {
        CrdtError::ConflictResolutionFailed(s) => "Conflict resolution failed: "@ + s@,
        CrdtError::InvalidOperation(s) => "Invalid operation: "@ + s@,
        CrdtError::StorageError(s) => "Storage error: "@ + s@,
    }
}

/// The message of a state node error.
pub open spec fn error_text(e: StateNodeError) -> Seq<char> {
    match e {
        StateNodeError::ContentNotFound(c) => "Content not found: "@ + c@,
        StateNodeError::ContentAlreadyExists(c) => "Content already exists: "@ + c@,
        StateNodeError::NodeNotFound(n) => "Node not found: "@ + n@,
        StateNodeError::InsufficientCapacity { required, available } => "Insufficient capacity: required "@
            + decimal_chars(required as nat) + ", available "@ + decimal_chars(available as nat),
        StateNodeError::NoAvailableMembers => "No available member nodes found"@,
        StateNodeError::NotAMember { node_id, content_id } => "Node "@ + node_id@
            + " is not a member of content network "@ + content_id@,
        StateNodeError::PermissionDenied(s) => "Permission denied: "@ + s@,
        StateNodeError::InvalidUcanToken(s) => "Invalid UCAN token: "@ + s@,
        StateNodeError::AuthenticationFailed(s) => "Authentication failed: "@ + s@,
        StateNodeError::AuthorizationFailed(s) => "Authorization failed: "@ + s@,
        StateNodeError::NetworkError(n) => "Network error: "@ + network_error_text(n),
        StateNodeError::PeerNotReachable(s) => "Peer not reachable: "@ + s@,
        StateNodeError::CrdtError(c) => "CRDT error: "@ + crdt_error_text(c),
        StateNodeError::InvalidCid(s) => "Invalid CID: "@ + s@,
        StateNodeError::InvalidConfiguration(s) => "Invalid configuration: "@ + s@,
        StateNodeError::StorageError(s) => "Storage error: "@ + s@,
        StateNodeError::ValueError(v) => "Value object error: "@ + value_error_text(v),
        StateNodeError::Internal(s) => "Internal error: "@ + s@,
    }
}

/// The HTTP status that answers each error.
pub open spec fn http_status(e: StateNodeError) -> u16 {
    match e {
        StateNodeError::ContentNotFound(_) => 404,
        StateNodeError::ContentAlreadyExists(_) => 409,
        StateNodeError::PermissionDenied(_) => 403,
        StateNodeError::InvalidUcanToken(_) => 401,
        StateNodeError::AuthenticationFailed(_) => 401,
        StateNodeError::AuthorizationFailed(_) => 403,
        StateNodeError::InsufficientCapacity { .. } => 507,
        StateNodeError::NoAvailableMembers => 503,
        StateNodeError::NotAMember { .. } => 403,
        StateNodeError::InvalidCid(_) => 400,
        StateNodeError::InvalidConfiguration(_) => 400,
        StateNodeError::NetworkError(_) => 503,
        StateNodeError::PeerNotReachable(_) => 503,
        StateNodeError::NodeNotFound(_) => 404,
        StateNodeError::CrdtError(_) => 500,
        StateNodeError::StorageError(_) => 500,
        StateNodeError::ValueError(_) => 400,
        StateNodeError::Internal(_) => 500,
    }
}

/// Whether `r` is the error that a failure known only by its message
/// `msg` stands for: a message about membership is a refusal carrying the
/// message, one about missing members or capacity names those, anything
/// else is internal and carries the message.
pub open spec fn classifies(msg: Seq<char>, r: StateNodeError) -> bool {
    if has_substring(msg, "not a member"@) {
        r matches StateNodeError::PermissionDenied(m) && m@ == msg
    } else if has_substring(msg, "no available member nodes"@) {
        r is NoAvailableMembers
    } else if has_substring(msg, "capacity"@) {
        r == (StateNodeError::InsufficientCapacity { required: 0, available: 0 })
    } else {
        r matches StateNodeError::Internal(m) && m@ == msg
    }
}

impl ValueError {
    /// The error's message.
    pub fn message(&self) -> (r: String)
        ensures
            r@ == value_error_text(*self),
    {
        match self {
            ValueError::EmptyContentId => to_owned_string("Content ID cannot be empty"),
            ValueError::EmptyNodeId => to_owned_string("Node ID cannot be empty"),
            ValueError::InvalidCidFormat(s) => concat("Invalid CID format: ", s.as_str()),
            ValueError::InvalidNodeIdFormat(s) => concat("Invalid node ID format: ", s.as_str()),
            ValueError::EmptyMemberNodes => to_owned_string("Member nodes cannot be empty"),
            ValueError::InvalidPublicKeyFormat(s) => concat("Invalid public key format: ", s.as_str()),
            ValueError::NodeNotMember => to_owned_string("Node is not a member of the content network"),
        }
    }
}

impl NetworkError {
    /// The error's message.
    pub fn message(&self) -> (r: String)
        ensures
            r@ == network_error_text(*self),
    {
        match self {
            NetworkError::ConnectionFailed(s) => concat("Connection failed: ", s.as_str()),
            NetworkError::Timeout(s) => concat("Timeout: ", s.as_str()),
            NetworkError::ProtocolError(s) => concat("Protocol error: ", s.as_str()),
        }
    }
}

impl CrdtError {
    /// The error's message.
    pub fn message(&self) -> (r: String)
        ensures
            r@ == crdt_error_text(*self),
    {
        match self {
            CrdtError::ConflictResolutionFailed(s) => concat("Conflict resolution failed: ", s.as_str()),
            CrdtError::InvalidOperation(s) => concat("Invalid operation: ", s.as_str()),
            CrdtError::StorageError(s) => concat("Storage error: ", s.as_str()),
        }
    }
}

fn concat3(a: &str, b: &str, c: &str) -> (r: String)
    ensures
        r@ == a@ + b@ + c@,
{
    let ab = concat(a, b);
    concat(ab.as_str(), c)
}

fn concat4(a: &str, b: &str, c: &str, d: &str) -> (r: String)
    ensures
        r@ == a@ + b@ + c@ + d@,
{
    let abc = concat3(a, b, c);
    concat(abc.as_str(), d)
}

impl StateNodeError {
    /// The HTTP status that answers the error.
    pub fn to_http_status(&self) -> (r: u16)
        ensures
            r == http_status(*self),
    {
        match self {
            StateNodeError::ContentNotFound(_) => 404,
            StateNodeError::ContentAlreadyExists(_) => 409,
            StateNodeError::PermissionDenied(_) => 403,
            StateNodeError::InvalidUcanToken(_) => 401,
            StateNodeError::AuthenticationFailed(_) => 401,
            StateNodeError::AuthorizationFailed(_) => 403,
            StateNodeError::InsufficientCapacity { .. } => 507,
            StateNodeError::NoAvailableMembers => 503,
            StateNodeError::NotAMember { .. } => 403,
            StateNodeError::InvalidCid(_) => 400,
            StateNodeError::InvalidConfiguration(_) => 400,
            StateNodeError::NetworkError(_) => 503,
            StateNodeError::PeerNotReachable(_) => 503,
            StateNodeError::NodeNotFound(_) => 404,
            StateNodeError::CrdtError(_) => 500,
            StateNodeError::StorageError(_) => 500,
            StateNodeError::ValueError(_) => 400,
            StateNodeError::Internal(_) => 500,
        }
    }

    /// The error's message.
    pub fn message(&self) -> (r: String)
        ensures
            r@ == error_text(*self),
    {
        match self {
            StateNodeError::ContentNotFound(c) => concat("Content not found: ", c.as_str()),
            StateNodeError::ContentAlreadyExists(c) => concat("Content already exists: ", c.as_str()),
            StateNodeError::NodeNotFound(n) => concat("Node not found: ", n.as_str()),
            StateNodeError::InsufficientCapacity { required, available } => {
                let r = decimal_string(*required);
                let a = decimal_string(*available);
                concat4("Insufficient capacity: required ", r.as_str(), ", available ", a.as_str())
            },
            StateNodeError::NoAvailableMembers => to_owned_string("No available member nodes found"),
            StateNodeError::NotAMember { node_id, content_id } => concat4(
                "Node ",
                node_id.as_str(),
                " is not a member of content network ",
                content_id.as_str(),
            ),
            StateNodeError::PermissionDenied(s) => concat("Permission denied: ", s.as_str()),
            StateNodeError::InvalidUcanToken(s) => concat("Invalid UCAN token: ", s.as_str()),
            StateNodeError::AuthenticationFailed(s) => concat("Authentication failed: ", s.as_str()),
            StateNodeError::AuthorizationFailed(s) => concat("Authorization failed: ", s.as_str()),
            StateNodeError::NetworkError(n) => {
                let m = n.message();
                concat("Network error: ", m.as_str())
            },
            StateNodeError::PeerNotReachable(s) => concat("Peer not reachable: ", s.as_str()),
            StateNodeError::CrdtError(c) => {
                let m = c.message();
                concat("CRDT error: ", m.as_str())
            },
            StateNodeError::InvalidCid(s) => concat("Invalid CID: ", s.as_str()),
            StateNodeError::InvalidConfiguration(s) => concat("Invalid configuration: ", s.as_str()),
            StateNodeError::StorageError(s) => concat("Storage error: ", s.as_str()),
            StateNodeError::ValueError(v) => {
                let m = v.message();
                concat("Value object error: ", m.as_str())
            },
            StateNodeError::Internal(s) => concat("Internal error: ", s.as_str()),
        }
    }

    /// The error that a failure known only by its message stands for; see
    /// `classifies`.
    pub fn from_message(msg: String) -> (r: StateNodeError)
        ensures
            classifies(msg@, r),
    {
        if contains_str(msg.as_str(), "not a member") {
            StateNodeError::PermissionDenied(msg)
        } else if contains_str(msg.as_str(), "no available member nodes") {
            StateNodeError::NoAvailableMembers
        } else if contains_str(msg.as_str(), "capacity") {
            StateNodeError::InsufficientCapacity { required: 0, available: 0 }
        } else {
            StateNodeError::Internal(msg)
        }
    }
}

impl From<NetworkError> for StateNodeError {
    fn from(e: NetworkError) -> (r: StateNodeError) {
        StateNodeError::NetworkError(e)
    }
}

impl FromSpecImpl<NetworkError> for StateNodeError {
    open spec fn obeys_from_spec() -> bool {
        true
    }

    open spec fn from_spec(v: NetworkError) -> StateNodeError {
        StateNodeError::NetworkError(v)
    }
}

impl From<CrdtError> for StateNodeError {
    fn from(e: CrdtError) -> (r: StateNodeError) {
        StateNodeError::CrdtError(e)
    }
}

impl FromSpecImpl<CrdtError> for StateNodeError {
    open spec fn obeys_from_spec() -> bool {
        true
    }

    open spec fn from_spec(v: CrdtError) -> StateNodeError {
        StateNodeError::CrdtError(v)
    }
}

impl From<ValueError> for StateNodeError {
    fn from(e: ValueError) -> (r: StateNodeError) {
        StateNodeError::ValueError(e)
    }
}

impl FromSpecImpl<ValueError> for StateNodeError {
    open spec fn obeys_from_spec() -> bool {
        true
    }

    open spec fn from_spec(v: ValueError) -> StateNodeError {
        StateNodeError::ValueError(v)
    }
}

} // verus!
