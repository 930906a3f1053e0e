//! The content operations of the state node service, one step at a time.
//!
//! An operation alternates decisions with outside work (a repository read
//! or write, an authentication, a publication on the network). Each step
//! function takes the state the operation is in and what the last piece of
//! outside work came back with, and gives the next state together with the
//! next piece of outside work, or the operation's result. The caller runs
//! the loop: it performs each action and hands back its outcome.
use crate::auth_capability::AuthCapability;
use crate::content_network::{remove_member_node, ContentNetwork};
use crate::errors::{CrdtError, NetworkError, StateNodeError};
use crate::events::Event;
use crate::identity::Identity;
use crate::keyed::Keyed;
use crate::content_storage_repository::{compute_content_id, payload_cid};
use crate::node_service::{
    choose_members, copy_strings, healthy_count, low_capacity, missing_credential_error,
    plan_redundancy, removal_outcome, ServiceConfig,
};
use crate::placement::selection;
use crate::text::{str_equal, string_views, to_owned_string};
use crate::ucan::AuthorizationResult;
use crate::value_objects::{ContentId, NodeId, ValueError};
use vstd::prelude::*;

verus! {

/// A request to change a stored content, as the steps see it.
#[derive(Debug, Clone)]
pub struct ContentRequest {
    /// The content to change.
    pub content_id: String,
    /// The node that serves the request.
    pub local_node_id: String,
    /// The time stamped on the event the change publishes.
    pub timestamp: u64,
    /// Whether the caller presented an authentication token.
    pub has_token: bool,
    /// Whether the caller presented a request signature.
    pub has_signature: bool,
    /// Whether an authentication service is configured.
    pub auth_configured: bool,
    /// Whether an authorization service is configured.
    pub authz_configured: bool,
    /// Whether an access-policy store is configured.
    pub policy_store_configured: bool,
}

/// What the last piece of outside work came back with.
#[derive(Debug)]
pub enum StepInput {
    /// The operation starts.
    Begin,
    /// The content network was looked up (`None`: there is none).
    NetworkLookedUp(Result<Option<ContentNetwork>, String>),
    /// The caller was authenticated as this identity.
    Authenticated(Result<Identity, String>),
    /// The authorization service answered.
    Authorized(Result<AuthorizationResult, String>),
    /// The content store created the content, under this id.
    ContentStored(Result<String, String>),
    /// The closest peers of a content, with the free capacity each reported.
    PeersFound(Result<(Vec<String>, Keyed<u64>), String>),
    /// The free capacity each member reported.
    CapacitiesReported(Result<Keyed<u64>, String>),
    /// A write to a store was done.
    Saved(Result<(), String>),
    /// An event was published.
    Published(Result<(), String>),
    /// Adding members was attempted (its outcome does not change what follows).
    MembersAdded,
    /// The redundancy of a content was checked (its outcome does not change
    /// what follows).
    RedundancyChecked,
}

/// The next piece of outside work, or the end of the operation.
#[derive(Debug)]
pub enum StepAction {
    /// Look up the content network of a content.
    LookUpNetwork { content_id: String },
    /// Authenticate the caller's token.
    Authenticate,
    /// Ask whether the identity may do `capability` on the content.
    Authorize { identity: Identity, content_id: String, capability: AuthCapability },
    /// Write the new payload of a content to the content store.
    UpdateContent { content_id: String },
    /// Create the content in the content store.
    CreateContent,
    /// Find up to `count` closest peers of a content and their capacities.
    FindPeers { content_id: String, count: usize },
    /// Ask the given nodes for their free capacity.
    QueryCapacities { node_ids: Vec<String> },
    /// Try to add up to `count` members to a content.
    AddMembers { content_id: String, count: usize },
    /// Store a new content network with these members.
    SaveNewNetwork { content_id: String, member_nodes: Vec<String> },
    /// Store this content network.
    SaveNetwork(ContentNetwork),
    /// Store an access policy owned by `owner` for a content.
    SavePolicy { content_id: String, owner: Identity },
    /// Delete the content network of a content.
    DeleteNetwork { content_id: String },
    /// Delete the access policy of a content.
    DeletePolicy { content_id: String },
    /// Publish an event, locally and to the network.
    Publish(Event),
    /// Check and restore the redundancy of a content.
    MaintainRedundancy { content_id: String },
    /// The operation ends with this result.
    Finish(Result<Event, StateNodeError>),
    /// The redundancy check ends with this result.
    Complete(Result<(), StateNodeError>),
}

/// The message of an input that does not fit the state.
pub open spec fn unexpected_input_text() -> Seq<char> {
    "unexpected step input"@
}

/// The error of an input that does not fit the state.
pub open spec fn unexpected_input(e: StateNodeError) -> bool {
    e matches StateNodeError::Internal(m) && m@ == unexpected_input_text()
}

/// An authentication refusal with this message.
pub open spec fn authentication_failed(e: StateNodeError, msg: Seq<char>) -> bool {
    e matches StateNodeError::AuthenticationFailed(m) && m@ == msg
}

/// An authorization refusal with this message.
pub open spec fn authorization_failed(e: StateNodeError, msg: Seq<char>) -> bool {
    e matches StateNodeError::AuthorizationFailed(m) && m@ == msg
}

/// A missing service, named by this message.
pub open spec fn configuration_missing(e: StateNodeError, msg: Seq<char>) -> bool {
    e matches StateNodeError::InvalidConfiguration(m) && m@ == msg
}

/// A failed write or read of a repository, with this message.
pub open spec fn storage_failed(e: StateNodeError, msg: Seq<char>) -> bool {
    e matches StateNodeError::StorageError(m) && m@ == msg
}

/// A failed write to the content store, with this message.
pub open spec fn content_store_failed(e: StateNodeError, msg: Seq<char>) -> bool {
    e matches StateNodeError::CrdtError(CrdtError::StorageError(m)) && m@ == msg
}

/// A failed publication, with this message.
pub open spec fn publish_failed(e: StateNodeError, msg: Seq<char>) -> bool {
    e matches StateNodeError::NetworkError(NetworkError::ProtocolError(m)) && m@ == msg
}

/// Peers that could not be reached, with this message.
pub open spec fn peers_unreachable(e: StateNodeError, msg: Seq<char>) -> bool {
    e matches StateNodeError::NetworkError(NetworkError::ConnectionFailed(m)) && m@ == msg
}

/// The content has no network here.
pub open spec fn content_not_found(e: StateNodeError, cid: Seq<char>) -> bool {
    e matches StateNodeError::ContentNotFound(c) && c@ == cid
}

/// The node is not a member of the content's network.
pub open spec fn not_a_member(e: StateNodeError, node: Seq<char>, cid: Seq<char>) -> bool {
    e matches StateNodeError::NotAMember { node_id, content_id } && node_id@ == node
        && content_id@ == cid
}

/// The step ends the operation in `done` with an error that meets `p`.
pub open spec fn ends_failing<S>(r: (S, StepAction), done: S, p: spec_fn(StateNodeError) -> bool) -> bool {
    r.0 == done && (r.1 matches StepAction::Finish(Err(e)) && p(e))
}

/// The refusal of a request that lacks its token or its signature, in that
/// order of checks; `None` when both are there.
pub open spec fn credential_refusal(has_token: bool, has_signature: bool) -> Option<Seq<char>> {
    if !has_token {
        Some("Authentication token is required"@)
    } else if !has_signature {
        Some("Request signature is required"@)
    } else {
        None
    }
}

fn fail<S>(done: S, e: StateNodeError) -> (r: (S, StepAction))
    ensures
        r.0 == done,
        r.1 == StepAction::Finish(Err(e)),
{
    (done, StepAction::Finish(Err(e)))
}

fn fail_unexpected<S>(done: S) -> (r: (S, StepAction))
    ensures
        ends_failing(r, done, |e: StateNodeError| unexpected_input(e)),
{
    fail(done, StateNodeError::Internal(to_owned_string("unexpected step input")))
}

/// Which change a request asks for.
#[derive(Debug, Clone, Copy, PartialEq, Eq, Structural)]
pub enum ChangeKind {
    Update,
    Delete,
}

/// Where an update or a deletion stands.
#[derive(Debug, Clone, Copy, PartialEq, Eq, Structural)]
pub enum ChangeState {
    /// Nothing done yet.
    Start,
    /// Waiting for the content network.
    AwaitNetwork,
    /// Waiting for the caller's authentication.
    AwaitAuthentication,
    /// Waiting for the authorization service.
    AwaitAuthorization,
    /// Waiting for the change itself: the content written (update) or the
    /// content network deleted (deletion).
    AwaitChange,
    /// Waiting for the access policy to be deleted.
    AwaitPolicyDeletion,
    /// Waiting for the event to be published.
    AwaitPublish,
    /// Waiting for the redundancy check that follows an update.
    AwaitRedundancy,
    /// The operation has ended.
    Finished,
}

/// The capability a change needs.
pub open spec fn change_capability(k: ChangeKind) -> AuthCapability {
    match k {
        ChangeKind::Update => AuthCapability::WriteContent,
        ChangeKind::Delete => AuthCapability::DeleteContent,
    }
}

/// The event a change publishes and ends with.
pub open spec fn change_event(k: ChangeKind, q: ContentRequest, ev: Event) -> bool {
    match k {
        ChangeKind::Update => ev matches Event::ContentUpdated {
            content_id,
            updated_node_id,
            timestamp,
        } && content_id@ == q.content_id@ && updated_node_id@ == q.local_node_id@ && timestamp
            == q.timestamp,
        ChangeKind::Delete => ev matches Event::ContentDeleted {
            content_id,
            deleted_by_node_id,
            timestamp,
        } && content_id@ == q.content_id@ && deleted_by_node_id@ == q.local_node_id@ && timestamp
            == q.timestamp,
    }
}

/// The step that starts the change itself, once every check has passed.
pub open spec fn begins_change(k: ChangeKind, q: ContentRequest, r: (ChangeState, StepAction)) -> bool {
    &&& r.0 == ChangeState::AwaitChange
    &&& match k {
        ChangeKind::Update => r.1 matches StepAction::UpdateContent { content_id }
            && content_id@ == q.content_id@,
        ChangeKind::Delete => r.1 matches StepAction::DeleteNetwork { content_id }
            && content_id@ == q.content_id@,
    }
}

/// The step that publishes the change's event.
pub open spec fn publishes_change(k: ChangeKind, q: ContentRequest, r: (ChangeState, StepAction)) -> bool {
    r.0 == ChangeState::AwaitPublish && (r.1 matches StepAction::Publish(ev) && change_event(k, q, ev))
}

/// The step that ends the change with its event.
pub open spec fn finishes_change(k: ChangeKind, q: ContentRequest, r: (ChangeState, StepAction)) -> bool {
    r.0 == ChangeState::Finished && (r.1 matches StepAction::Finish(Ok(ev)) && change_event(k, q, ev))
}

/// One step of an update or a deletion of a content.
///
/// The checks come in this order: the token, then the request signature,
/// then a non-empty content id; the content network must exist
/// (`ContentNotFound`) and the local node must be one of its members
/// (`NotAMember`). Authentication and authorization follow when an
/// authentication service is configured (then an authorization service is
/// needed too); without one the change is not checked further. Then the
/// change is made: an update writes the content, a deletion deletes the
/// content network and, when a policy store is configured, the access
/// policy. The event is published; an update then has the content's
/// redundancy checked, whatever comes of it. The operation ends with the
/// event. Any outside failure ends it with the matching error; an input
/// that does not fit the state ends it as unexpected.
pub open spec fn change_transition(
    k: ChangeKind,
    q: ContentRequest,
    s: ChangeState,
    i: StepInput,
    r: (ChangeState, StepAction),
) -> bool {
    let done = ChangeState::Finished;
    match s {
        ChangeState::Start => match i {
            StepInput::Begin => match credential_refusal(q.has_token, q.has_signature) {
                Some(msg) => ends_failing(r, done, |e: StateNodeError| authentication_failed(e, msg)),
                None => if q.content_id@.len() == 0 {
                    ends_failing(
                        r,
                        done,
                        |e: StateNodeError| e == StateNodeError::ValueError(ValueError::EmptyContentId),
                    )
                } else {
                    r.0 == ChangeState::AwaitNetwork && (r.1 matches StepAction::LookUpNetwork {
                        content_id,
                    } && content_id@ == q.content_id@)
                },
            },
            _ => ends_failing(r, done, |e: StateNodeError| unexpected_input(e)),
        },
        ChangeState::AwaitNetwork => match i {
            StepInput::NetworkLookedUp(Err(m)) => ends_failing(
                r,
                done,
                |e: StateNodeError| storage_failed(e, m@),
            ),
            StepInput::NetworkLookedUp(Ok(None)) => ends_failing(
                r,
                done,
                |e: StateNodeError| content_not_found(e, q.content_id@),
            ),
            StepInput::NetworkLookedUp(Ok(Some(n))) => if !n@.has(q.local_node_id@) {
                ends_failing(
                    r,
                    done,
                    |e: StateNodeError| not_a_member(e, q.local_node_id@, q.content_id@),
                )
            } else if !q.auth_configured {
                begins_change(k, q, r)
            } else if !q.authz_configured {
                ends_failing(
                    r,
                    done,
                    |e: StateNodeError| configuration_missing(e, "Authorization not configured"@),
                )
            } else {
                r.0 == ChangeState::AwaitAuthentication && r.1 == StepAction::Authenticate
            },
            _ => ends_failing(r, done, |e: StateNodeError| unexpected_input(e)),
        },
        ChangeState::AwaitAuthentication => match i {
            StepInput::Authenticated(Err(m)) => ends_failing(
                r,
                done,
                |e: StateNodeError| authentication_failed(e, m@),
            ),
            StepInput::Authenticated(Ok(id)) => r.0 == ChangeState::AwaitAuthorization && (r.1 matches StepAction::Authorize {
                identity,
                content_id,
                capability,
            } && identity == id && content_id@ == q.content_id@ && capability == change_capability(k)),
            _ => ends_failing(r, done, |e: StateNodeError| unexpected_input(e)),
        },
        ChangeState::AwaitAuthorization => match i {
            StepInput::Authorized(Err(m)) => ends_failing(
                r,
                done,
                |e: StateNodeError| authorization_failed(e, m@),
            ),
            StepInput::Authorized(Ok(AuthorizationResult::Denied { reason })) => ends_failing(
                r,
                done,
                |e: StateNodeError| authorization_failed(e, reason@),
            ),
            StepInput::Authorized(Ok(AuthorizationResult::Granted)) => begins_change(k, q, r),
            _ => ends_failing(r, done, |e: StateNodeError| unexpected_input(e)),
        },
        ChangeState::AwaitChange => match i {
            StepInput::Saved(Err(m)) => match k {
                ChangeKind::Update => ends_failing(r, done, |e: StateNodeError| content_store_failed(e, m@)),
                ChangeKind::Delete => ends_failing(r, done, |e: StateNodeError| storage_failed(e, m@)),
            },
            StepInput::Saved(Ok(())) => if k == ChangeKind::Delete && q.policy_store_configured {
                r.0 == ChangeState::AwaitPolicyDeletion && (r.1 matches StepAction::DeletePolicy {
                    content_id,
                } && content_id@ == q.content_id@)
            } else {
                publishes_change(k, q, r)
            },
            _ => ends_failing(r, done, |e: StateNodeError| unexpected_input(e)),
        },
        ChangeState::AwaitPolicyDeletion => match i {
            StepInput::Saved(Err(m)) if k == ChangeKind::Delete => ends_failing(
                r,
                done,
                |e: StateNodeError| storage_failed(e, m@),
            ),
            StepInput::Saved(Ok(())) if k == ChangeKind::Delete => publishes_change(k, q, r),
            _ => ends_failing(r, done, |e: StateNodeError| unexpected_input(e)),
        },
        ChangeState::AwaitPublish => match i {
            StepInput::Published(Err(m)) => ends_failing(
                r,
                done,
                |e: StateNodeError| publish_failed(e, m@),
            ),
            StepInput::Published(Ok(())) => match k {
                ChangeKind::Update => r.0 == ChangeState::AwaitRedundancy && (r.1 matches StepAction::MaintainRedundancy {
                    content_id,
                } && content_id@ == q.content_id@),
                ChangeKind::Delete => finishes_change(k, q, r),
            },
            _ => ends_failing(r, done, |e: StateNodeError| unexpected_input(e)),
        },
        ChangeState::AwaitRedundancy => match i {
            StepInput::RedundancyChecked if k == ChangeKind::Update => finishes_change(k, q, r),
            _ => ends_failing(r, done, |e: StateNodeError| unexpected_input(e)),
        },
        ChangeState::Finished => ends_failing(r, done, |e: StateNodeError| unexpected_input(e)),
    }
}

/// The event a change publishes.
fn change_event_of(k: ChangeKind, q: &ContentRequest) -> (r: Event)
    ensures
        change_event(k, *q, r),
{
    match k {
        ChangeKind::Update => Event::ContentUpdated {
            content_id: to_owned_string(q.content_id.as_str()),
            updated_node_id: to_owned_string(q.local_node_id.as_str()),
            timestamp: q.timestamp,
        },
        ChangeKind::Delete => Event::ContentDeleted {
            content_id: to_owned_string(q.content_id.as_str()),
            deleted_by_node_id: to_owned_string(q.local_node_id.as_str()),
            timestamp: q.timestamp,
        },
    }
}

/// The action that makes the change itself.
fn change_action(k: ChangeKind, q: &ContentRequest) -> (r: (ChangeState, StepAction))
    ensures
        begins_change(k, *q, r),
{
    let cid = to_owned_string(q.content_id.as_str());
    match k {
        ChangeKind::Update => (ChangeState::AwaitChange, StepAction::UpdateContent { content_id: cid }),
        ChangeKind::Delete => (ChangeState::AwaitChange, StepAction::DeleteNetwork { content_id: cid }),
    }
}

/// The request's content id as a value object; it was checked to be
/// non-empty in the first step.
fn request_content_id(q: &ContentRequest) -> (r: Result<ContentId, StateNodeError>)
    ensures
        r matches Ok(c) ==> c@ == q.content_id@,
        r is Err <==> q.content_id@.len() == 0,
        r matches Err(e) ==> e == StateNodeError::ValueError(ValueError::EmptyContentId),
{
    match ContentId::new(to_owned_string(q.content_id.as_str())) {
        Ok(c) => Ok(c),
        Err(e) => Err(StateNodeError::ValueError(e)),
    }
}

/// One step of an update or a deletion, as `change_transition` states it.
pub fn change_step(k: ChangeKind, q: &ContentRequest, s: ChangeState, i: StepInput) -> (r: (
    ChangeState,
    StepAction,
))
    requires
        s != ChangeState::Start ==> q.content_id@.len() > 0,
    ensures
        change_transition(k, *q, s, i, r),
{
    let done = ChangeState::Finished;
    match s {
        ChangeState::Start => match i {
            StepInput::Begin => {
                if !q.has_token {
                    return fail(
                        done,
                        StateNodeError::AuthenticationFailed(
                            to_owned_string("Authentication token is required"),
                        ),
                    );
                }
                if !q.has_signature {
                    return fail(
                        done,
                        StateNodeError::AuthenticationFailed(
                            to_owned_string("Request signature is required"),
                        ),
                    );
                }
                match request_content_id(q) {
                    Err(e) => fail(done, e),
                    Ok(_) => (
                        ChangeState::AwaitNetwork,
                        StepAction::LookUpNetwork { content_id: to_owned_string(q.content_id.as_str()) },
                    ),
                }
            },
            _ => fail_unexpected(done),
        },
        ChangeState::AwaitNetwork => match i {
            StepInput::NetworkLookedUp(Err(m)) => fail(done, StateNodeError::StorageError(m)),
            StepInput::NetworkLookedUp(Ok(None)) => match request_content_id(q) {
                Ok(c) => fail(done, StateNodeError::ContentNotFound(c)),
                Err(e) => fail(done, e),
            },
            StepInput::NetworkLookedUp(Ok(Some(n))) => {
                if !n.has_member_str(q.local_node_id.as_str()) {
                    match request_content_id(q) {
                        Ok(c) => fail(
                            done,
                            StateNodeError::NotAMember {
                                node_id: to_owned_string(q.local_node_id.as_str()),
                                content_id: c,
                            },
                        ),
                        Err(e) => fail(done, e),
                    }
                } else if !q.auth_configured {
                    change_action(k, q)
                } else if !q.authz_configured {
                    fail(
                        done,
                        StateNodeError::InvalidConfiguration(
                            to_owned_string("Authorization not configured"),
                        ),
                    )
                } else {
                    (ChangeState::AwaitAuthentication, StepAction::Authenticate)
                }
            },
            _ => fail_unexpected(done),
        },
        ChangeState::AwaitAuthentication => match i {
            StepInput::Authenticated(Err(m)) => fail(done, StateNodeError::AuthenticationFailed(m)),
            StepInput::Authenticated(Ok(id)) => {
                let capability = match k {
                    ChangeKind::Update => AuthCapability::WriteContent,
                    ChangeKind::Delete => AuthCapability::DeleteContent,
                };
                (
                    ChangeState::AwaitAuthorization,
                    StepAction::Authorize {
                        identity: id,
                        content_id: to_owned_string(q.content_id.as_str()),
                        capability,
                    },
                )
            },
            _ => fail_unexpected(done),
        },
        ChangeState::AwaitAuthorization => match i {
            StepInput::Authorized(Err(m)) => fail(done, StateNodeError::AuthorizationFailed(m)),
            StepInput::Authorized(Ok(AuthorizationResult::Denied { reason })) => fail(
                done,
                StateNodeError::AuthorizationFailed(reason),
            ),
            StepInput::Authorized(Ok(AuthorizationResult::Granted)) => change_action(k, q),
            _ => fail_unexpected(done),
        },
        ChangeState::AwaitChange => match i {
            StepInput::Saved(Err(m)) => match k {
                ChangeKind::Update => fail(done, StateNodeError::CrdtError(CrdtError::StorageError(m))),
                ChangeKind::Delete => fail(done, StateNodeError::StorageError(m)),
            },
            StepInput::Saved(Ok(())) => {
                if k == ChangeKind::Delete && q.policy_store_configured {
                    (
                        ChangeState::AwaitPolicyDeletion,
                        StepAction::DeletePolicy { content_id: to_owned_string(q.content_id.as_str()) },
                    )
                } else {
                    (ChangeState::AwaitPublish, StepAction::Publish(change_event_of(k, q)))
                }
            },
            _ => fail_unexpected(done),
        },
        ChangeState::AwaitPolicyDeletion => match i {
            StepInput::Saved(Err(m)) if k == ChangeKind::Delete => fail(done, StateNodeError::StorageError(m)),
            StepInput::Saved(Ok(())) if k == ChangeKind::Delete => (
                ChangeState::AwaitPublish,
                StepAction::Publish(change_event_of(k, q)),
            ),
            _ => fail_unexpected(done),
        },
        ChangeState::AwaitPublish => match i {
            StepInput::Published(Err(m)) => fail(
                done,
                StateNodeError::NetworkError(NetworkError::ProtocolError(m)),
            ),
            StepInput::Published(Ok(())) => match k {
                ChangeKind::Update => (
                    ChangeState::AwaitRedundancy,
                    StepAction::MaintainRedundancy { content_id: to_owned_string(q.content_id.as_str()) },
                ),
                ChangeKind::Delete => (done, StepAction::Finish(Ok(change_event_of(k, q)))),
            },
            _ => fail_unexpected(done),
        },
        ChangeState::AwaitRedundancy => match i {
            StepInput::RedundancyChecked if k == ChangeKind::Update => (
                done,
                StepAction::Finish(Ok(change_event_of(k, q))),
            ),
            _ => fail_unexpected(done),
        },
        ChangeState::Finished => fail_unexpected(done),
    }
}

/// One step of an update of a content (see `change_transition`): token,
/// signature, content network, membership, then authentication and
/// authorization for writing when configured; the content is written, the
/// update published, the redundancy checked, and the update event returned.
pub fn update_content_step(q: &ContentRequest, s: ChangeState, i: StepInput) -> (r: (
    ChangeState,
    StepAction,
))
    requires
        s != ChangeState::Start ==> q.content_id@.len() > 0,
    ensures
        change_transition(ChangeKind::Update, *q, s, i, r),
{
    change_step(ChangeKind::Update, q, s, i)
}

/// One step of a deletion of a content (see `change_transition`): token,
/// signature, content network, membership, then authentication and
/// authorization for deleting when configured; the content network and
/// (when a policy store is configured) the access policy are deleted, the
/// deletion published, and the deletion event returned.
pub fn delete_content_step(q: &ContentRequest, s: ChangeState, i: StepInput) -> (r: (
    ChangeState,
    StepAction,
))
    requires
        s != ChangeState::Start ==> q.content_id@.len() > 0,
    ensures
        change_transition(ChangeKind::Delete, *q, s, i, r),
{
    change_step(ChangeKind::Delete, q, s, i)
}

/// A request to check and restore the redundancy of a content.
#[derive(Debug, Clone)]
pub struct RedundancyRequest {
    /// The content to check.
    pub content_id: String,
    /// The node that runs the check.
    pub local_node_id: String,
    /// The replication factor and the capacity threshold.
    pub config: ServiceConfig,
}

/// Where a redundancy check stands.
#[derive(Debug)]
pub enum RedundancyState {
    /// Nothing done yet.
    Start,
    /// Waiting for the content network.
    AwaitNetwork,
    /// Waiting for the capacities of these members.
    AwaitCapacities { members: Vec<String> },
    /// Waiting for members to be added; these members are low on storage.
    AwaitMembersAdded { low_capacity_nodes: Vec<String> },
    /// Waiting for the content network again, after members were added.
    AwaitRefreshedNetwork { low_capacity_nodes: Vec<String> },
    /// Waiting for a removal to be published; `network` is the network
    /// after it, and the low-capacity members from `next` on are still to
    /// be looked at.
    AwaitPublish { network: ContentNetwork, low_capacity_nodes: Vec<String>, next: usize },
    /// Waiting for the network to be stored.
    AwaitSave,
    /// The check has ended.
    Finished,
}

/// The step ends the check in `Finished` with an error that meets `p`.
pub open spec fn completes_failing(r: (RedundancyState, StepAction), p: spec_fn(StateNodeError) -> bool) -> bool {
    r.0 is Finished && (r.1 matches StepAction::Complete(Err(e)) && p(e))
}

/// Where, from position `j` of the low-capacity list on, the next member is
/// met that is to be removed (or whose id is empty, which ends the check
/// with an error): the local node is passed over; removal stops at the
/// first other node once the network has no more than `min` members; a
/// node that is not a member, or the last member, is passed over. `None`
/// when removal stops or the list ends first.
pub open spec fn next_removal(
    m: Map<Seq<char>, Seq<u8>>,
    count: nat,
    low: Seq<Seq<char>>,
    local: Seq<char>,
    min: nat,
    j: int,
) -> Option<int>
    decreases low.len() - j,
{
    if j < 0 || j >= low.len() {
        None
    } else if low[j] == local {
        next_removal(m, count, low, local, min, j + 1)
    } else if count <= min {
        None
    } else if low[j].len() == 0 || (m.contains_key(low[j]) && count > 1) {
        Some(j)
    } else {
        next_removal(m, count, low, local, min, j + 1)
    }
}

/// The member `next_removal` finds is one to act on: not the local node,
/// met while the network has more than `min` members, and either with an
/// empty id or a member that is not the last one.
pub proof fn lemma_next_removal_hit(
    m: Map<Seq<char>, Seq<u8>>,
    count: nat,
    low: Seq<Seq<char>>,
    local: Seq<char>,
    min: nat,
    j: int,
)
    requires
        next_removal(m, count, low, local, min, j) is Some,
    ensures
        ({
            let k = next_removal(m, count, low, local, min, j)->0;
            &&& j <= k < low.len()
            &&& low[k] != local
            &&& count > min
            &&& low[k].len() == 0 || (m.contains_key(low[k]) && count > 1)
        }),
    decreases low.len() - j,
{
    if 0 <= j < low.len() {
        if low[j] == local {
            lemma_next_removal_hit(m, count, low, local, min, j + 1);
        } else if count <= min {
        } else if low[j].len() == 0 || (m.contains_key(low[j]) && count > 1) {
        } else {
            lemma_next_removal_hit(m, count, low, local, min, j + 1);
        }
    }
}

/// Removing low-capacity members one step at a time, as the redundancy
/// check does, ends where removing them all at once ends
/// (`removal_outcome`, which `remove_low_capacity_members` computes): from
/// position `j` on, either no removal is left and the network stays as it
/// is, or the next removal is the one `removal_outcome` makes first. (An
/// empty id ends the check with an error instead, so the ids are taken
/// non-empty.)
pub proof fn law_stepwise_removal_matches_outcome(
    m: Map<Seq<char>, Seq<u8>>,
    count: nat,
    low: Seq<Seq<char>>,
    local: Seq<char>,
    min: nat,
    j: int,
)
    requires
        0 <= j <= low.len(),
        forall|k: int| j <= k < low.len() ==> (#[trigger] low[k]).len() > 0,
    ensures
        match next_removal(m, count, low, local, min, j) {
            None => removal_outcome(m, count, low.subrange(j, low.len() as int), local, min) == (
                m,
                count,
            ),
            Some(k) => k + 1 <= low.len() && removal_outcome(
                m,
                count,
                low.subrange(j, low.len() as int),
                local,
                min,
            ) == removal_outcome(
                m.remove(low[k]),
                (count - 1) as nat,
                low.subrange(k + 1, low.len() as int),
                local,
                min,
            ),
        },
    decreases low.len() - j,
{
    let tail = low.subrange(j, low.len() as int);
    if j == low.len() {
        assert(tail.len() == 0);
    } else {
        assert(tail[0] == low[j]);
        assert(tail.drop_first() =~= low.subrange(j + 1, low.len() as int));
        assert(low[j].len() > 0);
        if low[j] == local || !(count <= min || (m.contains_key(low[j]) && count > 1)) {
            law_stepwise_removal_matches_outcome(m, count, low, local, min, j + 1);
        }
    }
}

/// The event of removing `removed` from the network of `cid` for low
/// capacity, `members` being the members after it.
pub open spec fn low_capacity_removal(ev: Event, cid: Seq<char>, removed: Seq<char>, members: Seq<Seq<char>>) -> bool {
    ev matches Event::ContentNetworkManagerRemoved {
        content_id,
        removed_node_id,
        member_nodes,
        reason,
        ..
    } && content_id@ == cid && removed_node_id@ == removed && string_views(member_nodes@) == members
        && reason@ == "low_capacity"@
}

/// The step taken with the network `n` when the low-capacity members `l`
/// from position `j` on are still to be looked at: the next removal is
/// made and published, or, when there is none, the network is stored.
pub open spec fn removal_step(
    q: RedundancyRequest,
    n: ContentNetwork,
    l: Vec<String>,
    j: int,
    r: (RedundancyState, StepAction),
) -> bool {
    let low = string_views(l@);
    match next_removal(
        n@.member_map(),
        n@.members.len(),
        low,
        q.local_node_id@,
        q.config.min_replication_factor as nat,
        j,
    ) {
        None => r.0 is AwaitSave && r.1 == StepAction::SaveNetwork(n),
        Some(k) => if low[k].len() == 0 {
            completes_failing(
                r,
                |e: StateNodeError| e == StateNodeError::ValueError(ValueError::EmptyNodeId),
            )
        } else {
            &&& r.0 matches RedundancyState::AwaitPublish { network, low_capacity_nodes, next } && {
                &&& network@.wf()
                &&& network@.content_id == n@.content_id
                &&& network@.member_map() == n@.member_map().remove(low[k])
                &&& network@.members.len() == n@.members.len() - 1
                &&& low_capacity_nodes == l
                &&& next == k + 1
                &&& r.1 matches StepAction::Publish(ev) && low_capacity_removal(
                    ev,
                    n@.content_id,
                    low[k],
                    network@.ids(),
                )
            }
        },
    }
}

/// One step of a redundancy check of a content.
///
/// The content network must exist; a node that is not one of its members
/// checks nothing. The members report their free capacity; those below the
/// threshold are low on capacity, and when fewer members than the
/// replication factor have enough, as many members as are missing are
/// asked for (whatever comes of it). The network is then read again and
/// the low-capacity members are removed one at a time, each removal
/// published before the next is made (see `next_removal`); the resulting
/// network is stored. Any outside failure ends the check with the matching
/// error; an input that does not fit the state ends it as unexpected.
pub open spec fn redundancy_transition(
    q: RedundancyRequest,
    s: RedundancyState,
    i: StepInput,
    r: (RedundancyState, StepAction),
) -> bool {
    let threshold = q.config.capacity_threshold_bytes;
    let min = q.config.min_replication_factor;
    match s {
        RedundancyState::Start => match i {
            StepInput::Begin => if q.content_id@.len() == 0 {
                completes_failing(
                    r,
                    |e: StateNodeError| e == StateNodeError::ValueError(ValueError::EmptyContentId),
                )
            } else {
                r.0 is AwaitNetwork && (r.1 matches StepAction::LookUpNetwork { content_id }
                    && content_id@ == q.content_id@)
            },
            _ => completes_failing(r, |e: StateNodeError| unexpected_input(e)),
        },
        RedundancyState::AwaitNetwork => match i {
            StepInput::NetworkLookedUp(Err(m)) => completes_failing(
                r,
                |e: StateNodeError| storage_failed(e, m@),
            ),
            StepInput::NetworkLookedUp(Ok(None)) => completes_failing(
                r,
                |e: StateNodeError| content_not_found(e, q.content_id@),
            ),
            StepInput::NetworkLookedUp(Ok(Some(n))) => if !n@.has(q.local_node_id@) {
                r.0 is Finished && r.1 == StepAction::Complete(Ok(()))
            } else {
                &&& r.0 matches RedundancyState::AwaitCapacities { members } && string_views(members@)
                    == n@.ids()
                &&& r.1 matches StepAction::QueryCapacities { node_ids } && string_views(node_ids@)
                    == n@.ids()
            },
            _ => completes_failing(r, |e: StateNodeError| unexpected_input(e)),
        },
        RedundancyState::AwaitCapacities { members } => match i {
            StepInput::CapacitiesReported(Err(m)) => completes_failing(
                r,
                |e: StateNodeError| peers_unreachable(e, m@),
            ),
            StepInput::CapacitiesReported(Ok(caps)) => {
                let ms = string_views(members@);
                let low = low_capacity(ms, caps.map(), threshold);
                let healthy = healthy_count(ms, caps.map(), threshold);
                if healthy < min {
                    &&& r.0 matches RedundancyState::AwaitMembersAdded { low_capacity_nodes }
                        && string_views(low_capacity_nodes@) == low
                    &&& r.1 matches StepAction::AddMembers { content_id, count } && content_id@
                        == q.content_id@ && count == min - healthy
                } else {
                    &&& r.0 matches RedundancyState::AwaitRefreshedNetwork { low_capacity_nodes }
                        && string_views(low_capacity_nodes@) == low
                    &&& r.1 matches StepAction::LookUpNetwork { content_id } && content_id@
                        == q.content_id@
                }
            },
            _ => completes_failing(r, |e: StateNodeError| unexpected_input(e)),
        },
        RedundancyState::AwaitMembersAdded { low_capacity_nodes } => match i {
            StepInput::MembersAdded => {
                &&& r.0 == RedundancyState::AwaitRefreshedNetwork { low_capacity_nodes }
                &&& r.1 matches StepAction::LookUpNetwork { content_id } && content_id@
                    == q.content_id@
            },
            _ => completes_failing(r, |e: StateNodeError| unexpected_input(e)),
        },
        RedundancyState::AwaitRefreshedNetwork { low_capacity_nodes } => match i {
            StepInput::NetworkLookedUp(Err(m)) => completes_failing(
                r,
                |e: StateNodeError| storage_failed(e, m@),
            ),
            StepInput::NetworkLookedUp(Ok(None)) => completes_failing(
                r,
                |e: StateNodeError| content_not_found(e, q.content_id@),
            ),
            StepInput::NetworkLookedUp(Ok(Some(n))) => removal_step(q, n, low_capacity_nodes, 0, r),
            _ => completes_failing(r, |e: StateNodeError| unexpected_input(e)),
        },
        RedundancyState::AwaitPublish { network, low_capacity_nodes, next } => match i {
            StepInput::Published(Err(m)) => completes_failing(
                r,
                |e: StateNodeError| publish_failed(e, m@),
            ),
            StepInput::Published(Ok(())) => removal_step(q, network, low_capacity_nodes, next as int, r),
            _ => completes_failing(r, |e: StateNodeError| unexpected_input(e)),
        },
        RedundancyState::AwaitSave => match i {
            StepInput::Saved(Err(m)) => completes_failing(r, |e: StateNodeError| storage_failed(e, m@)),
            StepInput::Saved(Ok(())) => r.0 is Finished && r.1 == StepAction::Complete(Ok(())),
            _ => completes_failing(r, |e: StateNodeError| unexpected_input(e)),
        },
        RedundancyState::Finished => completes_failing(r, |e: StateNodeError| unexpected_input(e)),
    }
}

fn complete_failing(e: StateNodeError) -> (r: (RedundancyState, StepAction))
    ensures
        r.0 is Finished,
        r.1 == StepAction::Complete(Err(e)),
{
    (RedundancyState::Finished, StepAction::Complete(Err(e)))
}

fn complete_unexpected() -> (r: (RedundancyState, StepAction))
    ensures
        completes_failing(r, |e: StateNodeError| unexpected_input(e)),
{
    complete_failing(StateNodeError::Internal(to_owned_string("unexpected step input")))
}

/// The position of the next member to act on, as `next_removal` states it.
fn find_next_removal(network: &ContentNetwork, low: &Vec<String>, local: &str, min: usize, start: usize) -> (r:
    Option<usize>)
    ensures
        r is None <==> next_removal(
            network@.member_map(),
            network@.members.len(),
            string_views(low@),
            local@,
            min as nat,
            start as int,
        ) is None,
        r matches Some(k) ==> next_removal(
            network@.member_map(),
            network@.members.len(),
            string_views(low@),
            local@,
            min as nat,
            start as int,
        ) == Some(k as int) && k < low@.len(),
{
    let ghost lv = string_views(low@);
    let ghost m = network@.member_map();
    let count = network.member_count();
    let mut j: usize = start;
    while j < low.len()
        invariant
            start <= j,
            lv == string_views(low@),
            m == network@.member_map(),
            count == network@.members.len(),
            next_removal(m, count as nat, lv, local@, min as nat, start as int) == next_removal(
                m,
                count as nat,
                lv,
                local@,
                min as nat,
                j as int,
            ),
        decreases low@.len() - j,
    {
        let id = low[j].as_str();
        proof {
            assert(lv[j as int] == id@);
            assert(m.contains_key(id@) == network@.has(id@));
        }
        if str_equal(id, local) {
            j = j + 1;
        } else if count <= min {
            return None;
        } else if id.is_empty() || (network.has_member_str(id) && count > 1) {
            return Some(j);
        } else {
            j = j + 1;
        }
    }
    None
}

/// The step taken with a network when the low-capacity members from `next`
/// on are still to be looked at.
fn removal_action(q: &RedundancyRequest, network: ContentNetwork, low: Vec<String>, next: usize) -> (r: (
    RedundancyState,
    StepAction,
))
    requires
        network@.wf(),
    ensures
        removal_step(*q, network, low, next as int, r),
{
    let ghost n = network;
    let total = low.len();
    match find_next_removal(&network, &low, q.local_node_id.as_str(), q.config.min_replication_factor, next) {
        None => (RedundancyState::AwaitSave, StepAction::SaveNetwork(network)),
        Some(k) => {
            let ghost removed = string_views(low@)[k as int];
            proof {
                assert(low@[k as int]@ == removed);
                lemma_next_removal_hit(
                    n@.member_map(),
                    n@.members.len(),
                    string_views(low@),
                    q.local_node_id@,
                    q.config.min_replication_factor as nat,
                    next as int,
                );
            }
            match NodeId::new(to_owned_string(low[k].as_str())) {
                Err(e) => complete_failing(StateNodeError::ValueError(e)),
                Ok(node_id) => {
                    proof {
                        assert(n@.member_map().contains_key(removed) == n@.has(removed));
                    }
                    let (after, mut events) = remove_member_node(
                        network,
                        node_id,
                        to_owned_string("low_capacity"),
                    );
                    let ev = events.remove(0);
                    (
                        RedundancyState::AwaitPublish { network: after, low_capacity_nodes: low, next: k + 1 },
                        StepAction::Publish(ev),
                    )
                },
            }
        },
    }
}

/// One step of a redundancy check, as `redundancy_transition` states it.
/// A stored content network, and the network a check carries between
/// steps, are well formed.
pub fn redundancy_step(q: &RedundancyRequest, s: RedundancyState, i: StepInput) -> (r: (
    RedundancyState,
    StepAction,
))
    requires
        !(s is Start) ==> q.content_id@.len() > 0,
        i matches StepInput::NetworkLookedUp(Ok(Some(n))) ==> n@.wf(),
        s matches RedundancyState::AwaitPublish { network, .. } ==> network@.wf(),
    ensures
        redundancy_transition(*q, s, i, r),
{
    match s {
        RedundancyState::Start => match i {
            StepInput::Begin => {
                if q.content_id.as_str().is_empty() {
                    proof {
                        assert(q.content_id@.len() == 0);
                    }
                    complete_failing(StateNodeError::ValueError(ValueError::EmptyContentId))
                } else {
                    (
                        RedundancyState::AwaitNetwork,
                        StepAction::LookUpNetwork { content_id: to_owned_string(q.content_id.as_str()) },
                    )
                }
            },
            _ => complete_unexpected(),
        },
        RedundancyState::AwaitNetwork => match i {
            StepInput::NetworkLookedUp(Err(m)) => complete_failing(StateNodeError::StorageError(m)),
            StepInput::NetworkLookedUp(Ok(None)) => match ContentId::new(to_owned_string(q.content_id.as_str())) {
                Ok(c) => complete_failing(StateNodeError::ContentNotFound(c)),
                Err(e) => complete_failing(StateNodeError::ValueError(e)),
            },
            StepInput::NetworkLookedUp(Ok(Some(n))) => {
                if !n.has_member_str(q.local_node_id.as_str()) {
                    (RedundancyState::Finished, StepAction::Complete(Ok(())))
                } else {
                    let members = n.member_nodes_as_strings();
                    let node_ids = n.member_nodes_as_strings();
                    (RedundancyState::AwaitCapacities { members }, StepAction::QueryCapacities { node_ids })
                }
            },
            _ => complete_unexpected(),
        },
        RedundancyState::AwaitCapacities { members } => match i {
            StepInput::CapacitiesReported(Err(m)) => complete_failing(
                StateNodeError::NetworkError(NetworkError::ConnectionFailed(m)),
            ),
            StepInput::CapacitiesReported(Ok(caps)) => {
                let plan = plan_redundancy(&members, &caps, &q.config);
                if plan.needed > 0 {
                    (
                        RedundancyState::AwaitMembersAdded { low_capacity_nodes: plan.low_capacity_nodes },
                        StepAction::AddMembers {
                            content_id: to_owned_string(q.content_id.as_str()),
                            count: plan.needed,
                        },
                    )
                } else {
                    (
                        RedundancyState::AwaitRefreshedNetwork { low_capacity_nodes: plan.low_capacity_nodes },
                        StepAction::LookUpNetwork { content_id: to_owned_string(q.content_id.as_str()) },
                    )
                }
            },
            _ => complete_unexpected(),
        },
        RedundancyState::AwaitMembersAdded { low_capacity_nodes } => match i {
            StepInput::MembersAdded => (
                RedundancyState::AwaitRefreshedNetwork { low_capacity_nodes },
                StepAction::LookUpNetwork { content_id: to_owned_string(q.content_id.as_str()) },
            ),
            _ => complete_unexpected(),
        },
        RedundancyState::AwaitRefreshedNetwork { low_capacity_nodes } => match i {
            StepInput::NetworkLookedUp(Err(m)) => complete_failing(StateNodeError::StorageError(m)),
            StepInput::NetworkLookedUp(Ok(None)) => match ContentId::new(to_owned_string(q.content_id.as_str())) {
                Ok(c) => complete_failing(StateNodeError::ContentNotFound(c)),
                Err(e) => complete_failing(StateNodeError::ValueError(e)),
            },
            StepInput::NetworkLookedUp(Ok(Some(n))) => removal_action(q, n, low_capacity_nodes, 0),
            _ => complete_unexpected(),
        },
        RedundancyState::AwaitPublish { network, low_capacity_nodes, next } => match i {
            StepInput::Published(Err(m)) => complete_failing(
                StateNodeError::NetworkError(NetworkError::ProtocolError(m)),
            ),
            StepInput::Published(Ok(())) => removal_action(q, network, low_capacity_nodes, next),
            _ => complete_unexpected(),
        },
        RedundancyState::AwaitSave => match i {
            StepInput::Saved(Err(m)) => complete_failing(StateNodeError::StorageError(m)),
            StepInput::Saved(Ok(())) => (RedundancyState::Finished, StepAction::Complete(Ok(()))),
            _ => complete_unexpected(),
        },
        RedundancyState::Finished => complete_unexpected(),
    }
}

/// A request to create a content, as the steps see it.
#[derive(Debug, Clone)]
pub struct CreateRequest {
    /// The payload of the new content.
    pub data: Vec<u8>,
    /// The node that serves the request (and creates the content).
    pub local_node_id: String,
    /// The time stamped on the event the creation publishes.
    pub timestamp: u64,
    /// Whether the caller presented an authentication token.
    pub has_token: bool,
    /// Whether the caller presented a request signature.
    pub has_signature: bool,
    /// Whether an authentication service is configured.
    pub auth_configured: bool,
    /// Whether an authorization service is configured.
    pub authz_configured: bool,
    /// Whether an access-policy store is configured.
    pub policy_store_configured: bool,
}

/// How many peers a new content is placed on, at most.
pub const PLACEMENT_PEERS: usize = 3;

/// Where a creation stands.
#[derive(Debug)]
pub enum CreateState {
    /// Nothing done yet.
    Start,
    /// Waiting for the caller's authentication.
    AwaitAuthentication,
    /// Waiting for the authorization service; `owner` is the caller.
    AwaitAuthorization { owner: Identity },
    /// Waiting for the content store to create the content.
    AwaitContentStore { owner: Identity },
    /// Waiting for the closest peers of the new content.
    AwaitPeers { owner: Identity, content_id: String },
    /// Waiting for the new content network to be stored.
    AwaitNetworkSave { owner: Identity, content_id: String, members: Vec<String> },
    /// Waiting for the owner's access policy to be stored.
    AwaitPolicySave { content_id: String, members: Vec<String> },
    /// Waiting for the creation to be published.
    AwaitPublish { content_id: String, members: Vec<String> },
    /// The creation has ended.
    Finished,
}

/// The event of the creation of `cid` with `members` by the request's node.
pub open spec fn creation_event(q: CreateRequest, cid: Seq<char>, members: Seq<Seq<char>>, ev: Event) -> bool {
    ev matches Event::ContentCreated {
        content_id,
        creator_node_id,
        content_size,
        member_nodes,
        timestamp,
    } && content_id@ == cid && creator_node_id@ == q.local_node_id@ && content_size == q.data@.len()
        && string_views(member_nodes@) == members && timestamp == q.timestamp
}

/// The step ends the creation in `Finished` with an error that meets `p`.
pub open spec fn creation_fails(r: (CreateState, StepAction), p: spec_fn(StateNodeError) -> bool) -> bool {
    r.0 is Finished && (r.1 matches StepAction::Finish(Err(e)) && p(e))
}

/// The step that publishes the creation of `cid` with `members`.
pub open spec fn publishes_creation(q: CreateRequest, cid: Seq<char>, members: Seq<Seq<char>>, r: (CreateState, StepAction)) -> bool {
    &&& r.0 matches CreateState::AwaitPublish { content_id, members: m } && content_id@ == cid
        && string_views(m@) == members
    &&& r.1 matches StepAction::Publish(ev) && creation_event(q, cid, members, ev)
}

/// One step of a creation of a content.
///
/// The token, the request signature and both services must be there (in
/// that order of checks). The caller is authenticated; the content id of
/// the payload must be non-empty, and the caller must be allowed to write
/// it. The content store creates the content, whose id it gives. Up to
/// `PLACEMENT_PEERS` closest peers of that id are found with their
/// capacities, and the members are chosen among them, the creating node
/// excluded, highest capacity first; with none left the creation is
/// refused before anything is stored. The content network is stored, then
/// (when a policy store is configured) the caller's access policy; the
/// creation is published and the operation ends with its event. Any outside
/// failure ends it with the matching error; an input that does not fit the
/// state ends it as unexpected.
pub open spec fn create_transition(
    q: CreateRequest,
    s: CreateState,
    i: StepInput,
    r: (CreateState, StepAction),
) -> bool {
    match s {
        CreateState::Start => match i {
            StepInput::Begin => if !(q.has_token && q.has_signature && q.auth_configured
                && q.authz_configured) {
                creation_fails(
                    r,
                    |e: StateNodeError| missing_credential_error(
                        e,
                        q.has_token,
                        q.has_signature,
                        q.auth_configured,
                    ),
                )
            } else {
                r.0 is AwaitAuthentication && r.1 == StepAction::Authenticate
            },
            _ => creation_fails(r, |e: StateNodeError| unexpected_input(e)),
        },
        CreateState::AwaitAuthentication => match i {
            StepInput::Authenticated(Err(m)) => creation_fails(
                r,
                |e: StateNodeError| authentication_failed(e, m@),
            ),
            StepInput::Authenticated(Ok(id)) => if payload_cid(q.data@).len() == 0 {
                creation_fails(
                    r,
                    |e: StateNodeError| e == StateNodeError::ValueError(ValueError::EmptyContentId),
                )
            } else {
                &&& r.0 == CreateState::AwaitAuthorization { owner: id }
                &&& r.1 matches StepAction::Authorize { identity, content_id, capability }
                    && identity == id && content_id@ == payload_cid(q.data@) && capability
                    == AuthCapability::WriteContent
            },
            _ => creation_fails(r, |e: StateNodeError| unexpected_input(e)),
        },
        CreateState::AwaitAuthorization { owner } => match i {
            StepInput::Authorized(Err(m)) => creation_fails(
                r,
                |e: StateNodeError| authorization_failed(e, m@),
            ),
            StepInput::Authorized(Ok(AuthorizationResult::Denied { reason })) => creation_fails(
                r,
                |e: StateNodeError| authorization_failed(e, reason@),
            ),
            StepInput::Authorized(Ok(AuthorizationResult::Granted)) => r.0
                == CreateState::AwaitContentStore { owner } && r.1 == StepAction::CreateContent,
            _ => creation_fails(r, |e: StateNodeError| unexpected_input(e)),
        },
        CreateState::AwaitContentStore { owner } => match i {
            StepInput::ContentStored(Err(m)) => creation_fails(
                r,
                |e: StateNodeError| content_store_failed(e, m@),
            ),
            StepInput::ContentStored(Ok(cid)) => {
                &&& r.0 == CreateState::AwaitPeers { owner, content_id: cid }
                &&& r.1 matches StepAction::FindPeers { content_id, count } && content_id@ == cid@
                    && count == PLACEMENT_PEERS
            },
            _ => creation_fails(r, |e: StateNodeError| unexpected_input(e)),
        },
        CreateState::AwaitPeers { owner, content_id: cid } => match i {
            StepInput::PeersFound(Err(m)) => creation_fails(
                r,
                |e: StateNodeError| peers_unreachable(e, m@),
            ),
            StepInput::PeersFound(Ok((closest, caps))) => {
                let chosen = selection(
                    string_views(closest@),
                    caps.map(),
                    seq![q.local_node_id@],
                    PLACEMENT_PEERS as nat,
                );
                if chosen.len() == 0 {
                    creation_fails(r, |e: StateNodeError| e is NoAvailableMembers)
                } else {
                    &&& r.0 matches CreateState::AwaitNetworkSave { owner: o, content_id, members }
                        && o == owner && content_id == cid && string_views(members@) == chosen
                    &&& r.1 matches StepAction::SaveNewNetwork { content_id, member_nodes }
                        && content_id@ == cid@ && string_views(member_nodes@) == chosen
                }
            },
            _ => creation_fails(r, |e: StateNodeError| unexpected_input(e)),
        },
        CreateState::AwaitNetworkSave { owner, content_id: cid, members } => match i {
            StepInput::Saved(Err(m)) => creation_fails(r, |e: StateNodeError| storage_failed(e, m@)),
            StepInput::Saved(Ok(())) => if q.policy_store_configured {
                &&& r.0 matches CreateState::AwaitPolicySave { content_id, members: ms }
                    && content_id@ == cid@ && string_views(ms@) == string_views(members@)
                &&& r.1 matches StepAction::SavePolicy { content_id, owner: o } && content_id@
                    == cid@ && o == owner
            } else {
                publishes_creation(q, cid@, string_views(members@), r)
            },
            _ => creation_fails(r, |e: StateNodeError| unexpected_input(e)),
        },
        CreateState::AwaitPolicySave { content_id: cid, members } => match i {
            StepInput::Saved(Err(m)) => creation_fails(r, |e: StateNodeError| storage_failed(e, m@)),
            StepInput::Saved(Ok(())) => publishes_creation(q, cid@, string_views(members@), r),
            _ => creation_fails(r, |e: StateNodeError| unexpected_input(e)),
        },
        CreateState::AwaitPublish { content_id: cid, members } => match i {
            StepInput::Published(Err(m)) => creation_fails(r, |e: StateNodeError| publish_failed(e, m@)),
            StepInput::Published(Ok(())) => r.0 is Finished && (r.1 matches StepAction::Finish(Ok(ev))
                && creation_event(q, cid@, string_views(members@), ev)),
            _ => creation_fails(r, |e: StateNodeError| unexpected_input(e)),
        },
        CreateState::Finished => creation_fails(r, |e: StateNodeError| unexpected_input(e)),
    }
}

/// The creation event of `cid` with `members`.
fn creation_event_of(q: &CreateRequest, cid: &String, members: &Vec<String>) -> (r: Event)
    ensures
        creation_event(*q, cid@, string_views(members@), r),
{
    Event::ContentCreated {
        content_id: to_owned_string(cid.as_str()),
        creator_node_id: to_owned_string(q.local_node_id.as_str()),
        content_size: q.data.len() as u64,
        member_nodes: copy_strings(members),
        timestamp: q.timestamp,
    }
}

/// The step that publishes the creation of `cid` with `members`.
fn publish_creation(q: &CreateRequest, content_id: String, members: Vec<String>) -> (r: (CreateState, StepAction))
    ensures
        publishes_creation(*q, content_id@, string_views(members@), r),
{
    let ev = creation_event_of(q, &content_id, &members);
    (CreateState::AwaitPublish { content_id, members }, StepAction::Publish(ev))
}

/// One step of a creation of a content, as `create_transition` states it.
pub fn create_content_step(q: &CreateRequest, s: CreateState, i: StepInput) -> (r: (CreateState, StepAction))
    ensures
        create_transition(*q, s, i, r),
{
    let done = CreateState::Finished;
    match s {
        CreateState::Start => match i {
            StepInput::Begin => {
                if !q.has_token {
                    return fail(
                        done,
                        StateNodeError::AuthenticationFailed(
                            to_owned_string("Authentication token is required"),
                        ),
                    );
                }
                if !q.has_signature {
                    return fail(
                        done,
                        StateNodeError::AuthenticationFailed(
                            to_owned_string("Request signature is required"),
                        ),
                    );
                }
                if !q.auth_configured {
                    return fail(
                        done,
                        StateNodeError::InvalidConfiguration(
                            to_owned_string("Authentication not configured"),
                        ),
                    );
                }
                if !q.authz_configured {
                    return fail(
                        done,
                        StateNodeError::InvalidConfiguration(
                            to_owned_string("Authorization not configured"),
                        ),
                    );
                }
                (CreateState::AwaitAuthentication, StepAction::Authenticate)
            },
            _ => fail_unexpected(done),
        },
        CreateState::AwaitAuthentication => match i {
            StepInput::Authenticated(Err(m)) => fail(done, StateNodeError::AuthenticationFailed(m)),
            StepInput::Authenticated(Ok(id)) => {
                let cid = compute_content_id(q.data.as_slice());
                if cid.as_str().is_empty() {
                    return fail(done, StateNodeError::ValueError(ValueError::EmptyContentId));
                }
                let identity = id.duplicate();
                (
                    CreateState::AwaitAuthorization { owner: id },
                    StepAction::Authorize {
                        identity,
                        content_id: cid,
                        capability: AuthCapability::WriteContent,
                    },
                )
            },
            _ => fail_unexpected(done),
        },
        CreateState::AwaitAuthorization { owner } => match i {
            StepInput::Authorized(Err(m)) => fail(done, StateNodeError::AuthorizationFailed(m)),
            StepInput::Authorized(Ok(AuthorizationResult::Denied { reason })) => fail(
                done,
                StateNodeError::AuthorizationFailed(reason),
            ),
            StepInput::Authorized(Ok(AuthorizationResult::Granted)) => (
                CreateState::AwaitContentStore { owner },
                StepAction::CreateContent,
            ),
            _ => fail_unexpected(done),
        },
        CreateState::AwaitContentStore { owner } => match i {
            StepInput::ContentStored(Err(m)) => fail(
                done,
                StateNodeError::CrdtError(CrdtError::StorageError(m)),
            ),
            StepInput::ContentStored(Ok(cid)) => {
                let key = to_owned_string(cid.as_str());
                (
                    CreateState::AwaitPeers { owner, content_id: cid },
                    StepAction::FindPeers { content_id: key, count: PLACEMENT_PEERS },
                )
            },
            _ => fail_unexpected(done),
        },
        CreateState::AwaitPeers { owner, content_id } => match i {
            StepInput::PeersFound(Err(m)) => fail(
                done,
                StateNodeError::NetworkError(NetworkError::ConnectionFailed(m)),
            ),
            StepInput::PeersFound(Ok((closest, caps))) => {
                let mut excluded: Vec<String> = Vec::new();
                excluded.push(to_owned_string(q.local_node_id.as_str()));
                proof {
                    assert(string_views(excluded@) =~= seq![q.local_node_id@]);
                }
                match choose_members(&closest, &caps, &excluded, PLACEMENT_PEERS) {
                    Err(e) => fail(done, e),
                    Ok(selected) => {
                        let key = to_owned_string(content_id.as_str());
                        let member_nodes = copy_strings(&selected);
                        (
                            CreateState::AwaitNetworkSave { owner, content_id, members: selected },
                            StepAction::SaveNewNetwork { content_id: key, member_nodes },
                        )
                    },
                }
            },
            _ => fail_unexpected(done),
        },
        CreateState::AwaitNetworkSave { owner, content_id, members } => match i {
            StepInput::Saved(Err(m)) => fail(done, StateNodeError::StorageError(m)),
            StepInput::Saved(Ok(())) => {
                if q.policy_store_configured {
                    let key = to_owned_string(content_id.as_str());
                    (
                        CreateState::AwaitPolicySave { content_id, members },
                        StepAction::SavePolicy { content_id: key, owner },
                    )
                } else {
                    publish_creation(q, content_id, members)
                }
            },
            _ => fail_unexpected(done),
        },
        CreateState::AwaitPolicySave { content_id, members } => match i {
            StepInput::Saved(Err(m)) => fail(done, StateNodeError::StorageError(m)),
            StepInput::Saved(Ok(())) => publish_creation(q, content_id, members),
            _ => fail_unexpected(done),
        },
        CreateState::AwaitPublish { content_id, members } => match i {
            StepInput::Published(Err(m)) => fail(
                done,
                StateNodeError::NetworkError(NetworkError::ProtocolError(m)),
            ),
            StepInput::Published(Ok(())) => {
                let ev = creation_event_of(q, &content_id, &members);
                (done, StepAction::Finish(Ok(ev)))
            },
            _ => fail_unexpected(done),
        },
        CreateState::Finished => fail_unexpected(done),
    }
}

/// A creation stores the content only right after the authorization
/// service granted writing it: no other state or input leads to
/// `CreateContent`.
pub proof fn law_creation_stores_only_after_grant(
    q: CreateRequest,
    s: CreateState,
    i: StepInput,
    r: (CreateState, StepAction),
)
    requires
        create_transition(q, s, i, r),
        r.1 is CreateContent,
    ensures
        s is AwaitAuthorization,
        i == StepInput::Authorized(Ok(AuthorizationResult::Granted)),
        r.0 is AwaitContentStore,
{
}

/// A denied authorization ends a creation, refused with the reason the
/// authorization service gave; any failed authorization ends it.
pub proof fn law_denied_creation_is_refused(
    q: CreateRequest,
    s: CreateState,
    i: StepInput,
    r: (CreateState, StepAction),
)
    requires
        create_transition(q, s, i, r),
        s is AwaitAuthorization,
        i matches StepInput::Authorized(res) && res != Ok::<AuthorizationResult, String>(
            AuthorizationResult::Granted,
        ),
    ensures
        r.0 is Finished,
        r.1 matches StepAction::Finish(Err(StateNodeError::AuthorizationFailed(m))) && (i matches StepInput::Authorized(
            Ok(AuthorizationResult::Denied { reason }),
        ) ==> m@ == reason@),
{
}

/// A creation stores a content network only with at least one member, every
/// member one of the closest peers found and none of them the creating
/// node, at most `PLACEMENT_PEERS` of them; with no peer left it is refused
/// before anything is stored.
pub proof fn law_creation_places_on_other_peers(
    q: CreateRequest,
    s: CreateState,
    i: StepInput,
    r: (CreateState, StepAction),
)
    requires
        create_transition(q, s, i, r),
        s is AwaitPeers,
        i matches StepInput::PeersFound(Ok(_)),
    ensures
        r.1 matches StepAction::SaveNewNetwork { member_nodes, .. } ==> {
            let ms = string_views(member_nodes@);
            let closest = string_views(i->PeersFound_0->Ok_0.0@);
            &&& 1 <= ms.len() <= 3
            &&& forall|k: int| 0 <= k < ms.len() ==> closest.contains(#[trigger] ms[k]) && ms[k]
                != q.local_node_id@
        },
        !(r.1 is SaveNewNetwork) ==> r.0 is Finished && (r.1 matches StepAction::Finish(Err(e))
            && e is NoAvailableMembers),
{
    let (closest, caps) = i->PeersFound_0->Ok_0;
    crate::placement::law_selection_picks_unexcluded_candidates(
        string_views(closest@),
        caps.map(),
        seq![q.local_node_id@],
        PLACEMENT_PEERS as nat,
    );
    let sel = selection(string_views(closest@), caps.map(), seq![q.local_node_id@], PLACEMENT_PEERS as nat);
    assert forall|k: int| 0 <= k < sel.len() implies sel[k] != q.local_node_id@ by {
        assert(seq![q.local_node_id@][0] == q.local_node_id@);
        if sel[k] == q.local_node_id@ {
            assert(seq![q.local_node_id@].contains(sel[k]));
        }
    }
}

/// A creation ends well only once its event was published, with the event
/// of the content created by the requesting node, its payload size and its
/// members.
pub proof fn law_creation_ends_with_its_event(
    q: CreateRequest,
    s: CreateState,
    i: StepInput,
    r: (CreateState, StepAction),
)
    requires
        create_transition(q, s, i, r),
        r.1 matches StepAction::Finish(Ok(_)),
    ensures
        s is AwaitPublish,
        i matches StepInput::Published(Ok(_)),
        r.1->Finish_0->Ok_0 matches Event::ContentCreated { creator_node_id, content_size, member_nodes, .. }
            && creator_node_id@ == q.local_node_id@ && content_size == q.data@.len()
            && string_views(member_nodes@) == string_views(s->AwaitPublish_members@),
{
}

/// An update writes the content, and a deletion deletes the content
/// network, only for a member of the content's network, and only after the
/// authorization service granted it when an authentication service is
/// configured.
pub proof fn law_change_only_by_authorized_member(
    k: ChangeKind,
    q: ContentRequest,
    s: ChangeState,
    i: StepInput,
    r: (ChangeState, StepAction),
)
    requires
        change_transition(k, q, s, i, r),
        r.1 is UpdateContent || r.1 is DeleteNetwork,
    ensures
        r.1 is UpdateContent ==> k == ChangeKind::Update,
        r.1 is DeleteNetwork ==> k == ChangeKind::Delete,
        (s == ChangeState::AwaitAuthorization && i == StepInput::Authorized(
            Ok(AuthorizationResult::Granted),
        )) || (s == ChangeState::AwaitNetwork && !q.auth_configured && (i matches StepInput::NetworkLookedUp(
            Ok(Some(n)),
        ) && n@.has(q.local_node_id@))),
{
}

/// A change asked of a node that is not a member of the content's network
/// is refused as such; a denied authorization refuses it with the reason
/// given.
pub proof fn law_change_refusals(
    k: ChangeKind,
    q: ContentRequest,
    s: ChangeState,
    i: StepInput,
    r: (ChangeState, StepAction),
)
    requires
        change_transition(k, q, s, i, r),
    ensures
        s == ChangeState::AwaitNetwork && (i matches StepInput::NetworkLookedUp(Ok(Some(n)))
            && !n@.has(q.local_node_id@)) ==> r.0 == ChangeState::Finished && (r.1 matches StepAction::Finish(
            Err(StateNodeError::NotAMember { node_id, content_id }),
        ) && node_id@ == q.local_node_id@ && content_id@ == q.content_id@),
        s == ChangeState::AwaitAuthorization && (i matches StepInput::Authorized(
            Ok(AuthorizationResult::Denied { reason }),
        )) ==> r.0 == ChangeState::Finished && (r.1 matches StepAction::Finish(
            Err(StateNodeError::AuthorizationFailed(m)),
        ) && m@ == i->Authorized_0->Ok_0->reason@),
        s == ChangeState::Start && i == StepInput::Begin && !q.has_token ==> r.0
            == ChangeState::Finished && (r.1 matches StepAction::Finish(
            Err(StateNodeError::AuthenticationFailed(m)),
        ) && m@ == "Authentication token is required"@),
{
}

/// A change ends well only once its event was published (and, for an
/// update, the redundancy checked), with the event of this change made by
/// the requesting node.
pub proof fn law_change_ends_with_its_event(
    k: ChangeKind,
    q: ContentRequest,
    s: ChangeState,
    i: StepInput,
    r: (ChangeState, StepAction),
)
    requires
        change_transition(k, q, s, i, r),
        r.1 matches StepAction::Finish(Ok(_)),
    ensures
        k == ChangeKind::Update ==> s == ChangeState::AwaitRedundancy && (r.1->Finish_0->Ok_0 matches Event::ContentUpdated {
            content_id,
            updated_node_id,
            ..
        } && content_id@ == q.content_id@ && updated_node_id@ == q.local_node_id@),
        k == ChangeKind::Delete ==> s == ChangeState::AwaitPublish && (i matches StepInput::Published(
            Ok(_),
        )) && (r.1->Finish_0->Ok_0 matches Event::ContentDeleted {
            content_id,
            deleted_by_node_id,
            ..
        } && content_id@ == q.content_id@ && deleted_by_node_id@ == q.local_node_id@),
{
}

/// A redundancy check never removes the local node, removes only nodes
/// listed as low on capacity, and never takes the network below the
/// replication factor; each removal is published as its own event.
pub proof fn law_redundancy_removal_is_bounded(
    q: RedundancyRequest,
    s: RedundancyState,
    i: StepInput,
    r: (RedundancyState, StepAction),
)
    requires
        redundancy_transition(q, s, i, r),
        r.0 is AwaitPublish,
    ensures
        r.0 matches RedundancyState::AwaitPublish { network, low_capacity_nodes, .. } && {
            &&& network@.members.len() >= q.config.min_replication_factor
            &&& r.1 matches StepAction::Publish(Event::ContentNetworkManagerRemoved { removed_node_id, reason, .. })
                && removed_node_id@ != q.local_node_id@ && reason@ == "low_capacity"@
                && string_views(low_capacity_nodes@).contains(removed_node_id@)
        },
{
    let (n, l, j) = match s {
        RedundancyState::AwaitRefreshedNetwork { low_capacity_nodes } => (
            i->NetworkLookedUp_0->Ok_0->Some_0,
            low_capacity_nodes,
            0int,
        ),
        RedundancyState::AwaitPublish { network, low_capacity_nodes, next } => (
            network,
            low_capacity_nodes,
            next as int,
        ),
        _ => (arbitrary(), arbitrary(), 0int),
    };
    let low = string_views(l@);
    let nr = next_removal(
        n@.member_map(),
        n@.members.len(),
        low,
        q.local_node_id@,
        q.config.min_replication_factor as nat,
        j,
    );
    if nr is Some {
        lemma_next_removal_hit(
            n@.member_map(),
            n@.members.len(),
            low,
            q.local_node_id@,
            q.config.min_replication_factor as nat,
            j,
        );
        let k = nr->0;
        assert(low[k] == low[k]);
        assert(low.contains(low[k]));
    }
}

/// Once a creation has stored its content network, a configured policy
/// store receives the policy of the authenticated owner of the content
/// before anything is published.
pub proof fn law_creation_saves_owner_policy(
    q: CreateRequest,
    s: CreateState,
    i: StepInput,
    r: (CreateState, StepAction),
)
    requires
        create_transition(q, s, i, r),
        s is AwaitNetworkSave,
        i matches StepInput::Saved(Ok(_)),
    ensures
        q.policy_store_configured ==> (s matches CreateState::AwaitNetworkSave { owner, content_id, .. }
            && (r.1 matches StepAction::SavePolicy { content_id: c, owner: o } && o == owner && c@
            == content_id@)),
        !q.policy_store_configured ==> r.1 matches StepAction::Publish(Event::ContentCreated { .. }),
{
}

/// A deletion deletes the access policy of the content after its network
/// when a policy store is configured, and publishes only after that.
pub proof fn law_deletion_removes_policy(
    q: ContentRequest,
    s: ChangeState,
    i: StepInput,
    r: (ChangeState, StepAction),
)
    requires
        change_transition(ChangeKind::Delete, q, s, i, r),
        s == ChangeState::AwaitChange,
        i matches StepInput::Saved(Ok(_)),
    ensures
        q.policy_store_configured ==> (r.1 matches StepAction::DeletePolicy { content_id }
            && content_id@ == q.content_id@),
        !q.policy_store_configured ==> r.1 matches StepAction::Publish(Event::ContentDeleted { .. }),
{
}

/// A node that is not a member of a content's network checks nothing of
/// its redundancy: the check ends at once, without asking, adding,
/// removing or storing anything.
pub proof fn law_redundancy_only_by_members(
    q: RedundancyRequest,
    s: RedundancyState,
    i: StepInput,
    r: (RedundancyState, StepAction),
)
    requires
        redundancy_transition(q, s, i, r),
        s is AwaitNetwork,
        i matches StepInput::NetworkLookedUp(Ok(Some(n))) && !n@.has(q.local_node_id@),
    ensures
        r.0 is Finished,
        r.1 == StepAction::Complete(Ok(())),
{
}

} // verus!
