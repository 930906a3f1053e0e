//! The bodies of the node's HTTP API and how each handler answers: the
//! request and response types, and the response (or the status and error
//! body) for each outcome of the service.
use crate::content_network::ContentNetwork;
use crate::encoding::{base64_decode, base64_decoded};
use crate::errors::{error_text, StateNodeError};
use crate::events::Event;
use crate::state_node::NodeSnapshot;
use crate::text::{concat, string_views, to_owned_string};
use vstd::prelude::*;

verus! {

/// Answer of `GET /health`.
#[derive(Debug, Clone, PartialEq, Eq)]
pub struct HealthResponse {
    pub status: String,
    pub node_id: String,
}

/// Answer of `GET /node/info`; the capacities are absent for a node that
/// has not registered.
#[derive(Debug, Clone, PartialEq, Eq)]
pub struct NodeInfoResponse {
    pub node_id: String,
    pub total_capacity: Option<u64>,
    pub available_capacity: Option<u64>,
}

/// Body of `POST /node/register`.
#[derive(Debug, Clone, PartialEq, Eq)]
pub struct RegisterNodeRequest {
    pub total_capacity: u64,
}

/// Answer of `POST /node/register`.
#[derive(Debug, Clone, PartialEq, Eq)]
pub struct RegisterNodeResponse {
    pub node_id: String,
    pub total_capacity: u64,
    pub available_capacity: u64,
}

/// Body of `POST /content`: the content in standard base64.
#[derive(Debug, Clone, PartialEq, Eq)]
pub struct CreateContentRequest {
    pub data: String,
}

/// Answer of `POST /content`.
#[derive(Debug, Clone, PartialEq, Eq)]
pub struct CreateContentResponse {
    pub content_id: String,
    pub member_nodes: Vec<String>,
}

/// Answer of `GET /content/{id}`.
#[derive(Debug, Clone, PartialEq, Eq)]
pub struct ContentResponse {
    pub content_id: String,
    pub member_nodes: Vec<String>,
}

/// Body of `PUT /content/{id}`: the new content in standard base64.
#[derive(Debug, Clone, PartialEq, Eq)]
pub struct UpdateContentRequest {
    pub data: String,
}

/// Answer of `PUT /content/{id}`.
#[derive(Debug, Clone, PartialEq, Eq)]
pub struct UpdateContentResponse {
    pub content_id: String,
    pub updated: bool,
}

/// Error body of every endpoint.
#[derive(Debug, Clone, PartialEq, Eq)]
pub struct ErrorResponse {
    pub error: String,
}

/// The status of a request that was malformed.
pub const BAD_REQUEST: u16 = 400;

/// The status of a resource that does not exist.
pub const NOT_FOUND: u16 = 404;

/// The status of a failure of the service.
pub const INTERNAL_SERVER_ERROR: u16 = 500;

/// The answer of the health check.
pub fn health_response(local_node_id: &str) -> (r: HealthResponse)
    ensures
        r.status@ == "ok"@,
        r.node_id@ == local_node_id@,
{
    HealthResponse { status: to_owned_string("ok"), node_id: to_owned_string(local_node_id) }
}

/// The answer of the node info endpoint: the registered snapshot of the
/// local node, or the local id without capacities.
pub fn node_info_response(local_node_id: &str, snapshot: Option<&NodeSnapshot>) -> (r:
    NodeInfoResponse)
    ensures
        match snapshot {
            Some(s) => r.node_id@ == s.node_id@ && r.total_capacity == Some(s.total_capacity)
                && r.available_capacity == Some(s.available_capacity),
            None => r.node_id@ == local_node_id@ && r.total_capacity is None
                && r.available_capacity is None,
        },
{
    match snapshot {
        Some(s) => NodeInfoResponse {
            node_id: to_owned_string(s.node_id.as_str()),
            total_capacity: Some(s.total_capacity),
            available_capacity: Some(s.available_capacity),
        },
        None => NodeInfoResponse {
            node_id: to_owned_string(local_node_id),
            total_capacity: None,
            available_capacity: None,
        },
    }
}

/// The answer of a registration: the new snapshot.
pub fn register_response(snapshot: &NodeSnapshot) -> (r: RegisterNodeResponse)
    ensures
        r.node_id@ == snapshot.node_id@,
        r.total_capacity == snapshot.total_capacity,
        r.available_capacity == snapshot.available_capacity,
{
    RegisterNodeResponse {
        node_id: to_owned_string(snapshot.node_id.as_str()),
        total_capacity: snapshot.total_capacity,
        available_capacity: snapshot.available_capacity,
    }
}

/// The answer to a failure of the service: status 500 and the error's
/// message.
pub fn service_error_response(e: &StateNodeError) -> (r: (u16, ErrorResponse))
    ensures
        r.0 == INTERNAL_SERVER_ERROR,
        r.1.error@ == error_text(*e),
{
    (INTERNAL_SERVER_ERROR, ErrorResponse { error: e.message() })
}

/// Reads the base64 content of a create or update request; malformed
/// base64 is answered with status 400.
pub fn decode_content_data(data: &str) -> (r: Result<Vec<u8>, (u16, ErrorResponse)>)
    ensures
        r is Ok <==> base64_decoded(data@) is Some,
        r matches Ok(v) ==> base64_decoded(data@) == Some(v@),
        r matches Err(e) ==> e.0 == BAD_REQUEST && has_error_prefix(e.1, "Invalid base64 data: "@),
{
    match base64_decode(data) {
        Ok(v) => Ok(v),
        Err(reason) => {
            let error = concat("Invalid base64 data: ", reason.as_str());
            proof {
                let prefix = "Invalid base64 data: "@;
                assert(error@.subrange(0, prefix.len() as int) =~= prefix);
            }
            Err((BAD_REQUEST, ErrorResponse { error }))
        },
    }
}

/// Whether an error body starts with `prefix`.
pub open spec fn has_error_prefix(e: ErrorResponse, prefix: Seq<char>) -> bool {
    e.error@.len() >= prefix.len() && e.error@.subrange(0, prefix.len() as int) == prefix
}

/// The answer of a content creation: the content id and members that the
/// `ContentCreated` event reports; any other event is answered with
/// status 500.
pub fn created_response(event: Event) -> (r: Result<CreateContentResponse, (u16, ErrorResponse)>)
    ensures
        match event {
            Event::ContentCreated { content_id, member_nodes, .. } => r matches Ok(c)
                && c.content_id@ == content_id@ && string_views(c.member_nodes@) == string_views(
                member_nodes@,
            ),
            _ => r matches Err(e) && e.0 == INTERNAL_SERVER_ERROR && e.1.error@
                == "Unexpected event type"@,
        },
{
    match event {
        Event::ContentCreated { content_id, member_nodes, .. } => Ok(
            CreateContentResponse { content_id, member_nodes },
        ),
        _ => Err(
            (
                INTERNAL_SERVER_ERROR,
                ErrorResponse { error: to_owned_string("Unexpected event type") },
            ),
        ),
    }
}

/// The answer of a content lookup: the network's content id and members,
/// or status 404 when there is no network for the requested id.
pub fn content_response(requested_id: &str, network: Option<&ContentNetwork>) -> (r: Result<
    ContentResponse,
    (u16, ErrorResponse),
>)
    ensures
        match network {
            Some(n) => r matches Ok(c) && c.content_id@ == n@.content_id && string_views(
                c.member_nodes@,
            ) == n@.ids(),
            None => r matches Err(e) && e.0 == NOT_FOUND && e.1.error@ == "Content not found: "@
                + requested_id@,
        },
{
    match network {
        Some(n) => Ok(
            ContentResponse {
                content_id: n.content_id().to_text(),
                member_nodes: n.member_nodes_as_strings(),
            },
        ),
        None => Err(
            (
                NOT_FOUND,
                ErrorResponse { error: concat("Content not found: ", requested_id) },
            ),
        ),
    }
}

/// The answer of a content update.
pub fn updated_response(content_id: &str) -> (r: UpdateContentResponse)
    ensures
        r.content_id@ == content_id@,
        r.updated,
{
    UpdateContentResponse { content_id: to_owned_string(content_id), updated: true }
}

} // verus!
