//! A state node as the network sees it, and the exchange by which a node
//! asks for and is given a content to hold.
use crate::events::{current_timestamp, Event};
use crate::text::{concat, to_owned_string};
use rand::prelude::IndexedRandom;
use vstd::prelude::*;

verus! {

/// What a node reports of itself.
#[derive(Debug, Clone, PartialEq)]
pub struct NodeSnapshot {
    pub node_id: String,
    pub total_capacity: u64,
    pub available_capacity: u64,
}

/// A node's request to be assigned a content.
#[derive(Debug, Clone, PartialEq)]
pub struct AssignmentRequest {
    pub requesting_node_id: String,
    pub available_capacity: u64,
    pub timestamp: u64,
}

/// The answer to an assignment request.
#[derive(Debug, Clone, PartialEq)]
pub struct AssignmentResponse {
    pub assigned_content_network: Option<String>,
    pub assigning_node_id: String,
    pub timestamp: u64,
}

/// The name of the content network of a content: `cn::` and its id.
pub open spec fn content_network_name(cid: Seq<char>) -> Seq<char> {
    "cn::"@ + cid
}

/// Creates the snapshot of a new node, all of whose capacity is free, and
/// the `NodeCreated` event that announces it.
pub fn create_node(node_id: String, total_capacity: u64) -> (r: (NodeSnapshot, Vec<Event>))
    ensures
        r.0.node_id@ == node_id@,
        r.0.total_capacity == total_capacity,
        r.0.available_capacity == total_capacity,
        r.1@.len() == 1,
        r.1@[0] matches Event::NodeCreated { node_id: id, total_capacity: t, available_capacity: a, .. }
            && id@ == node_id@ && t == total_capacity && a == total_capacity,
{
    let snapshot = NodeSnapshot {
        node_id: to_owned_string(node_id.as_str()),
        total_capacity,
        available_capacity: total_capacity,
    };
    let mut events: Vec<Event> = Vec::new();
    events.push(
        Event::NodeCreated {
            node_id,
            total_capacity,
            available_capacity: total_capacity,
            timestamp: current_timestamp(),
        },
    );
    (snapshot, events)
}

/// The request a node sends, from its snapshot, stamped with the time.
pub fn build_assignment_request(snapshot: &NodeSnapshot) -> (r: AssignmentRequest)
    ensures
        r.requesting_node_id@ == snapshot.node_id@,
        r.available_capacity == snapshot.available_capacity,
{
    AssignmentRequest {
        requesting_node_id: to_owned_string(snapshot.node_id.as_str()),
        available_capacity: snapshot.available_capacity,
        timestamp: current_timestamp(),
    }
}

/// Picks one candidate at random with `rand`'s `IndexedRandom::choose` on
/// the thread-local generator. Stated of every outcome: nothing is picked
/// exactly when there is no candidate, and what is picked is one of them.
/// Which one is left unsaid: it depends on the generator.
#[verifier::external_body]
fn pick_candidate(candidates: &[String]) -> (r: Option<String>)
    ensures
        r is None <==> candidates@.len() == 0,
        r matches Some(c) ==> exists|i: int| 0 <= i < candidates@.len() && #[trigger] candidates@[i]@ == c@,
{
    candidates.choose(&mut rand::rng()).cloned()
}

/// The answer to a request once a candidate content has been chosen (or
/// none could be): the response names `cn::<cid>` for a chosen `cid`, and
/// one `AssignmentDecided` event reports it; with no choice the response
/// names nothing and there is no event.
pub fn decide_assignment_with_choice(
    assigning_node_id: &str,
    request: &AssignmentRequest,
    chosen: Option<String>,
) -> (r: (AssignmentResponse, Vec<Event>))
    ensures
        r.0.assigning_node_id@ == assigning_node_id@,
        match chosen {
            None => r.0.assigned_content_network is None && r.1@.len() == 0,
            Some(cid) => {
                &&& r.0.assigned_content_network matches Some(n) && n@ == content_network_name(cid@)
                &&& r.1@.len() == 1
                &&& r.1@[0] matches Event::AssignmentDecided {
                    assigning_node_id: by,
                    assigned_node_id: to,
                    content_id,
                    ..
                } && by@ == assigning_node_id@ && to@ == request.requesting_node_id@ && content_id@
                    == cid@
            },
        },
{
    let mut events: Vec<Event> = Vec::new();
    let assigned = match chosen {
        Some(cid) => {
            events.push(
                Event::AssignmentDecided {
                    assigning_node_id: to_owned_string(assigning_node_id),
                    assigned_node_id: to_owned_string(request.requesting_node_id.as_str()),
                    content_id: to_owned_string(cid.as_str()),
                    timestamp: current_timestamp(),
                },
            );
            Some(concat("cn::", cid.as_str()))
        },
        None => None,
    };
    let response = AssignmentResponse {
        assigned_content_network: assigned,
        assigning_node_id: to_owned_string(assigning_node_id),
        timestamp: current_timestamp(),
    };
    (response, events)
}

/// Decides an assignment: picks one of the candidate contents at random
/// and answers as `decide_assignment_with_choice` does for that pick.
/// With no candidate nothing is assigned; with candidates, one of them is.
pub fn decide_assignment(
    assigning_node_id: &str,
    request: &AssignmentRequest,
    candidate_cids: &[String],
) -> (r: (AssignmentResponse, Vec<Event>))
    ensures
        r.0.assigning_node_id@ == assigning_node_id@,
        candidate_cids@.len() == 0 ==> r.0.assigned_content_network is None && r.1@.len() == 0,
        candidate_cids@.len() > 0 ==> r.1@.len() == 1 && exists|i: int|
            0 <= i < candidate_cids@.len() && (r.0.assigned_content_network matches Some(n) && n@
                == content_network_name(#[trigger] candidate_cids@[i]@)),
{
    let chosen = pick_candidate(candidate_cids);
    decide_assignment_with_choice(assigning_node_id, request, chosen)
}

} // verus!
