//! Domain events of the state node.
use vstd::prelude::*;

verus! {

/// Seconds since the UNIX epoch, as read from the system clock (0 when the
/// clock is set before the epoch).
///
/// Calls `std::time::SystemTime::now` and `duration_since(UNIX_EPOCH)`;
/// nothing is stated of the result, which depends on the clock.
#[verifier::external_body]
pub fn current_timestamp() -> u64 {
    std::time::SystemTime::now().duration_since(std::time::UNIX_EPOCH).unwrap_or_default().as_secs()
}

/// Domain events, used on the local bus, on the network and for replay.
#[derive(Debug, Clone, PartialEq)]
pub enum Event {
    /// A new node has been created and registered.
    NodeCreated { node_id: String, total_capacity: u64, available_capacity: u64, timestamp: u64 },
    /// Content assignment has been decided.
    AssignmentDecided {
        assigning_node_id: String,
        assigned_node_id: String,
        content_id: String,
        timestamp: u64,
    },
    /// A node has been added to a content network as a manager.
    ContentNetworkManagerAdded {
        content_id: String,
        added_node_id: String,
        member_nodes: Vec<String>,
        timestamp: u64,
    },
    /// A node has been removed from a content network.
    ContentNetworkManagerRemoved {
        content_id: String,
        removed_node_id: String,
        member_nodes: Vec<String>,
        reason: String,
        timestamp: u64,
    },
    /// Content has been updated on a node.
    ContentUpdated { content_id: String, updated_node_id: String, timestamp: u64 },
    /// New content has been created.
    ContentCreated {
        content_id: String,
        creator_node_id: String,
        content_size: u64,
        member_nodes: Vec<String>,
        timestamp: u64,
    },
    /// Content sync has been requested.
    ContentSyncRequested {
        content_id: String,
        requesting_node_id: String,
        source_node_id: String,
        timestamp: u64,
    },
    /// Content has been deleted.
    ContentDeleted { content_id: String, deleted_by_node_id: String, timestamp: u64 },
}

/// The routing name of an event.
pub open spec fn spec_event_type(e: Event) -> Seq<char> {
    match e {
        Event::NodeCreated { .. } => "NodeCreated"@,
        Event::AssignmentDecided { .. } => "AssignmentDecided"@,
        Event::ContentNetworkManagerAdded { .. } => "ContentNetworkManagerAdded"@,
        Event::ContentNetworkManagerRemoved { .. } => "ContentNetworkManagerRemoved"@,
        Event::ContentUpdated { .. } => "ContentUpdated"@,
        Event::ContentCreated { .. } => "ContentCreated"@,
        Event::ContentSyncRequested { .. } => "ContentSyncRequested"@,
        Event::ContentDeleted { .. } => "ContentDeleted"@,
    }
}

/// The content an event concerns, if any.
pub open spec fn spec_event_content_id(e: Event) -> Option<Seq<char>> {
    match e {
        Event::NodeCreated { .. } => None,
        Event::AssignmentDecided { content_id, .. } => Some(content_id@),
        Event::ContentNetworkManagerAdded { content_id, .. } => Some(content_id@),
        Event::ContentNetworkManagerRemoved { content_id, .. } => Some(content_id@),
        Event::ContentUpdated { content_id, .. } => Some(content_id@),
        Event::ContentCreated { content_id, .. } => Some(content_id@),
        Event::ContentSyncRequested { content_id, .. } => Some(content_id@),
        Event::ContentDeleted { content_id, .. } => Some(content_id@),
    }
}

/// The timestamp of an event.
pub open spec fn spec_event_timestamp(e: Event) -> u64 {
    match e {
        Event::NodeCreated { timestamp, .. } => timestamp,
        Event::AssignmentDecided { timestamp, .. } => timestamp,
        Event::ContentNetworkManagerAdded { timestamp, .. } => timestamp,
        Event::ContentNetworkManagerRemoved { timestamp, .. } => timestamp,
        Event::ContentUpdated { timestamp, .. } => timestamp,
        Event::ContentCreated { timestamp, .. } => timestamp,
        Event::ContentSyncRequested { timestamp, .. } => timestamp,
        Event::ContentDeleted { timestamp, .. } => timestamp,
    }
}

impl Event {
    /// The event type, for routing and serialization.
    pub fn event_type(&self) -> (r: &'static str)
        ensures
            r@ == spec_event_type(*self),
    {
        match self {
            Event::NodeCreated { .. } => "NodeCreated",
            Event::AssignmentDecided { .. } => "AssignmentDecided",
            Event::ContentNetworkManagerAdded { .. } => "ContentNetworkManagerAdded",
            Event::ContentNetworkManagerRemoved { .. } => "ContentNetworkManagerRemoved",
            Event::ContentUpdated { .. } => "ContentUpdated",
            Event::ContentCreated { .. } => "ContentCreated",
            Event::ContentSyncRequested { .. } => "ContentSyncRequested",
            Event::ContentDeleted { .. } => "ContentDeleted",
        }
    }

    /// The content ID if the event is content-related.
    pub fn content_id(&self) -> (r: Option<&str>)
        ensures
            r is None <==> spec_event_content_id(*self) is None,
            r matches Some(s) ==> spec_event_content_id(*self) == Some(s@),
    {
        match self {
            Event::NodeCreated { .. } => None,
            Event::AssignmentDecided { content_id, .. } => Some(content_id.as_str()),
            Event::ContentNetworkManagerAdded { content_id, .. } => Some(content_id.as_str()),
            Event::ContentNetworkManagerRemoved { content_id, .. } => Some(content_id.as_str()),
            Event::ContentUpdated { content_id, .. } => Some(content_id.as_str()),
            Event::ContentCreated { content_id, .. } => Some(content_id.as_str()),
            Event::ContentSyncRequested { content_id, .. } => Some(content_id.as_str()),
            Event::ContentDeleted { content_id, .. } => Some(content_id.as_str()),
        }
    }

    /// The timestamp of the event.
    pub fn timestamp(&self) -> (r: u64)
        ensures
            r == spec_event_timestamp(*self),
    {
        match self {
            Event::NodeCreated { timestamp, .. } => *timestamp,
            Event::AssignmentDecided { timestamp, .. } => *timestamp,
            Event::ContentNetworkManagerAdded { timestamp, .. } => *timestamp,
            Event::ContentNetworkManagerRemoved { timestamp, .. } => *timestamp,
            Event::ContentUpdated { timestamp, .. } => *timestamp,
            Event::ContentCreated { timestamp, .. } => *timestamp,
            Event::ContentSyncRequested { timestamp, .. } => *timestamp,
            Event::ContentDeleted { timestamp, .. } => *timestamp,
        }
    }
}

} // verus!
