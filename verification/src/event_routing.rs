//! How events are routed: the network topic they are published on and
//! which subscribers receive them.
use crate::events::{spec_event_type, Event};
use crate::text::{concat, str_equal, to_owned_string};
use vstd::prelude::*;

verus! {

/// The network topic of events unless another is configured.
pub open spec fn default_event_topic() -> Seq<char> {
    "monas-events"@
}

/// The topic to publish on: the configured one, else the default.
pub fn event_topic(topic: Option<String>) -> (r: String)
    ensures
        r@ == match topic {
            Some(t) => t@,
            None => default_event_topic(),
        },
{
    match topic {
        Some(t) => t,
        None => to_owned_string("monas-events"),
    }
}

/// The name of the subscriber for an event type.
pub fn subscriber_name(event_type: &str) -> (r: String)
    ensures
        r@ == "subscriber-"@ + event_type@,
{
    concat("subscriber-", event_type)
}

/// Whether a subscriber for `event_type` receives the event: exactly when
/// the event is of that type.
pub fn accepts_event(event: &Event, event_type: &str) -> (r: bool)
    ensures
        r == (spec_event_type(*event) == event_type@),
{
    str_equal(event.event_type(), event_type)
}

} // verus!
