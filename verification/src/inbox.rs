//! Records of events already processed, so that each is applied once, and
//! when a record may be forgotten.
use vstd::prelude::*;

verus! {

/// That an event was processed, when (milliseconds since the epoch) and
/// from which node.
#[derive(Debug, Clone, PartialEq, Eq)]
pub struct ProcessedEventRecord {
    pub event_id: String,
    pub processed_at: u64,
    pub source_node: Option<String>,
}

/// The age of a record at `now`, zero for a record from the future.
pub open spec fn record_age(processed_at: u64, now: u64) -> u64 {
    if now >= processed_at {
        (now - processed_at) as u64
    } else {
        0
    }
}

impl ProcessedEventRecord {
    /// Whether the record is at least `max_age_ms` old at `now_ms`, and may
    /// be removed.
    pub fn is_expired_at(&self, now_ms: u64, max_age_ms: u64) -> (r: bool)
        ensures
            r == (record_age(self.processed_at, now_ms) >= max_age_ms),
    {
        now_ms.saturating_sub(self.processed_at) >= max_age_ms
    }
}

/// The ids of the records that are at least `max_age_ms` old at `now_ms`,
/// in order.
pub open spec fn expired_ids(records: Seq<ProcessedEventRecord>, now: u64, max_age: u64) -> Seq<Seq<char>>
    decreases records.len(),
{
    if records.len() == 0 {
        Seq::empty()
    } else {
        let rest = expired_ids(records.drop_last(), now, max_age);
        if record_age(records.last().processed_at, now) >= max_age {
            rest.push(records.last().event_id@)
        } else {
            rest
        }
    }
}

/// The ids of the records to remove at `now_ms`: those at least
/// `max_age_ms` old.
pub fn records_to_remove(records: &Vec<ProcessedEventRecord>, now_ms: u64, max_age_ms: u64) -> (r: Vec<String>)
    ensures
        crate::text::string_views(r@) == expired_ids(records@, now_ms, max_age_ms),
{
    let mut out: Vec<String> = Vec::new();
    let mut i: usize = 0;
    while i < records.len()
        invariant
            i <= records@.len(),
            crate::text::string_views(out@) == expired_ids(records@.subrange(0, i as int), now_ms, max_age_ms),
        decreases records@.len() - i,
    {
        proof {
            assert(records@.subrange(0, i + 1).drop_last() =~= records@.subrange(0, i as int));
        }
        if records[i].is_expired_at(now_ms, max_age_ms) {
            let ghost prev = out@;
            out.push(crate::text::to_owned_string(records[i].event_id.as_str()));
            proof {
                assert(crate::text::string_views(out@) =~= crate::text::string_views(prev).push(
                    records@[i as int].event_id@,
                ));
            }
        }
        i = i + 1;
    }
    proof {
        assert(records@.subrange(0, i as int) =~= records@);
    }
    out
}

} // verus!
