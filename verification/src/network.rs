//! The peer network as seen by a node that has no peers yet: every query
//! finds nothing.
use vstd::prelude::*;

verus! {

/// A peer network with no peers.
#[derive(Debug, Clone, Copy, Default)]
pub struct Libp2pNetwork;

impl Libp2pNetwork {
    /// Opens the network; this never fails.
    pub fn new() -> (r: Result<Self, String>)
        ensures
            r is Ok,
    {
        Ok(Libp2pNetwork)
    }

    /// The free capacity a node reports: none is known.
    pub fn query_node_capacity(&self, node_id: &str) -> (r: Option<u64>)
        ensures
            r is None,
    {
        None
    }

    /// The contents a node of the given capacity could take: none is known.
    pub fn query_assignable_cids(&self, capacity: u64) -> (r: Vec<String>)
        ensures
            r@.len() == 0,
    {
        Vec::new()
    }
}

} // verus!
