//! Content synchronisation between the members of a content: whom to ask
//! or push to, and what a round came to.
use crate::content_network::{ContentNetwork, ContentNetworkView};
use crate::text::{concat, str_equal, string_views, to_owned_string};
use vstd::prelude::*;

verus! {

broadcast use vstd::seq_lib::group_seq_properties;

/// What pulling a content from its providers came to.
#[derive(Debug, Clone, PartialEq, Eq)]
pub struct SyncResult {
    /// Operations applied locally.
    pub operations_applied: usize,
    /// Providers asked.
    pub providers_contacted: usize,
    /// What went wrong, one message per failure.
    pub errors: Vec<String>,
}

/// What pushing a content to its members came to.
#[derive(Debug, Clone, PartialEq, Eq)]
pub struct PushResult {
    /// Members that took the operations.
    pub nodes_pushed: usize,
    /// Operations they accepted.
    pub operations_sent: usize,
    /// What went wrong, one message per failure.
    pub errors: Vec<String>,
}

/// The nodes of `nodes` other than `local`, in order.
pub open spec fn others(nodes: Seq<Seq<char>>, local: Seq<char>) -> Seq<Seq<char>>
    decreases nodes.len(),
{
    if nodes.len() == 0 {
        Seq::empty()
    } else {
        let rest = others(nodes.drop_last(), local);
        if nodes.last() == local {
            rest
        } else {
            rest.push(nodes.last())
        }
    }
}

/// The nodes to contact for a content: every provider or member but this
/// node itself, in order.
pub fn peers_except(nodes: &Vec<String>, local_node_id: &str) -> (r: Vec<String>)
    ensures
        string_views(r@) == others(string_views(nodes@), local_node_id@),
{
    let ghost ns = string_views(nodes@);
    let mut out: Vec<String> = Vec::new();
    let mut i: usize = 0;
    while i < nodes.len()
        invariant
            i <= nodes@.len(),
            ns == string_views(nodes@),
            string_views(out@) == others(ns.subrange(0, i as int), local_node_id@),
        decreases nodes@.len() - i,
    {
        proof {
            assert(ns.subrange(0, i + 1).drop_last() =~= ns.subrange(0, i as int));
            assert(ns.subrange(0, i + 1).last() == nodes@[i as int]@);
        }
        if !str_equal(nodes[i].as_str(), local_node_id) {
            let ghost prev = out@;
            out.push(to_owned_string(nodes[i].as_str()));
            proof {
                assert(string_views(out@) =~= string_views(prev).push(nodes@[i as int]@));
            }
        }
        i = i + 1;
    }
    proof {
        assert(ns.subrange(0, i as int) =~= ns);
    }
    out
}

/// This node is never among the nodes it contacts, and every other node
/// listed is.
pub proof fn law_peers_exclude_self(nodes: Seq<Seq<char>>, local: Seq<char>, n: Seq<char>)
    ensures
        others(nodes, local).contains(n) <==> (nodes.contains(n) && n != local),
    decreases nodes.len(),
{
    if nodes.len() > 0 {
        law_peers_exclude_self(nodes.drop_last(), local, n);
        if nodes.drop_last().contains(n) {
            let k = choose|k: int| 0 <= k < nodes.drop_last().len() && nodes.drop_last()[k] == n;
            assert(nodes[k] == n);
        }
        if nodes.contains(n) && nodes.last() != n {
            let k = choose|k: int| 0 <= k < nodes.len() && nodes[k] == n;
            assert(nodes.drop_last()[k] == n);
        }
        if nodes.last() == n {
            assert(nodes[nodes.len() - 1] == n);
        }
    }
}

impl SyncResult {
    /// A round in which nothing happened yet.
    pub fn new() -> (r: Self)
        ensures
            r.operations_applied == 0,
            r.providers_contacted == 0,
            r.errors@.len() == 0,
    {
        SyncResult { operations_applied: 0, providers_contacted: 0, errors: Vec::new() }
    }
}

impl PushResult {
    /// A round in which nothing happened yet.
    pub fn new() -> (r: Self)
        ensures
            r.nodes_pushed == 0,
            r.operations_sent == 0,
            r.errors@.len() == 0,
    {
        PushResult { nodes_pushed: 0, operations_sent: 0, errors: Vec::new() }
    }
}

/// What asking one provider for a content's operations came to.
#[derive(Debug, Clone, PartialEq, Eq)]
pub enum FetchOutcome {
    /// The provider had nothing newer.
    NoOperations,
    /// Its operations were applied; this many took effect.
    Applied(usize),
    /// Its operations could not be applied, for this reason.
    ApplyFailed(String),
    /// It could not be asked, for this reason.
    FetchFailed(String),
}

/// The message recorded for a failed exchange with a node.
pub open spec fn failure_message(prefix: Seq<char>, node: Seq<char>, reason: Seq<char>) -> Seq<char> {
    prefix + node + ": "@ + reason
}

/// `prefix`, the node, `": "` and the reason.
fn failure_text(prefix: &str, node: &str, reason: &str) -> (r: String)
    ensures
        r@ == failure_message(prefix@, node@, reason@),
{
    let a = concat(prefix, node);
    let b = concat(a.as_str(), ": ");
    concat(b.as_str(), reason)
}

impl SyncResult {
    /// Records the exchange with one provider (this node itself is never
    /// asked): the provider counts as contacted; applied operations add to
    /// the count; a failure adds its message.
    pub fn record_provider(&mut self, provider: &str, outcome: FetchOutcome)
        requires
            old(self).providers_contacted < usize::MAX,
            outcome matches FetchOutcome::Applied(n) ==> old(self).operations_applied + n
                <= usize::MAX,
        ensures
            final(self).providers_contacted == old(self).providers_contacted + 1,
            final(self).operations_applied == match outcome {
                FetchOutcome::Applied(n) => old(self).operations_applied + n,
                _ => old(self).operations_applied as int,
            },
            final(self).errors@.len() == old(self).errors@.len() + match outcome {
                FetchOutcome::ApplyFailed(_) => 1int,
                FetchOutcome::FetchFailed(_) => 1int,
                _ => 0int,
            },
            forall|i: int|
                0 <= i < old(self).errors@.len() ==> #[trigger] final(self).errors@[i] == old(
                    self,
                ).errors@[i],
            outcome matches FetchOutcome::ApplyFailed(e) ==> final(self).errors@.last()@
                == failure_message("Failed to apply operations from "@, provider@, e@),
            outcome matches FetchOutcome::FetchFailed(e) ==> final(self).errors@.last()@
                == failure_message("Failed to fetch from "@, provider@, e@),
    {
        self.providers_contacted = self.providers_contacted + 1;
        match outcome {
            FetchOutcome::NoOperations => {},
            FetchOutcome::Applied(n) => {
                self.operations_applied = self.operations_applied + n;
            },
            FetchOutcome::ApplyFailed(e) => {
                self.errors.push(
                    failure_text("Failed to apply operations from ", provider, e.as_str()),
                );
            },
            FetchOutcome::FetchFailed(e) => {
                self.errors.push(failure_text("Failed to fetch from ", provider, e.as_str()));
            },
        }
    }
}

impl PushResult {
    /// Records the push to one member (never this node itself): on
    /// success the member counts as pushed and the operations it accepted
    /// add to the count; a failure adds its message.
    pub fn record_push(&mut self, node_id: &str, outcome: Result<usize, String>)
        requires
            outcome matches Ok(n) ==> old(self).nodes_pushed < usize::MAX
                && old(self).operations_sent + n <= usize::MAX,
        ensures
            final(self).nodes_pushed == match outcome {
                Ok(_) => old(self).nodes_pushed + 1,
                Err(_) => old(self).nodes_pushed as int,
            },
            final(self).operations_sent == match outcome {
                Ok(n) => old(self).operations_sent + n,
                Err(_) => old(self).operations_sent as int,
            },
            final(self).errors@.len() == old(self).errors@.len() + if outcome is Err {
                1int
            } else {
                0int
            },
            forall|i: int|
                0 <= i < old(self).errors@.len() ==> #[trigger] final(self).errors@[i] == old(
                    self,
                ).errors@[i],
            outcome matches Err(e) ==> final(self).errors@.last()@ == failure_message(
                "Failed to push to "@,
                node_id@,
                e@,
            ),
    {
        match outcome {
            Ok(n) => {
                self.nodes_pushed = self.nodes_pushed + 1;
                self.operations_sent = self.operations_sent + n;
            },
            Err(e) => {
                self.errors.push(failure_text("Failed to push to ", node_id, e.as_str()));
            },
        }
    }
}

/// The contents, among the given networks in order, of which `local` is a
/// member: those that a periodic sync pulls.
pub open spec fn member_contents(networks: Seq<ContentNetworkView>, local: Seq<char>) -> Seq<Seq<char>>
    decreases networks.len(),
{
    if networks.len() == 0 {
        Seq::empty()
    } else {
        let rest = member_contents(networks.drop_last(), local);
        if networks.last().has(local) {
            rest.push(networks.last().content_id)
        } else {
            rest
        }
    }
}

/// The views of a sequence of networks.
pub open spec fn network_views(networks: Seq<ContentNetwork>) -> Seq<ContentNetworkView> {
    networks.map_values(|n: ContentNetwork| n@)
}

/// The contents that a periodic sync pulls: those of whose network this
/// node is a member, in the order of the networks.
pub fn contents_to_sync(networks: &Vec<ContentNetwork>, local_node_id: &str) -> (r: Vec<String>)
    ensures
        string_views(r@) == member_contents(network_views(networks@), local_node_id@),
{
    let ghost ns = network_views(networks@);
    let mut out: Vec<String> = Vec::new();
    let mut i: usize = 0;
    while i < networks.len()
        invariant
            i <= networks@.len(),
            ns == network_views(networks@),
            string_views(out@) == member_contents(ns.subrange(0, i as int), local_node_id@),
        decreases networks@.len() - i,
    {
        proof {
            assert(ns.subrange(0, i + 1).drop_last() =~= ns.subrange(0, i as int));
            assert(ns.subrange(0, i + 1).last() == networks@[i as int]@);
        }
        let n = &networks[i];
        if n.has_member_str(local_node_id) {
            let ghost prev = out@;
            out.push(n.content_id().to_text());
            proof {
                assert(string_views(out@) =~= string_views(prev).push(networks@[i as int]@.content_id));
            }
        }
        i = i + 1;
    }
    proof {
        assert(ns.subrange(0, i as int) =~= ns);
    }
    out
}

} // verus!
