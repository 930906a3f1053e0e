//! The decisions of the state node service: what a content request needs
//! before it is served, which nodes a content is placed on, how an event
//! from another node changes the local state, which members a content
//! keeps, and when access-control updates and delegated tokens are
//! accepted.
use crate::auth_token::AuthToken;
use crate::access_control::{AccessControlError, AccessControlUpdate, AccessControlView, ContentAccessControl, update_signing_message, utf8_of};
use crate::content_network::{remove_member_node, ContentNetwork, ContentNetworkView};
use crate::crypto::{digest_check_passes, verify_p256_signature};
use crate::errors::StateNodeError;
use crate::events::Event;
use crate::keyed::Keyed;
use crate::placement::{capacity_of, select_by_capacity, selection};
use crate::state_node::NodeSnapshot;
use crate::text::{str_equal, string_views, to_owned_string};
use crate::ucan::AuthorizationResult;
use crate::value_objects::NodeId;
use vstd::prelude::*;

verus! {

broadcast use vstd::seq_lib::group_seq_properties;

/// What applying an event from another node came to.
#[derive(Debug, Clone, PartialEq, Eq)]
pub enum ApplyOutcome {
    /// The event was applied; nothing more to do.
    Applied,
    /// The event does not concern this node.
    Ignored,
    /// The event was applied and the content must be synchronised.
    NeedsSync { content_id: String },
}

/// Redundancy settings of the service.
#[derive(Debug, Clone, PartialEq, Eq)]
pub struct ServiceConfig {
    /// The least number of members a content should have.
    pub min_replication_factor: usize,
    /// Free capacity, in bytes, below which a node counts as low on storage.
    pub capacity_threshold_bytes: u64,
}

impl Default for ServiceConfig {
    fn default() -> (r: Self)
        ensures
            r.min_replication_factor == 3,
            r.capacity_threshold_bytes == 1_073_741_824,
    {
        ServiceConfig { min_replication_factor: 3, capacity_threshold_bytes: 1_073_741_824 }
    }
}

/// An access-control store that keeps nothing.
#[derive(Debug, Clone, Copy, Default)]
pub struct NoOpAccessControlRepository;

impl NoOpAccessControlRepository {
    /// Finds nothing.
    pub fn get_access_control(&self, content_id: &str) -> (r: Result<Option<ContentAccessControl>, String>)
        ensures
            r matches Ok(o) && o is None,
    {
        Ok(None)
    }

    /// Keeps nothing.
    pub fn save_access_control(&self, access_control: &ContentAccessControl) -> (r: Result<(), String>)
        ensures
            r is Ok,
    {
        Ok(())
    }

    /// Deletes nothing.
    pub fn delete_access_control(&self, content_id: &str) -> (r: Result<(), String>)
        ensures
            r is Ok,
    {
        Ok(())
    }

    /// Lists nothing.
    pub fn list_access_controls(&self) -> (r: Result<Vec<String>, String>)
        ensures
            r matches Ok(v) && v@.len() == 0,
    {
        Ok(Vec::new())
    }

    /// Has nothing to write.
    pub fn flush(&self) -> (r: Result<(), String>)
        ensures
            r is Ok,
    {
        Ok(())
    }
}

/// The change to the local stores that an event calls for.
#[derive(Debug, Clone, PartialEq)]
pub enum SyncAction {
    /// Nothing to store.
    Nothing,
    /// Store the content network of a content with these members.
    SaveNetwork { content_id: String, member_nodes: Vec<String> },
    /// Delete the local content network of a content.
    DeleteNetwork { content_id: String },
    /// Record a node.
    UpsertNode(NodeSnapshot),
}

/// Whether `a` stores the network of `cid` with `members`.
pub open spec fn saves(a: SyncAction, cid: Seq<char>, members: Seq<Seq<char>>) -> bool {
    a matches SyncAction::SaveNetwork { content_id, member_nodes } && content_id@ == cid && string_views(
        member_nodes@,
    ) == members
}

/// Whether `o` asks to synchronise `cid`.
pub open spec fn needs_sync(o: ApplyOutcome, cid: Seq<char>) -> bool {
    o matches ApplyOutcome::NeedsSync { content_id } && content_id@ == cid
}

/// How an event from another node is applied by the node `local`, given
/// whether it holds a network for the event's content (`None`) and, if so,
/// whether it is a member (`Some(member)`).
pub open spec fn sync_decision(
    e: Event,
    local: Seq<char>,
    local_membership: Option<bool>,
    r: (SyncAction, ApplyOutcome),
) -> bool {
    match e {
        Event::ContentUpdated { content_id, updated_node_id, .. } => {
            &&& r.0 == SyncAction::Nothing
            &&& if updated_node_id@ == local {
                r.1 == ApplyOutcome::Ignored
            } else {
                match local_membership {
                    None => r.1 == ApplyOutcome::Ignored,
                    Some(true) => needs_sync(r.1, content_id@),
                    Some(false) => r.1 == ApplyOutcome::Applied,
                }
            }
        },
        Event::ContentNetworkManagerAdded { content_id, member_nodes, .. } => {
            &&& saves(r.0, content_id@, string_views(member_nodes@))
            &&& if string_views(member_nodes@).contains(local) {
                needs_sync(r.1, content_id@)
            } else {
                r.1 == ApplyOutcome::Applied
            }
        },
        Event::ContentNetworkManagerRemoved { content_id, member_nodes, .. } => {
            &&& saves(r.0, content_id@, string_views(member_nodes@))
            &&& r.1 == ApplyOutcome::Applied
        },
        Event::ContentCreated { content_id, member_nodes, .. } => {
            &&& saves(r.0, content_id@, string_views(member_nodes@))
            &&& if string_views(member_nodes@).contains(local) {
                needs_sync(r.1, content_id@)
            } else {
                r.1 == ApplyOutcome::Applied
            }
        },
        Event::NodeCreated { node_id, total_capacity, available_capacity, .. } => {
            &&& r.0 matches SyncAction::UpsertNode(s) && s.node_id@ == node_id@ && s.total_capacity
                == total_capacity && s.available_capacity == available_capacity
            &&& r.1 == ApplyOutcome::Applied
        },
        Event::ContentDeleted { content_id, deleted_by_node_id, .. } => if deleted_by_node_id@
            == local {
            r.0 == SyncAction::Nothing && r.1 == ApplyOutcome::Ignored
        } else {
            &&& (local_membership is Some ==> (r.0 matches SyncAction::DeleteNetwork { content_id: c }
                && c@ == content_id@))
            &&& (local_membership is None ==> r.0 == SyncAction::Nothing)
            &&& r.1 == ApplyOutcome::Applied
        },
        _ => r.0 == SyncAction::Nothing && r.1 == ApplyOutcome::Ignored,
    }
}

pub(crate) fn copy_strings(v: &Vec<String>) -> (r: Vec<String>)
    ensures
        string_views(r@) == string_views(v@),
{
    let mut out: Vec<String> = Vec::new();
    let mut i: usize = 0;
    while i < v.len()
        invariant
            i <= v@.len(),
            out@.len() == i,
            string_views(out@) == string_views(v@).subrange(0, i as int),
        decreases v@.len() - i,
    {
        let ghost prev = out@;
        out.push(to_owned_string(v[i].as_str()));
        proof {
            assert forall|k: int| 0 <= k < i + 1 implies #[trigger] string_views(out@)[k]
                == string_views(v@)[k] by {
                if k < i {
                    assert(string_views(prev)[k] == string_views(v@).subrange(0, i as int)[k]);
                }
            }
            assert(string_views(out@) =~= string_views(v@).subrange(0, i + 1));
        }
        i = i + 1;
    }
    proof {
        assert(string_views(v@).subrange(0, i as int) =~= string_views(v@));
    }
    out
}

fn contains_string(v: &Vec<String>, s: &str) -> (r: bool)
    ensures
        r == string_views(v@).contains(s@),
{
    let mut i: usize = 0;
    while i < v.len()
        invariant
            i <= v@.len(),
            forall|k: int| 0 <= k < i ==> #[trigger] string_views(v@)[k] != s@,
        decreases v@.len() - i,
    {
        if str_equal(v[i].as_str(), s) {
            proof {
                assert(string_views(v@)[i as int] == s@);
            }
            return true;
        }
        i = i + 1;
    }
    false
}

/// Decides how an event from another node is applied by the node
/// `local_node_id`: what to store and whether to synchronise. For
/// `ContentUpdated` and `ContentDeleted` the caller passes what it holds
/// for the event's content: `None` when it holds no network for it, else
/// whether `local_node_id` is a member.
pub fn decide_sync_event(event: &Event, local_node_id: &str, local_membership: Option<bool>) -> (r: (
    SyncAction,
    ApplyOutcome,
))
    ensures
        sync_decision(*event, local_node_id@, local_membership, r),
{
    match event {
        Event::ContentUpdated { content_id, updated_node_id, .. } => {
            if str_equal(updated_node_id.as_str(), local_node_id) {
                return (SyncAction::Nothing, ApplyOutcome::Ignored);
            }
            match local_membership {
                None => (SyncAction::Nothing, ApplyOutcome::Ignored),
                Some(true) => (
                    SyncAction::Nothing,
                    ApplyOutcome::NeedsSync { content_id: to_owned_string(content_id.as_str()) },
                ),
                Some(false) => (SyncAction::Nothing, ApplyOutcome::Applied),
            }
        },
        Event::ContentNetworkManagerAdded { content_id, member_nodes, .. } => {
            let action = SyncAction::SaveNetwork {
                content_id: to_owned_string(content_id.as_str()),
                member_nodes: copy_strings(member_nodes),
            };
            if contains_string(member_nodes, local_node_id) {
                (action, ApplyOutcome::NeedsSync { content_id: to_owned_string(content_id.as_str()) })
            } else {
                (action, ApplyOutcome::Applied)
            }
        },
        Event::ContentNetworkManagerRemoved { content_id, member_nodes, .. } => {
            let action = SyncAction::SaveNetwork {
                content_id: to_owned_string(content_id.as_str()),
                member_nodes: copy_strings(member_nodes),
            };
            (action, ApplyOutcome::Applied)
        },
        Event::ContentCreated { content_id, member_nodes, .. } => {
            let action = SyncAction::SaveNetwork {
                content_id: to_owned_string(content_id.as_str()),
                member_nodes: copy_strings(member_nodes),
            };
            if contains_string(member_nodes, local_node_id) {
                (action, ApplyOutcome::NeedsSync { content_id: to_owned_string(content_id.as_str()) })
            } else {
                (action, ApplyOutcome::Applied)
            }
        },
        Event::NodeCreated { node_id, total_capacity, available_capacity, .. } => {
            let snapshot = NodeSnapshot {
                node_id: to_owned_string(node_id.as_str()),
                total_capacity: *total_capacity,
                available_capacity: *available_capacity,
            };
            (SyncAction::UpsertNode(snapshot), ApplyOutcome::Applied)
        },
        Event::ContentDeleted { content_id, deleted_by_node_id, .. } => {
            if str_equal(deleted_by_node_id.as_str(), local_node_id) {
                return (SyncAction::Nothing, ApplyOutcome::Ignored);
            }
            match local_membership {
                Some(_) => (
                    SyncAction::DeleteNetwork { content_id: to_owned_string(content_id.as_str()) },
                    ApplyOutcome::Applied,
                ),
                None => (SyncAction::Nothing, ApplyOutcome::Applied),
            }
        },
        _ => (SyncAction::Nothing, ApplyOutcome::Ignored),
    }
}

/// The number of members whose free capacity reaches the threshold.
pub open spec fn healthy_count(members: Seq<Seq<char>>, caps: Map<Seq<char>, u64>, threshold: u64) -> nat
    decreases members.len(),
{
    if members.len() == 0 {
        0
    } else {
        healthy_count(members.drop_last(), caps, threshold) + if capacity_of(caps, members.last())
            >= threshold {
            1nat
        } else {
            0nat
        }
    }
}

/// The members whose free capacity is below the threshold, in order.
pub open spec fn low_capacity(members: Seq<Seq<char>>, caps: Map<Seq<char>, u64>, threshold: u64) -> Seq<
    Seq<char>,
>
    decreases members.len(),
{
    if members.len() == 0 {
        Seq::empty()
    } else {
        let rest = low_capacity(members.drop_last(), caps, threshold);
        if capacity_of(caps, members.last()) < threshold {
            rest.push(members.last())
        } else {
            rest
        }
    }
}

/// How a content's redundancy is to be restored.
#[derive(Debug, Clone, PartialEq, Eq)]
pub struct RedundancyPlan {
    /// The members low on storage, to be replaced.
    pub low_capacity_nodes: Vec<String>,
    /// How many members have enough storage.
    pub healthy_count: usize,
    /// How many members to add to reach the replication factor.
    pub needed: usize,
}

/// Classifies the members of a content by their reported free capacity
/// (zero when none was reported): those below the threshold are to be
/// replaced, and as many members are needed as the healthy ones fall
/// short of the replication factor.
pub fn plan_redundancy(
    members: &Vec<String>,
    capacities: &Keyed<u64>,
    config: &ServiceConfig,
) -> (r: RedundancyPlan)
    ensures
        string_views(r.low_capacity_nodes@) == low_capacity(string_views(members@), capacities.map(), config.capacity_threshold_bytes),
        r.healthy_count == healthy_count(string_views(members@), capacities.map(), config.capacity_threshold_bytes),
        r.needed == if config.min_replication_factor > r.healthy_count {
            config.min_replication_factor - r.healthy_count
        } else {
            0
        },
{
    let ghost ms = string_views(members@);
    let ghost caps = capacities.map();
    let threshold = config.capacity_threshold_bytes;
    let mut low: Vec<String> = Vec::new();
    let mut healthy: usize = 0;
    let mut i: usize = 0;
    while i < members.len()
        invariant
            i <= members@.len(),
            ms == string_views(members@),
            caps == capacities.map(),
            threshold == config.capacity_threshold_bytes,
            string_views(low@) == low_capacity(ms.subrange(0, i as int), caps, threshold),
            healthy == healthy_count(ms.subrange(0, i as int), caps, threshold),
            healthy <= i,
        decreases members@.len() - i,
    {
        proof {
            assert(ms.subrange(0, i + 1).drop_last() =~= ms.subrange(0, i as int));
            assert(ms.subrange(0, i + 1).last() == members@[i as int]@);
        }
        let id = members[i].as_str();
        let available = match capacities.get(id) {
            Some(v) => *v,
            None => 0,
        };
        if available < threshold {
            let ghost prev = low@;
            low.push(to_owned_string(id));
            proof {
                assert(string_views(low@) =~= string_views(prev).push(id@));
            }
        } else {
            healthy = healthy + 1;
        }
        i = i + 1;
    }
    proof {
        assert(ms.subrange(0, i as int) =~= ms);
    }
    let needed = config.min_replication_factor.saturating_sub(healthy);
    RedundancyPlan { low_capacity_nodes: low, healthy_count: healthy, needed }
}

/// The members (and their number) left after removing low-capacity
/// members in order: the local node is skipped, as is an empty id; removal
/// stops as soon as the network is down to `min` members; a node that is
/// not a member, or the last member, stays.
pub open spec fn removal_outcome(
    m: Map<Seq<char>, Seq<u8>>,
    count: nat,
    low: Seq<Seq<char>>,
    local: Seq<char>,
    min: nat,
) -> (Map<Seq<char>, Seq<u8>>, nat)
    decreases low.len(),
{
    if low.len() == 0 {
        (m, count)
    } else {
        let id = low[0];
        let rest = low.drop_first();
        if id == local {
            removal_outcome(m, count, rest, local, min)
        } else if count <= min {
            (m, count)
        } else if id.len() == 0 {
            removal_outcome(m, count, rest, local, min)
        } else if m.contains_key(id) && count > 1 {
            removal_outcome(m.remove(id), (count - 1) as nat, rest, local, min)
        } else {
            removal_outcome(m, count, rest, local, min)
        }
    }
}

/// Removing low-capacity members only ever removes listed nodes other
/// than the local node, keeps the keys of those that stay, and never takes
/// the network below `min` members when it takes any.
pub proof fn law_removal_removes_only_listed_remote_nodes(
    m: Map<Seq<char>, Seq<u8>>,
    count: nat,
    low: Seq<Seq<char>>,
    local: Seq<char>,
    min: nat,
)
    ensures
        ({
            let (m2, c2) = removal_outcome(m, count, low, local, min);
            &&& m2.dom().subset_of(m.dom())
            &&& forall|k: Seq<char>| #[trigger] m2.contains_key(k) ==> m2[k] == m[k]
            &&& forall|k: Seq<char>|
                #[trigger] m.contains_key(k) && !m2.contains_key(k) ==> low.contains(k) && k != local
            &&& c2 <= count
            &&& c2 < count ==> c2 >= min
        }),
    decreases low.len(),
{
    if low.len() > 0 {
        let id = low[0];
        let rest = low.drop_first();
        assert forall|k: Seq<char>| rest.contains(k) implies low.contains(k) by {
            let j = choose|j: int| 0 <= j < rest.len() && rest[j] == k;
            assert(low[j + 1] == k);
        }
        assert(low.contains(id)) by {
            assert(low[0] == id);
        }
        if id == local {
            law_removal_removes_only_listed_remote_nodes(m, count, rest, local, min);
        } else if count <= min {
        } else if id.len() == 0 {
            law_removal_removes_only_listed_remote_nodes(m, count, rest, local, min);
        } else if m.contains_key(id) && count > 1 {
            law_removal_removes_only_listed_remote_nodes(m.remove(id), (count - 1) as nat, rest, local, min);
        } else {
            law_removal_removes_only_listed_remote_nodes(m, count, rest, local, min);
        }
    }
}

/// Removes low-capacity members from a network, in order, with the reason
/// `low_capacity`: the local node is never removed, and removal stops as
/// soon as the network is down to the replication factor. Each removal
/// gives its event.
pub fn remove_low_capacity_members(
    network: ContentNetwork,
    low_capacity_nodes: &Vec<String>,
    local_node_id: &str,
    min_replication_factor: usize,
) -> (r: (ContentNetwork, Vec<Event>))
    requires
        network@.wf(),
    ensures
        r.0@.wf(),
        r.0@.content_id == network@.content_id,
        (r.0@.member_map(), r.0@.members.len()) == removal_outcome(
            network@.member_map(),
            network@.members.len(),
            string_views(low_capacity_nodes@),
            local_node_id@,
            min_replication_factor as nat,
        ),
        network@.has(local_node_id@) ==> r.0@.has(local_node_id@),
        r.0@.members.len() < network@.members.len() ==> r.0@.members.len() >= min_replication_factor,
        r.1@.len() == network@.members.len() - r.0@.members.len(),
{
    let ghost lows = string_views(low_capacity_nodes@);
    let ghost target = removal_outcome(
        network@.member_map(),
        network@.members.len(),
        lows,
        local_node_id@,
        min_replication_factor as nat,
    );
    let mut net = network;
    let mut events: Vec<Event> = Vec::new();
    let mut i: usize = 0;
    let mut stop = false;
    proof {
        assert(lows.subrange(0, lows.len() as int) =~= lows);
    }
    while i < low_capacity_nodes.len() && !stop
        invariant
            i <= low_capacity_nodes@.len(),
            lows == string_views(low_capacity_nodes@),
            lows.len() == low_capacity_nodes@.len(),
            net@.wf(),
            net@.content_id == network@.content_id,
            network@.has(local_node_id@) ==> net@.has(local_node_id@),
            net@.members.len() <= network@.members.len(),
            net@.members.len() < network@.members.len() ==> net@.members.len() >= min_replication_factor,
            events@.len() == network@.members.len() - net@.members.len(),
            target == removal_outcome(
                network@.member_map(),
                network@.members.len(),
                lows,
                local_node_id@,
                min_replication_factor as nat,
            ),
            !stop ==> removal_outcome(
                net@.member_map(),
                net@.members.len(),
                lows.subrange(i as int, lows.len() as int),
                local_node_id@,
                min_replication_factor as nat,
            ) == target,
            stop ==> (net@.member_map(), net@.members.len()) == target,
        decreases low_capacity_nodes@.len() - i, if stop { 0int } else { 1int },
    {
        let id = low_capacity_nodes[i].as_str();
        let ghost rest = lows.subrange(i as int, lows.len() as int);
        proof {
            assert(lows[i as int] == id@);
            assert(rest[0] == id@);
            assert(rest.drop_first() =~= lows.subrange(i + 1, lows.len() as int));
        }
        if str_equal(id, local_node_id) {
            i = i + 1;
        } else if net.member_count() <= min_replication_factor {
            stop = true;
        } else {
            let node_id = match NodeId::new(to_owned_string(id)) {
                Ok(n) => n,
                Err(_) => {
                    i = i + 1;
                    continue;
                },
            };
            let ghost before = net@;
            let (n2, evs) = remove_member_node(net, node_id, to_owned_string("low_capacity"));
            net = n2;
            proof {
                assert(before.member_map().contains_key(id@) == before.has(id@));
                if before.has(id@) && before.members.len() > 1 {
                    lemma_removal_size(before, net@, id@);
                    if before.has(local_node_id@) {
                        assert(before.member_map().contains_key(local_node_id@));
                        assert(net@.member_map().contains_key(local_node_id@));
                    }
                }
            }
            let mut evs = evs;
            events.append(&mut evs);
            i = i + 1;
        }
    }
    proof {
        if !stop {
            assert(i == low_capacity_nodes@.len());
            assert(lows.subrange(i as int, lows.len() as int) =~= Seq::<Seq<char>>::empty());
        }
    }
    (net, events)
}

/// Removing one member of a well-formed network leaves one member fewer.
proof fn lemma_removal_size(before: ContentNetworkView, after: ContentNetworkView, id: Seq<char>)
    requires
        before.wf(),
        after.wf(),
        before.has(id),
        after.member_map() == before.member_map().remove(id),
    ensures
        after.members.len() == before.members.len() - 1,
{
    lemma_map_len(before);
    lemma_map_len(after);
}

/// A well-formed network has as many members as its member map has keys.
proof fn lemma_map_len(n: ContentNetworkView)
    requires
        n.wf(),
    ensures
        n.member_map().dom().finite(),
        n.member_map().dom().len() == n.members.len(),
{
    let ids = n.ids();
    assert(ids.no_duplicates()) by {
        assert forall|i: int, j: int| 0 <= i < ids.len() && 0 <= j < ids.len() && i != j implies ids[i]
            != ids[j] by {
            if i < j {
                assert(crate::text::chars_lt(n.members[i].0, n.members[j].0));
            } else {
                assert(crate::text::chars_lt(n.members[j].0, n.members[i].0));
            }
        }
    }
    ids.unique_seq_to_set();
    assert(n.member_map().dom() =~= ids.to_set()) by {
        assert forall|k: Seq<char>| n.member_map().dom().contains(k) <==> ids.to_set().contains(k) by {
            if n.has(k) {
                let i = choose|i: int| 0 <= i < n.members.len() && #[trigger] n.members[i].0 == k;
                assert(ids[i] == k);
            }
            if ids.to_set().contains(k) {
                let i = choose|i: int| 0 <= i < ids.len() && ids[i] == k;
                assert(n.members[i].0 == k);
            }
        }
    }
    vstd::seq_lib::seq_to_set_is_finite(ids);
}

/// Whether a request token's issue time passes the content's cutoff; with
/// no access-control store, or no state for the content, every token does.
pub open spec fn access_allowed(store_configured: bool, state: Option<AccessControlView>, token_iat: u64) -> bool {
    if !store_configured {
        true
    } else {
        match state {
            Some(ac) => token_iat >= ac.min_valid_issued_at,
            None => true,
        }
    }
}

/// Decides whether a token issued at `token_iat` may access a content,
/// given whether an access-control store is configured and the state it
/// holds for the content.
pub fn verify_access_decision(store_configured: bool, state: Option<&ContentAccessControl>, token_iat: u64) -> (r: bool)
    ensures
        r == access_allowed(
            store_configured,
            match state {
                Some(a) => Some(a@),
                None => None,
            },
            token_iat,
        ),
{
    if !store_configured {
        return true;
    }
    match state {
        Some(ac) => ac.is_token_valid(token_iat),
        None => true,
    }
}

/// Checks the owner's signature on an access-control update: both the
/// signature and the signer's key must be present, and the signature must
/// verify over the update's signing message.
pub fn check_update_signature(update: &AccessControlUpdate) -> (r: Result<(), AccessControlError>)
    ensures
        r is Ok <==> (update.signature@.len() > 0 && update.signer_public_key@.len() > 0
            && digest_check_passes(
            update_signing_message(utf8_of(update.content_id@), update.new_min_valid_issued_at),
            update.signature@,
            update.signer_public_key@,
        )),
        r matches Err(e) ==> e == AccessControlError::InvalidSignature,
{
    if update.signature().len() == 0 || update.signer_public_key().len() == 0 {
        return Err(AccessControlError::InvalidSignature);
    }
    let message = update.signing_message();
    match verify_p256_signature(message.as_slice(), update.signature(), update.signer_public_key()) {
        Ok(()) => Ok(()),
        Err(_) => Err(AccessControlError::InvalidSignature),
    }
}

/// Turns the answer of an authorization into an error of the service: a
/// denial with its reason.
pub fn authorization_error(result: &AuthorizationResult) -> (r: Option<StateNodeError>)
    ensures
        match result {
            AuthorizationResult::Granted => r is None,
            AuthorizationResult::Denied { reason } => r matches Some(
                StateNodeError::AuthorizationFailed(m),
            ) && m@ == reason@,
        },
{
    match result {
        AuthorizationResult::Granted => None,
        AuthorizationResult::Denied { reason } => Some(
            StateNodeError::AuthorizationFailed(to_owned_string(reason.as_str())),
        ),
    }
}

/// The error of a content request that lacks a credential or a service,
/// in the order of the checks: the token, the request signature, the
/// authentication service, then the authorization service.
pub open spec fn missing_credential_error(
    e: StateNodeError,
    has_token: bool,
    has_signature: bool,
    auth_configured: bool,
) -> bool {
    if !has_token {
        e matches StateNodeError::AuthenticationFailed(m) && m@ == "Authentication token is required"@
    } else if !has_signature {
        e matches StateNodeError::AuthenticationFailed(m) && m@ == "Request signature is required"@
    } else if !auth_configured {
        e matches StateNodeError::InvalidConfiguration(m) && m@ == "Authentication not configured"@
    } else {
        e matches StateNodeError::InvalidConfiguration(m) && m@ == "Authorization not configured"@
    }
}

/// Checks that a content request carries a token and a request signature
/// and that the services that check them are configured.
pub fn require_credentials(
    token: Option<&AuthToken>,
    request_signature: Option<&[u8]>,
    auth_configured: bool,
    authz_configured: bool,
) -> (r: Result<(), StateNodeError>)
    ensures
        r is Ok <==> (token is Some && request_signature is Some && auth_configured
            && authz_configured),
        r matches Err(e) ==> missing_credential_error(
            e,
            token is Some,
            request_signature is Some,
            auth_configured,
        ),
{
    if token.is_none() {
        return Err(
            StateNodeError::AuthenticationFailed(to_owned_string("Authentication token is required")),
        );
    }
    if request_signature.is_none() {
        return Err(
            StateNodeError::AuthenticationFailed(to_owned_string("Request signature is required")),
        );
    }
    if !auth_configured {
        return Err(
            StateNodeError::InvalidConfiguration(to_owned_string("Authentication not configured")),
        );
    }
    if !authz_configured {
        return Err(
            StateNodeError::InvalidConfiguration(to_owned_string("Authorization not configured")),
        );
    }
    Ok(())
}

/// Checks that the local node is a member of a content's network: only
/// members update, delete or extend a content.
pub fn require_member(network: &ContentNetwork, local_node_id: &str) -> (r: Result<(), StateNodeError>)
    ensures
        r is Ok <==> network@.has(local_node_id@),
        r matches Err(e) ==> e matches StateNodeError::NotAMember { node_id, content_id }
            && node_id@ == local_node_id@ && content_id@ == network@.content_id,
{
    if network.has_member_str(local_node_id) {
        Ok(())
    } else {
        Err(
            StateNodeError::NotAMember {
                node_id: to_owned_string(local_node_id),
                content_id: network.content_id().duplicate(),
            },
        )
    }
}

/// Chooses up to `k` members for a content among the closest peers: those
/// not excluded (the creator, or the present members), by reported
/// capacity, highest first. Refused when none is left.
pub fn choose_members(
    closest: &Vec<String>,
    capacities: &Keyed<u64>,
    excluded: &Vec<String>,
    k: usize,
) -> (r: Result<Vec<String>, StateNodeError>)
    ensures
        r is Err <==> selection(
            string_views(closest@),
            capacities.map(),
            string_views(excluded@),
            k as nat,
        ).len() == 0,
        r matches Err(e) ==> e is NoAvailableMembers,
        r matches Ok(v) ==> string_views(v@) == selection(
            string_views(closest@),
            capacities.map(),
            string_views(excluded@),
            k as nat,
        ),
{
    let selected = select_by_capacity(closest, capacities, excluded, k);
    proof {
        assert(string_views(selected@).len() == selected@.len());
    }
    if selected.len() == 0 {
        Err(StateNodeError::NoAvailableMembers)
    } else {
        Ok(selected)
    }
}

/// The first refusal of an access-control update before its signature is
/// checked: no store is configured (the content is then unknown), the
/// token or the request signature is missing, or a service that checks
/// them is missing.
pub open spec fn access_update_refusal(
    store_configured: bool,
    has_token: bool,
    has_signature: bool,
    auth_configured: bool,
    authz_configured: bool,
) -> Option<AccessControlError> {
    if !store_configured {
        Some(AccessControlError::ContentNotFound)
    } else if !has_token || !has_signature {
        Some(AccessControlError::InvalidSignature)
    } else if !auth_configured || !authz_configured {
        Some(AccessControlError::NotAuthorized)
    } else {
        None
    }
}

/// Checks what an access-control update needs before its signature is
/// checked.
pub fn require_access_update_credentials(
    store_configured: bool,
    token: Option<&AuthToken>,
    request_signature: Option<&[u8]>,
    auth_configured: bool,
    authz_configured: bool,
) -> (r: Result<(), AccessControlError>)
    ensures
        match access_update_refusal(
            store_configured,
            token is Some,
            request_signature is Some,
            auth_configured,
            authz_configured,
        ) {
            Some(e) => r == Err::<(), AccessControlError>(e),
            None => r is Ok,
        },
{
    if !store_configured {
        return Err(AccessControlError::ContentNotFound);
    }
    if token.is_none() || request_signature.is_none() {
        return Err(AccessControlError::InvalidSignature);
    }
    if !auth_configured || !authz_configured {
        return Err(AccessControlError::NotAuthorized);
    }
    Ok(())
}

/// The state that an access-control update starts from: the stored state,
/// or a fresh one (cutoff 0, version 1) for a content that has none.
pub open spec fn update_base(existing: Option<AccessControlView>, content_id: Seq<char>) -> (Seq<char>, u64, u64) {
    match existing {
        Some(a) => (a.content_id, a.min_valid_issued_at, a.version),
        None => (content_id, 0, 1),
    }
}

/// The view of an optional stored state.
pub open spec fn stored_view(existing: Option<ContentAccessControl>) -> Option<AccessControlView> {
    match existing {
        Some(a) => Some(a@),
        None => None,
    }
}

/// Applies an authorized access-control update to the stored state of its
/// content (a fresh state when none is stored): the cutoff moves to the
/// requested time and the version goes up by one. A cutoff below the
/// current one is refused.
pub fn apply_access_control_update(
    existing: Option<ContentAccessControl>,
    update: &AccessControlUpdate,
) -> (r: Result<ContentAccessControl, AccessControlError>)
    requires
        existing matches Some(a) ==> a@.version < u64::MAX,
    ensures
        ({
            let (cid, cutoff, version) = update_base(stored_view(existing), update.content_id@);
            &&& r is Err <==> update.new_min_valid_issued_at < cutoff
            &&& r matches Err(e) ==> e == (AccessControlError::InvalidTimestamp {
                current: cutoff,
                requested: update.new_min_valid_issued_at,
            })
            &&& r matches Ok(a) ==> {
                &&& a@.content_id == cid
                &&& a@.min_valid_issued_at == update.new_min_valid_issued_at
                &&& a@.version == version + 1
            }
        }),
{
    let mut state = match existing {
        Some(a) => a,
        None => ContentAccessControl::new(update.content_id.clone()),
    };
    match state.invalidate_before(update.new_min_valid_issued_at) {
        Ok(_) => Ok(state),
        Err(e) => Err(e),
    }
}

/// What the local event handler stores for an event, given the members of
/// the local network of the event's content when it holds one.
pub open spec fn handler_stores(e: Event, existing: Option<Seq<Seq<char>>>, a: SyncAction) -> bool {
    match e {
        Event::NodeCreated { node_id, total_capacity, available_capacity, .. } => a matches SyncAction::UpsertNode(
            s,
        ) && s.node_id@ == node_id@ && s.total_capacity == total_capacity && s.available_capacity
            == available_capacity,
        Event::ContentCreated { content_id, member_nodes, .. } => saves(
            a,
            content_id@,
            string_views(member_nodes@),
        ),
        Event::ContentNetworkManagerAdded { content_id, member_nodes, .. } => saves(
            a,
            content_id@,
            string_views(member_nodes@),
        ),
        Event::AssignmentDecided { content_id, assigned_node_id, .. } => match existing {
            None => a == SyncAction::Nothing,
            Some(m) => saves(
                a,
                content_id@,
                if m.contains(assigned_node_id@) {
                    m
                } else {
                    m.push(assigned_node_id@)
                },
            ),
        },
        _ => a == SyncAction::Nothing,
    }
}

/// Decides what the local event handler stores for an event: a created
/// node is recorded; a created content, or one whose managers changed, is
/// stored with its members; a content assigned to a node gains that node
/// when a network for it is held.
pub fn handler_action(event: &Event, existing_members: Option<&Vec<String>>) -> (r: SyncAction)
    ensures
        handler_stores(
            *event,
            match existing_members {
                Some(m) => Some(string_views(m@)),
                None => None,
            },
            r,
        ),
{
    match event {
        Event::NodeCreated { node_id, total_capacity, available_capacity, .. } => SyncAction::UpsertNode(
            NodeSnapshot {
                node_id: to_owned_string(node_id.as_str()),
                total_capacity: *total_capacity,
                available_capacity: *available_capacity,
            },
        ),
        Event::ContentCreated { content_id, member_nodes, .. } => SyncAction::SaveNetwork {
            content_id: to_owned_string(content_id.as_str()),
            member_nodes: copy_strings(member_nodes),
        },
        Event::ContentNetworkManagerAdded { content_id, member_nodes, .. } => SyncAction::SaveNetwork {
            content_id: to_owned_string(content_id.as_str()),
            member_nodes: copy_strings(member_nodes),
        },
        Event::AssignmentDecided { content_id, assigned_node_id, .. } => match existing_members {
            None => SyncAction::Nothing,
            Some(m) => {
                let mut members = copy_strings(m);
                if !contains_string(m, assigned_node_id.as_str()) {
                    let ghost prev = members@;
                    members.push(to_owned_string(assigned_node_id.as_str()));
                    proof {
                        assert(string_views(members@) =~= string_views(prev).push(assigned_node_id@));
                    }
                }
                SyncAction::SaveNetwork { content_id: to_owned_string(content_id.as_str()), member_nodes: members }
            },
        },
        _ => SyncAction::Nothing,
    }
}

/// A node that an event lists among the members of a content (one just
/// created, or one whose managers just grew) stores the new member list and
/// must then synchronise that content; a node that is not listed only
/// stores the list.
pub proof fn law_listed_member_syncs(
    e: Event,
    local: Seq<char>,
    local_membership: Option<bool>,
    r: (SyncAction, ApplyOutcome),
)
    requires
        sync_decision(e, local, local_membership, r),
        e is ContentCreated || e is ContentNetworkManagerAdded,
    ensures
        ({
            let (cid, members) = match e {
                Event::ContentCreated { content_id, member_nodes, .. } => (content_id, member_nodes),
                Event::ContentNetworkManagerAdded { content_id, member_nodes, .. } => (
                    content_id,
                    member_nodes,
                ),
                _ => (arbitrary(), arbitrary()),
            };
            &&& r.0 matches SyncAction::SaveNetwork { content_id, member_nodes } && content_id@
                == cid@ && string_views(member_nodes@) == string_views(members@)
            &&& string_views(members@).contains(local) ==> (r.1 matches ApplyOutcome::NeedsSync {
                content_id,
            } && content_id@ == cid@)
            &&& !string_views(members@).contains(local) ==> r.1 == ApplyOutcome::Applied
        }),
{
}

/// An update made by another node makes a member of the content's network
/// synchronise it; the node's own updates, and contents it holds no network
/// for, are ignored, and a non-member only notes it. Nothing is stored.
pub proof fn law_remote_update_syncs_members(
    e: Event,
    local: Seq<char>,
    local_membership: Option<bool>,
    r: (SyncAction, ApplyOutcome),
)
    requires
        sync_decision(e, local, local_membership, r),
        e is ContentUpdated,
    ensures
        r.0 == SyncAction::Nothing,
        e->ContentUpdated_updated_node_id@ != local && local_membership == Some(true) ==> (r.1 matches ApplyOutcome::NeedsSync {
            content_id,
        } && content_id@ == e->ContentUpdated_content_id@),
        e->ContentUpdated_updated_node_id@ == local || local_membership is None ==> r.1
            == ApplyOutcome::Ignored,
        e->ContentUpdated_updated_node_id@ != local && local_membership == Some(false) ==> r.1
            == ApplyOutcome::Applied,
{
}

/// A deletion made by another node removes the local network of the
/// content when one is held; the node's own deletions are ignored.
pub proof fn law_remote_deletion_removes_network(
    e: Event,
    local: Seq<char>,
    local_membership: Option<bool>,
    r: (SyncAction, ApplyOutcome),
)
    requires
        sync_decision(e, local, local_membership, r),
        e is ContentDeleted,
    ensures
        e->ContentDeleted_deleted_by_node_id@ == local ==> r.0 == SyncAction::Nothing && r.1
            == ApplyOutcome::Ignored,
        e->ContentDeleted_deleted_by_node_id@ != local && local_membership is Some ==> (r.0 matches SyncAction::DeleteNetwork {
            content_id,
        } && content_id@ == e->ContentDeleted_content_id@),
        e->ContentDeleted_deleted_by_node_id@ != local && local_membership is None ==> r.0
            == SyncAction::Nothing,
{
}

/// The local handler stores a created content, or a content whose
/// managers grew, with exactly the members the event lists; a created node
/// is recorded with the capacities the event gives.
pub proof fn law_handler_stores_listed_members(
    e: Event,
    existing: Option<Seq<Seq<char>>>,
    a: SyncAction,
)
    requires
        handler_stores(e, existing, a),
    ensures
        e matches Event::ContentNetworkManagerAdded { content_id, member_nodes, .. } ==> (a matches SyncAction::SaveNetwork {
            content_id: c,
            member_nodes: m,
        } && c@ == content_id@ && string_views(m@) == string_views(member_nodes@)),
        e matches Event::ContentCreated { content_id, member_nodes, .. } ==> (a matches SyncAction::SaveNetwork {
            content_id: c,
            member_nodes: m,
        } && c@ == content_id@ && string_views(m@) == string_views(member_nodes@)),
        e matches Event::NodeCreated { node_id, total_capacity, available_capacity, .. } ==> (a matches SyncAction::UpsertNode(
            s,
        ) && s.node_id@ == node_id@ && s.total_capacity == total_capacity && s.available_capacity
            == available_capacity),
{
}

/// A content assigned to a node keeps every member of the network held for
/// it and gains the assigned node, which it then lists once; without a
/// held network nothing is stored.
pub proof fn law_assignment_adds_the_assigned_node(
    e: Event,
    existing: Option<Seq<Seq<char>>>,
    a: SyncAction,
)
    requires
        handler_stores(e, existing, a),
        e is AssignmentDecided,
    ensures
        existing is None ==> a == SyncAction::Nothing,
        existing matches Some(m) ==> (a matches SyncAction::SaveNetwork { content_id, member_nodes } && {
            let stored = string_views(member_nodes@);
            &&& content_id@ == e->AssignmentDecided_content_id@
            &&& stored.contains(e->AssignmentDecided_assigned_node_id@)
            &&& forall|x: Seq<char>| m.contains(x) ==> stored.contains(x)
            &&& forall|x: Seq<char>| #[trigger] stored.contains(x) ==> m.contains(x) || x
                == e->AssignmentDecided_assigned_node_id@
        }),
{
    if let Some(m) = existing {
        let id = e->AssignmentDecided_assigned_node_id@;
        if !m.contains(id) {
            assert(m.push(id)[m.len() as int] == id);
            assert forall|x: Seq<char>| m.contains(x) implies m.push(id).contains(x) by {
                let i = choose|i: int| 0 <= i < m.len() && m[i] == x;
                assert(m.push(id)[i] == x);
            }
            assert forall|x: Seq<char>| #[trigger] m.push(id).contains(x) implies m.contains(x) || x
                == id by {
                let i = choose|i: int| 0 <= i < m.len() + 1 && m.push(id)[i] == x;
                if i < m.len() {
                    assert(m[i] == x);
                }
            }
        }
    }
}

} // verus!
