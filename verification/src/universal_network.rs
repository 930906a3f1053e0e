//! The universal network: every known state node with the resources it
//! offers. Each node id occurs once; nodes are kept in the order they
//! joined.
use crate::text::{str_equal, string_views, to_owned_string};
use vstd::prelude::*;

verus! {

broadcast use vstd::seq_lib::group_seq_properties;

/// Why a change to the universal network was refused.
#[derive(Debug, Clone, PartialEq, Eq)]
pub enum UniversalNetworkError {
    NodeAlreadyExists,
    NodeNotFound,
    InsufficientResources,
}

/// No node id occurs twice.
pub open spec fn node_ids_unique(e: Seq<(Seq<char>, u64)>) -> bool {
    forall|i: int, j: int|
        0 <= i < e.len() && 0 <= j < e.len() && i != j ==> #[trigger] e[i].0 != #[trigger] e[j].0
}

/// Whether the node is known.
pub open spec fn has_node(e: Seq<(Seq<char>, u64)>, id: Seq<char>) -> bool {
    exists|i: int| 0 <= i < e.len() && #[trigger] e[i].0 == id
}

/// Where a known node stands.
pub open spec fn node_index(e: Seq<(Seq<char>, u64)>, id: Seq<char>) -> int {
    choose|i: int| 0 <= i < e.len() && #[trigger] e[i].0 == id
}

/// The resources of a node, if it is known.
pub open spec fn resources_of(e: Seq<(Seq<char>, u64)>, id: Seq<char>) -> Option<u64> {
    if has_node(e, id) {
        Some(e[node_index(e, id)].1)
    } else {
        None
    }
}

/// The node ids, in order.
pub open spec fn node_ids(e: Seq<(Seq<char>, u64)>) -> Seq<Seq<char>> {
    e.map_values(|n: (Seq<char>, u64)| n.0)
}

/// The ids of the nodes that offer at least `required`, in order.
pub open spec fn ids_with_at_least(e: Seq<(Seq<char>, u64)>, required: u64) -> Seq<Seq<char>>
    decreases e.len(),
{
    if e.len() == 0 {
        Seq::empty()
    } else {
        let rest = ids_with_at_least(e.drop_last(), required);
        if e.last().1 >= required {
            rest.push(e.last().0)
        } else {
            rest
        }
    }
}

/// The sum of all resources.
pub open spec fn resources_sum(e: Seq<(Seq<char>, u64)>) -> nat
    decreases e.len(),
{
    if e.len() == 0 {
        0
    } else {
        resources_sum(e.drop_last()) + (e.last().1 as nat)
    }
}

/// Whether some content network lists the node.
pub open spec fn assigned_anywhere(a: Seq<(Seq<char>, Seq<Seq<char>>)>, id: Seq<char>) -> bool {
    exists|i: int| 0 <= i < a.len() && #[trigger] a[i].1.contains(id)
}

/// The ids of the nodes that no content network lists, in order.
pub open spec fn unassigned_ids(
    e: Seq<(Seq<char>, u64)>,
    a: Seq<(Seq<char>, Seq<Seq<char>>)>,
) -> Seq<Seq<char>>
    decreases e.len(),
{
    if e.len() == 0 {
        Seq::empty()
    } else {
        let rest = unassigned_ids(e.drop_last(), a);
        if assigned_anywhere(a, e.last().0) {
            rest
        } else {
            rest.push(e.last().0)
        }
    }
}

/// The views of (content id, member ids) pairs.
pub open spec fn assignment_views(a: Seq<(String, Vec<String>)>) -> Seq<(Seq<char>, Seq<Seq<char>>)> {
    a.map_values(|x: (String, Vec<String>)| (x.0@, string_views(x.1@)))
}

/// The views of (node id, resources) pairs.
pub open spec fn node_views(s: Seq<(String, u64)>) -> Seq<(Seq<char>, u64)> {
    s.map_values(|n: (String, u64)| (n.0@, n.1))
}

/// With unique ids, the entry at `i` is the one found for its id.
pub proof fn lemma_resources_at(e: Seq<(Seq<char>, u64)>, i: int)
    requires
        node_ids_unique(e),
        0 <= i < e.len(),
    ensures
        has_node(e, e[i].0),
        node_index(e, e[i].0) == i,
        resources_of(e, e[i].0) == Some(e[i].1),
{
    assert(e[i].0 == e[i].0);
}

/// All known nodes with the resources each offers.
#[derive(Debug, Clone)]
pub struct UniversalNetwork {
    nodes: Vec<(String, u64)>,
}

impl View for UniversalNetwork {
    type V = Seq<(Seq<char>, u64)>;

    closed spec fn view(&self) -> Seq<(Seq<char>, u64)> {
        node_views(self.nodes@)
    }
}

impl Default for UniversalNetwork {
    /// An empty network, as `new` gives.
    fn default() -> (r: Self)
        ensures
            r@ == Seq::<(Seq<char>, u64)>::empty(),
    {
        UniversalNetwork::new()
    }
}

impl UniversalNetwork {
    /// An empty network.
    pub fn new() -> (r: Self)
        ensures
            r@ == Seq::<(Seq<char>, u64)>::empty(),
    {
        let r = UniversalNetwork { nodes: Vec::new() };
        proof {
            assert(r@ =~= Seq::<(Seq<char>, u64)>::empty());
        }
        r
    }

    /// The ids of all known nodes, in the order they joined.
    pub fn state_node_ids(&self) -> (r: Vec<String>)
        ensures
            string_views(r@) == node_ids(self@),
    {
        let mut out: Vec<String> = Vec::new();
        let mut i: usize = 0;
        while i < self.nodes.len()
            invariant
                i <= self.nodes@.len(),
                out@.len() == i,
                string_views(out@) == node_ids(self@).subrange(0, i as int),
            decreases self.nodes@.len() - i,
        {
            let ghost prev = out@;
            out.push(to_owned_string(self.nodes[i].0.as_str()));
            proof {
                assert forall|k: int| 0 <= k < i + 1 implies #[trigger] string_views(out@)[k]
                    == node_ids(self@)[k] by {
                    if k < i {
                        assert(string_views(prev)[k] == node_ids(self@).subrange(0, i as int)[k]);
                    }
                }
                assert(string_views(out@) =~= node_ids(self@).subrange(0, i + 1));
            }
            i = i + 1;
        }
        proof {
            assert(node_ids(self@).subrange(0, i as int) =~= node_ids(self@));
        }
        out
    }

    /// The number of known nodes.
    pub fn node_count(&self) -> (r: usize)
        ensures
            r == self@.len(),
    {
        self.nodes.len()
    }

    /// Where a node stands, if known.
    fn find(&self, node_id: &str) -> (r: Option<usize>)
        requires
            node_ids_unique(self@),
        ensures
            r is Some <==> has_node(self@, node_id@),
            r matches Some(i) ==> i == node_index(self@, node_id@) && i < self@.len(),
    {
        let mut i: usize = 0;
        while i < self.nodes.len()
            invariant
                i <= self.nodes@.len(),
                node_ids_unique(self@),
                forall|k: int| 0 <= k < i ==> #[trigger] self@[k].0 != node_id@,
            decreases self.nodes@.len() - i,
        {
            if str_equal(self.nodes[i].0.as_str(), node_id) {
                proof {
                    lemma_resources_at(self@, i as int);
                }
                return Some(i);
            }
            i = i + 1;
        }
        None
    }

    /// Adds a node with its resources; a node that is already known is
    /// refused.
    pub fn add_node(&mut self, node_id: String, available_resources: u64) -> (r: Result<
        (),
        UniversalNetworkError,
    >)
        requires
            node_ids_unique(old(self)@),
        ensures
            node_ids_unique(final(self)@),
            r is Err <==> has_node(old(self)@, node_id@),
            r is Ok ==> final(self)@ == old(self)@.push((node_id@, available_resources)),
            r matches Err(e) ==> e == UniversalNetworkError::NodeAlreadyExists && final(self)@ == old(
                self,
            )@,
    {
        if self.find(node_id.as_str()).is_some() {
            return Err(UniversalNetworkError::NodeAlreadyExists);
        }
        let ghost before = self@;
        let ghost id = node_id@;
        self.nodes.push((node_id, available_resources));
        proof {
            assert(self@ =~= before.push((id, available_resources)));
            assert forall|i: int, j: int|
                0 <= i < self@.len() && 0 <= j < self@.len() && i != j implies #[trigger] self@[i].0
                != #[trigger] self@[j].0 by {
                if i == before.len() {
                    assert(before[j].0 != id);
                } else if j == before.len() {
                    assert(before[i].0 != id);
                }
            }
        }
        Ok(())
    }

    /// Removes a node; an unknown node is refused.
    pub fn remove_node(&mut self, node_id: &str) -> (r: Result<(), UniversalNetworkError>)
        requires
            node_ids_unique(old(self)@),
        ensures
            node_ids_unique(final(self)@),
            r is Err <==> !has_node(old(self)@, node_id@),
            r is Ok ==> final(self)@ == old(self)@.remove(node_index(old(self)@, node_id@)),
            r matches Err(e) ==> e == UniversalNetworkError::NodeNotFound && final(self)@ == old(
                self,
            )@,
    {
        match self.find(node_id) {
            None => Err(UniversalNetworkError::NodeNotFound),
            Some(i) => {
                let ghost before = self@;
                let _gone = self.nodes.remove(i);
                proof {
                    assert(self@ =~= before.remove(i as int));
                    assert forall|a: int, b: int|
                        0 <= a < self@.len() && 0 <= b < self@.len() && a != b implies #[trigger] self@[a].0
                        != #[trigger] self@[b].0 by {
                        let x = if a < i { a } else { a + 1 };
                        let y = if b < i { b } else { b + 1 };
                        assert(before[x].0 != before[y].0);
                    }
                }
                Ok(())
            },
        }
    }

    /// Whether the node is known.
    pub fn contains_node(&self, node_id: &str) -> (r: bool)
        requires
            node_ids_unique(self@),
        ensures
            r == has_node(self@, node_id@),
    {
        self.find(node_id).is_some()
    }

    /// The resources a node offers, if it is known.
    pub fn get_node_resources(&self, node_id: &str) -> (r: Option<u64>)
        requires
            node_ids_unique(self@),
        ensures
            r == resources_of(self@, node_id@),
    {
        match self.find(node_id) {
            None => None,
            Some(i) => Some(self.nodes[i].1),
        }
    }

    /// Sets the resources of a known node; an unknown node is refused.
    pub fn update_node_resources(&mut self, node_id: &str, resources: u64) -> (r: Result<
        (),
        UniversalNetworkError,
    >)
        requires
            node_ids_unique(old(self)@),
        ensures
            node_ids_unique(final(self)@),
            r is Err <==> !has_node(old(self)@, node_id@),
            r is Ok ==> final(self)@ == old(self)@.update(
                node_index(old(self)@, node_id@),
                (node_id@, resources),
            ),
            r matches Err(e) ==> e == UniversalNetworkError::NodeNotFound && final(self)@ == old(
                self,
            )@,
    {
        match self.find(node_id) {
            None => Err(UniversalNetworkError::NodeNotFound),
            Some(i) => {
                let ghost before = self@;
                self.nodes[i] = (to_owned_string(node_id), resources);
                proof {
                    assert(self@ =~= before.update(i as int, (node_id@, resources)));
                    assert forall|a: int, b: int|
                        0 <= a < self@.len() && 0 <= b < self@.len() && a != b implies #[trigger] self@[a].0
                        != #[trigger] self@[b].0 by {
                        assert(before[a].0 != before[b].0);
                    }
                }
                Ok(())
            },
        }
    }

    /// The ids of the nodes that offer at least `required_resources`, in
    /// the order they joined.
    pub fn find_nodes_with_sufficient_resources(&self, required_resources: u64) -> (r: Vec<String>)
        ensures
            string_views(r@) == ids_with_at_least(self@, required_resources),
            node_ids_unique(self@) ==> string_views(r@).no_duplicates(),
            node_ids_unique(self@) ==> forall|id: Seq<char>|
                #[trigger] string_views(r@).contains(id) <==> (has_node(self@, id) && resources_of(
                    self@,
                    id,
                )->0 >= required_resources),
    {
        let mut out: Vec<String> = Vec::new();
        let mut i: usize = 0;
        while i < self.nodes.len()
            invariant
                i <= self.nodes@.len(),
                string_views(out@) == ids_with_at_least(self@.subrange(0, i as int), required_resources),
            decreases self.nodes@.len() - i,
        {
            let ghost prev = out@;
            proof {
                assert(self@.subrange(0, i + 1).drop_last() =~= self@.subrange(0, i as int));
            }
            if self.nodes[i].1 >= required_resources {
                out.push(to_owned_string(self.nodes[i].0.as_str()));
                proof {
                    assert(string_views(out@) =~= string_views(prev).push(self@[i as int].0));
                }
            }
            i = i + 1;
        }
        proof {
            assert(self@.subrange(0, i as int) =~= self@);
            if node_ids_unique(self@) {
                law_sufficient_nodes_exact(self@, required_resources, Seq::<char>::empty());
                assert forall|id: Seq<char>|
                    #[trigger] string_views(out@).contains(id) <==> (has_node(self@, id)
                        && resources_of(self@, id)->0 >= required_resources) by {
                    law_sufficient_nodes_exact(self@, required_resources, id);
                }
            }
        }
        out
    }

    /// The sum of the resources of all nodes. The sum must fit in a `u64`.
    pub fn total_available_resources(&self) -> (r: u64)
        requires
            resources_sum(self@) <= u64::MAX,
        ensures
            r == resources_sum(self@),
    {
        let mut total: u64 = 0;
        let mut i: usize = 0;
        while i < self.nodes.len()
            invariant
                i <= self.nodes@.len(),
                resources_sum(self@) <= u64::MAX,
                total == resources_sum(self@.subrange(0, i as int)),
            decreases self.nodes@.len() - i,
        {
            proof {
                assert(self@.subrange(0, i + 1).drop_last() =~= self@.subrange(0, i as int));
                lemma_sum_prefix(self@, i + 1);
            }
            total = total + self.nodes[i].1;
            i = i + 1;
        }
        proof {
            assert(self@.subrange(0, i as int) =~= self@);
        }
        total
    }

    /// The ids of the nodes that no content network lists, in the order
    /// they joined. Each entry of `assigned_content_networks` is a content
    /// id with the ids of its member nodes.
    pub fn get_unassigned_nodes(&self, assigned_content_networks: &Vec<(String, Vec<String>)>) -> (r:
        Vec<String>)
        ensures
            string_views(r@) == unassigned_ids(self@, assignment_views(assigned_content_networks@)),
            forall|id: Seq<char>|
                #[trigger] string_views(r@).contains(id) <==> (has_node(self@, id)
                    && !assigned_anywhere(assignment_views(assigned_content_networks@), id)),
            node_ids_unique(self@) ==> string_views(r@).no_duplicates(),
    {
        let ghost a = assignment_views(assigned_content_networks@);
        let mut out: Vec<String> = Vec::new();
        let mut i: usize = 0;
        while i < self.nodes.len()
            invariant
                i <= self.nodes@.len(),
                a == assignment_views(assigned_content_networks@),
                string_views(out@) == unassigned_ids(self@.subrange(0, i as int), a),
            decreases self.nodes@.len() - i,
        {
            let ghost prev = out@;
            proof {
                assert(self@.subrange(0, i + 1).drop_last() =~= self@.subrange(0, i as int));
            }
            let id = self.nodes[i].0.as_str();
            if !is_assigned(assigned_content_networks, id) {
                out.push(to_owned_string(id));
                proof {
                    assert(string_views(out@) =~= string_views(prev).push(self@[i as int].0));
                }
            }
            i = i + 1;
        }
        proof {
            assert(self@.subrange(0, i as int) =~= self@);
            law_unassigned_exact(self@, a, Seq::<char>::empty());
            assert forall|id: Seq<char>|
                #[trigger] string_views(out@).contains(id) <==> (has_node(self@, id)
                    && !assigned_anywhere(a, id)) by {
                law_unassigned_exact(self@, a, id);
            }
        }
        out
    }
}

/// Whether some content network lists the node.
fn is_assigned(assigned: &Vec<(String, Vec<String>)>, id: &str) -> (r: bool)
    ensures
        r == assigned_anywhere(assignment_views(assigned@), id@),
{
    let ghost a = assignment_views(assigned@);
    let mut i: usize = 0;
    while i < assigned.len()
        invariant
            i <= assigned@.len(),
            a == assignment_views(assigned@),
            forall|k: int| 0 <= k < i ==> !(#[trigger] a[k]).1.contains(id@),
        decreases assigned@.len() - i,
    {
        let members = &assigned[i].1;
        proof {
            assert(a[i as int].1 == string_views(members@));
        }
        let mut j: usize = 0;
        while j < members.len()
            invariant
                i < assigned@.len(),
                members@ == assigned@[i as int].1@,
                a == assignment_views(assigned@),
                a[i as int].1 == string_views(members@),
                j <= members@.len(),
                forall|k: int| 0 <= k < j ==> #[trigger] members@[k]@ != id@,
            decreases members@.len() - j,
        {
            if str_equal(members[j].as_str(), id) {
                proof {
                    assert(a[i as int].1[j as int] == id@);
                    assert(a[i as int].1.contains(id@));
                }
                return true;
            }
            j = j + 1;
        }
        proof {
            assert(!a[i as int].1.contains(id@)) by {
                if a[i as int].1.contains(id@) {
                    let k = choose|k: int| 0 <= k < a[i as int].1.len() && a[i as int].1[k] == id@;
                    assert(members@[k]@ == id@);
                }
            }
        }
        i = i + 1;
    }
    false
}

/// A prefix never sums to more than the whole.
pub proof fn lemma_sum_prefix(e: Seq<(Seq<char>, u64)>, i: int)
    requires
        0 <= i <= e.len(),
    ensures
        resources_sum(e.subrange(0, i)) <= resources_sum(e),
    decreases e.len(),
{
    if i < e.len() {
        lemma_sum_prefix(e.drop_last(), i);
        assert(e.drop_last().subrange(0, i) =~= e.subrange(0, i));
    } else {
        assert(e.subrange(0, i) =~= e);
    }
}

/// A node listed as having enough resources is exactly a known node whose
/// resources reach the requirement; none is listed twice.
pub proof fn law_sufficient_nodes_exact(e: Seq<(Seq<char>, u64)>, required: u64, id: Seq<char>)
    requires
        node_ids_unique(e),
    ensures
        ids_with_at_least(e, required).contains(id) <==> (has_node(e, id) && resources_of(e, id)->0
            >= required),
        ids_with_at_least(e, required).no_duplicates(),
    decreases e.len(),
{
    if e.len() > 0 {
        let d = e.drop_last();
        assert(node_ids_unique(d)) by {
            assert forall|i: int, j: int|
                0 <= i < d.len() && 0 <= j < d.len() && i != j implies #[trigger] d[i].0
                != #[trigger] d[j].0 by {
                assert(e[i].0 != e[j].0);
            }
        }
        law_sufficient_nodes_exact(d, required, id);
        law_sufficient_nodes_exact(d, required, e.last().0);
        let rest = ids_with_at_least(d, required);
        let last = e.len() - 1;
        assert(!has_node(d, e.last().0)) by {
            if has_node(d, e.last().0) {
                let k = node_index(d, e.last().0);
                assert(e[k].0 == e[last].0);
            }
        }
        if e.last().1 >= required {
            lemma_push_keeps_distinct(rest, e.last().0);
        }
        let last = e.len() - 1;
        if has_node(d, id) {
            let k = node_index(d, id);
            lemma_resources_at(d, k);
            lemma_resources_at(e, k);
            assert(e[last].0 != id);
        }
        if e.last().0 == id {
            lemma_resources_at(e, last);
            assert(!has_node(d, id)) by {
                if has_node(d, id) {
                    let k = node_index(d, id);
                    assert(e[k].0 == e[last].0);
                }
            }
        } else if has_node(e, id) {
            let k = node_index(e, id);
            assert(d[k].0 == id);
        }
    } else {
        assert(ids_with_at_least(e, required) =~= Seq::<Seq<char>>::empty());
    }
}

/// Pushing a value that a duplicate-free sequence does not hold keeps it
/// duplicate-free.
proof fn lemma_push_keeps_distinct(s: Seq<Seq<char>>, x: Seq<char>)
    requires
        s.no_duplicates(),
        !s.contains(x),
    ensures
        s.push(x).no_duplicates(),
{
    let t = s.push(x);
    assert forall|i: int, j: int| 0 <= i < t.len() && 0 <= j < t.len() && i != j implies t[i]
        != t[j] by {
        if i == s.len() {
            assert(s[j] == t[j]);
        } else if j == s.len() {
            assert(s[i] == t[i]);
        }
    }
}

/// A node is listed as unassigned exactly when it is known and no content
/// network lists it; with unique node ids, none is listed twice.
pub proof fn law_unassigned_exact(
    e: Seq<(Seq<char>, u64)>,
    a: Seq<(Seq<char>, Seq<Seq<char>>)>,
    id: Seq<char>,
)
    ensures
        unassigned_ids(e, a).contains(id) <==> (has_node(e, id) && !assigned_anywhere(a, id)),
        node_ids_unique(e) ==> unassigned_ids(e, a).no_duplicates(),
    decreases e.len(),
{
    if e.len() > 0 {
        let d = e.drop_last();
        law_unassigned_exact(d, a, id);
        law_unassigned_exact(d, a, e.last().0);
        if node_ids_unique(e) {
            assert(node_ids_unique(d)) by {
                assert forall|i: int, j: int|
                    0 <= i < d.len() && 0 <= j < d.len() && i != j implies #[trigger] d[i].0
                    != #[trigger] d[j].0 by {
                    assert(e[i].0 != e[j].0);
                }
            }
            let last = e.len() - 1;
            assert(!has_node(d, e.last().0)) by {
                if has_node(d, e.last().0) {
                    let k = choose|k: int| 0 <= k < d.len() && #[trigger] d[k].0 == e.last().0;
                    assert(e[k].0 == e[last].0);
                }
            }
            if !assigned_anywhere(a, e.last().0) {
                lemma_push_keeps_distinct(unassigned_ids(d, a), e.last().0);
            }
        }
        if has_node(d, id) {
            let k = choose|k: int| 0 <= k < d.len() && #[trigger] d[k].0 == id;
            assert(e[k].0 == id);
        }
        if has_node(e, id) && e.last().0 != id {
            let k = choose|k: int| 0 <= k < e.len() && #[trigger] e[k].0 == id;
            assert(d[k].0 == id);
        }
        if e.last().0 == id {
            assert(e[e.len() - 1].0 == id);
        }
    } else {
        assert(unassigned_ids(e, a) =~= Seq::<Seq<char>>::empty());
    }
}

/// Adding a node that was not known and then removing it gives back the
/// network as it was.
pub proof fn law_add_then_remove_restores(e: Seq<(Seq<char>, u64)>, id: Seq<char>, resources: u64)
    requires
        node_ids_unique(e),
        !has_node(e, id),
    ensures
        e.push((id, resources)).remove(node_index(e.push((id, resources)), id)) == e,
{
    let f = e.push((id, resources));
    assert(f[e.len() as int].0 == id);
    let k = node_index(f, id);
    if k < e.len() {
        assert(e[k].0 == id);
    }
    assert(f.remove(k) =~= e);
}

} // verus!
