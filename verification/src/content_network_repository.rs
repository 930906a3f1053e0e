//! An in-memory store of content networks, with the capacity that each
//! content needs.
use crate::content_network::{ContentNetwork, ContentNetworkView};
use crate::text::{str_equal, string_views, to_owned_string};
use vstd::prelude::*;

verus! {

broadcast use vstd::seq_lib::group_seq_properties;

/// The ids of the contents whose need fits in `capacity`, in order.
pub open spec fn assignable_cids(c: Seq<(u64, Seq<char>)>, capacity: u64) -> Seq<Seq<char>>
    decreases c.len(),
{
    if c.len() == 0 {
        Seq::empty()
    } else {
        let rest = assignable_cids(c.drop_last(), capacity);
        if c.last().0 <= capacity {
            rest.push(c.last().1)
        } else {
            rest
        }
    }
}

/// The views of (required capacity, content id) pairs.
pub open spec fn need_views(c: Seq<(u64, String)>) -> Seq<(u64, Seq<char>)> {
    c.map_values(|x: (u64, String)| (x.0, x.1@))
}

/// No content id occurs twice among the stored networks.
pub open spec fn content_ids_unique(n: Seq<ContentNetworkView>) -> bool {
    forall|i: int, j: int|
        0 <= i < n.len() && 0 <= j < n.len() && i != j ==> #[trigger] n[i].content_id
            != #[trigger] n[j].content_id
}

/// Whether a network for the content is stored.
pub open spec fn has_network(n: Seq<ContentNetworkView>, cid: Seq<char>) -> bool {
    exists|i: int| 0 <= i < n.len() && #[trigger] n[i].content_id == cid
}

/// The stored network of a content.
pub open spec fn network_of(n: Seq<ContentNetworkView>, cid: Seq<char>) -> ContentNetworkView {
    n[choose|i: int| 0 <= i < n.len() && #[trigger] n[i].content_id == cid]
}

/// The views of stored networks.
pub open spec fn network_views(s: Seq<ContentNetwork>) -> Seq<ContentNetworkView> {
    s.map_values(|x: ContentNetwork| x@)
}

proof fn lemma_network_at(n: Seq<ContentNetworkView>, i: int)
    requires
        content_ids_unique(n),
        0 <= i < n.len(),
    ensures
        has_network(n, n[i].content_id),
        network_of(n, n[i].content_id) == n[i],
{
    assert(n[i].content_id == n[i].content_id);
}

/// Content networks by content id, and the contents waiting to be
/// assigned with the capacity each needs.
#[derive(Debug, Clone)]
pub struct ContentNetworkRepositoryImpl {
    /// (required capacity, content id) of the contents that can be
    /// assigned.
    pub cids_by_required_capacity: Vec<(u64, String)>,
    networks: Vec<ContentNetwork>,
}

impl ContentNetworkRepositoryImpl {
    /// The stored networks.
    pub closed spec fn stored(&self) -> Seq<ContentNetworkView> {
        network_views(self.networks@)
    }

    /// The contents waiting to be assigned, with the capacity each needs.
    pub closed spec fn needs(&self) -> Seq<(u64, Seq<char>)> {
        need_views(self.cids_by_required_capacity@)
    }

    /// The stored networks by content id.
    pub open spec fn network_map(&self) -> Map<Seq<char>, ContentNetworkView> {
        Map::new(|k: Seq<char>| has_network(self.stored(), k), |k: Seq<char>| network_of(self.stored(), k))
    }

    /// The repository's invariant: one network per content.
    pub open spec fn wf(&self) -> bool {
        content_ids_unique(self.stored())
    }

    /// The ids of the contents whose required capacity fits in `capacity`,
    /// in the order they were listed.
    pub fn find_assignable_cids(&self, capacity: u64) -> (r: Vec<String>)
        ensures
            string_views(r@) == assignable_cids(self.needs(), capacity),
    {
        let ghost c = need_views(self.cids_by_required_capacity@);
        let mut out: Vec<String> = Vec::new();
        let mut i: usize = 0;
        while i < self.cids_by_required_capacity.len()
            invariant
                i <= self.cids_by_required_capacity@.len(),
                c == need_views(self.cids_by_required_capacity@),
                string_views(out@) == assignable_cids(c.subrange(0, i as int), capacity),
            decreases self.cids_by_required_capacity@.len() - i,
        {
            let ghost prev = out@;
            proof {
                assert(c.subrange(0, i + 1).drop_last() =~= c.subrange(0, i as int));
            }
            let need = self.cids_by_required_capacity[i].0;
            if need <= capacity {
                out.push(to_owned_string(self.cids_by_required_capacity[i].1.as_str()));
                proof {
                    assert(string_views(out@) =~= string_views(prev).push(c[i as int].1));
                }
            }
            i = i + 1;
        }
        proof {
            assert(c.subrange(0, i as int) =~= c);
        }
        out
    }

    fn find(&self, content_id: &str) -> (r: Option<usize>)
        requires
            self.wf(),
        ensures
            r is Some <==> has_network(self.stored(), content_id@),
            r matches Some(i) ==> i < self.stored().len() && self.stored()[i as int].content_id
                == content_id@,
    {
        let mut i: usize = 0;
        while i < self.networks.len()
            invariant
                i <= self.networks@.len(),
                forall|k: int| 0 <= k < i ==> #[trigger] self.stored()[k].content_id != content_id@,
            decreases self.networks@.len() - i,
        {
            if str_equal(self.networks[i].content_id().as_str(), content_id) {
                proof {
                    assert(self.stored()[i as int] == self.networks@[i as int]@);
                    assert(self.stored()[i as int].content_id == content_id@);
                }
                return Some(i);
            }
            i = i + 1;
        }
        None
    }

    /// A copy of the network stored for the content, if any.
    pub fn get_content_network(&self, content_id: &str) -> (r: Option<ContentNetwork>)
        requires
            self.wf(),
        ensures
            r is Some <==> self.network_map().contains_key(content_id@),
            r matches Some(n) ==> n@ == self.network_map()[content_id@],
    {
        match self.find(content_id) {
            None => None,
            Some(i) => {
                proof {
                    lemma_network_at(self.stored(), i as int);
                }
                Some(self.networks[i].duplicate())
            },
        }
    }

    /// Stores a network under its content id, replacing the one stored
    /// for that content before.
    pub fn save_content_network(&mut self, net: ContentNetwork)
        requires
            old(self).wf(),
        ensures
            final(self).wf(),
            final(self).network_map() == old(self).network_map().insert(net@.content_id, net@),
            final(self).needs() == old(self).needs(),
    {
        let ghost before = self.stored();
        let ghost v = net@;
        let ghost cid = net@.content_id;
        match self.find(net.content_id().as_str()) {
            Some(i) => {
                self.networks[i] = net;
                proof {
                    let after = self.stored();
                    assert(after =~= before.update(i as int, v));
                    assert forall|a: int, b: int|
                        0 <= a < after.len() && 0 <= b < after.len() && a != b implies #[trigger] after[a].content_id
                        != #[trigger] after[b].content_id by {
                        assert(before[a].content_id != before[b].content_id);
                    }
                    assert forall|k: Seq<char>| k != cid implies #[trigger] has_network(after, k)
                        == has_network(before, k) && (has_network(before, k) ==> network_of(after, k)
                        == network_of(before, k)) by {
                        if has_network(before, k) {
                            let j = choose|j: int| 0 <= j < before.len() && #[trigger] before[j].content_id == k;
                            assert(after[j].content_id == k);
                            lemma_network_at(before, j);
                            lemma_network_at(after, j);
                        }
                        if has_network(after, k) {
                            let j = choose|j: int| 0 <= j < after.len() && #[trigger] after[j].content_id == k;
                            assert(before[j].content_id == k);
                        }
                    }
                    lemma_network_at(after, i as int);
                    assert(self.network_map() =~= old(self).network_map().insert(cid, v));
                }
            },
            None => {
                self.networks.push(net);
                proof {
                    let after = self.stored();
                    assert(after =~= before.push(v));
                    assert forall|a: int, b: int|
                        0 <= a < after.len() && 0 <= b < after.len() && a != b implies #[trigger] after[a].content_id
                        != #[trigger] after[b].content_id by {
                        if a == before.len() {
                            assert(before[b].content_id != cid);
                        } else if b == before.len() {
                            assert(before[a].content_id != cid);
                        }
                    }
                    assert forall|k: Seq<char>| k != cid implies #[trigger] has_network(after, k)
                        == has_network(before, k) && (has_network(before, k) ==> network_of(after, k)
                        == network_of(before, k)) by {
                        if has_network(before, k) {
                            let j = choose|j: int| 0 <= j < before.len() && #[trigger] before[j].content_id == k;
                            assert(after[j].content_id == k);
                            lemma_network_at(before, j);
                            lemma_network_at(after, j);
                        }
                        if has_network(after, k) {
                            let j = choose|j: int| 0 <= j < after.len() && #[trigger] after[j].content_id == k;
                            assert(j != before.len());
                            assert(before[j].content_id == k);
                        }
                    }
                    lemma_network_at(after, before.len() as int);
                    assert(self.network_map() =~= old(self).network_map().insert(cid, v));
                }
            },
        }
    }
}

impl Default for ContentNetworkRepositoryImpl {
    fn default() -> (r: Self)
        ensures
            r.wf(),
            r.needs().len() == 0,
            r.network_map() == Map::<Seq<char>, ContentNetworkView>::empty(),
    {
        let r = ContentNetworkRepositoryImpl { cids_by_required_capacity: Vec::new(), networks: Vec::new() };
        proof {
            assert(r.network_map() =~= Map::<Seq<char>, ContentNetworkView>::empty());
        }
        r
    }
}

/// A saved network is what a later read of its content gives back.
pub proof fn law_read_after_save(
    before: Map<Seq<char>, ContentNetworkView>,
    after: Map<Seq<char>, ContentNetworkView>,
    net: ContentNetworkView,
)
    requires
        after == before.insert(net.content_id, net),
    ensures
        after.contains_key(net.content_id),
        after[net.content_id] == net,
        forall|k: Seq<char>| k != net.content_id ==> #[trigger] after.contains_key(k)
            == before.contains_key(k),
{
}

/// `a` is a subsequence of `b`: its elements occur in `b` in the same
/// order (read from the end, each matched as late as possible).
pub open spec fn is_subsequence(a: Seq<Seq<char>>, b: Seq<Seq<char>>) -> bool
    decreases b.len(),
{
    if a.len() == 0 {
        true
    } else if b.len() == 0 {
        false
    } else if a.last() == b.last() {
        is_subsequence(a.drop_last(), b.drop_last())
    } else {
        is_subsequence(a, b.drop_last())
    }
}

/// Dropping the last element of a subsequence leaves a subsequence.
proof fn lemma_subsequence_drop_last(a: Seq<Seq<char>>, b: Seq<Seq<char>>)
    requires
        a.len() > 0,
        is_subsequence(a, b),
    ensures
        is_subsequence(a.drop_last(), b),
    decreases b.len(),
{
    if b.len() > 0 {
        let ad = a.drop_last();
        if a.last() == b.last() {
            if ad.len() > 0 && ad.last() == b.last() {
                lemma_subsequence_drop_last(ad, b.drop_last());
            }
        } else {
            lemma_subsequence_drop_last(a, b.drop_last());
            if ad.len() > 0 && ad.last() == b.last() {
                lemma_subsequence_drop_last(ad, b.drop_last());
            }
        }
    }
}

/// A subsequence stays one when an element is appended to the longer
/// sequence.
proof fn lemma_subsequence_push(a: Seq<Seq<char>>, b: Seq<Seq<char>>, x: Seq<char>)
    requires
        is_subsequence(a, b),
    ensures
        is_subsequence(a, b.push(x)),
{
    assert(b.push(x).drop_last() =~= b);
    if a.len() > 0 && a.last() == x {
        lemma_subsequence_drop_last(a, b);
    }
}

/// More capacity never loses an assignable content: what fits in `c1`
/// fits in any `c2 >= c1`, in the same order.
pub proof fn law_assignable_grows_with_capacity(c: Seq<(u64, Seq<char>)>, c1: u64, c2: u64)
    requires
        c1 <= c2,
    ensures
        is_subsequence(assignable_cids(c, c1), assignable_cids(c, c2)),
    decreases c.len(),
{
    if c.len() > 0 {
        let d = c.drop_last();
        law_assignable_grows_with_capacity(d, c1, c2);
        let r1 = assignable_cids(d, c1);
        let r2 = assignable_cids(d, c2);
        let x = c.last().1;
        if c.last().0 <= c1 {
            assert(r1.push(x).drop_last() =~= r1);
            assert(r2.push(x).drop_last() =~= r2);
        } else if c.last().0 <= c2 {
            lemma_subsequence_push(r1, r2, x);
        }
    }
}

} // verus!
