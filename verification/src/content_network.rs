//! Content networks: the nodes that hold one content, each with its P-256
//! public key. Members are kept in node-id order, with one key per node.
use crate::crypto::{p256_sec1_public_key_accepted, parse_public_key};
use crate::events::{current_timestamp, Event};
use crate::text::{
    chars_le, chars_lt, concat, decimal_chars, decimal_string, lemma_chars_lt_transitive,
    lemma_chars_reflexive, lemma_chars_total, str_le, string_views, to_owned_string,
};
use crate::value_objects::{ContentId, NodeId, ValueError};
use vstd::prelude::*;

verus! {

broadcast use vstd::seq_lib::group_seq_properties;

/// The length of an uncompressed SEC1 P-256 public key.
pub const PUBLIC_KEY_LEN: usize = 65;

/// A public key that a member may hold: 65 bytes that `p256` accepts as a
/// point of the curve.
pub open spec fn valid_public_key(k: Seq<u8>) -> bool {
    k.len() == PUBLIC_KEY_LEN && p256_sec1_public_key_accepted(k)
}

/// The message of the error for a key of the wrong length.
pub open spec fn key_length_message(len: nat) -> Seq<char> {
    "Expected 65 bytes (P-256 uncompressed), got "@ + decimal_chars(len)
}

/// Node ids strictly ascending along the entries (so none occurs twice).
pub open spec fn sorted_ids(e: Seq<(Seq<char>, Seq<u8>)>) -> bool {
    forall|i: int, j: int| 0 <= i < j < e.len() ==> chars_lt(#[trigger] e[i].0, #[trigger] e[j].0)
}

/// Whether some entry has the node id.
pub open spec fn has_id(e: Seq<(Seq<char>, Seq<u8>)>, id: Seq<char>) -> bool {
    exists|i: int| 0 <= i < e.len() && #[trigger] e[i].0 == id
}

/// The key that the entries hold for the node id, if any.
pub open spec fn lookup(e: Seq<(Seq<char>, Seq<u8>)>, id: Seq<char>) -> Option<Seq<u8>> {
    if has_id(e, id) {
        Some(e[choose|i: int| 0 <= i < e.len() && #[trigger] e[i].0 == id].1)
    } else {
        None
    }
}

/// With node ids that do not repeat, the key of an entry's id is that
/// entry's key.
pub proof fn lemma_lookup_at(e: Seq<(Seq<char>, Seq<u8>)>, i: int)
    requires
        sorted_ids(e),
        0 <= i < e.len(),
    ensures
        has_id(e, e[i].0),
        lookup(e, e[i].0) == Some(e[i].1),
{
    assert(e[i].0 == e[i].0);
    let j = choose|j: int| 0 <= j < e.len() && #[trigger] e[j].0 == e[i].0;
    if j < i {
        assert(chars_lt(e[j].0, e[i].0));
    } else if j > i {
        assert(chars_lt(e[i].0, e[j].0));
    }
}

/// The views of member entries.
pub open spec fn entry_views(s: Seq<(NodeId, Vec<u8>)>) -> Seq<(Seq<char>, Seq<u8>)> {
    s.map_values(|m: (NodeId, Vec<u8>)| (m.0@, m.1@))
}

/// The views of node ids.
pub open spec fn node_id_views(s: Seq<NodeId>) -> Seq<Seq<char>> {
    s.map_values(|n: NodeId| n@)
}

/// The abstract state of a content network.
pub struct ContentNetworkView {
    pub content_id: Seq<char>,
    /// (node id, public key), in node-id order.
    pub members: Seq<(Seq<char>, Seq<u8>)>,
}

impl ContentNetworkView {
    /// The node ids, in order.
    pub open spec fn ids(self) -> Seq<Seq<char>> {
        self.members.map_values(|m: (Seq<char>, Seq<u8>)| m.0)
    }

    /// Whether the node is a member.
    pub open spec fn has(self, id: Seq<char>) -> bool {
        has_id(self.members, id)
    }

    /// The public key of a member.
    pub open spec fn key_of(self, id: Seq<char>) -> Option<Seq<u8>> {
        lookup(self.members, id)
    }

    /// Members and their keys as a map.
    pub open spec fn member_map(self) -> Map<Seq<char>, Seq<u8>> {
        Map::new(|k: Seq<char>| self.has(k), |k: Seq<char>| self.key_of(k)->0)
    }

    /// The invariants of a network: at least one member, node ids in
    /// strict order (one key per node), every key valid.
    pub open spec fn wf(self) -> bool {
        &&& self.members.len() >= 1
        &&& sorted_ids(self.members)
        &&& forall|i: int| 0 <= i < self.members.len() ==> valid_public_key(#[trigger] self.members[i].1)
    }
}

/// The set of nodes that store and manage a content, with the public key
/// of each (SEC1 uncompressed P-256, 65 bytes).
#[derive(Debug, Clone)]
pub struct ContentNetwork {
    content_id: ContentId,
    members: Vec<(NodeId, Vec<u8>)>,
}

impl View for ContentNetwork {
    type V = ContentNetworkView;

    closed spec fn view(&self) -> ContentNetworkView {
        ContentNetworkView {
            content_id: self.content_id@,
            members: entry_views(self.members@),
        }
    }
}

/// Checks a public key: its length first, then that `p256` accepts it.
fn check_public_key(key: &Vec<u8>) -> (r: Result<(), ValueError>)
    ensures
        r is Ok <==> valid_public_key(key@),
        r matches Err(e) ==> e is InvalidPublicKeyFormat,
        r matches Err(ValueError::InvalidPublicKeyFormat(m)) ==> (key@.len() != PUBLIC_KEY_LEN
            ==> m@ == key_length_message(key@.len())),
{
    if key.len() != PUBLIC_KEY_LEN {
        let n = decimal_string(key.len() as u64);
        let m = concat("Expected 65 bytes (P-256 uncompressed), got ", n.as_str());
        return Err(ValueError::InvalidPublicKeyFormat(m));
    }
    match parse_public_key(key.as_slice()) {
        Ok(()) => Ok(()),
        Err(e) => Err(ValueError::InvalidPublicKeyFormat(e)),
    }
}

impl ContentNetwork {
    /// Creates a network of one member with its public key; the key must
    /// be 65 bytes and a valid P-256 point.
    pub fn new(content_id: ContentId, initial_member: NodeId, initial_public_key: Vec<u8>) -> (r:
        Result<Self, ValueError>)
        ensures
            r is Ok <==> valid_public_key(initial_public_key@),
            r matches Ok(n) ==> n@.wf() && n@.content_id == content_id@ && n@.members == seq![
                (initial_member@, initial_public_key@),
            ],
            r matches Err(e) ==> e is InvalidPublicKeyFormat,
            r matches Err(ValueError::InvalidPublicKeyFormat(m)) ==> (initial_public_key@.len()
                != PUBLIC_KEY_LEN ==> m@ == key_length_message(initial_public_key@.len())),
    {
        match check_public_key(&initial_public_key) {
            Err(e) => Err(e),
            Ok(()) => {
                let mut members: Vec<(NodeId, Vec<u8>)> = Vec::new();
                members.push((initial_member, initial_public_key));
                let n = ContentNetwork { content_id, members };
                proof {
                    assert(n@.members =~= seq![(initial_member@, initial_public_key@)]);
                }
                Ok(n)
            },
        }
    }

    /// The content id.
    pub fn content_id(&self) -> (r: &ContentId)
        ensures
            r@ == self@.content_id,
    {
        &self.content_id
    }

    /// The member node ids, in order.
    pub fn member_nodes(&self) -> (r: Vec<NodeId>)
        ensures
            node_id_views(r@) == self@.ids(),
    {
        let mut out: Vec<NodeId> = Vec::new();
        let mut i: usize = 0;
        while i < self.members.len()
            invariant
                i <= self.members@.len(),
                out@.len() == i,
                node_id_views(out@) == self@.ids().subrange(0, i as int),
            decreases self.members@.len() - i,
        {
            proof {
                assert(self@.members[i as int] == (self.members@[i as int].0@, self.members@[i as int].1@));
                assert(self@.ids()[i as int] == self.members@[i as int].0@);
            }
            let ghost prev = out@;
            out.push(self.members[i].0.duplicate());
            proof {
                assert forall|k: int| 0 <= k < i + 1 implies #[trigger] node_id_views(out@)[k]
                    == self@.ids()[k] by {
                    if k < i {
                        assert(node_id_views(prev)[k] == self@.ids().subrange(0, i as int)[k]);
                    }
                }
                assert(node_id_views(out@) =~= self@.ids().subrange(0, i + 1));
            }
            i = i + 1;
        }
        proof {
            assert(self@.ids().subrange(0, i as int) =~= self@.ids());
        }
        out
    }

    /// The member node ids as strings, in order.
    pub fn member_nodes_as_strings(&self) -> (r: Vec<String>)
        ensures
            string_views(r@) == self@.ids(),
    {
        let mut out: Vec<String> = Vec::new();
        let mut i: usize = 0;
        while i < self.members.len()
            invariant
                i <= self.members@.len(),
                out@.len() == i,
                string_views(out@) == self@.ids().subrange(0, i as int),
            decreases self.members@.len() - i,
        {
            proof {
                assert(self@.members[i as int] == (self.members@[i as int].0@, self.members@[i as int].1@));
                assert(self@.ids()[i as int] == self.members@[i as int].0@);
            }
            let ghost prev = out@;
            out.push(to_owned_string(self.members[i].0.as_str()));
            proof {
                assert forall|k: int| 0 <= k < i + 1 implies #[trigger] string_views(out@)[k]
                    == self@.ids()[k] by {
                    if k < i {
                        assert(string_views(prev)[k] == self@.ids().subrange(0, i as int)[k]);
                    }
                }
                assert(string_views(out@) =~= self@.ids().subrange(0, i + 1));
            }
            i = i + 1;
        }
        proof {
            assert(self@.ids().subrange(0, i as int) =~= self@.ids());
        }
        out
    }

    /// Whether the node is a member.
    pub fn has_member(&self, node_id: &NodeId) -> (r: bool)
        ensures
            r == self@.has(node_id@),
    {
        self.has_member_str(node_id.as_str())
    }

    /// Whether the node, given by its id as a string, is a member.
    pub fn has_member_str(&self, node_id: &str) -> (r: bool)
        ensures
            r == self@.has(node_id@),
    {
        let mut i: usize = 0;
        while i < self.members.len()
            invariant
                i <= self.members@.len(),
                forall|k: int| 0 <= k < i ==> self@.members[k].0 != node_id@,
            decreases self.members@.len() - i,
        {
            let here = self.members[i].0.as_str();
            if crate::text::str_equal(here, node_id) {
                proof {
                    assert(self@.members[i as int].0 == node_id@);
                }
                return true;
            }
            i = i + 1;
        }
        false
    }

    /// The number of members.
    pub fn member_count(&self) -> (r: usize)
        ensures
            r == self@.members.len(),
    {
        self.members.len()
    }

    /// Finds where the node id stands or would stand in the order.
    fn locate(&self, id: &NodeId) -> (r: (usize, bool))
        requires
            sorted_ids(self@.members),
        ensures
            r.0 <= self@.members.len(),
            forall|k: int| 0 <= k < r.0 ==> chars_lt(#[trigger] self@.members[k].0, id@),
            r.0 < self@.members.len() ==> chars_le(id@, self@.members[r.0 as int].0),
            r.1 <==> self@.has(id@),
            r.1 ==> r.0 < self@.members.len() && self@.members[r.0 as int].0 == id@,
    {
        let n = self.members.len();
        let mut p: usize = 0;
        let mut stop = false;
        while !stop && p < n
            invariant
                n == self@.members.len(),
                p <= n,
                stop ==> p < n && chars_le(id@, self@.members[p as int].0),
                forall|k: int| 0 <= k < p ==> chars_lt(#[trigger] self@.members[k].0, id@),
            decreases (n - p) * 2 + (if stop { 0int } else { 1int }),
        {
            if str_le(id.as_str(), self.members[p].0.as_str()) {
                stop = true;
            } else {
                proof {
                    let x = self@.members[p as int].0;
                    lemma_chars_total(id@, x);
                    lemma_chars_reflexive(x);
                    assert forall|k: int| 0 <= k < p + 1 implies chars_lt(
                        #[trigger] self@.members[k].0,
                        id@,
                    ) by {}
                }
                p = p + 1;
            }
        }
        let found = p < n && self.members[p].0.same_as(id);
        proof {
            let m = self@.members;
            if !found {
                assert forall|k: int| 0 <= k < m.len() implies #[trigger] m[k].0 != id@ by {
                    if k < p {
                        assert(chars_lt(m[k].0, id@));
                    } else if k > p {
                        assert(chars_lt(m[p as int].0, m[k].0));
                        lemma_chars_lt_transitive(id@, m[p as int].0, m[k].0);
                    }
                }
            } else {
                assert(m[p as int].0 == id@);
            }
        }
        (p, found)
    }

    /// The public key of a member.
    pub fn get_public_key(&self, node_id: &NodeId) -> (r: Option<&[u8]>)
        requires
            self@.wf(),
        ensures
            match r {
                Some(k) => self@.key_of(node_id@) == Some(k@),
                None => self@.key_of(node_id@) is None,
            },
    {
        let (p, found) = self.locate(node_id);
        if found {
            proof {
                lemma_lookup_at(self@.members, p as int);
            }
            Some(self.members[p].1.as_slice())
        } else {
            None
        }
    }

    /// Adds a member with its public key, or replaces the key of a member;
    /// `Ok(true)` when the node was not a member before. The key is checked
    /// as in `new`; on an error nothing changes.
    pub fn add_member_with_public_key(&mut self, node_id: NodeId, public_key: Vec<u8>) -> (r:
        Result<bool, ValueError>)
        requires
            old(self)@.wf(),
        ensures
            final(self)@.wf(),
            final(self)@.content_id == old(self)@.content_id,
            r is Ok <==> valid_public_key(public_key@),
            r matches Ok(added) ==> added == !old(self)@.has(node_id@) && final(self)@.member_map()
                == old(self)@.member_map().insert(node_id@, public_key@),
            r matches Err(e) ==> e is InvalidPublicKeyFormat && final(self)@ == old(self)@,
            r matches Err(ValueError::InvalidPublicKeyFormat(m)) ==> (public_key@.len()
                != PUBLIC_KEY_LEN ==> m@ == key_length_message(public_key@.len())),
    {
        match check_public_key(&public_key) {
            Err(e) => Err(e),
            Ok(()) => {
                let ghost id = node_id@;
                let ghost key = public_key@;
                let ghost before = self@;
                let (p, found) = self.locate(&node_id);
                if found {
                    self.members[p] = (node_id, public_key);
                    proof {
                        assert(self@.members =~= before.members.update(p as int, (id, key)));
                        self.lemma_after_replace(before, p as int, id, key);
                    }
                    Ok(false)
                } else {
                    self.members.insert(p, (node_id, public_key));
                    proof {
                        assert(self@.members =~= before.members.insert(p as int, (id, key)));
                        self.lemma_after_insert(before, p as int, id, key);
                    }
                    Ok(true)
                }
            },
        }
    }

    proof fn lemma_after_replace(
        &self,
        before: ContentNetworkView,
        p: int,
        id: Seq<char>,
        key: Seq<u8>,
    )
        requires
            before.wf(),
            0 <= p < before.members.len(),
            before.members[p].0 == id,
            valid_public_key(key),
            self@.content_id == before.content_id,
            self@.members == before.members.update(p, (id, key)),
        ensures
            self@.wf(),
            self@.member_map() == before.member_map().insert(id, key),
    {
        let e = self@.members;
        let b = before.members;
        assert(sorted_ids(e)) by {
            assert forall|i: int, j: int| 0 <= i < j < e.len() implies chars_lt(
                #[trigger] e[i].0,
                #[trigger] e[j].0,
            ) by {
                assert(e[i].0 == b[i].0);
                assert(e[j].0 == b[j].0);
                assert(chars_lt(b[i].0, b[j].0));
            }
        }
        assert forall|i: int| 0 <= i < e.len() implies valid_public_key(#[trigger] e[i].1) by {
            if i != p {
                assert(valid_public_key(b[i].1));
            }
        }
        assert forall|k: Seq<char>| #[trigger] self@.has(k) == before.has(k) && (k != id
            ==> self@.key_of(k) == before.key_of(k)) by {
            if before.has(k) {
                let i = choose|i: int| 0 <= i < b.len() && #[trigger] b[i].0 == k;
                assert(e[i].0 == k);
                lemma_lookup_at(e, i);
                lemma_lookup_at(b, i);
            }
            if self@.has(k) {
                let i = choose|i: int| 0 <= i < e.len() && #[trigger] e[i].0 == k;
                assert(b[i].0 == k);
            }
        }
        lemma_lookup_at(e, p);
        assert(self@.member_map() =~= before.member_map().insert(id, key));
    }

    proof fn lemma_after_insert(
        &self,
        before: ContentNetworkView,
        p: int,
        id: Seq<char>,
        key: Seq<u8>,
    )
        requires
            before.wf(),
            0 <= p <= before.members.len(),
            forall|k: int| 0 <= k < p ==> chars_lt(#[trigger] before.members[k].0, id),
            p < before.members.len() ==> chars_le(id, before.members[p].0),
            !before.has(id),
            valid_public_key(key),
            self@.content_id == before.content_id,
            self@.members == before.members.insert(p, (id, key)),
        ensures
            self@.wf(),
            self@.member_map() == before.member_map().insert(id, key),
    {
        let e = self@.members;
        let b = before.members;
        if p < b.len() {
            assert(b[p].0 != id);
        }
        assert(sorted_ids(e)) by {
            assert forall|i: int, j: int| 0 <= i < j < e.len() implies chars_lt(
                #[trigger] e[i].0,
                #[trigger] e[j].0,
            ) by {
                if j < p {
                    assert(chars_lt(b[i].0, b[j].0));
                } else if j == p {
                    assert(chars_lt(b[i].0, id));
                } else if i < p {
                    assert(e[j].0 == b[j - 1].0);
                    if j - 1 == p {
                        lemma_chars_lt_transitive(b[i].0, id, b[p].0);
                    } else {
                        assert(chars_lt(b[p].0, b[j - 1].0));
                        lemma_chars_lt_transitive(id, b[p].0, b[j - 1].0);
                        lemma_chars_lt_transitive(b[i].0, id, b[j - 1].0);
                    }
                } else if i == p {
                    assert(e[j].0 == b[j - 1].0);
                    if j - 1 > p {
                        assert(chars_lt(b[p].0, b[j - 1].0));
                        lemma_chars_lt_transitive(id, b[p].0, b[j - 1].0);
                    }
                } else {
                    assert(chars_lt(b[i - 1].0, b[j - 1].0));
                }
            }
        }
        assert forall|i: int| 0 <= i < e.len() implies valid_public_key(#[trigger] e[i].1) by {
            if i < p {
                assert(valid_public_key(b[i].1));
            } else if i > p {
                assert(valid_public_key(b[i - 1].1));
            }
        }
        assert forall|k: Seq<char>| k != id implies #[trigger] self@.has(k) == before.has(k) && (
        self@.key_of(k) == before.key_of(k)) by {
            if before.has(k) {
                let i = choose|i: int| 0 <= i < b.len() && #[trigger] b[i].0 == k;
                let j = if i < p { i } else { i + 1 };
                assert(e[j].0 == k);
                lemma_lookup_at(e, j);
                lemma_lookup_at(b, i);
            }
            if self@.has(k) {
                let j = choose|j: int| 0 <= j < e.len() && #[trigger] e[j].0 == k;
                assert(j != p);
                let i = if j < p { j } else { j - 1 };
                assert(b[i].0 == k);
            }
        }
        lemma_lookup_at(e, p);
        assert(self@.member_map() =~= before.member_map().insert(id, key));
    }

    /// Replaces the public key of a member (key rotation). A node that is
    /// not a member is refused first; then the key is checked as in `new`.
    pub fn update_public_key(&mut self, node_id: &NodeId, new_public_key: Vec<u8>) -> (r: Result<
        (),
        ValueError,
    >)
        requires
            old(self)@.wf(),
        ensures
            final(self)@.wf(),
            final(self)@.content_id == old(self)@.content_id,
            r is Ok <==> old(self)@.has(node_id@) && valid_public_key(new_public_key@),
            r is Ok ==> final(self)@.member_map() == old(self)@.member_map().insert(
                node_id@,
                new_public_key@,
            ),
            r is Err ==> final(self)@ == old(self)@,
            r matches Err(e) ==> (!old(self)@.has(node_id@) ==> e is NodeNotMember) && (old(
                self,
            )@.has(node_id@) ==> e is InvalidPublicKeyFormat),
    {
        let ghost before = self@;
        let (p, found) = self.locate(node_id);
        if !found {
            return Err(ValueError::NodeNotMember);
        }
        match check_public_key(&new_public_key) {
            Err(e) => Err(e),
            Ok(()) => {
                let ghost key = new_public_key@;
                self.members[p] = (node_id.duplicate(), new_public_key);
                proof {
                    assert(self@.members =~= before.members.update(p as int, (node_id@, key)));
                    self.lemma_after_replace(before, p as int, node_id@, key);
                }
                Ok(())
            },
        }
    }

    /// Removes a member with its key. The last member is kept, since a
    /// network always has one; `true` when the node was removed.
    pub fn remove_member(&mut self, node_id: &NodeId) -> (r: bool)
        requires
            old(self)@.wf(),
        ensures
            final(self)@.wf(),
            final(self)@.content_id == old(self)@.content_id,
            r == (old(self)@.has(node_id@) && old(self)@.members.len() > 1),
            r ==> final(self)@.member_map() == old(self)@.member_map().remove(node_id@),
            r ==> final(self)@.members.len() == old(self)@.members.len() - 1,
            !r ==> final(self)@ == old(self)@,
    {
        let ghost before = self@;
        let (p, found) = self.locate(node_id);
        if !found || self.members.len() <= 1 {
            return false;
        }
        let _gone = self.members.remove(p);
        proof {
            let e = self@.members;
            let b = before.members;
            let id = node_id@;
            assert(e =~= b.remove(p as int));
            assert(sorted_ids(e)) by {
                assert forall|i: int, j: int| 0 <= i < j < e.len() implies chars_lt(
                    #[trigger] e[i].0,
                    #[trigger] e[j].0,
                ) by {
                    let bi = if i < p { i } else { i + 1 };
                    let bj = if j < p { j } else { j + 1 };
                    assert(chars_lt(b[bi].0, b[bj].0));
                }
            }
            assert forall|i: int| 0 <= i < e.len() implies valid_public_key(#[trigger] e[i].1) by {
                let bi = if i < p { i } else { i + 1 };
                assert(valid_public_key(b[bi].1));
            }
            assert forall|k: Seq<char>| k != id implies #[trigger] self@.has(k) == before.has(k) && (
            self@.key_of(k) == before.key_of(k)) by {
                if before.has(k) {
                    let i = choose|i: int| 0 <= i < b.len() && #[trigger] b[i].0 == k;
                    assert(i != p);
                    let j = if i < p { i } else { i - 1 };
                    assert(e[j].0 == k);
                    lemma_lookup_at(e, j);
                    lemma_lookup_at(b, i);
                }
                if self@.has(k) {
                    let j = choose|j: int| 0 <= j < e.len() && #[trigger] e[j].0 == k;
                    let i = if j < p { j } else { j + 1 };
                    assert(b[i].0 == k);
                }
            }
            assert(!self@.has(id)) by {
                if self@.has(id) {
                    let j = choose|j: int| 0 <= j < e.len() && #[trigger] e[j].0 == id;
                    let i = if j < p { j } else { j + 1 };
                    assert(b[i].0 == id);
                    assert(i != p);
                    if i < p {
                        assert(chars_lt(b[i].0, b[p as int].0));
                    } else {
                        assert(chars_lt(b[p as int].0, b[i].0));
                    }
                }
            }
            assert(self@.member_map() =~= before.member_map().remove(id));
        }
        true
    }

    /// A copy of this network.
    pub fn duplicate(&self) -> (r: ContentNetwork)
        ensures
            r@ == self@,
    {
        let mut members: Vec<(NodeId, Vec<u8>)> = Vec::new();
        let mut i: usize = 0;
        while i < self.members.len()
            invariant
                i <= self.members@.len(),
                members@.len() == i,
                entry_views(members@) == self@.members.subrange(0, i as int),
            decreases self.members@.len() - i,
        {
            let entry = (self.members[i].0.duplicate(), crate::encoding::copy_bytes(&self.members[i].1));
            let ghost prev = members@;
            members.push(entry);
            proof {
                assert forall|k: int| 0 <= k < i + 1 implies #[trigger] entry_views(members@)[k]
                    == self@.members[k] by {
                    if k < i {
                        assert(entry_views(prev)[k] == self@.members.subrange(0, i as int)[k]);
                    }
                }
                assert(entry_views(members@) =~= self@.members.subrange(0, i + 1));
            }
            i = i + 1;
        }
        proof {
            assert(self@.members.subrange(0, i as int) =~= self@.members);
        }
        ContentNetwork { content_id: self.content_id.duplicate(), members }
    }
}

/// Adds a member to a network and reports it: the updated network and one
/// `ContentNetworkManagerAdded` event that carries the content id, the
/// added node and the members after the change. The key is checked as in
/// `ContentNetwork::new`.
pub fn add_member_node(network: ContentNetwork, added_node_id: NodeId, public_key: Vec<u8>) -> (r:
    Result<(ContentNetwork, Vec<Event>), ValueError>)
    requires
        network@.wf(),
    ensures
        r is Ok <==> valid_public_key(public_key@),
        r matches Err(e) ==> e is InvalidPublicKeyFormat,
        r matches Ok((n, events)) ==> {
            &&& n@.wf()
            &&& n@.content_id == network@.content_id
            &&& n@.member_map() == network@.member_map().insert(added_node_id@, public_key@)
            &&& events@.len() == 1
            &&& events@[0] matches Event::ContentNetworkManagerAdded {
                content_id,
                added_node_id: added,
                member_nodes,
                ..
            } && content_id@ == network@.content_id && added@ == added_node_id@ && string_views(
                member_nodes@,
            ) == n@.ids()
        },
{
    let mut network = network;
    let id_text = to_owned_string(added_node_id.as_str());
    match network.add_member_with_public_key(added_node_id, public_key) {
        Err(e) => Err(e),
        Ok(_) => {
            let event = Event::ContentNetworkManagerAdded {
                content_id: to_owned_string(network.content_id().as_str()),
                added_node_id: id_text,
                member_nodes: network.member_nodes_as_strings(),
                timestamp: current_timestamp(),
            };
            let mut events: Vec<Event> = Vec::new();
            events.push(event);
            Ok((network, events))
        },
    }
}

/// Removes a member from a network and reports it: the updated network and
/// one `ContentNetworkManagerRemoved` event with the reason and the members
/// after the change. A node that is not a member, or the last member,
/// leaves the network unchanged and gives no event.
pub fn remove_member_node(network: ContentNetwork, removed_node_id: NodeId, reason: String) -> (r: (
    ContentNetwork,
    Vec<Event>,
))
    requires
        network@.wf(),
    ensures
        r.0@.wf(),
        r.0@.content_id == network@.content_id,
        (network@.has(removed_node_id@) && network@.members.len() > 1) ==> {
            &&& r.0@.member_map() == network@.member_map().remove(removed_node_id@)
            &&& r.0@.members.len() == network@.members.len() - 1
            &&& r.1@.len() == 1
            &&& r.1@[0] matches Event::ContentNetworkManagerRemoved {
                content_id,
                removed_node_id: removed,
                member_nodes,
                reason: why,
                ..
            } && content_id@ == network@.content_id && removed@ == removed_node_id@
                && string_views(member_nodes@) == r.0@.ids() && why@ == reason@
        },
        !(network@.has(removed_node_id@) && network@.members.len() > 1) ==> r.0@ == network@
            && r.1@.len() == 0,
{
    let mut network = network;
    if !network.remove_member(&removed_node_id) {
        return (network, Vec::new());
    }
    let event = Event::ContentNetworkManagerRemoved {
        content_id: to_owned_string(network.content_id().as_str()),
        removed_node_id: removed_node_id.into_inner(),
        member_nodes: network.member_nodes_as_strings(),
        reason,
        timestamp: current_timestamp(),
    };
    let mut events: Vec<Event> = Vec::new();
    events.push(event);
    (network, events)
}

/// Adding a node that was not a member and then removing it gives back
/// the members and keys that the network had.
pub proof fn law_add_then_remove_restores(before: ContentNetworkView, id: Seq<char>, key: Seq<u8>)
    requires
        !before.has(id),
    ensures
        before.member_map().insert(id, key).remove(id) == before.member_map(),
{
    assert(before.member_map().insert(id, key).remove(id) =~= before.member_map());
}

/// The key that a member map gives back for a node is the last one that
/// was added or set for it.
pub proof fn law_key_after_set(before: ContentNetworkView, after: ContentNetworkView, id: Seq<char>, key: Seq<u8>)
    requires
        after.member_map() == before.member_map().insert(id, key),
    ensures
        after.has(id),
        after.key_of(id) == Some(key),
        forall|k: Seq<char>| k != id ==> #[trigger] after.has(k) == before.has(k),
{
    assert(after.member_map().dom().contains(id));
    assert(after.member_map()[id] == key);
    assert(after.key_of(id) is Some);
    assert forall|k: Seq<char>| k != id implies #[trigger] after.has(k) == before.has(k) by {
        assert(after.member_map().dom().contains(k) == before.member_map().dom().contains(k));
    }
}

} // verus!
