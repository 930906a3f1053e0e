//! Value objects: content and node identifiers that are never empty, and a
//! set that always holds at least one element.
use crate::text::{chars_lt, lemma_chars_lt_transitive, lemma_chars_total, str_equal, str_le};
use vstd::prelude::*;

verus! {

broadcast use {vstd::seq_lib::group_seq_properties, vstd::set::group_set_axioms};

/// Content identifier (CID); never empty.
#[derive(Debug, Clone, PartialEq, Eq, Hash)]
pub struct ContentId(String);

/// Node identifier; never empty.
#[derive(Debug, Clone, PartialEq, Eq, Hash, PartialOrd, Ord)]
pub struct NodeId(String);

/// Errors of the value objects.
#[derive(Debug, Clone, PartialEq, Eq)]
pub enum ValueError {
    EmptyContentId,
    EmptyNodeId,
    InvalidCidFormat(String),
    InvalidNodeIdFormat(String),
    EmptyMemberNodes,
    InvalidPublicKeyFormat(String),
    NodeNotMember,
}

impl View for ContentId {
    type V = Seq<char>;

    closed spec fn view(&self) -> Seq<char> {
        self.0@
    }
}

impl View for NodeId {
    type V = Seq<char>;

    closed spec fn view(&self) -> Seq<char> {
        self.0@
    }
}

impl ContentId {
    /// Creates a content identifier; an empty one is refused.
    pub fn new(cid: String) -> (r: Result<Self, ValueError>)
        ensures
            r is Err <==> cid@.len() == 0,
            r matches Ok(c) ==> c@ == cid@,
            r matches Err(e) ==> e == ValueError::EmptyContentId,
    {
        if cid.as_str().is_empty() {
            return Err(ValueError::EmptyContentId);
        }
        Ok(ContentId(cid))
    }

    /// The identifier as a string slice.
    pub fn as_str(&self) -> (r: &str)
        ensures
            r@ == self@,
    {
        self.0.as_str()
    }

    /// The identifier as an owned string.
    pub fn into_inner(self) -> (r: String)
        ensures
            r@ == self@,
    {
        self.0
    }

    /// The identifier as an owned string.
    pub fn to_text(&self) -> (r: String)
        ensures
            r@ == self@,
    {
        self.0.clone()
    }

    /// A copy of this identifier.
    pub fn duplicate(&self) -> (r: ContentId)
        ensures
            r@ == self@,
    {
        ContentId(self.0.clone())
    }
}

impl NodeId {
    /// Creates a node identifier; an empty one is refused.
    pub fn new(id: String) -> (r: Result<Self, ValueError>)
        ensures
            r is Err <==> id@.len() == 0,
            r matches Ok(n) ==> n@ == id@,
            r matches Err(e) ==> e == ValueError::EmptyNodeId,
    {
        if id.as_str().is_empty() {
            return Err(ValueError::EmptyNodeId);
        }
        Ok(NodeId(id))
    }

    /// The identifier as a string slice.
    pub fn as_str(&self) -> (r: &str)
        ensures
            r@ == self@,
    {
        self.0.as_str()
    }

    /// The identifier as an owned string.
    pub fn into_inner(self) -> (r: String)
        ensures
            r@ == self@,
    {
        self.0
    }

    /// The identifier as an owned string.
    pub fn to_text(&self) -> (r: String)
        ensures
            r@ == self@,
    {
        self.0.clone()
    }

    /// A copy of this identifier.
    pub fn duplicate(&self) -> (r: NodeId)
        ensures
            r@ == self@,
    {
        NodeId(self.0.clone())
    }

    /// Whether two identifiers are equal.
    pub fn same_as(&self, other: &NodeId) -> (r: bool)
        ensures
            r == (self@ == other@),
    {
        self.0 == other.0
    }
}

/// Elements that a [`NonEmptySet`] can hold: they can be compared by their
/// view, ordered as their `Ord` orders them, and copied.
pub trait SetElement: View + Sized {
    /// Strictly before, in the order of the elements' `Ord`, by view.
    spec fn view_lt(a: Self::V, b: Self::V) -> bool;

    /// The order is a strict total order on views.
    proof fn lemma_view_order(a: Self::V, b: Self::V, c: Self::V)
        ensures
            !Self::view_lt(a, a),
            Self::view_lt(a, b) && Self::view_lt(b, c) ==> Self::view_lt(a, c),
            a != b ==> Self::view_lt(a, b) || Self::view_lt(b, a),
    ;

    /// Whether two elements have the same view.
    fn same_element(&self, other: &Self) -> (r: bool)
        ensures
            r == (self@ == other@),
    ;

    /// Whether this element comes strictly before `other`.
    fn precedes(&self, other: &Self) -> (r: bool)
        ensures
            r == Self::view_lt(self@, other@),
    ;

    /// An exact copy of the element.
    fn copy_element(&self) -> (r: Self)
        ensures
            r == *self,
    ;
}

/// The strict string order is a strict total order.
proof fn lemma_chars_order(a: Seq<char>, b: Seq<char>, c: Seq<char>)
    ensures
        !chars_lt(a, a),
        chars_lt(a, b) && chars_lt(b, c) ==> chars_lt(a, c),
        a != b ==> chars_lt(a, b) || chars_lt(b, a),
{
    if chars_lt(a, b) && chars_lt(b, c) {
        lemma_chars_lt_transitive(a, b, c);
    }
    lemma_chars_total(a, b);
}

impl SetElement for String {
    open spec fn view_lt(a: Seq<char>, b: Seq<char>) -> bool {
        chars_lt(a, b)
    }

    proof fn lemma_view_order(a: Seq<char>, b: Seq<char>, c: Seq<char>) {
        lemma_chars_order(a, b, c);
    }

    fn same_element(&self, other: &Self) -> (r: bool) {
        *self == *other
    }

    fn precedes(&self, other: &Self) -> (r: bool) {
        str_le(self.as_str(), other.as_str()) && !str_equal(self.as_str(), other.as_str())
    }

    fn copy_element(&self) -> (r: Self) {
        self.clone()
    }
}

impl<'a> SetElement for &'a str {
    open spec fn view_lt(a: Seq<char>, b: Seq<char>) -> bool {
        chars_lt(a, b)
    }

    proof fn lemma_view_order(a: Seq<char>, b: Seq<char>, c: Seq<char>) {
        lemma_chars_order(a, b, c);
    }

    fn same_element(&self, other: &Self) -> (r: bool) {
        str_equal(*self, *other)
    }

    fn precedes(&self, other: &Self) -> (r: bool) {
        str_le(*self, *other) && !str_equal(*self, *other)
    }

    fn copy_element(&self) -> (r: Self) {
        *self
    }
}

impl SetElement for i32 {
    open spec fn view_lt(a: i32, b: i32) -> bool {
        a < b
    }

    proof fn lemma_view_order(a: i32, b: i32, c: i32) {
    }

    fn same_element(&self, other: &Self) -> (r: bool) {
        *self == *other
    }

    fn precedes(&self, other: &Self) -> (r: bool) {
        *self < *other
    }

    fn copy_element(&self) -> (r: Self) {
        *self
    }
}

impl SetElement for i64 {
    open spec fn view_lt(a: i64, b: i64) -> bool {
        a < b
    }

    proof fn lemma_view_order(a: i64, b: i64, c: i64) {
    }

    fn same_element(&self, other: &Self) -> (r: bool) {
        *self == *other
    }

    fn precedes(&self, other: &Self) -> (r: bool) {
        *self < *other
    }

    fn copy_element(&self) -> (r: Self) {
        *self
    }
}

impl SetElement for u64 {
    open spec fn view_lt(a: u64, b: u64) -> bool {
        a < b
    }

    proof fn lemma_view_order(a: u64, b: u64, c: u64) {
    }

    fn same_element(&self, other: &Self) -> (r: bool) {
        *self == *other
    }

    fn precedes(&self, other: &Self) -> (r: bool) {
        *self < *other
    }

    fn copy_element(&self) -> (r: Self) {
        *self
    }
}

impl SetElement for NodeId {
    open spec fn view_lt(a: Seq<char>, b: Seq<char>) -> bool {
        chars_lt(a, b)
    }

    proof fn lemma_view_order(a: Seq<char>, b: Seq<char>, c: Seq<char>) {
        lemma_chars_order(a, b, c);
    }

    fn same_element(&self, other: &Self) -> (r: bool) {
        self.same_as(other)
    }

    fn precedes(&self, other: &Self) -> (r: bool) {
        str_le(self.0.as_str(), other.0.as_str()) && !str_equal(self.0.as_str(), other.0.as_str())
    }

    fn copy_element(&self) -> (r: Self) {
        NodeId(self.0.clone())
    }
}

/// The views of a sequence of elements.
pub open spec fn views_of<T: View>(s: Seq<T>) -> Seq<T::V> {
    s.map_values(|e: T| e@)
}

/// Removing one position of a duplicate-free sequence keeps it free of
/// duplicates and removes exactly that element from its set.
pub proof fn lemma_remove_from_unique<A>(s: Seq<A>, i: int)
    requires
        s.no_duplicates(),
        0 <= i < s.len(),
    ensures
        s.remove(i).no_duplicates(),
        s.remove(i).to_set() =~= s.to_set().remove(s[i]),
        s.remove(i).len() == s.len() - 1,
{
    s.remove_ensures(i);
    let r = s.remove(i);
    assert forall|a: int, b: int| 0 <= a < r.len() && 0 <= b < r.len() && a != b implies r[a]
        != r[b] by {
        let sa = if a < i { a } else { a + 1 };
        let sb = if b < i { b } else { b + 1 };
        assert(r[a] == s[sa]);
        assert(r[b] == s[sb]);
    }
    assert forall|x: A| r.to_set().contains(x) <==> s.to_set().remove(s[i]).contains(x) by {
        if r.contains(x) {
            let k = choose|k: int| 0 <= k < r.len() && r[k] == x;
            let sk = if k < i { k } else { k + 1 };
            assert(s[sk] == x);
        }
        if s.contains(x) && x != s[i] {
            let k = choose|k: int| 0 <= k < s.len() && s[k] == x;
            assert(k != i);
            let rk = if k < i { k } else { k - 1 };
            assert(r[rk] == x);
        }
    }
}

/// Mapping commutes with removing a position.
pub proof fn lemma_views_remove<T: View>(s: Seq<T>, i: int)
    requires
        0 <= i < s.len(),
    ensures
        views_of(s.remove(i)) =~= views_of(s).remove(i),
{
    s.remove_ensures(i);
    views_of(s).remove_ensures(i);
}

/// Inserting a view that a set does not hold and removing it again leaves
/// the set as it was (the contracts of `NonEmptySet::insert` and
/// `NonEmptySet::remove` speak of these sets).
pub proof fn law_insert_then_remove_restores<V>(s: Set<V>, v: V)
    requires
        !s.contains(v),
    ensures
        s.insert(v).remove(v) == s,
{
    assert(s.insert(v).remove(v) =~= s);
}

/// Non-empty set of values.
///
/// Always holds at least one element; no two elements have the same view.
/// The first element is kept apart; the others are kept in ascending
/// order.
#[derive(Debug, Clone)]
pub struct NonEmptySet<T> {
    elems: Vec<T>,
}

impl<T: SetElement> NonEmptySet<T> {
    /// The elements in their stored order.
    pub closed spec fn elements(&self) -> Seq<T> {
        self.elems@
    }

    /// The views of the elements in their stored order.
    pub open spec fn element_views(&self) -> Seq<T::V> {
        views_of(self.elements())
    }

    /// The set of the elements' views.
    pub open spec fn view_set(&self) -> Set<T::V> {
        self.element_views().to_set()
    }

    /// After the first element, the elements come in ascending order.
    pub open spec fn rest_ascending(&self) -> bool {
        forall|i: int, j: int|
            1 <= i < j < self.element_views().len() ==> T::view_lt(
                #[trigger] self.element_views()[i],
                #[trigger] self.element_views()[j],
            )
    }

    /// At least one element, no view occurs twice, and the elements after
    /// the first are in ascending order.
    pub open spec fn wf(&self) -> bool {
        &&& self.elements().len() >= 1
        &&& self.element_views().no_duplicates()
        &&& self.rest_ascending()
    }

    /// Position of the element with the view of `value`, if any.
    fn position(&self, value: &T) -> (r: Option<usize>)
        ensures
            r matches Some(i) ==> i < self.elements().len() && self.elements()[i as int]@
                == value@,
            r is None ==> !self.element_views().contains(value@),
    {
        let mut i: usize = 0;
        while i < self.elems.len()
            invariant
                i <= self.elems@.len(),
                forall|k: int| 0 <= k < i ==> self.elems@[k]@ != value@,
            decreases self.elems@.len() - i,
        {
            if self.elems[i].same_element(value) {
                return Some(i);
            }
            i = i + 1;
        }
        proof {
            if self.element_views().contains(value@) {
                let k = choose|k: int|
                    0 <= k < self.element_views().len() && self.element_views()[k] == value@;
                assert(self.elems@[k]@ == value@);
            }
        }
        None
    }

    /// Creates a set holding exactly `first`.
    pub fn new(first: T) -> (r: Self)
        ensures
            r.wf(),
            r.elements() == seq![first],
            r.view_set() == set![first@],
    {
        let mut elems: Vec<T> = Vec::new();
        elems.push(first);
        let r = NonEmptySet { elems };
        proof {
            assert(r.element_views() =~= seq![first@]);
            assert(r.view_set() =~= set![first@]);
        }
        r
    }

    /// Creates a set from the given items; `None` when there are none.
    ///
    /// The first item becomes the first element; items whose view already
    /// occurred are skipped.
    pub fn try_from_iter(items: Vec<T>) -> (r: Option<Self>)
        ensures
            r is None <==> items@.len() == 0,
            r matches Some(s) ==> {
                &&& s.wf()
                &&& s.view_set() == views_of(items@).to_set()
                &&& s.elements()[0] == items@[0]
                &&& s.element_views().len() == views_of(items@).to_set().len()
            },
    {
        if items.len() == 0 {
            return None;
        }
        let mut set: Option<Self> = None;
        let mut items = items;
        let ghost all = items@;
        let mut rest = items.split_off(0);
        // `rest` now holds every item; move them one by one.
        let mut idx: usize = 0;
        let n = rest.len();
        let mut reversed: Vec<T> = Vec::new();
        while rest.len() > 0
            invariant
                reversed@.len() + rest@.len() == n,
                n == all.len(),
                forall|k: int| 0 <= k < rest@.len() ==> rest@[k] == all[k],
                forall|k: int|
                    0 <= k < reversed@.len() ==> reversed@[k] == all[n - 1 - k],
            decreases rest@.len(),
        {
            let x = rest.pop().unwrap();
            reversed.push(x);
        }
        assert(reversed@.len() == n);
        while reversed.len() > 0
            invariant
                n == all.len(),
                n >= 1,
                idx + reversed@.len() == n,
                forall|k: int|
                    0 <= k < reversed@.len() ==> reversed@[k] == all[n - 1 - k],
                set is None <==> idx == 0,
                set matches Some(s) ==> {
                    &&& s.wf()
                    &&& s.view_set() == views_of(all.subrange(0, idx as int)).to_set()
                    &&& s.elements()[0] == all[0]
                },
            decreases reversed@.len(),
        {
            let x = reversed.pop().unwrap();
            assert(x == all[idx as int]);
            proof {
                assert(all.subrange(0, idx + 1) =~= all.subrange(0, idx as int).push(x));
                assert(views_of(all.subrange(0, idx + 1)) =~= views_of(
                    all.subrange(0, idx as int),
                ).push(x@));
            }
            match set {
                None => {
                    let s = Self::new(x);
                    proof {
                        assert(views_of(all.subrange(0, 1)) =~= seq![x@]);
                        assert(seq![x@].to_set() =~= set![x@]) by {
                            assert(seq![x@] =~= Seq::<T::V>::empty().push(x@));
                        }
                    }
                    set = Some(s);
                },
                Some(mut s) => {
                    s.insert(x);
                    set = Some(s);
                },
            }
            idx = idx + 1;
        }
        proof {
            assert(all.subrange(0, n as int) =~= all);
            if set is Some {
                set->0.element_views().unique_seq_to_set();
            }
        }
        set
    }

    /// Inserts `value`; returns `true` iff no element had its view. The
    /// first element stays first; the others stay in ascending order.
    pub fn insert(&mut self, value: T) -> (r: bool)
        requires
            old(self).wf(),
        ensures
            final(self).wf(),
            r == !old(self).view_set().contains(value@),
            final(self).view_set() == old(self).view_set().insert(value@),
            final(self).elements()[0] == old(self).elements()[0],
    {
        match self.position(&value) {
            Some(i) => {
                proof {
                    assert(self.element_views()[i as int] == value@);
                    assert(self.view_set().contains(value@));
                    assert(self.view_set().insert(value@) =~= self.view_set());
                }
                false
            },
            None => {
                let ghost ov = self.element_views();
                let ghost vv = value@;
                proof {
                    assert(!self.view_set().contains(value@));
                }
                let mut j: usize = 1;
                while j < self.elems.len() && !value.precedes(&self.elems[j])
                    invariant
                        1 <= j <= self.elems@.len(),
                        ov == views_of(self.elems@),
                        vv == value@,
                        !ov.contains(vv),
                        forall|k: int| 1 <= k < j ==> T::view_lt(#[trigger] ov[k], vv),
                    decreases self.elems@.len() - j,
                {
                    proof {
                        assert(ov[j as int] == self.elems@[j as int]@);
                        assert(ov[j as int] != vv);
                        T::lemma_view_order(ov[j as int], vv, vv);
                    }
                    j = j + 1;
                }
                proof {
                    if j < ov.len() {
                        assert(ov[j as int] == self.elems@[j as int]@);
                    }
                }
                let ghost old_elems = self.elems@;
                self.elems.insert(j, value);
                proof {
                    let nv = self.element_views();
                    assert(nv =~= ov.insert(j as int, vv));
                    assert forall|a: int, b: int| 1 <= a < b < nv.len() implies T::view_lt(
                        #[trigger] nv[a],
                        #[trigger] nv[b],
                    ) by {
                        if b < j {
                            assert(nv[a] == ov[a] && nv[b] == ov[b]);
                        } else if b == j {
                            assert(nv[a] == ov[a]);
                        } else if a == j {
                            assert(nv[b] == ov[b - 1]);
                            if b - 1 > j {
                                T::lemma_view_order(vv, ov[j as int], ov[b - 1]);
                            }
                        } else if a < j {
                            assert(nv[a] == ov[a] && nv[b] == ov[b - 1]);
                        } else {
                            assert(nv[a] == ov[a - 1] && nv[b] == ov[b - 1]);
                        }
                    }
                    assert forall|a: int, b: int| 0 <= a < nv.len() && 0 <= b < nv.len() && a != b
                        implies nv[a] != nv[b] by {
                        if a == j {
                            if b < j { assert(nv[b] == ov[b]); } else { assert(nv[b] == ov[b - 1]); }
                        } else if b == j {
                            if a < j { assert(nv[a] == ov[a]); } else { assert(nv[a] == ov[a - 1]); }
                        } else {
                            let oa = if a < j { a } else { a - 1 };
                            let ob = if b < j { b } else { b - 1 };
                            assert(nv[a] == ov[oa] && nv[b] == ov[ob]);
                        }
                    }
                    assert(self.view_set() =~= ov.to_set().insert(vv)) by {
                        assert forall|x: T::V| nv.contains(x) <==> ov.to_set().insert(vv).contains(x) by {
                            if nv.contains(x) {
                                let k = choose|k: int| 0 <= k < nv.len() && nv[k] == x;
                                if k != j {
                                    let ok = if k < j { k } else { k - 1 };
                                    assert(ov[ok] == x);
                                }
                            }
                            if ov.contains(x) {
                                let k = choose|k: int| 0 <= k < ov.len() && ov[k] == x;
                                let nk = if k < j { k } else { k + 1 };
                                assert(nv[nk] == x);
                            }
                            if x == vv {
                                assert(nv[j as int] == vv);
                            }
                        }
                    }
                    assert(self.elems@[0] == old_elems[0]);
                }
                true
            },
        }
    }

    /// Removes the element with the view of `value`.
    ///
    /// Returns the removed element, or `None` when no element has that view
    /// or when it is the only element (the set never becomes empty). When
    /// the first element goes, the smallest of the others becomes first.
    pub fn remove(&mut self, value: &T) -> (r: Option<T>)
        requires
            old(self).wf(),
        ensures
            final(self).wf(),
            r is Some <==> (old(self).view_set().contains(value@) && old(
                self,
            ).view_set().len() > 1),
            r matches Some(x) ==> x@ == value@ && final(self).view_set() == old(
                self,
            ).view_set().remove(value@),
            r is None ==> final(self).view_set() == old(self).view_set(),
            r is None ==> final(self).elements() == old(self).elements(),
            r is Some && value@ == old(self).element_views()[0] ==> final(self).elements() == old(
                self,
            ).elements().drop_first(),
            r is Some && value@ != old(self).element_views()[0] ==> final(self).elements()[0] == old(
                self,
            ).elements()[0],
    {
        proof {
            self.element_views().unique_seq_to_set();
        }
        match self.position(value) {
            None => {
                proof {
                    assert(!self.view_set().contains(value@));
                }
                None
            },
            Some(i) => {
                if self.elems.len() == 1 {
                    return None;
                }
                let ghost old_elems = self.elems@;
                let removed = self.elems.remove(i);
                proof {
                    lemma_views_remove(old_elems, i as int);
                    lemma_remove_from_unique(views_of(old_elems), i as int);
                    assert(views_of(old_elems)[i as int] == value@);
                }
                Some(removed)
            },
        }
    }

    /// Whether an element has the view of `value`.
    pub fn contains(&self, value: &T) -> (r: bool)
        ensures
            r == self.view_set().contains(value@),
    {
        match self.position(value) {
            Some(i) => {
                proof {
                    assert(self.element_views()[i as int] == value@);
                }
                true
            },
            None => false,
        }
    }

    /// The number of elements.
    pub fn len(&self) -> (r: usize)
        requires
            self.wf(),
        ensures
            r == self.view_set().len(),
            r >= 1,
    {
        proof {
            self.element_views().unique_seq_to_set();
        }
        self.elems.len()
    }

    /// Always `false`: the set is never empty.
    pub fn is_empty(&self) -> (r: bool)
        ensures
            !r,
    {
        false
    }

    /// Iterates over the elements: the first one, then the others in
    /// ascending order.
    pub fn iter(&self) -> (r: std::slice::Iter<'_, T>)
        ensures
            vstd::std_specs::slice::into_iter_elts(r) == self.elements(),
    {
        broadcast use vstd::std_specs::slice::axiom_spec_slice_iter;

        self.elems.as_slice().iter()
    }

    /// The first element.
    pub fn first(&self) -> (r: &T)
        requires
            self.wf(),
        ensures
            *r == self.elements()[0],
    {
        &self.elems[0]
    }

    /// The elements as a vector: the first one, then the others in
    /// ascending order.
    pub fn to_vec(&self) -> (r: Vec<T>)
        ensures
            r@ == self.elements(),
            views_of(r@).to_set() == self.view_set(),
            self.wf() ==> r@.len() == self.view_set().len(),
            self.wf() ==> r@.no_duplicates(),
            self.wf() ==> views_of(r@).no_duplicates(),
    {
        let mut out: Vec<T> = Vec::new();
        let mut i: usize = 0;
        while i < self.elems.len()
            invariant
                i <= self.elems@.len(),
                out@ == self.elems@.subrange(0, i as int),
            decreases self.elems@.len() - i,
        {
            out.push(self.elems[i].copy_element());
            proof {
                assert(self.elems@.subrange(0, i + 1) =~= self.elems@.subrange(0, i as int).push(
                    self.elems@[i as int],
                ));
            }
            i = i + 1;
        }
        proof {
            assert(self.elems@.subrange(0, i as int) =~= self.elems@);
            if self.wf() {
                self.element_views().unique_seq_to_set();
                lemma_distinct_views_distinct_elements(self.elements());
            }
        }
        out
    }
}

/// Elements whose views are pairwise distinct are themselves pairwise
/// distinct.
pub proof fn lemma_distinct_views_distinct_elements<T: View>(s: Seq<T>)
    requires
        views_of(s).no_duplicates(),
    ensures
        s.no_duplicates(),
{
    assert forall|i: int, j: int| 0 <= i < s.len() && 0 <= j < s.len() && i != j implies s[i]
        != s[j] by {
        assert(views_of(s)[i] != views_of(s)[j]);
    }
}

/// The first `n` items of a sequence.
pub open spec fn prefix_of<A>(s: Seq<A>, n: usize) -> Seq<A> {
    s.subrange(0, n as int)
}

/// Extending a prefix by one item adds that item to its set.
proof fn lemma_prefix_step<A>(s: Seq<A>, n: usize)
    requires
        n < s.len(),
        n < usize::MAX,
    ensures
        prefix_of(s, (n + 1) as usize).to_set() == prefix_of(s, n).to_set().insert(s[n as int]),
{
    assert(prefix_of(s, (n + 1) as usize) =~= prefix_of(s, n).push(s[n as int]));
    prefix_of(s, n).lemma_push_to_set_commute(s[n as int]);
}

/// A full prefix is the whole sequence.
proof fn lemma_prefix_full<A>(s: Seq<A>, n: usize)
    requires
        n == s.len(),
    ensures
        prefix_of(s, n) == s,
{
    assert(prefix_of(s, n) =~= s);
}

impl<T: SetElement + Ord> NonEmptySet<T> {
    /// The elements as an ordered set (which no longer records which one was
    /// first).
    pub fn to_btreeset(&self) -> (r: std::collections::BTreeSet<T>)
        ensures
            vstd::laws_cmp::obeys_cmp::<T>() ==> r@ == self.elements().to_set(),
            vstd::laws_cmp::obeys_cmp::<T>() && self.wf() ==> r@.len() == self.view_set().len(),
            vstd::laws_cmp::obeys_cmp::<T>() && self.wf() ==> r@.contains(self.elements()[0]),
    {
        let mut out: std::collections::BTreeSet<T> = std::collections::BTreeSet::new();
        let mut i: usize = 0;
        while i < self.elems.len()
            invariant
                i <= self.elems@.len(),
                vstd::laws_cmp::obeys_cmp::<T>() ==> out@ == prefix_of(self.elems@, i).to_set(),
            decreases self.elems@.len() - i,
        {
            let x = self.elems[i].copy_element();
            out.insert(x);
            proof {
                lemma_prefix_step(self.elems@, i);
            }
            i = i + 1;
        }
        proof {
            lemma_prefix_full(self.elems@, i);
            if self.wf() {
                self.element_views().unique_seq_to_set();
                lemma_distinct_views_distinct_elements(self.elements());
                self.elements().unique_seq_to_set();
                assert(self.elements().contains(self.elements()[0]));
            }
        }
        out
    }
}

} // verus!
