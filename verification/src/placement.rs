//! Choosing the nodes that hold a content: candidates ranked by free
//! capacity, highest first, ties in the order the candidates came.
use crate::keyed::Keyed;
use crate::text::{str_equal, string_views, to_owned_string};
use vstd::prelude::*;

verus! {

broadcast use vstd::seq_lib::group_seq_properties;

/// The capacity reported for a node, zero when none was reported.
pub open spec fn capacity_of(caps: Map<Seq<char>, u64>, id: Seq<char>) -> u64 {
    if caps.contains_key(id) {
        caps[id]
    } else {
        0
    }
}

/// The candidates that are not excluded, each with its capacity, in order.
pub open spec fn scored(
    candidates: Seq<Seq<char>>,
    caps: Map<Seq<char>, u64>,
    excluded: Seq<Seq<char>>,
) -> Seq<(u64, Seq<char>)>
    decreases candidates.len(),
{
    if candidates.len() == 0 {
        Seq::empty()
    } else {
        let rest = scored(candidates.drop_last(), caps, excluded);
        let c = candidates.last();
        if excluded.contains(c) {
            rest
        } else {
            rest.push((capacity_of(caps, c), c))
        }
    }
}

/// `x` placed into `sorted` after every entry of at least its capacity.
pub open spec fn insert_by_capacity(sorted: Seq<(u64, Seq<char>)>, x: (u64, Seq<char>)) -> Seq<
    (u64, Seq<char>),
>
    decreases sorted.len(),
{
    if sorted.len() == 0 {
        seq![x]
    } else if sorted.last().0 >= x.0 {
        sorted.push(x)
    } else {
        insert_by_capacity(sorted.drop_last(), x).push(sorted.last())
    }
}

/// A stable sort by capacity, highest first: entries of equal capacity keep
/// their order.
pub open spec fn sort_by_capacity(s: Seq<(u64, Seq<char>)>) -> Seq<(u64, Seq<char>)>
    decreases s.len(),
{
    if s.len() == 0 {
        Seq::empty()
    } else {
        insert_by_capacity(sort_by_capacity(s.drop_last()), s.last())
    }
}

/// Capacities never increase along the sequence.
pub open spec fn capacity_descending(s: Seq<(u64, Seq<char>)>) -> bool {
    forall|i: int, j: int| 0 <= i < j < s.len() ==> #[trigger] s[i].0 >= #[trigger] s[j].0
}

/// The ids of the first `k` entries.
pub open spec fn first_ids(s: Seq<(u64, Seq<char>)>, k: nat) -> Seq<Seq<char>> {
    s.take(if k < s.len() { k as int } else { s.len() as int }).map_values(|e: (u64, Seq<char>)| e.1)
}

/// The nodes chosen from the candidates: not excluded, ranked by capacity,
/// at most `k` of them.
pub open spec fn selection(
    candidates: Seq<Seq<char>>,
    caps: Map<Seq<char>, u64>,
    excluded: Seq<Seq<char>>,
    k: nat,
) -> Seq<Seq<char>> {
    first_ids(sort_by_capacity(scored(candidates, caps, excluded)), k)
}

/// The views of scored entries.
pub open spec fn score_views(s: Seq<(u64, String)>) -> Seq<(u64, Seq<char>)> {
    s.map_values(|e: (u64, String)| (e.0, e.1@))
}

/// Whether `id` is among `list`.
fn listed(list: &Vec<String>, id: &str) -> (r: bool)
    ensures
        r == string_views(list@).contains(id@),
{
    let mut i: usize = 0;
    while i < list.len()
        invariant
            i <= list@.len(),
            forall|k: int| 0 <= k < i ==> #[trigger] string_views(list@)[k] != id@,
        decreases list@.len() - i,
    {
        if str_equal(list[i].as_str(), id) {
            proof {
                assert(string_views(list@)[i as int] == id@);
            }
            return true;
        }
        i = i + 1;
    }
    false
}

/// Inserts an entry after every entry of at least its capacity.
fn insert_desc(v: Vec<(u64, String)>, x: (u64, String)) -> (r: Vec<(u64, String)>)
    ensures
        score_views(r@) == insert_by_capacity(score_views(v@), (x.0, x.1@)),
    decreases v@.len(),
{
    let mut v = v;
    let n = v.len();
    if n == 0 {
        v.push(x);
        proof {
            assert(score_views(v@) =~= seq![(x.0, x.1@)]);
        }
        v
    } else if v[n - 1].0 >= x.0 {
        let ghost before = score_views(v@);
        v.push(x);
        proof {
            assert(score_views(v@) =~= before.push((x.0, x.1@)));
        }
        v
    } else {
        let ghost before = score_views(v@);
        let last = v.pop().unwrap();
        proof {
            assert(score_views(v@) =~= before.drop_last());
        }
        let mut r = insert_desc(v, x);
        let ghost mid = score_views(r@);
        r.push(last);
        proof {
            assert(score_views(r@) =~= mid.push(before.last()));
        }
        r
    }
}

/// Chooses up to `k` nodes among `candidates`: those not in `excluded`,
/// ranked by the capacity each reported (zero when it reported none),
/// highest first, ties kept in candidate order.
pub fn select_by_capacity(
    candidates: &Vec<String>,
    capacities: &Keyed<u64>,
    excluded: &Vec<String>,
    k: usize,
) -> (r: Vec<String>)
    ensures
        string_views(r@) == selection(string_views(candidates@), capacities.map(), string_views(excluded@), k as nat),
{
    let ghost cands = string_views(candidates@);
    let ghost caps = capacities.map();
    let ghost excl = string_views(excluded@);
    let mut sorted: Vec<(u64, String)> = Vec::new();
    let mut i: usize = 0;
    while i < candidates.len()
        invariant
            i <= candidates@.len(),
            cands == string_views(candidates@),
            caps == capacities.map(),
            excl == string_views(excluded@),
            score_views(sorted@) == sort_by_capacity(scored(cands.subrange(0, i as int), caps, excl)),
        decreases candidates@.len() - i,
    {
        proof {
            assert(cands.subrange(0, i + 1).drop_last() =~= cands.subrange(0, i as int));
            assert(cands.subrange(0, i + 1).last() == candidates@[i as int]@);
        }
        let c = candidates[i].as_str();
        if !listed(excluded, c) {
            let cap = match capacities.get(c) {
                Some(v) => *v,
                None => 0,
            };
            let ghost s = scored(cands.subrange(0, i as int), caps, excl);
            sorted = insert_desc(sorted, (cap, to_owned_string(c)));
            proof {
                assert(s.push((cap, c@)).drop_last() =~= s);
            }
        }
        i = i + 1;
    }
    proof {
        assert(cands.subrange(0, i as int) =~= cands);
    }
    let ghost all = score_views(sorted@);
    let count = if k < sorted.len() { k } else { sorted.len() };
    let mut out: Vec<String> = Vec::new();
    let mut j: usize = 0;
    while j < count
        invariant
            count <= sorted@.len(),
            j <= count,
            all == score_views(sorted@),
            out@.len() == j,
            string_views(out@) == all.take(j as int).map_values(|e: (u64, Seq<char>)| e.1),
        decreases count - j,
    {
        let ghost prev = out@;
        out.push(to_owned_string(sorted[j].1.as_str()));
        proof {
            assert forall|t: int| 0 <= t < j + 1 implies #[trigger] string_views(out@)[t]
                == all.take(j + 1).map_values(|e: (u64, Seq<char>)| e.1)[t] by {
                if t < j {
                    assert(string_views(prev)[t] == all.take(j as int).map_values(
                        |e: (u64, Seq<char>)| e.1,
                    )[t]);
                }
            }
            assert(string_views(out@) =~= all.take(j + 1).map_values(|e: (u64, Seq<char>)| e.1));
        }
        j = j + 1;
    }
    out
}

/// Inserting into a descending sequence keeps it descending.
pub proof fn lemma_insert_keeps_descending(sorted: Seq<(u64, Seq<char>)>, x: (u64, Seq<char>))
    requires
        capacity_descending(sorted),
    ensures
        capacity_descending(insert_by_capacity(sorted, x)),
        insert_by_capacity(sorted, x).len() == sorted.len() + 1,
        insert_by_capacity(sorted, x).to_multiset() == sorted.to_multiset().insert(x),
    decreases sorted.len(),
{
    broadcast use vstd::multiset::group_multiset_axioms;

    if sorted.len() == 0 {
        assert(seq![x] =~= Seq::<(u64, Seq<char>)>::empty().push(x));
    } else if sorted.last().0 >= x.0 {
        let r = sorted.push(x);
        assert forall|i: int, j: int| 0 <= i < j < r.len() implies #[trigger] r[i].0 >= #[trigger] r[j].0 by {
            if j == sorted.len() {
                assert(sorted[i].0 >= sorted.last().0);
            }
        }
    } else {
        let d = sorted.drop_last();
        assert(capacity_descending(d));
        lemma_insert_keeps_descending(d, x);
        let m = insert_by_capacity(d, x);
        let r = m.push(sorted.last());
        assert forall|i: int, j: int| 0 <= i < j < r.len() implies #[trigger] r[i].0 >= #[trigger] r[j].0 by {
            if j == m.len() {
                // m's entries are those of d and x, all at least the last
                assert(m.to_multiset().count(m[i]) > 0);
                assert(m[i] == x || d.to_multiset().count(m[i]) > 0);
                if m[i] != x {
                    let k = choose|k: int| 0 <= k < d.len() && d[k] == m[i];
                    assert(sorted[k].0 >= sorted.last().0);
                }
            }
        }
        assert(sorted =~= d.push(sorted.last()));
    }
}

/// The ranking is descending by capacity and holds exactly the entries
/// it was given.
pub proof fn law_sort_by_capacity(s: Seq<(u64, Seq<char>)>)
    ensures
        capacity_descending(sort_by_capacity(s)),
        sort_by_capacity(s).to_multiset() == s.to_multiset(),
    decreases s.len(),
{
    broadcast use vstd::multiset::group_multiset_axioms;

    if s.len() > 0 {
        law_sort_by_capacity(s.drop_last());
        lemma_insert_keeps_descending(sort_by_capacity(s.drop_last()), s.last());
        assert(s =~= s.drop_last().push(s.last()));
        vstd::seq_lib::lemma_multiset_commutative(s.drop_last(), seq![s.last()]);
        assert(s.drop_last() + seq![s.last()] =~= s);
    } else {
        assert(sort_by_capacity(s) =~= Seq::<(u64, Seq<char>)>::empty());
    }
}

/// Every scored entry is a candidate that is not excluded, with its
/// capacity.
proof fn lemma_scored_entries(
    candidates: Seq<Seq<char>>,
    caps: Map<Seq<char>, u64>,
    excluded: Seq<Seq<char>>,
)
    ensures
        forall|i: int|
            0 <= i < scored(candidates, caps, excluded).len() ==> {
                let e = #[trigger] scored(candidates, caps, excluded)[i];
                &&& candidates.contains(e.1)
                &&& !excluded.contains(e.1)
                &&& e.0 == capacity_of(caps, e.1)
            },
    decreases candidates.len(),
{
    if candidates.len() > 0 {
        let d = candidates.drop_last();
        lemma_scored_entries(d, caps, excluded);
        let rest = scored(d, caps, excluded);
        assert forall|i: int| 0 <= i < scored(candidates, caps, excluded).len() implies {
            let e = #[trigger] scored(candidates, caps, excluded)[i];
            &&& candidates.contains(e.1)
            &&& !excluded.contains(e.1)
            &&& e.0 == capacity_of(caps, e.1)
        } by {
            let e = scored(candidates, caps, excluded)[i];
            if i < rest.len() {
                assert(e == rest[i]);
                let j = choose|j: int| 0 <= j < d.len() && d[j] == e.1;
                assert(candidates[j] == e.1);
            } else {
                assert(e.1 == candidates.last());
                assert(candidates[candidates.len() - 1] == e.1);
            }
        }
    }
}

/// The nodes chosen for a content are candidates that are not excluded
/// (a content is never placed on its creator), at most `k` of them, and as
/// many as `k` whenever enough candidates remain.
pub proof fn law_selection_picks_unexcluded_candidates(
    candidates: Seq<Seq<char>>,
    caps: Map<Seq<char>, u64>,
    excluded: Seq<Seq<char>>,
    k: nat,
)
    ensures
        forall|i: int|
            0 <= i < selection(candidates, caps, excluded, k).len() ==> candidates.contains(
                #[trigger] selection(candidates, caps, excluded, k)[i],
            ) && !excluded.contains(selection(candidates, caps, excluded, k)[i]),
        selection(candidates, caps, excluded, k).len() == if k < scored(candidates, caps, excluded).len() {
            k as int
        } else {
            scored(candidates, caps, excluded).len() as int
        },
{
    broadcast use vstd::multiset::group_multiset_axioms;

    let sc = scored(candidates, caps, excluded);
    let sorted = sort_by_capacity(sc);
    law_sort_by_capacity(sc);
    lemma_scored_entries(candidates, caps, excluded);
    sorted.to_multiset_ensures();
    sc.to_multiset_ensures();
    assert(sorted.len() == sc.len());
    let sel = selection(candidates, caps, excluded, k);
    assert forall|i: int| 0 <= i < sel.len() implies candidates.contains(#[trigger] sel[i])
        && !excluded.contains(sel[i]) by {
        let e = sorted[i];
        assert(sel[i] == e.1);
        assert(sorted.to_multiset().count(e) > 0);
        assert(sc.to_multiset().count(e) > 0);
        assert(sc.contains(e));
        let j = choose|j: int| 0 <= j < sc.len() && sc[j] == e;
        assert(candidates.contains(sc[j].1));
    }
}

} // verus!
