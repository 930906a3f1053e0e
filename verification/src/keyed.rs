//! A map from string keys to values, held as a list of entries in which no
//! key occurs twice.
use crate::text::str_equal;
use vstd::prelude::*;

verus! {

broadcast use vstd::seq_lib::group_seq_properties;

/// No key occurs twice.
pub open spec fn keys_unique<V>(e: Seq<(Seq<char>, V)>) -> bool {
    forall|i: int, j: int|
        0 <= i < e.len() && 0 <= j < e.len() && i != j ==> #[trigger] e[i].0 != #[trigger] e[j].0
}

/// Whether some entry has the key.
pub open spec fn has_key<V>(e: Seq<(Seq<char>, V)>, k: Seq<char>) -> bool {
    exists|i: int| 0 <= i < e.len() && #[trigger] e[i].0 == k
}

/// The entries as a map.
pub open spec fn entries_map<V>(e: Seq<(Seq<char>, V)>) -> Map<Seq<char>, V> {
    Map::new(
        |k: Seq<char>| has_key(e, k),
        |k: Seq<char>| e[choose|i: int| 0 <= i < e.len() && #[trigger] e[i].0 == k].1,
    )
}

/// With unique keys, the value of an entry's key is that entry's value.
pub proof fn lemma_entry_at<V>(e: Seq<(Seq<char>, V)>, i: int)
    requires
        keys_unique(e),
        0 <= i < e.len(),
    ensures
        entries_map(e).contains_key(e[i].0),
        entries_map(e)[e[i].0] == e[i].1,
{
    assert(e[i].0 == e[i].0);
}

/// The views of entries.
pub open spec fn keyed_views<V: View>(s: Seq<(String, V)>) -> Seq<(Seq<char>, V::V)> {
    s.map_values(|x: (String, V)| (x.0@, x.1@))
}

/// A map from string keys to values.
#[derive(Debug)]
pub struct Keyed<V: View> {
    entries: Vec<(String, V)>,
}

impl<V: View> Keyed<V> {
    /// The entries, viewed.
    pub closed spec fn entries(&self) -> Seq<(Seq<char>, V::V)> {
        keyed_views(self.entries@)
    }

    /// The map held.
    pub open spec fn map(&self) -> Map<Seq<char>, V::V> {
        entries_map(self.entries())
    }

    /// No key occurs twice.
    #[verifier::type_invariant]
    spec fn wf(&self) -> bool {
        keys_unique(self.entries())
    }

    /// An empty map.
    pub fn new() -> (r: Self)
        ensures
            r.map() == Map::<Seq<char>, V::V>::empty(),
    {
        let r = Keyed { entries: Vec::new() };
        proof {
            assert(r.map() =~= Map::<Seq<char>, V::V>::empty());
        }
        r
    }

    fn find(&self, key: &str) -> (r: Option<usize>)
        ensures
            keys_unique(self.entries()),
            r is Some <==> self.map().contains_key(key@),
            r matches Some(i) ==> i < self.entries().len() && self.entries()[i as int].0 == key@,
    {
        proof {
            use_type_invariant(self);
        }
        let mut i: usize = 0;
        while i < self.entries.len()
            invariant
                i <= self.entries@.len(),
                keys_unique(self.entries()),
                forall|k: int| 0 <= k < i ==> #[trigger] self.entries()[k].0 != key@,
            decreases self.entries@.len() - i,
        {
            if str_equal(self.entries[i].0.as_str(), key) {
                proof {
                    assert(self.entries()[i as int].0 == key@);
                }
                return Some(i);
            }
            i = i + 1;
        }
        None
    }

    /// The value of a key.
    pub fn get(&self, key: &str) -> (r: Option<&V>)
        ensures
            r is Some <==> self.map().contains_key(key@),
            r matches Some(v) ==> v@ == self.map()[key@],
    {
        match self.find(key) {
            None => None,
            Some(i) => {
                proof {
                    lemma_entry_at(self.entries(), i as int);
                }
                Some(&self.entries[i].1)
            },
        }
    }

    /// Sets the value of a key.
    pub fn insert(&mut self, key: String, value: V)
        ensures
            final(self).map() == old(self).map().insert(key@, value@),
    {
        let ghost before = self.entries();
        let ghost k = key@;
        let ghost v = value@;
        match self.find(key.as_str()) {
            Some(i) => {
                let mut entries: Vec<(String, V)> = Vec::new();
                std::mem::swap(&mut entries, &mut self.entries);
                entries[i] = (key, value);
                proof {
                    let after = keyed_views(entries@);
                    assert(after =~= before.update(i as int, (k, v)));
                    assert forall|a: int, b: int|
                        0 <= a < after.len() && 0 <= b < after.len() && a != b implies #[trigger] after[a].0
                        != #[trigger] after[b].0 by {
                        assert(before[a].0 != before[b].0);
                    }
                    assert forall|x: Seq<char>| x != k implies #[trigger] has_key(after, x) == has_key(
                        before,
                        x,
                    ) && (has_key(before, x) ==> entries_map(after)[x] == entries_map(before)[x]) by {
                        if has_key(before, x) {
                            let j = choose|j: int| 0 <= j < before.len() && #[trigger] before[j].0 == x;
                            assert(after[j].0 == x);
                            lemma_entry_at(before, j);
                            lemma_entry_at(after, j);
                        }
                        if has_key(after, x) {
                            let j = choose|j: int| 0 <= j < after.len() && #[trigger] after[j].0 == x;
                            assert(before[j].0 == x);
                        }
                    }
                    lemma_entry_at(after, i as int);
                    assert(entries_map(after) =~= entries_map(before).insert(k, v));
                }
                self.entries = entries;
            },
            None => {
                let mut entries: Vec<(String, V)> = Vec::new();
                std::mem::swap(&mut entries, &mut self.entries);
                entries.push((key, value));
                proof {
                    let after = keyed_views(entries@);
                    assert(after =~= before.push((k, v)));
                    assert forall|a: int, b: int|
                        0 <= a < after.len() && 0 <= b < after.len() && a != b implies #[trigger] after[a].0
                        != #[trigger] after[b].0 by {
                        if a == before.len() {
                            assert(before[b].0 != k);
                        } else if b == before.len() {
                            assert(before[a].0 != k);
                        }
                    }
                    assert forall|x: Seq<char>| x != k implies #[trigger] has_key(after, x) == has_key(
                        before,
                        x,
                    ) && (has_key(before, x) ==> entries_map(after)[x] == entries_map(before)[x]) by {
                        if has_key(before, x) {
                            let j = choose|j: int| 0 <= j < before.len() && #[trigger] before[j].0 == x;
                            assert(after[j].0 == x);
                            lemma_entry_at(before, j);
                            lemma_entry_at(after, j);
                        }
                        if has_key(after, x) {
                            let j = choose|j: int| 0 <= j < after.len() && #[trigger] after[j].0 == x;
                            assert(j != before.len());
                            assert(before[j].0 == x);
                        }
                    }
                    lemma_entry_at(after, before.len() as int);
                    assert(entries_map(after) =~= entries_map(before).insert(k, v));
                }
                self.entries = entries;
            },
        }
    }
}

} // verus!
