//! A small map from string keys to values, kept as a vector of entries with
//! distinct keys.

use vstd::prelude::*;

use crate::text::chars_of;

verus! {

/// Whether two string slices hold the same characters.
pub fn str_equal(a: &str, b: &str) -> (r: bool)
    ensures
        r == (a@ == b@),
{
    let ac = chars_of(a);
    let bc = chars_of(b);
    if ac.len() != bc.len() {
        return false;
    }
    let mut i: usize = 0;
    while i < ac.len()
        invariant
            ac@ == a@,
            bc@ == b@,
            ac@.len() == bc@.len(),
            i <= ac@.len(),
            forall|k: int| 0 <= k < i ==> ac@[k] == bc@[k],
        decreases ac@.len() - i,
    {
        if ac[i] != bc[i] {
            return false;
        }
        i = i + 1;
    }
    assert(ac@ =~= bc@);
    true
}

/// No two entries carry the same key.
pub open spec fn distinct_keys<V>(e: Seq<(String, V)>) -> bool {
    forall|i: int, j: int|
        0 <= i < e.len() && 0 <= j < e.len() && i != j ==> #[trigger] e[i].0@ != #[trigger] e[j].0@
}

/// Some entry carries key `k`.
pub open spec fn has_key<V>(e: Seq<(String, V)>, k: Seq<char>) -> bool {
    exists|i: int| 0 <= i < e.len() && #[trigger] e[i].0@ == k
}

/// The position of the entry with key `k` (meaningful when there is one).
pub open spec fn key_index<V>(e: Seq<(String, V)>, k: Seq<char>) -> int {
    choose|i: int| 0 <= i < e.len() && #[trigger] e[i].0@ == k
}

/// The map that a sequence of entries stands for.
pub open spec fn entries_map<V>(e: Seq<(String, V)>) -> Map<Seq<char>, V> {
    Map::new(|k: Seq<char>| has_key(e, k), |k: Seq<char>| e[key_index(e, k)].1)
}

proof fn lemma_key_index<V>(e: Seq<(String, V)>, k: Seq<char>, i: int)
    requires
        distinct_keys(e),
        0 <= i < e.len(),
        e[i].0@ == k,
    ensures
        has_key(e, k),
        key_index(e, k) == i,
{
    assert(has_key(e, k));
    let j: int = key_index(e, k);
    assert(0 <= j < e.len() && e[j].0@ == k);
    if j != i {
        assert(e[i].0@ != e[j].0@);
    }
}

/// A map from string keys to values.
pub struct KeyedStore<V> {
    entries: Vec<(String, V)>,
}

impl<V> View for KeyedStore<V> {
    type V = Map<Seq<char>, V>;

    closed spec fn view(&self) -> Map<Seq<char>, V> {
        entries_map(self.entries@)
    }
}

impl<V> KeyedStore<V> {
    /// The store's internal invariant: no key is stored twice.
    pub closed spec fn wf(&self) -> bool {
        distinct_keys(self.entries@)
    }

    /// An empty store.
    pub fn new() -> (s: Self)
        ensures
            s.wf(),
            s@ == Map::<Seq<char>, V>::empty(),
    {
        let s = KeyedStore { entries: Vec::new() };
        assert(s@ =~= Map::<Seq<char>, V>::empty());
        s
    }

    /// Where the entry with key `key` stands, if there is one.
    fn find(&self, key: &str) -> (r: Option<usize>)
        requires
            self.wf(),
        ensures
            r is None <==> !self@.contains_key(key@),
            r matches Some(i) ==> i < self.entries@.len() && self.entries@[i as int].0@ == key@
                && key_index(self.entries@, key@) == i,
    {
        let n: usize = self.entries.len();
        let mut i: usize = 0;
        while i < n
            invariant
                n == self.entries@.len(),
                distinct_keys(self.entries@),
                i <= n,
                forall|j: int| 0 <= j < i ==> #[trigger] self.entries@[j].0@ != key@,
            decreases n - i,
        {
            if str_equal(self.entries[i].0.as_str(), key) {
                proof {
                    lemma_key_index(self.entries@, key@, i as int);
                }
                return Some(i);
            }
            i = i + 1;
        }
        None
    }

    /// The value stored under `key`, if any.
    pub fn get(&self, key: &str) -> (r: Option<&V>)
        requires
            self.wf(),
        ensures
            r is None <==> !self@.contains_key(key@),
            r matches Some(v) ==> *v == self@[key@],
    {
        match self.find(key) {
            Some(i) => Some(&self.entries[i].1),
            None => None,
        }
    }

    /// Stores `value` under `key`, replacing what was stored there.
    pub fn insert(&mut self, key: String, value: V)
        requires
            old(self).wf(),
        ensures
            final(self).wf(),
            final(self)@ == old(self)@.insert(key@, value),
    {
        let ghost old_e = self.entries@;
        let ghost k = key@;
        match self.find(key.as_str()) {
            Some(i) => {
                self.entries.set(i, (key, value));
                let ghost new_e = self.entries@;
                assert(new_e == old_e.update(i as int, (new_e[i as int].0, value)));
                assert(distinct_keys(new_e)) by {
                    assert forall|a: int, b: int|
                        0 <= a < new_e.len() && 0 <= b < new_e.len() && a != b
                        implies #[trigger] new_e[a].0@ != #[trigger] new_e[b].0@ by {
                        assert(old_e[a].0@ == new_e[a].0@);
                        assert(old_e[b].0@ == new_e[b].0@);
                    }
                }
                assert forall|q: Seq<char>| #[trigger] has_key(new_e, q) == has_key(old_e, q) by {
                    if has_key(old_e, q) {
                        let j: int = choose|j: int| 0 <= j < old_e.len() && #[trigger] old_e[j].0@ == q;
                        assert(new_e[j].0@ == q);
                    }
                    if has_key(new_e, q) {
                        let j: int = choose|j: int| 0 <= j < new_e.len() && #[trigger] new_e[j].0@ == q;
                        assert(old_e[j].0@ == q);
                    }
                }
                assert forall|q: Seq<char>| has_key(new_e, q) implies
                    #[trigger] new_e[key_index(new_e, q)].1 == old_e.update(
                        i as int,
                        (new_e[i as int].0, value),
                    )[key_index(new_e, q)].1 by {}
                assert forall|q: Seq<char>| has_key(new_e, q) && q != k implies
                    #[trigger] key_index(new_e, q) == key_index(old_e, q) by {
                    let j: int = key_index(new_e, q);
                    assert(0 <= j < new_e.len() && new_e[j].0@ == q);
                    assert(old_e[j].0@ == q);
                    lemma_key_index(old_e, q, j);
                }
                proof {
                    lemma_key_index(new_e, k, i as int);
                }
                assert(entries_map(new_e) =~= entries_map(old_e).insert(k, value));
            },
            None => {
                self.entries.push((key, value));
                let ghost new_e = self.entries@;
                let ghost n = old_e.len() as int;
                assert(new_e == old_e.push(new_e[n]));
                assert(distinct_keys(new_e)) by {
                    assert forall|a: int, b: int|
                        0 <= a < new_e.len() && 0 <= b < new_e.len() && a != b
                        implies #[trigger] new_e[a].0@ != #[trigger] new_e[b].0@ by {
                        if a == n {
                            assert(old_e[b].0@ == new_e[b].0@);
                        } else if b == n {
                            assert(old_e[a].0@ == new_e[a].0@);
                        }
                    }
                }
                assert forall|q: Seq<char>| q != k implies #[trigger] has_key(new_e, q) == has_key(
                    old_e,
                    q,
                ) by {
                    if has_key(old_e, q) {
                        let j: int = choose|j: int| 0 <= j < old_e.len() && #[trigger] old_e[j].0@ == q;
                        assert(new_e[j].0@ == q);
                    }
                    if has_key(new_e, q) {
                        let j: int = choose|j: int| 0 <= j < new_e.len() && #[trigger] new_e[j].0@ == q;
                        assert(old_e[j].0@ == q);
                    }
                }
                assert forall|q: Seq<char>| has_key(new_e, q) && q != k implies
                    #[trigger] key_index(new_e, q) == key_index(old_e, q) by {
                    let j: int = key_index(new_e, q);
                    assert(0 <= j < new_e.len() && new_e[j].0@ == q);
                    assert(old_e[j].0@ == q);
                    lemma_key_index(old_e, q, j);
                }
                proof {
                    lemma_key_index(new_e, k, n);
                }
                assert(entries_map(new_e) =~= entries_map(old_e).insert(k, value));
            },
        }
    }
}

} // verus!
