//! A map from texts to values, kept as a list of entries with distinct keys.
use vstd::prelude::*;

verus! {

/// No key occurs twice among the entries.
pub open spec fn keys_distinct<W>(s: Seq<(Seq<char>, W)>) -> bool {
    forall|i: int, j: int| 0 <= i < j < s.len() ==> (#[trigger] s[i]).0 != (#[trigger] s[j]).0
}

/// Some entry has key `k`.
pub open spec fn has_key<W>(s: Seq<(Seq<char>, W)>, k: Seq<char>) -> bool {
    exists|i: int| 0 <= i < s.len() && (#[trigger] s[i]).0 == k
}

/// The map that the entries describe: each key to the value of its entry.
pub open spec fn assoc_map<W>(s: Seq<(Seq<char>, W)>) -> Map<Seq<char>, W> {
    Map::new(
        |k: Seq<char>| has_key(s, k),
        |k: Seq<char>| s[choose|i: int| 0 <= i < s.len() && (#[trigger] s[i]).0 == k].1,
    )
}

/// The entry at `i` is what the map holds for its key.
pub proof fn lemma_assoc_map_at<W>(s: Seq<(Seq<char>, W)>, i: int)
    requires
        keys_distinct(s),
        0 <= i < s.len(),
    ensures
        assoc_map(s).contains_key(s[i].0),
        assoc_map(s)[s[i].0] == s[i].1,
{
    let k = s[i].0;
    assert(has_key(s, k));
    let j = choose|j: int| 0 <= j < s.len() && (#[trigger] s[j]).0 == k;
    if j < i {
        assert(s[j].0 != s[i].0);
    } else if i < j {
        assert(s[i].0 != s[j].0);
    }
}

/// The entry that holds key `k` of the map.
pub proof fn assoc_map_index<W>(s: Seq<(Seq<char>, W)>, k: Seq<char>) -> (j: int)
    requires
        keys_distinct(s),
        assoc_map(s).contains_key(k),
    ensures
        0 <= j < s.len(),
        s[j].0 == k,
        assoc_map(s)[k] == s[j].1,
{
    assert(has_key(s, k));
    let j = choose|j: int| 0 <= j < s.len() && (#[trigger] s[j]).0 == k;
    lemma_assoc_map_at(s, j);
    j
}

/// Replacing the value of entry `i` updates the map at its key.
pub proof fn lemma_assoc_map_update<W>(s: Seq<(Seq<char>, W)>, i: int, w: W)
    requires
        keys_distinct(s),
        0 <= i < s.len(),
    ensures
        keys_distinct(s.update(i, (s[i].0, w))),
        assoc_map(s.update(i, (s[i].0, w))) == assoc_map(s).insert(s[i].0, w),
{
    let t = s.update(i, (s[i].0, w));
    assert forall|a: int, b: int| 0 <= a < b < t.len() implies (#[trigger] t[a]).0 != (#[trigger] t[b]).0 by {
        assert(s[a].0 != s[b].0);
    }
    assert forall|k: Seq<char>| #[trigger] has_key(t, k) == has_key(s, k) by {
        if has_key(t, k) {
            let a = choose|a: int| 0 <= a < t.len() && (#[trigger] t[a]).0 == k;
            assert(s[a].0 == k);
        }
        if has_key(s, k) {
            let a = choose|a: int| 0 <= a < s.len() && (#[trigger] s[a]).0 == k;
            assert(t[a].0 == k);
        }
    }
    assert forall|k: Seq<char>| #[trigger] assoc_map(t).contains_key(k) implies assoc_map(t)[k]
        == assoc_map(s).insert(s[i].0, w)[k] by {
        let a = choose|a: int| 0 <= a < t.len() && (#[trigger] t[a]).0 == k;
        lemma_assoc_map_at(t, a);
        if a != i {
            lemma_assoc_map_at(s, a);
        }
    }
    assert(assoc_map(t) =~= assoc_map(s).insert(s[i].0, w));
}

/// Appending an entry with a new key adds that key to the map.
pub proof fn lemma_assoc_map_push<W>(s: Seq<(Seq<char>, W)>, k: Seq<char>, w: W)
    requires
        keys_distinct(s),
        !has_key(s, k),
    ensures
        keys_distinct(s.push((k, w))),
        assoc_map(s.push((k, w))) == assoc_map(s).insert(k, w),
{
    let t = s.push((k, w));
    assert forall|a: int, b: int| 0 <= a < b < t.len() implies (#[trigger] t[a]).0 != (#[trigger] t[b]).0 by {
        if b == s.len() {
            assert(t[a] == s[a]);
            assert(!(0 <= a < s.len() && s[a].0 == k));
        } else {
            assert(s[a].0 != s[b].0);
        }
    }
    assert forall|x: Seq<char>| #[trigger] has_key(t, x) == (has_key(s, x) || x == k) by {
        if has_key(t, x) {
            let a = choose|a: int| 0 <= a < t.len() && (#[trigger] t[a]).0 == x;
            if a < s.len() {
                assert(s[a].0 == x);
            }
        }
        if has_key(s, x) {
            let a = choose|a: int| 0 <= a < s.len() && (#[trigger] s[a]).0 == x;
            assert(t[a].0 == x);
        }
        if x == k {
            assert(t[s.len() as int].0 == x);
        }
    }
    assert forall|x: Seq<char>| #[trigger] assoc_map(t).contains_key(x) implies assoc_map(t)[x]
        == assoc_map(s).insert(k, w)[x] by {
        let a = choose|a: int| 0 <= a < t.len() && (#[trigger] t[a]).0 == x;
        lemma_assoc_map_at(t, a);
        if a < s.len() {
            lemma_assoc_map_at(s, a);
            assert(t[a] == s[a]);
        }
    }
    assert(assoc_map(t) =~= assoc_map(s).insert(k, w));
}

/// With distinct keys, the map has one key per entry.
pub proof fn lemma_assoc_map_len<W>(s: Seq<(Seq<char>, W)>)
    requires
        keys_distinct(s),
    ensures
        assoc_map(s).dom().finite(),
        assoc_map(s).dom().len() == s.len(),
{
    let ks = s.map_values(|e: (Seq<char>, W)| e.0);
    assert forall|a: int, b: int| 0 <= a < ks.len() && 0 <= b < ks.len() && a != b implies ks[a] != ks[b] by {
        if a < b {
            assert(s[a].0 != s[b].0);
        } else {
            assert(s[b].0 != s[a].0);
        }
    }
    assert(ks.no_duplicates());
    ks.unique_seq_to_set();
    assert forall|x: Seq<char>| #[trigger] assoc_map(s).dom().contains(x) == ks.to_set().contains(x) by {
        if has_key(s, x) {
            let a = choose|a: int| 0 <= a < s.len() && (#[trigger] s[a]).0 == x;
            assert(ks[a] == x);
        }
        if ks.to_set().contains(x) {
            let a = choose|a: int| 0 <= a < ks.len() && ks[a] == x;
            assert(s[a].0 == x);
        }
    }
    assert(assoc_map(s).dom() =~= ks.to_set());
}

/// A map from texts to values; the entries keep their first-insertion order.
#[derive(Debug, Clone)]
pub struct StrMap<V> {
    entries: Vec<(String, V)>,
}

impl<V: View> StrMap<V> {
    /// The entries, each key and value taken by its view.
    pub closed spec fn pairs(&self) -> Seq<(Seq<char>, V::V)> {
        self.entries@.map_values(|e: (String, V)| (e.0@, e.1@))
    }

    /// The keys are distinct.
    pub open spec fn wf(&self) -> bool {
        keys_distinct(self.pairs())
    }

    /// The map held.
    pub open spec fn map(&self) -> Map<Seq<char>, V::V> {
        assoc_map(self.pairs())
    }

    /// An empty map.
    pub fn new() -> (m: Self)
        ensures
            m.wf(),
            m.pairs() == Seq::<(Seq<char>, V::V)>::empty(),
            m.map() == Map::<Seq<char>, V::V>::empty(),
    {
        let m = StrMap { entries: Vec::new() };
        assert(m.pairs() =~= Seq::<(Seq<char>, V::V)>::empty());
        assert(m.map() =~= Map::<Seq<char>, V::V>::empty());
        m
    }

    /// The number of entries.
    pub fn entry_count(&self) -> (n: usize)
        ensures
            n == self.pairs().len(),
    {
        self.entries.len()
    }

    /// The key of entry `i`.
    pub fn key_at(&self, i: usize) -> (k: &String)
        requires
            i < self.pairs().len(),
        ensures
            k@ == self.pairs()[i as int].0,
    {
        &self.entries[i].0
    }

    /// The value of entry `i`.
    pub fn value_at(&self, i: usize) -> (v: &V)
        requires
            i < self.pairs().len(),
        ensures
            v@ == self.pairs()[i as int].1,
    {
        &self.entries[i].1
    }

    /// The position of the entry with key `key`, if any.
    pub fn find(&self, key: &str) -> (r: Option<usize>)
        ensures
            match r {
                Some(i) => i < self.pairs().len() && self.pairs()[i as int].0 == key@,
                None => !has_key(self.pairs(), key@),
            },
    {
        let k = String::from_str(key);
        let mut i: usize = 0;
        while i < self.entries.len()
            invariant
                i <= self.entries@.len(),
                k@ == key@,
                forall|j: int| 0 <= j < i ==> (#[trigger] self.pairs()[j]).0 != key@,
            decreases self.entries.len() - i,
        {
            if self.entries[i].0 == k {
                return Some(i);
            }
            i += 1;
        }
        None
    }

    /// The value held for `key`.
    pub fn get(&self, key: &str) -> (r: Option<&V>)
        requires
            self.wf(),
        ensures
            match r {
                Some(v) => self.map().contains_key(key@) && v@ == self.map()[key@],
                None => !self.map().contains_key(key@),
            },
    {
        match self.find(key) {
            Some(i) => {
                proof {
                    lemma_assoc_map_at(self.pairs(), i as int);
                }
                Some(&self.entries[i].1)
            },
            None => None,
        }
    }

    /// Holds `value` for `key`, replacing what was held for it.
    pub fn insert(&mut self, key: String, value: V)
        requires
            old(self).wf(),
        ensures
            final(self).wf(),
            final(self).map() == old(self).map().insert(key@, value@),
    {
        match self.find(key.as_str()) {
            Some(i) => {
                proof {
                    lemma_assoc_map_update(self.pairs(), i as int, value@);
                }
                let ghost before = self.pairs();
                self.entries.set(i, (key, value));
                assert(self.pairs() =~= before.update(i as int, (before[i as int].0, value@)));
            },
            None => {
                proof {
                    lemma_assoc_map_push(self.pairs(), key@, value@);
                }
                let ghost before = self.pairs();
                let ghost kv = key@;
                let ghost vv = value@;
                self.entries.push((key, value));
                assert(self.pairs() =~= before.push((kv, vv)));
            },
        }
    }

    /// The number of keys.
    pub fn len(&self) -> (n: usize)
        requires
            self.wf(),
        ensures
            self.map().dom().finite(),
            n == self.map().len(),
    {
        proof {
            lemma_assoc_map_len(self.pairs());
        }
        self.entries.len()
    }
}

} // verus!
