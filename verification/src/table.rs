//! A small map from strings to values that keeps each key once.
use vstd::prelude::*;

verus! {

/// A map from string keys to values, kept as a list of pairs in which no key
/// occurs twice; pairs stay in the order their keys were first inserted.
pub struct KeyedTable<V> {
    entries: Vec<(String, V)>,
}

/// Whether some pair of `s` has the key `k`.
pub open spec fn seq_has_key<V>(s: Seq<(String, V)>, k: Seq<char>) -> bool {
    exists|i: int| 0 <= i < s.len() && s[i].0@ == k
}

/// Whether no key occurs twice in `s`.
pub open spec fn keys_distinct<V>(s: Seq<(String, V)>) -> bool {
    forall|i: int, j: int| 0 <= i < s.len() && 0 <= j < s.len() && i != j ==> s[i].0@ != s[j].0@
}

/// The value paired with `k` in `s` (meaningful where `k` occurs).
pub open spec fn seq_value_of<V>(s: Seq<(String, V)>, k: Seq<char>) -> V {
    s[choose|i: int| 0 <= i < s.len() && s[i].0@ == k].1
}

/// The map that a list of pairs with distinct keys stands for.
pub open spec fn seq_to_map<V>(s: Seq<(String, V)>) -> Map<Seq<char>, V> {
    Map::new(|k: Seq<char>| seq_has_key(s, k), |k: Seq<char>| seq_value_of(s, k))
}

/// With distinct keys, the pair at index `i` gives the value of its key.
proof fn lemma_value_at<V>(s: Seq<(String, V)>, i: int)
    requires
        keys_distinct(s),
        0 <= i < s.len(),
    ensures
        seq_has_key(s, s[i].0@),
        seq_value_of(s, s[i].0@) == s[i].1,
{
    let k = s[i].0@;
    assert(0 <= i < s.len() && s[i].0@ == k);
    let j = choose|j: int| 0 <= j < s.len() && s[j].0@ == k;
    assert(j == i);
}

impl<V> View for KeyedTable<V> {
    type V = Map<Seq<char>, V>;

    closed spec fn view(&self) -> Map<Seq<char>, V> {
        seq_to_map(self.entries@)
    }
}

impl<V> KeyedTable<V> {
    /// No key occurs twice in the table's pairs.
    #[verifier::type_invariant]
    spec fn wf(&self) -> bool {
        keys_distinct(self.entries@)
    }

    /// The empty table.
    pub fn new() -> (r: KeyedTable<V>)
        ensures
            r@ == Map::<Seq<char>, V>::empty(),
    {
        let r = KeyedTable { entries: Vec::new() };
        assert(r@ =~= Map::<Seq<char>, V>::empty());
        r
    }

    /// The number of keys.
    pub fn len(&self) -> (r: usize)
        ensures
            r == self@.dom().len(),
    {
        proof {
            use_type_invariant(self);
            self.lemma_dom_len();
        }
        self.entries.len()
    }

    proof fn lemma_dom_len(&self)
        requires
            keys_distinct(self.entries@),
        ensures
            self@.dom().finite(),
            self@.dom().len() == self.entries@.len(),
    {
        let s = self.entries@;
        let keys = s.map_values(|p: (String, V)| p.0@);
        assert forall|i: int, j: int| 0 <= i < keys.len() && 0 <= j < keys.len() && i != j implies
            keys[i] != keys[j] by {}
        keys.unique_seq_to_set();
        assert(self@.dom() =~= keys.to_set()) by {
            assert forall|k: Seq<char>| self@.dom().contains(k) implies keys.to_set().contains(k) by {
                let i = choose|i: int| 0 <= i < s.len() && s[i].0@ == k;
                assert(keys[i] == k);
            }
            assert forall|k: Seq<char>| keys.to_set().contains(k) implies self@.dom().contains(k) by {
                let i = choose|i: int| 0 <= i < keys.len() && keys[i] == k;
                assert(s[i].0@ == k);
            }
        }
    }

    /// The index of the pair whose key is `key`, if there is one.
    fn find(entries: &Vec<(String, V)>, key: &str) -> (r: Option<usize>)
        ensures
            match r {
                Some(i) => i < entries@.len() && entries@[i as int].0@ == key@,
                None => !seq_has_key(entries@, key@),
            },
    {
        let k = key.to_owned();
        let n = entries.len();
        let mut i: usize = 0;
        while i < n
            invariant
                n == entries@.len(),
                i <= n,
                k@ == key@,
                forall|j: int| 0 <= j < i ==> entries@[j].0@ != key@,
            decreases n - i,
        {
            if entries[i].0 == k {
                return Some(i);
            }
            i = i + 1;
        }
        None
    }

    /// The value stored under `key`, if any.
    pub fn get(&self, key: &str) -> (r: Option<&V>)
        ensures
            match r {
                Some(v) => self@.contains_key(key@) && self@[key@] == *v,
                None => !self@.contains_key(key@),
            },
    {
        proof {
            use_type_invariant(self);
        }
        match Self::find(&self.entries, key) {
            Some(i) => {
                proof {
                    lemma_value_at(self.entries@, i as int);
                }
                Some(&self.entries[i].1)
            },
            None => None,
        }
    }

    /// Stores `value` under `key`, replacing the value that was there.
    pub fn insert(&mut self, key: String, value: V)
        ensures
            final(self)@ == old(self)@.insert(key@, value),
    {
        proof {
            use_type_invariant(&*self);
        }
        let ghost k = key@;
        let mut entries: Vec<(String, V)> = Vec::new();
        std::mem::swap(&mut entries, &mut self.entries);
        let ghost s0 = entries@;
        assert(s0 == old(self).entries@);
        match Self::find(&entries, key.as_str()) {
            Some(i) => {
                entries.set(i, (key, value));
                let ghost s1 = entries@;
                assert(keys_distinct(s1)) by {
                    assert forall|a: int, b: int|
                        0 <= a < s1.len() && 0 <= b < s1.len() && a != b implies s1[a].0@
                        != s1[b].0@ by {
                        assert(s0[a].0@ != s0[b].0@);
                    }
                }
                assert(seq_to_map(s1) =~= seq_to_map(s0).insert(k, value)) by {
                    assert forall|x: Seq<char>| #[trigger] seq_has_key(s1, x) == (seq_has_key(s0, x)
                        || x == k) by {
                        if seq_has_key(s0, x) {
                            let j = choose|j: int| 0 <= j < s0.len() && s0[j].0@ == x;
                            assert(s1[j].0@ == x);
                        }
                        if seq_has_key(s1, x) {
                            let j = choose|j: int| 0 <= j < s1.len() && s1[j].0@ == x;
                            assert(s0[j].0@ == x);
                        }
                    }
                    assert forall|x: Seq<char>| seq_has_key(s1, x) implies #[trigger] seq_value_of(
                        s1,
                        x,
                    ) == seq_to_map(s0).insert(k, value)[x] by {
                        let j = choose|j: int| 0 <= j < s1.len() && s1[j].0@ == x;
                        lemma_value_at(s1, j);
                        if x != k {
                            assert(j != i);
                            lemma_value_at(s0, j);
                        }
                    }
                }
            },
            None => {
                entries.push((key, value));
                let ghost s1 = entries@;
                assert(keys_distinct(s1)) by {
                    assert forall|a: int, b: int|
                        0 <= a < s1.len() && 0 <= b < s1.len() && a != b implies s1[a].0@
                        != s1[b].0@ by {
                        if a < s0.len() && b < s0.len() {
                            assert(s0[a].0@ != s0[b].0@);
                        } else if a < s0.len() {
                            assert(s0[a].0@ != k);
                        } else {
                            assert(s0[b].0@ != k);
                        }
                    }
                }
                assert(seq_to_map(s1) =~= seq_to_map(s0).insert(k, value)) by {
                    assert forall|x: Seq<char>| #[trigger] seq_has_key(s1, x) == (seq_has_key(s0, x)
                        || x == k) by {
                        if seq_has_key(s0, x) {
                            let j = choose|j: int| 0 <= j < s0.len() && s0[j].0@ == x;
                            assert(s1[j].0@ == x);
                        }
                        if x == k {
                            assert(s1[s0.len() as int].0@ == x);
                        }
                        if seq_has_key(s1, x) {
                            let j = choose|j: int| 0 <= j < s1.len() && s1[j].0@ == x;
                            if j < s0.len() {
                                assert(s0[j].0@ == x);
                            }
                        }
                    }
                    assert forall|x: Seq<char>| seq_has_key(s1, x) implies #[trigger] seq_value_of(
                        s1,
                        x,
                    ) == seq_to_map(s0).insert(k, value)[x] by {
                        let j = choose|j: int| 0 <= j < s1.len() && s1[j].0@ == x;
                        lemma_value_at(s1, j);
                        if x != k {
                            assert(j < s0.len());
                            lemma_value_at(s0, j);
                        }
                    }
                }
            },
        }
        self.entries = entries;
    }

    /// The pairs of the table in the order their keys were first inserted:
    /// each key of the map occurs in exactly one pair, with its value.
    pub fn entries(&self) -> (r: &Vec<(String, V)>)
        ensures
            keys_distinct(r@),
            forall|i: int|
                0 <= i < r@.len() ==> self@.contains_key(#[trigger] r@[i].0@) && self@[r@[i].0@]
                    == r@[i].1,
            forall|k: Seq<char>| self@.contains_key(k) ==> seq_has_key(r@, k),
    {
        proof {
            use_type_invariant(self);
            assert forall|i: int| 0 <= i < self.entries@.len() implies self@.contains_key(
                #[trigger] self.entries@[i].0@,
            ) && self@[self.entries@[i].0@] == self.entries@[i].1 by {
                lemma_value_at(self.entries@, i);
            }
        }
        &self.entries
    }
}

/// Reading a table after storing `value` under `key` gives `value` for
/// `key`, and for every other key what it gave before.
pub proof fn law_get_after_insert<V>(m: Map<Seq<char>, V>, key: Seq<char>, value: V, other: Seq<char>)
    requires
        other != key,
    ensures
        m.insert(key, value).contains_key(key),
        m.insert(key, value)[key] == value,
        m.insert(key, value).contains_key(other) == m.contains_key(other),
        m.contains_key(other) ==> m.insert(key, value)[other] == m[other],
{
}

} // verus!
