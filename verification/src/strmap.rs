//! A map keyed by strings, kept sorted by key: every lookup is a binary search, and walking it by
//! position visits the keys in ascending order.

use vstd::prelude::*;

use crate::order::{compare_chars, lemma_lex_irreflexive, lemma_lex_transitive, lex_lt, Rank};
use crate::text::chars_of;

verus! {

/// One entry: the key as characters (what the search compares), the key as a `String` (what is
/// handed out), and the value
pub struct Entry<V> {
    chars: Vec<char>,
    name: String,
    value: V,
}

/// A string-keyed map whose entries are sorted by key
pub struct StrMap<V> {
    entries: Vec<Entry<V>>,
}

impl<V: DeepView> StrMap<V> {
    /// The keys, in entry order
    pub closed spec fn keys(&self) -> Seq<Seq<char>> {
        self.entries@.map_values(|e: Entry<V>| e.name@)
    }

    /// The values, in entry order
    pub closed spec fn vals(&self) -> Seq<V::V> {
        self.entries@.map_values(|e: Entry<V>| e.value.deep_view())
    }

    /// The values themselves, in entry order
    pub closed spec fn raw_vals(&self) -> Seq<V> {
        self.entries@.map_values(|e: Entry<V>| e.value)
    }

    /// The entries are sorted by key, strictly: no key occurs twice
    pub closed spec fn wf(&self) -> bool {
        &&& forall|i: int| 0 <= i < self.entries@.len() ==> (#[trigger] self.entries@[i]).chars@ == self.entries@[i].name@
        &&& sorted_keys(self.keys())
    }

    /// The position of key `k`
    pub open spec fn position(&self, k: Seq<char>) -> int {
        choose|i: int| 0 <= i < self.keys().len() && self.keys()[i] == k
    }

    /// The map the entries stand for
    pub open spec fn view(&self) -> Map<Seq<char>, V::V> {
        Map::new(
            |k: Seq<char>| self.keys().contains(k),
            |k: Seq<char>| self.vals()[self.position(k)],
        )
    }

    pub proof fn lemma_lens(&self)
        ensures
            self.keys().len() == self.vals().len(),
            self.keys().len() == self.raw_vals().len(),
            forall|i: int| 0 <= i < self.vals().len() ==> #[trigger] self.vals()[i] == self.raw_vals()[i].deep_view(),
    {
    }

    /// Entry `i` is what the map holds for its key
    pub proof fn lemma_view_at(&self, i: int)
        requires
            self.wf(),
            0 <= i < self.keys().len(),
        ensures
            self@.contains_key(self.keys()[i]),
            self@[self.keys()[i]] == self.vals()[i],
            self.position(self.keys()[i]) == i,
    {
        let k = self.keys()[i];
        assert(self.keys().contains(k));
        let p = self.position(k);
        if p != i {
            if p < i {
                lemma_lex_irreflexive(k);
            } else {
                lemma_lex_irreflexive(k);
            }
        }
    }

    /// Two entries never carry the same key
    pub proof fn lemma_keys_distinct(&self, a: int, b: int)
        requires
            self.wf(),
            0 <= a < self.keys().len(),
            0 <= b < self.keys().len(),
            a != b,
        ensures
            self.keys()[a] != self.keys()[b],
    {
        lemma_lex_irreflexive(self.keys()[a]);
        if a < b {
            assert(lex_lt(self.keys()[a], self.keys()[b]));
        } else {
            assert(lex_lt(self.keys()[b], self.keys()[a]));
        }
    }

    /// A key is in the map exactly when some entry carries it
    pub proof fn lemma_view_dom(&self, k: Seq<char>)
        requires
            self.wf(),
        ensures
            self@.contains_key(k) <==> exists|i: int| 0 <= i < self.keys().len() && self.keys()[i] == k,
    {
    }

    /// The keys are in strictly ascending order
    pub proof fn lemma_sorted(&self)
        requires
            self.wf(),
        ensures
            sorted_keys(self.keys()),
    {
    }

    /// The map holds as many keys as there are entries
    pub proof fn lemma_dom_len(&self)
        requires
            self.wf(),
        ensures
            self@.dom().finite(),
            self@.dom().len() == self.keys().len(),
    {
        let ks = self.keys();
        assert forall|a: int, b: int| 0 <= a < ks.len() && 0 <= b < ks.len() && a != b implies ks[a] != ks[b] by {
            self.lemma_keys_distinct(a, b);
        }
        assert(ks.no_duplicates());
        ks.unique_seq_to_set();
        assert(self@.dom() =~= ks.to_set());
    }

    /// An empty map
    pub fn new() -> (m: Self)
        ensures
            m.wf(),
            m@ == Map::<Seq<char>, V::V>::empty(),
            m.keys().len() == 0,
    {
        let m = StrMap { entries: Vec::new() };
        assert(m@ =~= Map::<Seq<char>, V::V>::empty());
        m
    }

    /// How many keys the map holds
    pub fn len(&self) -> (n: usize)
        ensures
            n == self.keys().len(),
    {
        self.entries.len()
    }

    /// The key of entry `i`
    pub fn key_at(&self, i: usize) -> (k: &String)
        requires
            i < self.keys().len(),
        ensures
            k@ == self.keys()[i as int],
    {
        &self.entries[i].name
    }

    /// The value of entry `i`
    pub fn value_at(&self, i: usize) -> (v: &V)
        requires
            i < self.keys().len(),
        ensures
            v.deep_view() == self.vals()[i as int],
            *v == self.raw_vals()[i as int],
    {
        &self.entries[i].value
    }

    /// Where `k` is (`Ok`), or where it would go (`Err`): every key before that position sorts
    /// before `k`, every key from it on sorts after
    pub fn find(&self, k: &[char]) -> (r: Result<usize, usize>)
        requires
            self.wf(),
        ensures
            match r {
                Ok(i) => i < self.keys().len() && self.keys()[i as int] == k@,
                Err(i) => i <= self.keys().len() && (forall|j: int| 0 <= j < i ==> lex_lt(#[trigger] self.keys()[j], k@)) && (forall|j: int| i <= j < self.keys().len() ==> lex_lt(k@, #[trigger] self.keys()[j])),
            },
    {
        let ghost ks = self.keys();
        let mut lo: usize = 0;
        let mut hi: usize = self.entries.len();
        while lo < hi
            invariant
                self.wf(),
                ks == self.keys(),
                ks.len() == self.entries@.len(),
                lo <= hi <= ks.len(),
                forall|j: int| 0 <= j < lo ==> lex_lt(#[trigger] ks[j], k@),
                forall|j: int| hi <= j < ks.len() ==> lex_lt(k@, #[trigger] ks[j]),
            decreases hi - lo,
        {
            let mid = lo + (hi - lo) / 2;
            let e = &self.entries[mid];
            assert(ks[mid as int] == e.chars@);
            match compare_chars(e.chars.as_slice(), k) {
                Rank::Equal => {
                    return Ok(mid);
                },
                Rank::Less => {
                    assert forall|j: int| 0 <= j < mid + 1 implies lex_lt(#[trigger] ks[j], k@) by {
                        if j < mid {
                            assert(lex_lt(ks[j], ks[mid as int]));
                            lemma_lex_transitive(ks[j], ks[mid as int], k@);
                        }
                    }
                    lo = mid + 1;
                },
                Rank::Greater => {
                    assert forall|j: int| mid <= j < ks.len() implies lex_lt(k@, #[trigger] ks[j]) by {
                        if j > mid {
                            assert(lex_lt(ks[mid as int], ks[j]));
                            lemma_lex_transitive(k@, ks[mid as int], ks[j]);
                        }
                    }
                    hi = mid;
                },
            }
        }
        Err(lo)
    }

    /// Where key `k` is, or `None`
    pub fn index_of(&self, k: &str) -> (r: Option<usize>)
        requires
            self.wf(),
        ensures
            match r {
                Some(i) => i < self.keys().len() && self.keys()[i as int] == k@,
                None => !self@.contains_key(k@),
            },
            r is Some <==> self@.contains_key(k@),
    {
        let chars = chars_of(k);
        match self.find(chars.as_slice()) {
            Ok(i) => {
                proof {
                    self.lemma_view_at(i as int);
                }
                Some(i)
            },
            Err(i) => {
                proof {
                    if self@.contains_key(k@) {
                        let j = choose|j: int| 0 <= j < self.keys().len() && self.keys()[j] == k@;
                        lemma_lex_irreflexive(k@);
                        if j < i {
                            assert(lex_lt(self.keys()[j], k@));
                        } else {
                            assert(lex_lt(k@, self.keys()[j]));
                        }
                    }
                }
                None
            },
        }
    }

    /// The value of key `k`, or `None`
    pub fn get(&self, k: &str) -> (r: Option<&V>)
        requires
            self.wf(),
        ensures
            r is Some <==> self@.contains_key(k@),
            r matches Some(v) ==> v.deep_view() == self@[k@],
    {
        match self.index_of(k) {
            Some(i) => {
                proof {
                    self.lemma_view_at(i as int);
                }
                Some(&self.entries[i].value)
            },
            None => None,
        }
    }

    /// Whether the map holds key `k`
    pub fn contains_key(&self, k: &str) -> (r: bool)
        requires
            self.wf(),
        ensures
            r == self@.contains_key(k@),
    {
        self.index_of(k).is_some()
    }

    /// Map `k` to `v`, replacing what `k` mapped to before
    pub fn insert(&mut self, k: String, v: V)
        requires
            old(self).wf(),
        ensures
            final(self).wf(),
            final(self)@ == old(self)@.insert(k@, v.deep_view()),
    {
        let chars = chars_of(k.as_str());
        let ghost old_keys = self.keys();
        let ghost old_vals = self.vals();
        let ghost old_view = self@;
        match self.find(chars.as_slice()) {
            Ok(i) => {
                let ghost dv = v.deep_view();
                self.entries.set(i, Entry { chars, name: k, value: v });
                proof {
                    assert(self.keys() =~= old_keys);
                    assert(self.vals() =~= old_vals.update(i as int, dv));
                    assert forall|x: int| 0 <= x < self.entries@.len() implies (#[trigger] self.entries@[x]).chars@ == self.entries@[x].name@ by {
                        if x != i {
                            assert(self.entries@[x] == old(self).entries@[x]);
                        }
                    }
                    assert(self.wf());
                    assert forall|key: Seq<char>| #[trigger] self@.contains_key(key) == old_view.insert(k@, dv).contains_key(key) by {
                        old(self).lemma_view_dom(key);
                        self.lemma_view_dom(key);
                    }
                    assert forall|key: Seq<char>| self@.contains_key(key) implies #[trigger] self@[key] == old_view.insert(k@, dv)[key] by {
                        self.lemma_view_dom(key);
                        let j = choose|j: int| 0 <= j < self.keys().len() && self.keys()[j] == key;
                        self.lemma_view_at(j);
                        lemma_lex_irreflexive(k@);
                        if j != i {
                            old(self).lemma_view_at(j);
                            if j < i {
                                assert(lex_lt(old_keys[j], old_keys[i as int]));
                            } else {
                                assert(lex_lt(old_keys[i as int], old_keys[j]));
                            }
                            assert(key != k@);
                        } else {
                            assert(self.vals()[j] == dv);
                        }
                    }
                    assert(self@ =~= old_view.insert(k@, dv));
                }
            },
            Err(i) => {
                let ghost dv = v.deep_view();
                self.entries.insert(i, Entry { chars, name: k, value: v });
                proof {
                    assert(self.keys() =~= old_keys.insert(i as int, k@));
                    assert(self.vals() =~= old_vals.insert(i as int, dv));
                    assert forall|x: int| 0 <= x < self.entries@.len() implies (#[trigger] self.entries@[x]).chars@ == self.entries@[x].name@ by {
                        if x < i {
                            assert(self.entries@[x] == old(self).entries@[x]);
                        } else if x > i {
                            assert(self.entries@[x] == old(self).entries@[x - 1]);
                        }
                    }
                    let ks = self.keys();
                    assert forall|a: int, b: int| 0 <= a < b < ks.len() implies lex_lt(#[trigger] ks[a], #[trigger] ks[b]) by {
                        if b < i {
                            assert(lex_lt(old_keys[a], old_keys[b]));
                        } else if a > i {
                            assert(lex_lt(old_keys[a - 1], old_keys[b - 1]));
                        } else if a < i && b > i {
                            assert(lex_lt(old_keys[a], old_keys[b - 1]));
                        } else if a == i {
                            assert(lex_lt(k@, old_keys[b - 1]));
                        } else {
                            assert(lex_lt(old_keys[a], k@));
                        }
                    }
                    assert(self.wf());
                    assert forall|key: Seq<char>| #[trigger] self@.contains_key(key) == old_view.insert(k@, dv).contains_key(key) by {
                        old(self).lemma_view_dom(key);
                        self.lemma_view_dom(key);
                        if old_view.contains_key(key) {
                            let j = choose|j: int| 0 <= j < old_keys.len() && old_keys[j] == key;
                            if j < i {
                                assert(ks[j] == key);
                            } else {
                                assert(ks[j + 1] == key);
                            }
                        }
                        if key == k@ {
                            assert(ks[i as int] == key);
                        }
                        if self@.contains_key(key) {
                            let j = choose|j: int| 0 <= j < ks.len() && ks[j] == key;
                            if j < i {
                                assert(old_keys[j] == key);
                            } else if j > i {
                                assert(old_keys[j - 1] == key);
                            }
                        }
                    }
                    assert forall|key: Seq<char>| self@.contains_key(key) implies #[trigger] self@[key] == old_view.insert(k@, dv)[key] by {
                        self.lemma_view_dom(key);
                        let j = choose|j: int| 0 <= j < ks.len() && ks[j] == key;
                        self.lemma_view_at(j);
                        lemma_lex_irreflexive(k@);
                        if j < i {
                            old(self).lemma_view_at(j);
                            assert(lex_lt(old_keys[j], k@));
                            assert(self.vals()[j] == old_vals[j]);
                        } else if j > i {
                            old(self).lemma_view_at(j - 1);
                            assert(lex_lt(k@, old_keys[j - 1]));
                            assert(self.vals()[j] == old_vals[j - 1]);
                        } else {
                            assert(self.vals()[j] == dv);
                        }
                    }
                    assert(self@ =~= old_view.insert(k@, dv));
                }
            },
        }
    }
}

impl<V: DeepView> StrMap<V> {
    /// Replace the value of entry `i`, keeping its key
    pub fn set_value_at(&mut self, i: usize, v: V)
        requires
            old(self).wf(),
            i < old(self).keys().len(),
        ensures
            final(self).wf(),
            final(self).keys() == old(self).keys(),
            final(self).vals() == old(self).vals().update(i as int, v.deep_view()),
            final(self)@ == old(self)@.insert(old(self).keys()[i as int], v.deep_view()),
    {
        let ghost old_view = self@;
        let ghost dv = v.deep_view();
        let ghost k = self.keys()[i as int];
        let e = self.entries.remove(i);
        self.entries.insert(i, Entry { chars: e.chars, name: e.name, value: v });
        proof {
            assert(self.entries@ =~= old(self).entries@.update(i as int, Entry { chars: e.chars, name: e.name, value: v }));
            assert(self.keys() =~= old(self).keys());
            assert(self.vals() =~= old(self).vals().update(i as int, dv));
            assert forall|x: int| 0 <= x < self.entries@.len() implies (#[trigger] self.entries@[x]).chars@ == self.entries@[x].name@ by {
                assert(old(self).entries@[x].chars@ == old(self).entries@[x].name@);
            }
            assert(self.wf());
            assert forall|key: Seq<char>| #[trigger] self@.contains_key(key) == old_view.insert(k, dv).contains_key(key) by {
                old(self).lemma_view_dom(key);
                self.lemma_view_dom(key);
                old(self).lemma_view_at(i as int);
            }
            assert forall|key: Seq<char>| self@.contains_key(key) implies #[trigger] self@[key] == old_view.insert(k, dv)[key] by {
                self.lemma_view_dom(key);
                let j = choose|j: int| 0 <= j < self.keys().len() && self.keys()[j] == key;
                self.lemma_view_at(j);
                if j != i {
                    old(self).lemma_view_at(j);
                    lemma_lex_irreflexive(key);
                    if j < i {
                        assert(lex_lt(self.keys()[j], self.keys()[i as int]));
                    } else {
                        assert(lex_lt(self.keys()[i as int], self.keys()[j]));
                    }
                }
            }
            assert(self@ =~= old_view.insert(k, dv));
        }
    }
}

/// Keys in strictly ascending order
pub open spec fn sorted_keys(ks: Seq<Seq<char>>) -> bool {
    forall|a: int, b: int| 0 <= a < b < ks.len() ==> lex_lt(#[trigger] ks[a], #[trigger] ks[b])
}

} // verus!
