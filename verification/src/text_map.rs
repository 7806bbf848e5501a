//! A map keyed by text, kept in key order: what the stored worktree metadata
//! is made of, written out in a stable order so the file does not churn.

use vstd::prelude::*;

use crate::text::{chars_of, lemma_lex_lt_irreflexive, lemma_lex_lt_total, lemma_lex_lt_transitive, lex_less, lex_lt, seq_eq};

verus! {

/// Entries with distinct keys, in ascending key order.
pub struct TextMap<V> {
    entries: Vec<(String, V)>,
}

/// The keys of a list of entries.
pub open spec fn keys_of<V>(entries: Seq<(String, V)>) -> Seq<Seq<char>> {
    Seq::new(entries.len(), |i: int| entries[i].0@)
}

/// Keys strictly ascending.
pub open spec fn ascending(keys: Seq<Seq<char>>) -> bool {
    forall|i: int, j: int| 0 <= i < j < keys.len() ==> lex_lt(keys[i], keys[j])
}

/// The map a list of entries with distinct keys stands for.
pub open spec fn map_of<V>(entries: Seq<(String, V)>) -> Map<Seq<char>, V>
    decreases entries.len(),
{
    if entries.len() == 0 {
        Map::empty()
    } else {
        map_of(entries.drop_last()).insert(entries.last().0@, entries.last().1)
    }
}

proof fn lemma_map_of_keys<V>(entries: Seq<(String, V)>)
    ensures
        forall|k: Seq<char>| #[trigger] map_of(entries).contains_key(k) <==> keys_of(entries).contains(k),
    decreases entries.len(),
{
    if entries.len() > 0 {
        let init = entries.drop_last();
        lemma_map_of_keys(init);
        let last = entries.len() - 1;
        assert(map_of(entries) == map_of(init).insert(entries.last().0@, entries.last().1));
        assert(keys_of(entries)[last] == entries.last().0@);
        assert forall|i: int| 0 <= i < init.len() implies keys_of(init)[i] == keys_of(entries)[i] by {}
        assert forall|k: Seq<char>| #[trigger] map_of(entries).contains_key(k) <==> keys_of(entries).contains(k) by {
            if map_of(init).contains_key(k) {
                assert(keys_of(init).contains(k));
                let i = choose|i: int| 0 <= i < keys_of(init).len() && keys_of(init)[i] == k;
                assert(keys_of(entries)[i] == k);
                assert(keys_of(entries).contains(k));
            }
            if k == entries.last().0@ {
                assert(keys_of(entries)[last] == k);
            }
            if keys_of(entries).contains(k) {
                let i = choose|i: int| 0 <= i < keys_of(entries).len() && keys_of(entries)[i] == k;
                if i < init.len() {
                    assert(keys_of(init)[i] == k);
                    assert(keys_of(init).contains(k));
                }
            }
        }
    }
}

/// In a list with distinct keys, the entry at `i` is what its key maps to.
proof fn lemma_map_of_at<V>(entries: Seq<(String, V)>, i: int)
    requires
        0 <= i < entries.len(),
        ascending(keys_of(entries)),
    ensures
        map_of(entries).contains_key(entries[i].0@),
        map_of(entries)[entries[i].0@] == entries[i].1,
    decreases entries.len(),
{
    let init = entries.drop_last();
    assert(ascending(keys_of(init))) by {
        assert forall|a: int, b: int| 0 <= a < b < keys_of(init).len() implies lex_lt(keys_of(init)[a], keys_of(init)[b]) by {
            assert(keys_of(init)[a] == keys_of(entries)[a]);
            assert(keys_of(init)[b] == keys_of(entries)[b]);
        }
    }
    if i < entries.len() - 1 {
        lemma_map_of_at(init, i);
        assert(keys_of(entries)[i] == entries[i].0@);
        assert(keys_of(entries)[entries.len() - 1] == entries.last().0@);
        assert(lex_lt(entries[i].0@, entries.last().0@));
        lemma_lex_lt_irreflexive(entries[i].0@);
        assert(init[i] == entries[i]);
    }
}

/// A list with ascending keys stands for `m` when it holds exactly `m`'s
/// keys, each with `m`'s value.
proof fn lemma_map_ext<V>(entries: Seq<(String, V)>, m: Map<Seq<char>, V>)
    requires
        ascending(keys_of(entries)),
        forall|k: Seq<char>| #[trigger] m.contains_key(k) <==> keys_of(entries).contains(k),
        forall|i: int| 0 <= i < entries.len() ==> m[#[trigger] entries[i].0@] == entries[i].1,
    ensures
        map_of(entries) == m,
{
    lemma_map_of_keys(entries);
    assert forall|k: Seq<char>| #[trigger] map_of(entries).contains_key(k) implies map_of(entries)[k] == m[k] by {
        let i = choose|i: int| 0 <= i < keys_of(entries).len() && keys_of(entries)[i] == k;
        lemma_map_of_at(entries, i);
        assert(entries[i].0@ == k);
    }
    assert(map_of(entries) =~= m);
}

proof fn lemma_ascending_parts(ks: Seq<Seq<char>>)
    requires
        ascending(ks),
    ensures
        forall|i: int, j: int| 0 <= i < ks.len() && 0 <= j < ks.len() && i != j ==> ks[i] != ks[j],
{
    assert forall|i: int, j: int| 0 <= i < ks.len() && 0 <= j < ks.len() && i != j implies ks[i] != ks[j] by {
        if i < j {
            lemma_lex_lt_irreflexive(ks[i]);
        } else {
            lemma_lex_lt_irreflexive(ks[j]);
        }
    }
}

impl<V> TextMap<V> {
    pub closed spec fn wf(&self) -> bool {
        ascending(keys_of(self.entries@))
    }

    /// The keys, in ascending order.
    pub closed spec fn keys(&self) -> Seq<Seq<char>> {
        keys_of(self.entries@)
    }

    pub closed spec fn as_map(&self) -> Map<Seq<char>, V> {
        map_of(self.entries@)
    }

    /// An empty map.
    pub fn new() -> (r: TextMap<V>)
        ensures
            r.wf(),
            r.as_map() == Map::<Seq<char>, V>::empty(),
            r.keys().len() == 0,
    {
        let r = TextMap { entries: Vec::new() };
        assert(keys_of(r.entries@) =~= Seq::<Seq<char>>::empty());
        r
    }

    pub fn len(&self) -> (r: usize)
        ensures
            r == self.keys().len(),
    {
        self.entries.len()
    }

    pub fn is_empty(&self) -> (r: bool)
        requires
            self.wf(),
        ensures
            r == (self.as_map() == Map::<Seq<char>, V>::empty()),
            r == (self.keys().len() == 0),
    {
        proof {
            lemma_map_of_keys(self.entries@);
            if self.entries@.len() > 0 {
                assert(keys_of(self.entries@).contains(keys_of(self.entries@)[0]));
                assert(self.as_map().contains_key(keys_of(self.entries@)[0]));
                assert(!Map::<Seq<char>, V>::empty().contains_key(keys_of(self.entries@)[0]));
            }
        }
        self.entries.len() == 0
    }

    /// The key and value at position `i` in key order.
    pub fn entry_at(&self, i: usize) -> (r: (&String, &V))
        requires
            self.wf(),
            i < self.keys().len(),
        ensures
            r.0@ == self.keys()[i as int],
            self.as_map().contains_key(r.0@),
            self.as_map()[r.0@] == *r.1,
    {
        proof {
            lemma_map_of_at(self.entries@, i as int);
        }
        let e = &self.entries[i];
        (&e.0, &e.1)
    }

    /// Where `key` is, or where it would go.
    fn position(&self, key: &[char]) -> (r: (usize, bool))
        requires
            self.wf(),
        ensures
            r.0 <= self.keys().len(),
            r.1 ==> r.0 < self.keys().len() && self.keys()[r.0 as int] == key@,
            !r.1 ==> forall|i: int| 0 <= i < r.0 ==> lex_lt(#[trigger] self.keys()[i], key@),
            !r.1 ==> forall|i: int| r.0 <= i < self.keys().len() ==> lex_lt(key@, #[trigger] self.keys()[i]),
    {
        let n = self.entries.len();
        let ghost ks = self.keys();
        let mut i: usize = 0;
        while i < n
            invariant
                n == ks.len(),
                ks == keys_of(self.entries@),
                ascending(ks),
                0 <= i <= n,
                forall|j: int| 0 <= j < i ==> lex_lt(#[trigger] ks[j], key@),
            decreases n - i,
        {
            let k = chars_of(self.entries[i].0.as_str());
            assert(k@ == ks[i as int]);
            if seq_eq(k.as_slice(), key) {
                return (i, true);
            }
            if !lex_less(k.as_slice(), key) {
                proof {
                    lemma_lex_lt_total(k@, key@);
                    assert forall|j: int| i <= j < ks.len() implies lex_lt(key@, #[trigger] ks[j]) by {
                        if j > i {
                            lemma_lex_lt_transitive(key@, ks[i as int], ks[j]);
                        }
                    }
                }
                return (i, false);
            }
            i = i + 1;
        }
        (n, false)
    }

    /// The value stored under `key`.
    pub fn get(&self, key: &str) -> (r: Option<&V>)
        requires
            self.wf(),
        ensures
            match r {
                Some(v) => self.as_map().contains_key(key@) && self.as_map()[key@] == *v,
                None => !self.as_map().contains_key(key@),
            },
    {
        let k = chars_of(key);
        let (i, found) = self.position(k.as_slice());
        proof {
            lemma_map_of_keys(self.entries@);
        }
        if found {
            proof {
                lemma_map_of_at(self.entries@, i as int);
            }
            Some(&self.entries[i].1)
        } else {
            proof {
                if self.keys().contains(key@) {
                    let j = choose|j: int| 0 <= j < self.keys().len() && self.keys()[j] == key@;
                    lemma_lex_lt_irreflexive(key@);
                    if j < i {
                        assert(lex_lt(self.keys()[j], key@));
                    } else {
                        assert(lex_lt(key@, self.keys()[j]));
                    }
                }
            }
            None
        }
    }

    /// Stores `value` under `key`, replacing what was there.
    pub fn insert(&mut self, key: String, value: V)
        requires
            old(self).wf(),
        ensures
            final(self).wf(),
            final(self).as_map() == old(self).as_map().insert(key@, value),
    {
        let k = chars_of(key.as_str());
        let (p, found) = self.position(k.as_slice());
        let ghost old_entries = self.entries@;
        let ghost kv = key@;
        let ghost m = map_of(old_entries).insert(kv, value);
        proof {
            lemma_map_of_keys(old_entries);
            lemma_ascending_parts(keys_of(old_entries));
        }
        if found {
            self.entries.set(p, (key, value));
            proof {
                let ne = self.entries@;
                assert(keys_of(ne) =~= keys_of(old_entries));
                assert forall|k2: Seq<char>| #[trigger] m.contains_key(k2) <==> keys_of(ne).contains(k2) by {
                    if k2 == kv {
                        assert(keys_of(ne)[p as int] == kv);
                    }
                }
                assert forall|i: int| 0 <= i < ne.len() implies m[#[trigger] ne[i].0@] == ne[i].1 by {
                    if i != p {
                        lemma_map_of_at(old_entries, i);
                        assert(ne[i] == old_entries[i]);
                        assert(keys_of(old_entries)[i] != keys_of(old_entries)[p as int]);
                    }
                }
                lemma_map_ext(ne, m);
            }
        } else {
            self.entries.insert(p, (key, value));
            proof {
                let ne = self.entries@;
                let ok = keys_of(old_entries);
                assert(keys_of(ne) =~= ok.insert(p as int, kv));
                assert forall|a: int, b: int| 0 <= a < b < keys_of(ne).len() implies lex_lt(keys_of(ne)[a], keys_of(ne)[b]) by {
                    if b < p {
                    } else if b == p {
                    } else if a < p {
                        assert(keys_of(ne)[b] == ok[b - 1]);
                    } else if a == p {
                        assert(keys_of(ne)[b] == ok[b - 1]);
                    } else {
                        assert(keys_of(ne)[a] == ok[a - 1]);
                        assert(keys_of(ne)[b] == ok[b - 1]);
                    }
                }
                assert forall|k2: Seq<char>| #[trigger] m.contains_key(k2) <==> keys_of(ne).contains(k2) by {
                    if k2 == kv {
                        assert(keys_of(ne)[p as int] == kv);
                    }
                    if ok.contains(k2) {
                        let i = choose|i: int| 0 <= i < ok.len() && ok[i] == k2;
                        if i < p {
                            assert(keys_of(ne)[i] == k2);
                        } else {
                            assert(keys_of(ne)[i + 1] == k2);
                        }
                    }
                    if keys_of(ne).contains(k2) && k2 != kv {
                        let i = choose|i: int| 0 <= i < keys_of(ne).len() && keys_of(ne)[i] == k2;
                        if i < p {
                            assert(ok[i] == k2);
                        } else {
                            assert(ok[i - 1] == k2);
                        }
                    }
                }
                assert forall|i: int| 0 <= i < ne.len() implies m[#[trigger] ne[i].0@] == ne[i].1 by {
                    if i < p {
                        lemma_map_of_at(old_entries, i);
                        assert(ne[i] == old_entries[i]);
                        assert(lex_lt(ok[i], kv));
                        lemma_lex_lt_irreflexive(kv);
                    } else if i > p {
                        lemma_map_of_at(old_entries, i - 1);
                        assert(ne[i] == old_entries[i - 1]);
                        assert(lex_lt(kv, ok[i - 1]));
                        lemma_lex_lt_irreflexive(kv);
                    }
                }
                lemma_map_ext(ne, m);
            }
        }
    }

    /// Forgets what is stored under `key`.
    pub fn remove(&mut self, key: &str)
        requires
            old(self).wf(),
        ensures
            final(self).wf(),
            final(self).as_map() == old(self).as_map().remove(key@),
    {
        let k = chars_of(key);
        let (p, found) = self.position(k.as_slice());
        let ghost old_entries = self.entries@;
        let ghost kv = key@;
        let ghost m = map_of(old_entries).remove(kv);
        proof {
            lemma_map_of_keys(old_entries);
            lemma_ascending_parts(keys_of(old_entries));
        }
        if found {
            let _ = self.entries.remove(p);
            proof {
                let ne = self.entries@;
                let ok = keys_of(old_entries);
                assert(keys_of(ne) =~= ok.remove(p as int));
                assert forall|a: int, b: int| 0 <= a < b < keys_of(ne).len() implies lex_lt(keys_of(ne)[a], keys_of(ne)[b]) by {
                    if b < p {
                    } else if a < p {
                        assert(keys_of(ne)[b] == ok[b + 1]);
                    } else {
                        assert(keys_of(ne)[a] == ok[a + 1]);
                        assert(keys_of(ne)[b] == ok[b + 1]);
                    }
                }
                assert forall|k2: Seq<char>| #[trigger] m.contains_key(k2) <==> keys_of(ne).contains(k2) by {
                    if ok.contains(k2) && k2 != kv {
                        let i = choose|i: int| 0 <= i < ok.len() && ok[i] == k2;
                        if i < p {
                            assert(keys_of(ne)[i] == k2);
                        } else {
                            assert(i != p);
                            assert(keys_of(ne)[i - 1] == k2);
                        }
                    }
                    if keys_of(ne).contains(k2) {
                        let i = choose|i: int| 0 <= i < keys_of(ne).len() && keys_of(ne)[i] == k2;
                        if i < p {
                            assert(ok[i] == k2);
                            assert(i != p);
                        } else {
                            assert(ok[i + 1] == k2);
                            assert(i + 1 != p);
                        }
                    }
                }
                assert forall|i: int| 0 <= i < ne.len() implies m[#[trigger] ne[i].0@] == ne[i].1 by {
                    assert(ok[p as int] == kv);
                    if i < p {
                        lemma_map_of_at(old_entries, i);
                        assert(ne[i] == old_entries[i]);
                        assert(ok[i] != ok[p as int]);
                        assert(ok[i] == old_entries[i].0@);
                    } else {
                        lemma_map_of_at(old_entries, i + 1);
                        assert(ne[i] == old_entries[i + 1]);
                        assert(ok[i + 1] != ok[p as int]);
                        assert(ok[i + 1] == old_entries[i + 1].0@);
                    }
                }
                lemma_map_ext(ne, m);
            }
        } else {
            proof {
                let ok = keys_of(old_entries);
                if ok.contains(kv) {
                    let j = choose|j: int| 0 <= j < ok.len() && ok[j] == kv;
                    lemma_lex_lt_irreflexive(kv);
                    if j < p {
                        assert(lex_lt(ok[j], kv));
                    } else {
                        assert(lex_lt(kv, ok[j]));
                    }
                }
                assert(map_of(old_entries).remove(kv) =~= map_of(old_entries));
            }
        }
    }

    /// A key is stored exactly when it is one of the listed keys.
    pub proof fn lemma_keys(&self, k: Seq<char>)
        ensures
            self.as_map().contains_key(k) <==> self.keys().contains(k),
    {
        lemma_map_of_keys(self.entries@);
    }
}

} // verus!
