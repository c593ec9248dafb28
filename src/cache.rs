//! The in-memory credential snapshot: public key to secret, built once.

use vstd::prelude::*;

verus! {

/// A credential pair as text: (public key, secret).
pub type Entry = (String, String);

/// What an entry stands for: the characters of its key and of its secret.
pub open spec fn entry_view(e: Entry) -> (Seq<char>, Seq<char>) {
    (e.0@, e.1@)
}

/// The texts of a sequence of entries, in order.
pub open spec fn entries_view(s: Seq<Entry>) -> Seq<(Seq<char>, Seq<char>)> {
    s.map_values(|e: Entry| entry_view(e))
}

/// The mapping obtained by inserting each pair in order into an empty map:
/// a later pair with the same key replaces an earlier one.
pub open spec fn map_of(s: Seq<(Seq<char>, Seq<char>)>) -> Map<Seq<char>, Seq<char>>
    decreases s.len(),
{
    if s.len() == 0 {
        Map::empty()
    } else {
        map_of(s.drop_last()).insert(s.last().0, s.last().1)
    }
}

/// No two pairs share a key.
pub open spec fn keys_unique(s: Seq<(Seq<char>, Seq<char>)>) -> bool {
    forall|i: int, j: int| 0 <= i < s.len() && 0 <= j < s.len() && i != j ==> s[i].0 != s[j].0
}

/// Some pair of the sequence has key `k`.
pub open spec fn has_key(s: Seq<(Seq<char>, Seq<char>)>, k: Seq<char>) -> bool {
    exists|i: int| 0 <= i < s.len() && s[i].0 == k
}

/// A key is in the map exactly when some pair carries it.
pub proof fn lemma_map_of_domain(s: Seq<(Seq<char>, Seq<char>)>, k: Seq<char>)
    ensures
        map_of(s).contains_key(k) <==> has_key(s, k),
    decreases s.len(),
{
    if s.len() > 0 {
        let p = s.drop_last();
        lemma_map_of_domain(p, k);
        if has_key(p, k) {
            let i = choose|i: int| 0 <= i < p.len() && p[i].0 == k;
            assert(s[i].0 == k);
        }
        if has_key(s, k) {
            let i = choose|i: int| 0 <= i < s.len() && s[i].0 == k;
            if i < s.len() - 1 {
                assert(p[i].0 == k);
            }
        }
    }
}

/// The value under a key is the secret of the last pair that carries it.
pub proof fn lemma_map_of_last(s: Seq<(Seq<char>, Seq<char>)>, j: int)
    requires
        0 <= j < s.len(),
        forall|i: int| j < i < s.len() ==> s[i].0 != s[j].0,
    ensures
        map_of(s).contains_key(s[j].0),
        map_of(s)[s[j].0] == s[j].1,
    decreases s.len(),
{
    if j < s.len() - 1 {
        let p = s.drop_last();
        assert(p[j] == s[j]);
        lemma_map_of_last(p, j);
    }
}

/// With unique keys, the map has one entry per pair.
pub proof fn lemma_map_of_len(s: Seq<(Seq<char>, Seq<char>)>)
    requires
        keys_unique(s),
    ensures
        map_of(s).dom().finite(),
        map_of(s).dom().len() == s.len(),
    decreases s.len(),
{
    if s.len() > 0 {
        let p = s.drop_last();
        assert(keys_unique(p)) by {
            assert forall|i: int, j: int|
                0 <= i < p.len() && 0 <= j < p.len() && i != j implies p[i].0 != p[j].0 by {
                assert(p[i] == s[i] && p[j] == s[j]);
            }
        }
        lemma_map_of_len(p);
        lemma_map_of_domain(p, s.last().0);
        if has_key(p, s.last().0) {
            let i = choose|i: int| 0 <= i < p.len() && p[i].0 == s.last().0;
            assert(s[i].0 == s[s.len() - 1].0);
        }
        assert(map_of(s).dom() =~= map_of(p).dom().insert(s.last().0));
    }
}

/// Built from pairs whose public keys are distinct, the cache answers a lookup
/// with a hit for exactly those keys, each giving its own secret, and with a
/// miss for every other string, the empty string included.
pub proof fn law_distinct_keys_hit_exactly(pairs: Seq<Entry>)
    requires
        keys_unique(entries_view(pairs)),
    ensures
        forall|k: Seq<char>| #[trigger]
            map_of(entries_view(pairs)).contains_key(k) <==> has_key(entries_view(pairs), k),
        forall|i: int|
            0 <= i < pairs.len() ==> #[trigger] map_of(entries_view(pairs))[pairs[i].0@]
                == pairs[i].1@,
{
    let v = entries_view(pairs);
    assert forall|k: Seq<char>| #[trigger] map_of(v).contains_key(k) <==> has_key(v, k) by {
        lemma_map_of_domain(v, k);
    }
    assert forall|i: int| 0 <= i < pairs.len() implies #[trigger] map_of(v)[pairs[i].0@]
        == pairs[i].1@ by {
        assert(v[i] == (pairs[i].0@, pairs[i].1@));
        lemma_map_of_last(v, i);
    }
}

/// When public keys repeat, the secret kept under a key is the one of its
/// last occurrence in load order.
pub proof fn law_last_write_wins(pairs: Seq<Entry>, j: int)
    requires
        0 <= j < pairs.len(),
        forall|i: int| j < i < pairs.len() ==> pairs[i].0@ != pairs[j].0@,
    ensures
        map_of(entries_view(pairs)).contains_key(pairs[j].0@),
        map_of(entries_view(pairs))[pairs[j].0@] == pairs[j].1@,
{
    let v = entries_view(pairs);
    assert forall|i: int| j < i < v.len() implies v[i].0 != v[j].0 by {
        assert(v[i].0 == pairs[i].0@);
    }
    lemma_map_of_last(v, j);
}

/// An immutable mapping from public key to secret.
///
/// It holds the pairs with keys kept unique; once built it is only read, so
/// any number of readers may share it.
pub struct CredentialCache {
    entries: Vec<Entry>,
}

impl View for CredentialCache {
    type V = Map<Seq<char>, Seq<char>>;

    closed spec fn view(&self) -> Map<Seq<char>, Seq<char>> {
        map_of(entries_view(self.entries@))
    }
}

impl CredentialCache {
    /// The stored pairs have distinct keys.
    pub closed spec fn wf(&self) -> bool {
        keys_unique(entries_view(self.entries@))
    }

    /// Builds the cache from pairs taken in order; on a repeated key the
    /// later secret wins.
    pub fn build(pairs: &Vec<Entry>) -> (r: CredentialCache)
        ensures
            r.wf(),
            r@ == map_of(entries_view(pairs@)),
    {
        let mut entries: Vec<Entry> = Vec::new();
        let n = pairs.len();
        let mut k: usize = 0;
        while k < n
            invariant
                n == pairs@.len(),
                k <= n,
                keys_unique(entries_view(entries@)),
                map_of(entries_view(entries@)) == map_of(entries_view(pairs@.take(k as int))),
            decreases n - k,
        {
            let key = pairs[k].0.clone();
            let secret = pairs[k].1.clone();
            let ghost before = entries_view(entries@);
            let ghost pk = entries_view(pairs@.take(k as int));
            let ghost pk1 = entries_view(pairs@.take(k as int + 1));
            assert(pk1.drop_last() =~= pk);
            assert(pk1.last() == (key@, secret@));
            let pos = Self::position(&entries, &key);
            match pos {
                Some(i) => {
                    entries.set(i, (key, secret));
                    proof {
                        let after = entries_view(entries@);
                        assert(after =~= before.update(i as int, (key@, secret@)));
                        assert(before[i as int].0 == key@);
                        assert forall|a: int, b: int|
                            0 <= a < after.len() && 0 <= b < after.len() && a != b implies after[a].0
                            != after[b].0 by {
                            assert(after[a].0 == before[a].0 && after[b].0 == before[b].0);
                        }
                        assert(map_of(after) =~= map_of(before).insert(key@, secret@)) by {
                            assert forall|q: Seq<char>|
                                #[trigger] map_of(after).contains_key(q)
                                    <==> map_of(before).insert(key@, secret@).contains_key(q) by {
                                lemma_map_of_domain(after, q);
                                lemma_map_of_domain(before, q);
                                if q == key@ {
                                    assert(after[i as int].0 == q);
                                }
                                if has_key(before, q) {
                                    let j = choose|j: int| 0 <= j < before.len() && before[j].0 == q;
                                    assert(after[j].0 == q);
                                }
                                if has_key(after, q) {
                                    let j = choose|j: int| 0 <= j < after.len() && after[j].0 == q;
                                    if j != i {
                                        assert(before[j].0 == q);
                                    }
                                }
                            }
                            assert forall|q: Seq<char>| #[trigger]
                                map_of(after).contains_key(q) implies map_of(after)[q]
                                == map_of(before).insert(key@, secret@)[q] by {
                                lemma_map_of_domain(after, q);
                                let j = choose|j: int| 0 <= j < after.len() && after[j].0 == q;
                                lemma_map_of_last(after, j);
                                if j != i {
                                    assert(before[j] == after[j]);
                                    lemma_map_of_last(before, j);
                                }
                            }
                        }
                    }
                },
                None => {
                    entries.push((key, secret));
                    proof {
                        let after = entries_view(entries@);
                        assert(after =~= before.push((key@, secret@)));
                        assert(after.drop_last() =~= before);
                        assert forall|a: int, b: int|
                            0 <= a < after.len() && 0 <= b < after.len() && a != b implies after[a].0
                            != after[b].0 by {
                            if a == before.len() {
                                assert(before[b].0 == after[b].0);
                            }
                            if b == before.len() {
                                assert(before[a].0 == after[a].0);
                            }
                        }
                    }
                },
            }
            k = k + 1;
        }
        assert(pairs@.take(n as int) =~= pairs@);
        CredentialCache { entries }
    }

    /// Index of the pair whose key equals `key`, if any.
    fn position(entries: &Vec<Entry>, key: &String) -> (r: Option<usize>)
        requires
            keys_unique(entries_view(entries@)),
        ensures
            match r {
                Some(i) => i < entries@.len() && entries@[i as int].0@ == key@,
                None => !has_key(entries_view(entries@), key@),
            },
    {
        let n = entries.len();
        let mut i: usize = 0;
        while i < n
            invariant
                n == entries@.len(),
                i <= n,
                forall|j: int| 0 <= j < i ==> entries@[j].0@ != key@,
            decreases n - i,
        {
            if entries[i].0 == *key {
                return Some(i);
            }
            i = i + 1;
        }
        proof {
            let v = entries_view(entries@);
            if has_key(v, key@) {
                let j = choose|j: int| 0 <= j < v.len() && v[j].0 == key@;
                assert(entries@[j].0@ == key@);
            }
        }
        None
    }

    /// The secret stored under `key`, or `None` when the key is unknown.
    pub fn lookup(&self, key: &String) -> (r: Option<String>)
        requires
            self.wf(),
        ensures
            r is Some <==> self@.contains_key(key@),
            r is Some ==> r->0@ == self@[key@],
    {
        let pos = Self::position(&self.entries, key);
        proof {
            lemma_map_of_domain(entries_view(self.entries@), key@);
        }
        match pos {
            Some(i) => {
                proof {
                    let v = entries_view(self.entries@);
                    assert(v[i as int].0 == key@);
                    lemma_map_of_last(v, i as int);
                }
                Some(self.entries[i].1.clone())
            },
            None => None,
        }
    }

    /// Whether `key` is a known public key.
    pub fn contains(&self, key: &String) -> (r: bool)
        requires
            self.wf(),
        ensures
            r == self@.contains_key(key@),
    {
        self.lookup(key).is_some()
    }

    /// Number of distinct public keys held.
    pub fn len(&self) -> (r: usize)
        requires
            self.wf(),
        ensures
            self@.dom().finite(),
            r == self@.dom().len(),
    {
        proof {
            lemma_map_of_len(entries_view(self.entries@));
        }
        self.entries.len()
    }

    /// Whether no key is held.
    pub fn is_empty(&self) -> (r: bool)
        requires
            self.wf(),
        ensures
            r <==> self@ == Map::<Seq<char>, Seq<char>>::empty(),
    {
        proof {
            lemma_map_of_len(entries_view(self.entries@));
            if self.entries@.len() > 0 {
                let v = entries_view(self.entries@);
                lemma_map_of_domain(v, v[0].0);
            }
        }
        let r = self.entries.len() == 0;
        proof {
            if r {
                assert(entries_view(self.entries@) =~= Seq::empty());
                assert(self@ =~= Map::empty());
            }
        }
        r
    }
}

} // verus!
