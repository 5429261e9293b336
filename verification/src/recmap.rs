//! A record collection re-keyed by name: an association list with unique
//! string keys and last-write-wins insertion, the lookup structure that the
//! hashed snapshot projection fills.

use vstd::prelude::*;
use crate::order::str_eq;

verus! {

/// Looks a key up in a sequence of keyed records, returning the first match.
pub open spec fn assoc_lookup<T>(s: Seq<(Seq<char>, T)>, k: Seq<char>) -> Option<T>
    decreases s.len(),
{
    if s.len() == 0 {
        None
    } else if s[0].0 == k {
        Some(s[0].1)
    } else {
        assoc_lookup(s.drop_first(), k)
    }
}

/// The mathematical mapping a sequence of keyed records represents.
pub open spec fn assoc_as_map<T>(s: Seq<(Seq<char>, T)>) -> Map<Seq<char>, T> {
    Map::new(|k: Seq<char>| assoc_lookup(s, k) is Some, |k: Seq<char>| assoc_lookup(s, k)->Some_0)
}

/// A mapping from name to record, with unique keys; later insertions under
/// an existing name overwrite the earlier record.
pub struct RecordMap<T> {
    entries: Vec<(String, T)>,
}

impl<T> RecordMap<T> {
    /// The stored (key, record) pairs, in storage order.
    pub closed spec fn pairs(&self) -> Seq<(Seq<char>, T)> {
        Seq::new(self.entries@.len(), |i: int| (self.entries@[i].0@, self.entries@[i].1))
    }

    /// The mapping this value represents.
    pub open spec fn as_map(&self) -> Map<Seq<char>, T> {
        assoc_as_map(self.pairs())
    }

    /// Creates an empty mapping.
    pub fn new() -> (r: RecordMap<T>)
        ensures
            r.pairs() == Seq::<(Seq<char>, T)>::empty(),
            r.as_map() == Map::<Seq<char>, T>::empty(),
    {
        let r = RecordMap { entries: Vec::new() };
        proof {
            assert(r.pairs() =~= Seq::<(Seq<char>, T)>::empty());
            assert(r.as_map() =~= Map::<Seq<char>, T>::empty());
        }
        r
    }

    /// The number of records held (one per distinct name).
    pub fn len(&self) -> (r: usize)
        ensures
            r == self.pairs().len(),
    {
        self.entries.len()
    }

    /// Looks up the record stored under `key`.
    pub fn get(&self, key: &str) -> (r: Option<&T>)
        ensures
            match r {
                Some(v) => assoc_lookup(self.pairs(), key@) == Some(*v),
                None => assoc_lookup(self.pairs(), key@) is None,
            },
            (r is Some) == self.as_map().contains_key(key@),
            r matches Some(v) ==> self.as_map()[key@] == *v,
    {
        let n = self.entries.len();
        let mut i: usize = 0;
        proof {
            assert(self.pairs().skip(0) =~= self.pairs());
        }
        while i < n
            invariant
                i <= n,
                n == self.pairs().len(),
                assoc_lookup(self.pairs(), key@) == assoc_lookup(
                    self.pairs().skip(i as int),
                    key@,
                ),
            decreases n - i,
        {
            proof {
                assert(self.pairs().skip(i as int)[0] == self.pairs()[i as int]);
            }
            if str_eq(self.entries[i].0.as_str(), key) {
                return Some(&self.entries[i].1);
            }
            proof {
                assert(self.pairs().skip(i as int).drop_first() =~= self.pairs().skip(
                    i as int + 1,
                ));
            }
            i = i + 1;
        }
        proof {
            assert(self.pairs().skip(n as int).len() == 0);
        }
        None
    }

    /// Stores `value` under `key`; an existing record under the same name is
    /// overwritten (last write wins), so only a fresh name grows the
    /// collection.
    pub fn insert(&mut self, key: String, value: T)
        ensures
            final(self).as_map() == old(self).as_map().insert(key@, value),
            final(self).pairs().len() == old(self).pairs().len() + (if old(
                self,
            ).as_map().contains_key(key@) {
                0int
            } else {
                1int
            }),
    {
        let n = self.entries.len();
        let mut pos: usize = 0;
        loop
            invariant
                pos <= n,
                n == self.pairs().len(),
                forall|j: int| 0 <= j < pos ==> self.pairs()[j].0 != key@,
            ensures
                pos <= n,
                forall|j: int| 0 <= j < pos ==> self.pairs()[j].0 != key@,
                pos < n ==> self.pairs()[pos as int].0 == key@,
            decreases n - pos,
        {
            if pos == n {
                break;
            }
            if str_eq(self.entries[pos].0.as_str(), key.as_str()) {
                break;
            }
            pos = pos + 1;
        }
        let ghost old_pairs = self.pairs();
        if pos < n {
            self.entries[pos].1 = value;
            proof {
                assert(self.pairs() =~= old_pairs.update(pos as int, (key@, value)));
                lemma_assoc_update(old_pairs, pos as int, key@, value);
                lemma_assoc_found(old_pairs, pos as int, key@);
            }
        } else {
            self.entries.push((key, value));
            proof {
                assert(self.pairs() =~= old_pairs + seq![(key@, value)]);
                lemma_assoc_append(old_pairs, key@, value);
                lemma_assoc_absent(old_pairs, key@);
            }
        }
    }
}

/// A lookup hits the first record that holds the key.
proof fn lemma_assoc_found<T>(s: Seq<(Seq<char>, T)>, pos: int, k: Seq<char>)
    requires
        0 <= pos < s.len(),
        s[pos].0 == k,
        forall|j: int| 0 <= j < pos ==> s[j].0 != k,
    ensures
        assoc_lookup(s, k) == Some(s[pos].1),
    decreases pos,
{
    if pos > 0 {
        assert(s.drop_first()[pos - 1] == s[pos]);
        assert forall|j: int| 0 <= j < pos - 1 implies s.drop_first()[j].0 != k by {
            assert(s.drop_first()[j] == s[j + 1]);
        }
        lemma_assoc_found(s.drop_first(), pos - 1, k);
    }
}

/// Overwriting the first record that holds a key updates the mapping at
/// exactly that key.
proof fn lemma_assoc_update<T>(s: Seq<(Seq<char>, T)>, pos: int, k: Seq<char>, v: T)
    requires
        0 <= pos < s.len(),
        s[pos].0 == k,
        forall|j: int| 0 <= j < pos ==> s[j].0 != k,
    ensures
        assoc_as_map(s.update(pos, (k, v))) == assoc_as_map(s).insert(k, v),
{
    let t = s.update(pos, (k, v));
    assert(t =~= s.take(pos) + seq![(k, v)] + s.skip(pos + 1));
    assert(s =~= s.take(pos) + seq![s[pos]] + s.skip(pos + 1));
    assert forall|q: Seq<char>| true implies assoc_lookup(t, q) == (if q == k {
        Some(v)
    } else {
        assoc_lookup(s, q)
    }) by {
        reveal_with_fuel(assoc_lookup, 3);
        lemma_assoc_concat(s.take(pos) + seq![(k, v)], s.skip(pos + 1), q);
        lemma_assoc_concat(s.take(pos), seq![(k, v)], q);
        lemma_assoc_concat(s.take(pos) + seq![s[pos]], s.skip(pos + 1), q);
        lemma_assoc_concat(s.take(pos), seq![s[pos]], q);
        assert(seq![(k, v)].drop_first() =~= Seq::<(Seq<char>, T)>::empty());
        assert(seq![s[pos]].drop_first() =~= Seq::<(Seq<char>, T)>::empty());
        if q == k {
            assert(forall|i: int| 0 <= i < s.take(pos).len() ==> (s.take(pos))[i].0 != q);
            lemma_assoc_absent(s.take(pos), q);
        }
    }
    assert(assoc_as_map(t) =~= assoc_as_map(s).insert(k, v));
}

/// Appending a record under a fresh key updates the mapping at exactly that
/// key.
proof fn lemma_assoc_append<T>(s: Seq<(Seq<char>, T)>, k: Seq<char>, v: T)
    requires
        forall|j: int| 0 <= j < s.len() ==> s[j].0 != k,
    ensures
        assoc_as_map(s + seq![(k, v)]) == assoc_as_map(s).insert(k, v),
{
    let t = s + seq![(k, v)];
    assert forall|q: Seq<char>| true implies assoc_lookup(t, q) == (if q == k {
        Some(v)
    } else {
        assoc_lookup(s, q)
    }) by {
        reveal_with_fuel(assoc_lookup, 3);
        lemma_assoc_concat(s, seq![(k, v)], q);
        assert(seq![(k, v)].drop_first() =~= Seq::<(Seq<char>, T)>::empty());
        if q == k {
            lemma_assoc_absent(s, q);
        }
    }
    assert(assoc_as_map(t) =~= assoc_as_map(s).insert(k, v));
}

/// A lookup in a concatenation tries the left part first.
proof fn lemma_assoc_concat<T>(s: Seq<(Seq<char>, T)>, y: Seq<(Seq<char>, T)>, q: Seq<char>)
    ensures
        assoc_lookup(s + y, q) == if assoc_lookup(s, q) is Some {
            assoc_lookup(s, q)
        } else {
            assoc_lookup(y, q)
        },
    decreases s.len(),
{
    if s.len() == 0 {
        assert(s + y =~= y);
    } else {
        assert((s + y)[0] == s[0]);
        assert((s + y).drop_first() =~= s.drop_first() + y);
        lemma_assoc_concat(s.drop_first(), y, q);
    }
}

/// A lookup misses when no record holds the key.
proof fn lemma_assoc_absent<T>(s: Seq<(Seq<char>, T)>, q: Seq<char>)
    requires
        forall|i: int| 0 <= i < s.len() ==> s[i].0 != q,
    ensures
        assoc_lookup(s, q) is None,
    decreases s.len(),
{
    if s.len() > 0 {
        lemma_assoc_absent(s.drop_first(), q);
    }
}

} // verus!
