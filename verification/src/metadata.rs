//! String-to-string metadata mappings with unique, case-sensitive keys.
//!
//! The mapping is stored as an association list kept sorted by key in the
//! lexicographic order of `crate::order`, so that iterating over the entries
//! is deterministic: two mappings that hold the same pairs are the same
//! value, however they were built.

use vstd::prelude::*;
use crate::order::{lex_lt, lemma_lex_lt_total, lemma_lex_lt_trans, str_eq, str_lt};

verus! {

/// One key/value pair of a [`Metadata`] mapping.
#[derive(Clone, Debug)]
struct MetadataEntry {
    key: String,
    value: String,
}

/// A string-to-string mapping with unique keys and deterministic iteration
/// order (ascending lexicographic key order).
#[derive(Clone, Debug)]
pub struct Metadata {
    entries: Vec<MetadataEntry>,
}

/// Looks a key up in a sequence of pairs, returning the first match.
pub open spec fn pairs_lookup(s: Seq<(Seq<char>, Seq<char>)>, k: Seq<char>) -> Option<Seq<char>>
    decreases s.len(),
{
    if s.len() == 0 {
        None
    } else if s[0].0 == k {
        Some(s[0].1)
    } else {
        pairs_lookup(s.drop_first(), k)
    }
}

/// The mathematical mapping described by a sequence of pairs.
pub open spec fn pairs_as_map(s: Seq<(Seq<char>, Seq<char>)>) -> Map<Seq<char>, Seq<char>> {
    Map::new(
        |k: Seq<char>| pairs_lookup(s, k) is Some,
        |k: Seq<char>| pairs_lookup(s, k)->Some_0,
    )
}

/// Keys appear in strictly ascending lexicographic order (hence uniquely).
pub open spec fn sorted_keys(s: Seq<(Seq<char>, Seq<char>)>) -> bool {
    forall|i: int, j: int| 0 <= i < j < s.len() ==> lex_lt(s[i].0, s[j].0)
}

impl Metadata {
    /// The entries as a sequence of (key, value) character-sequence pairs, in
    /// storage order.
    pub closed spec fn pairs(&self) -> Seq<(Seq<char>, Seq<char>)> {
        Seq::new(self.entries@.len(), |i: int| (self.entries@[i].key@, self.entries@[i].value@))
    }

    /// Well-formedness: the entries are sorted by key.
    pub open spec fn wf(&self) -> bool {
        sorted_keys(self.pairs())
    }

    /// The mapping this value represents.
    pub open spec fn as_map(&self) -> Map<Seq<char>, Seq<char>> {
        pairs_as_map(self.pairs())
    }

    /// Creates an empty mapping.
    pub fn new() -> (r: Metadata)
        ensures
            r.wf(),
            r.pairs() == Seq::<(Seq<char>, Seq<char>)>::empty(),
            r.as_map() == Map::<Seq<char>, Seq<char>>::empty(),
    {
        let r = Metadata { entries: Vec::new() };
        proof {
            assert(r.pairs() =~= Seq::<(Seq<char>, Seq<char>)>::empty());
            assert(r.as_map() =~= Map::<Seq<char>, Seq<char>>::empty());
        }
        r
    }

    /// The number of entries.
    pub fn len(&self) -> (r: usize)
        ensures
            r == self.pairs().len(),
    {
        self.entries.len()
    }

    /// True when the mapping holds no entry.
    pub fn is_empty(&self) -> (r: bool)
        ensures
            r == (self.pairs().len() == 0),
    {
        self.entries.len() == 0
    }

    /// The key of the entry at position `i` in iteration order.
    pub fn key_at(&self, i: usize) -> (r: &String)
        requires
            i < self.pairs().len(),
        ensures
            r@ == self.pairs()[i as int].0,
    {
        &self.entries[i].key
    }

    /// The value of the entry at position `i` in iteration order.
    pub fn value_at(&self, i: usize) -> (r: &String)
        requires
            i < self.pairs().len(),
        ensures
            r@ == self.pairs()[i as int].1,
    {
        &self.entries[i].value
    }

    /// Looks up the value stored under `key`.
    pub fn get(&self, key: &str) -> (r: Option<&String>)
        ensures
            match r {
                Some(v) => pairs_lookup(self.pairs(), key@) == Some(v@),
                None => pairs_lookup(self.pairs(), key@) is None,
            },
            (r is Some) == self.as_map().contains_key(key@),
            r is Some ==> self.as_map()[key@] == r->Some_0@,
    {
        let n = self.entries.len();
        let mut i: usize = 0;
        proof {
            assert(self.pairs().skip(0) =~= self.pairs());
        }
        while i < n
            invariant
                i <= n,
                n == self.pairs().len(),
                pairs_lookup(self.pairs(), key@) == pairs_lookup(
                    self.pairs().skip(i as int),
                    key@,
                ),
            decreases n - i,
        {
            proof {
                assert(self.pairs().skip(i as int)[0] == self.pairs()[i as int]);
            }
            if str_eq(self.entries[i].key.as_str(), key) {
                return Some(&self.entries[i].value);
            }
            proof {
                assert(self.pairs().skip(i as int).drop_first() =~= self.pairs().skip(
                    i as int + 1,
                ));
            }
            i = i + 1;
        }
        proof {
            assert(self.pairs().skip(n as int).len() == 0);
        }
        None
    }

    /// Inserts `value` under `key`, replacing any earlier value for the same
    /// key and keeping the entries sorted, so only a fresh key grows the
    /// mapping.
    pub fn insert(&mut self, key: String, value: String)
        requires
            old(self).wf(),
        ensures
            final(self).wf(),
            final(self).as_map() == old(self).as_map().insert(key@, value@),
            final(self).pairs().len() == old(self).pairs().len() + (if old(
                self,
            ).as_map().contains_key(key@) {
                0int
            } else {
                1int
            }),
    {
        let n = self.entries.len();
        let mut pos: usize = 0;
        loop
            invariant
                pos <= n,
                n == self.pairs().len(),
                forall|j: int| 0 <= j < pos ==> lex_lt(self.pairs()[j].0, key@),
            ensures
                pos <= n,
                forall|j: int| 0 <= j < pos ==> lex_lt(self.pairs()[j].0, key@),
                pos < n ==> !lex_lt(self.pairs()[pos as int].0, key@),
            decreases n - pos,
        {
            if pos == n {
                break;
            }
            if !str_lt(self.entries[pos].key.as_str(), key.as_str()) {
                break;
            }
            pos = pos + 1;
        }
        let ghost old_pairs = self.pairs();
        if pos < n && str_eq(self.entries[pos].key.as_str(), key.as_str()) {
            self.entries[pos].value = value;
            proof {
                assert(self.pairs() =~= old_pairs.update(pos as int, (key@, value@)));
                lemma_insert_shape(old_pairs, pos as int, key@, value@, true);
            }
        } else {
            self.entries.insert(pos, MetadataEntry { key, value });
            proof {
                assert(self.pairs() =~= old_pairs.insert(pos as int, (key@, value@)));
                lemma_insert_shape(old_pairs, pos as int, key@, value@, false);
            }
        }
    }
}

/// Helper for [`Metadata::insert`]: replacing at, or splicing into, the right
/// position of a sorted pair sequence keeps it sorted and updates its mapping.
proof fn lemma_insert_shape(
    s: Seq<(Seq<char>, Seq<char>)>,
    pos: int,
    k: Seq<char>,
    v: Seq<char>,
    replace: bool,
)
    requires
        sorted_keys(s),
        0 <= pos <= s.len(),
        forall|j: int| 0 <= j < pos ==> lex_lt(s[j].0, k),
        replace ==> pos < s.len() && s[pos].0 == k,
        !replace ==> pos == s.len() || !lex_lt(s[pos].0, k) && s[pos].0 != k,
    ensures
        replace ==> sorted_keys(s.update(pos, (k, v))) && pairs_as_map(s.update(pos, (k, v)))
            == pairs_as_map(s).insert(k, v),
        !replace ==> sorted_keys(s.insert(pos, (k, v))) && pairs_as_map(s.insert(pos, (k, v)))
            == pairs_as_map(s).insert(k, v),
        replace ==> pairs_lookup(s, k) is Some,
        !replace ==> pairs_lookup(s, k) is None,
{
    assert forall|j: int| 0 <= j < pos implies s[j].0 != k by {
        lemma_lex_lt_total(s[j].0, k);
    }
    if replace {
        lemma_lookup_found(s, pos, k);
    } else {
        assert forall|i: int| 0 <= i < s.len() implies s[i].0 != k by {
            if i > pos {
                assert(lex_lt(s[pos].0, s[i].0));
            }
        }
        lemma_lookup_absent(s, k);
    }
    let t = if replace {
        s.update(pos, (k, v))
    } else {
        s.insert(pos, (k, v))
    };
    let tail = if replace {
        s.skip(pos + 1)
    } else {
        s.skip(pos)
    };
    assert(t =~= s.take(pos) + seq![(k, v)] + tail);
    assert(s =~= s.take(pos) + s.skip(pos));
    if replace {
        assert(s.skip(pos) =~= seq![s[pos]] + s.skip(pos + 1));
    }
    // Sortedness of the result.
    if !replace && pos < s.len() {
        lemma_lex_lt_total(s[pos].0, k);
    }
    assert forall|i: int, j: int| 0 <= i < j < t.len() implies lex_lt(t[i].0, t[j].0) by {
        if i == pos && j > pos {
            let j0 = if replace {
                j
            } else {
                j - 1
            };
            assert(t[j].0 == s[j0].0);
            if replace {
                assert(lex_lt(s[pos].0, s[j0].0));
            } else {
                if s[pos].0 != s[j0].0 {
                    lemma_lex_lt_trans(k, s[pos].0, s[j0].0);
                }
            }
        } else if j == pos {
            assert(t[i].0 == s[i].0);
        } else {
            let i0 = if !replace && i > pos {
                i - 1
            } else {
                i
            };
            let j0 = if !replace && j > pos {
                j - 1
            } else {
                j
            };
            assert(t[i].0 == s[i0].0 && t[j].0 == s[j0].0);
        }
    }
    // The mapping of the result.
    assert forall|q: Seq<char>| true implies pairs_lookup(t, q) == (if q == k {
        Some(v)
    } else {
        pairs_lookup(s, q)
    }) by {
        reveal_with_fuel(pairs_lookup, 3);
        lemma_lookup_concat(s.take(pos) + seq![(k, v)], tail, q);
        lemma_lookup_concat(s.take(pos), seq![(k, v)], q);
        lemma_lookup_concat(s.take(pos), s.skip(pos), q);
        assert(seq![(k, v)].drop_first() =~= Seq::<(Seq<char>, Seq<char>)>::empty());
        assert(pairs_lookup(seq![(k, v)], q) == (if q == k {
            Some(v)
        } else {
            None::<Seq<char>>
        }));
        if replace {
            lemma_lookup_concat(seq![s[pos]], s.skip(pos + 1), q);
            assert(seq![s[pos]].drop_first() =~= Seq::<(Seq<char>, Seq<char>)>::empty());
            assert(pairs_lookup(seq![s[pos]], q) == (if q == s[pos].0 {
                Some(s[pos].1)
            } else {
                None::<Seq<char>>
            }));
        }
        if q == k {
            assert forall|i: int| 0 <= i < s.take(pos).len() implies (s.take(pos))[i].0 != q by {
                assert((s.take(pos))[i] == s[i]);
                lemma_lex_lt_total(s[i].0, k);
            }
            lemma_lookup_absent(s.take(pos), q);
        }
    }
    assert(pairs_as_map(t) =~= pairs_as_map(s).insert(k, v));
}

/// A hit of [`pairs_lookup`] names an entry of the sequence.
proof fn lemma_lookup_index(s: Seq<(Seq<char>, Seq<char>)>, q: Seq<char>)
    requires
        pairs_lookup(s, q) is Some,
    ensures
        exists|i: int| 0 <= i < s.len() && s[i].0 == q,
    decreases s.len(),
{
    if s[0].0 == q {
        assert(0 <= 0 < s.len() && s[0].0 == q);
    } else {
        lemma_lookup_index(s.drop_first(), q);
        let i0 = choose|i: int| 0 <= i < s.drop_first().len() && s.drop_first()[i].0 == q;
        assert(s[i0 + 1].0 == q);
    }
}

/// A sorted pair sequence is determined by the mapping it represents: the
/// mapping has exactly one sorted association-list form.
pub proof fn lemma_sorted_pairs_canonical(
    a: Seq<(Seq<char>, Seq<char>)>,
    b: Seq<(Seq<char>, Seq<char>)>,
)
    requires
        sorted_keys(a),
        sorted_keys(b),
        pairs_as_map(a) == pairs_as_map(b),
    ensures
        a == b,
    decreases a.len(),
{
    let ma = pairs_as_map(a);
    let mb = pairs_as_map(b);
    if a.len() == 0 {
        if b.len() > 0 {
            assert(pairs_lookup(b, b[0].0) == Some(b[0].1));
            assert(ma.contains_key(b[0].0));
        }
        assert(a =~= b);
    } else if b.len() == 0 {
        assert(pairs_lookup(a, a[0].0) == Some(a[0].1));
        assert(mb.contains_key(a[0].0));
        assert(false);
    } else {
        let ka = a[0].0;
        let kb = b[0].0;
        assert(pairs_lookup(a, ka) == Some(a[0].1));
        assert(pairs_lookup(b, kb) == Some(b[0].1));
        assert(ma.contains_key(ka) && ma[ka] == a[0].1);
        assert(mb.contains_key(kb) && mb[kb] == b[0].1);
        if ka != kb {
            assert(pairs_lookup(b, ka) is Some);
            lemma_lookup_index(b, ka);
            let ia = choose|i: int| 0 <= i < b.len() && b[i].0 == ka;
            assert(lex_lt(kb, ka));
            assert(pairs_lookup(a, kb) is Some);
            lemma_lookup_index(a, kb);
            let ib = choose|i: int| 0 <= i < a.len() && a[i].0 == kb;
            assert(lex_lt(ka, kb));
            lemma_lex_lt_total(ka, kb);
            assert(false);
        }
        assert(a[0].1 == b[0].1);
        let ta = a.drop_first();
        let tb = b.drop_first();
        assert forall|i: int, j: int| 0 <= i < j < ta.len() implies lex_lt(ta[i].0, ta[j].0) by {
            assert(ta[i] == a[i + 1] && ta[j] == a[j + 1]);
        }
        assert forall|i: int, j: int| 0 <= i < j < tb.len() implies lex_lt(tb[i].0, tb[j].0) by {
            assert(tb[i] == b[i + 1] && tb[j] == b[j + 1]);
        }
        assert(pairs_as_map(ta) =~= pairs_as_map(tb)) by {
            assert forall|q: Seq<char>| true implies pairs_lookup(ta, q) == pairs_lookup(
                tb,
                q,
            ) by {
                if q == ka {
                    assert forall|i: int| 0 <= i < ta.len() implies ta[i].0 != q by {
                        assert(ta[i] == a[i + 1]);
                        assert(lex_lt(a[0].0, a[i + 1].0));
                        lemma_lex_lt_total(a[0].0, a[i + 1].0);
                    }
                    assert forall|i: int| 0 <= i < tb.len() implies tb[i].0 != q by {
                        assert(tb[i] == b[i + 1]);
                        assert(lex_lt(b[0].0, b[i + 1].0));
                        lemma_lex_lt_total(b[0].0, b[i + 1].0);
                    }
                    lemma_lookup_absent(ta, q);
                    lemma_lookup_absent(tb, q);
                } else {
                    assert(pairs_lookup(a, q) == pairs_lookup(ta, q));
                    assert(pairs_lookup(b, q) == pairs_lookup(tb, q));
                    if pairs_lookup(a, q) is Some {
                        assert(ma.contains_key(q) && mb.contains_key(q));
                        assert(ma[q] == mb[q]);
                    } else {
                        assert(!ma.contains_key(q));
                        assert(!mb.contains_key(q));
                    }
                }
            }
        }
        lemma_sorted_pairs_canonical(ta, tb);
        assert(a =~= b) by {
            assert(a.len() == b.len());
            assert(forall|i: int| 1 <= i < a.len() ==> a[i] == ta[i - 1] && b[i] == tb[i - 1]);
        }
    }
}

/// Two well-formed mappings that agree as mathematical mappings hold the
/// same entries in the same order, so every function of the entry sequence
/// treats them alike.
pub proof fn lemma_metadata_extensional(a: &Metadata, b: &Metadata)
    requires
        a.wf(),
        b.wf(),
        a.as_map() == b.as_map(),
    ensures
        a.pairs() == b.pairs(),
{
    lemma_sorted_pairs_canonical(a.pairs(), b.pairs());
}

/// A lookup in a concatenation tries the left part first.
proof fn lemma_lookup_concat(
    x: Seq<(Seq<char>, Seq<char>)>,
    y: Seq<(Seq<char>, Seq<char>)>,
    q: Seq<char>,
)
    ensures
        pairs_lookup(x + y, q) == if pairs_lookup(x, q) is Some {
            pairs_lookup(x, q)
        } else {
            pairs_lookup(y, q)
        },
    decreases x.len(),
{
    if x.len() == 0 {
        assert(x + y =~= y);
    } else {
        assert((x + y)[0] == x[0]);
        assert((x + y).drop_first() =~= x.drop_first() + y);
        lemma_lookup_concat(x.drop_first(), y, q);
    }
}

/// A lookup hits the first pair that holds the key.
proof fn lemma_lookup_found(s: Seq<(Seq<char>, Seq<char>)>, pos: int, k: Seq<char>)
    requires
        0 <= pos < s.len(),
        s[pos].0 == k,
        forall|j: int| 0 <= j < pos ==> s[j].0 != k,
    ensures
        pairs_lookup(s, k) == Some(s[pos].1),
    decreases pos,
{
    if pos > 0 {
        assert(s.drop_first()[pos - 1] == s[pos]);
        assert forall|j: int| 0 <= j < pos - 1 implies s.drop_first()[j].0 != k by {
            assert(s.drop_first()[j] == s[j + 1]);
        }
        lemma_lookup_found(s.drop_first(), pos - 1, k);
    }
}

/// A lookup misses when no pair holds the key.
proof fn lemma_lookup_absent(s: Seq<(Seq<char>, Seq<char>)>, q: Seq<char>)
    requires
        forall|i: int| 0 <= i < s.len() ==> s[i].0 != q,
    ensures
        pairs_lookup(s, q) is None,
    decreases s.len(),
{
    if s.len() > 0 {
        lemma_lookup_absent(s.drop_first(), q);
    }
}

} // verus!
