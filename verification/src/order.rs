//! Lexicographic order on strings, used to keep metadata keys sorted.
//!
//! The order compares character sequences by code point, which agrees with
//! the standard library's ordering on `str` (UTF-8 byte order coincides with
//! code-point order).

use vstd::prelude::*;
use vstd::string::StrSliceExecFns;

verus! {

/// Strict lexicographic order on character sequences: `a` comes before `b`.
pub open spec fn lex_lt(a: Seq<char>, b: Seq<char>) -> bool
    decreases a.len(),
{
    if b.len() == 0 {
        false
    } else if a.len() == 0 {
        true
    } else if a[0] == b[0] {
        lex_lt(a.drop_first(), b.drop_first())
    } else {
        (a[0] as u32) < (b[0] as u32)
    }
}

/// `lex_lt` is a strict total order: any two sequences are comparable, and
/// the order is asymmetric and irreflexive.
pub proof fn lemma_lex_lt_total(a: Seq<char>, b: Seq<char>)
    ensures
        lex_lt(a, b) || lex_lt(b, a) || a == b,
        lex_lt(a, b) ==> !lex_lt(b, a),
        lex_lt(a, b) ==> a != b,
    decreases a.len() + b.len(),
{
    if b.len() == 0 {
        if a.len() == 0 {
            assert(a =~= b);
        }
    } else if a.len() == 0 {
    } else if a[0] == b[0] {
        lemma_lex_lt_total(a.drop_first(), b.drop_first());
        if a.drop_first() == b.drop_first() {
            assert(a =~= b) by {
                assert(a.len() == b.len());
                assert(forall|i: int|
                    1 <= i < a.len() ==> a[i] == a.drop_first()[i - 1]
                        && b[i] == b.drop_first()[i - 1]);
            }
        }
        if a == b {
            assert(a.drop_first() =~= b.drop_first());
        }
    } else {
        if a == b {
            assert(a[0] == b[0]);
        }
        assert((a[0] as u32) != (b[0] as u32)) by {
            vstd::utf8::char_u32_cast(a[0], a[0] as u32);
            vstd::utf8::char_u32_cast(b[0], b[0] as u32);
        }
    }
}

/// `lex_lt` is transitive.
pub proof fn lemma_lex_lt_trans(a: Seq<char>, b: Seq<char>, c: Seq<char>)
    requires
        lex_lt(a, b),
        lex_lt(b, c),
    ensures
        lex_lt(a, c),
    decreases a.len(),
{
    if b.len() == 0 || c.len() == 0 {
    } else if a.len() == 0 {
    } else {
        if a[0] == b[0] {
            if b[0] == c[0] {
                lemma_lex_lt_trans(a.drop_first(), b.drop_first(), c.drop_first());
            } else {
                assert((b[0] as u32) < (c[0] as u32));
                assert(a[0] != c[0]);
            }
        } else {
            assert((a[0] as u32) < (b[0] as u32));
            if b[0] == c[0] {
                assert(a[0] != c[0]);
            } else {
                assert((b[0] as u32) < (c[0] as u32));
                assert(a[0] != c[0]);
            }
        }
    }
}

/// Equality test on string slices, specified over their character views.
pub fn str_eq(a: &str, b: &str) -> (r: bool)
    ensures
        r == (a@ == b@),
{
    let la = a.unicode_len();
    let lb = b.unicode_len();
    if la != lb {
        return false;
    }
    let mut i: usize = 0;
    while i < la
        invariant
            i <= la,
            la == a@.len(),
            la == b@.len(),
            forall|j: int| 0 <= j < i ==> a@[j] == b@[j],
        decreases la - i,
    {
        if a.get_char(i) != b.get_char(i) {
            return false;
        }
        i = i + 1;
    }
    proof {
        assert(a@ =~= b@);
    }
    true
}

/// Decides the lexicographic order of two string slices.
pub fn str_lt(a: &str, b: &str) -> (r: bool)
    ensures
        r == lex_lt(a@, b@),
{
    let la = a.unicode_len();
    let lb = b.unicode_len();
    let mut i: usize = 0;
    proof {
        assert(a@.skip(0) =~= a@);
        assert(b@.skip(0) =~= b@);
    }
    loop
        invariant
            i <= la,
            i <= lb,
            la == a@.len(),
            lb == b@.len(),
            lex_lt(a@, b@) == lex_lt(a@.skip(i as int), b@.skip(i as int)),
        decreases la - i,
    {
        if i == lb {
            proof {
                assert(b@.skip(i as int).len() == 0);
            }
            return false;
        }
        if i == la {
            proof {
                assert(a@.skip(i as int).len() == 0);
                assert(b@.skip(i as int).len() > 0);
            }
            return true;
        }
        let ca = a.get_char(i);
        let cb = b.get_char(i);
        proof {
            assert(a@.skip(i as int)[0] == a@[i as int]);
            assert(b@.skip(i as int)[0] == b@[i as int]);
        }
        if ca != cb {
            return (ca as u32) < (cb as u32);
        }
        proof {
            assert(a@.skip(i as int).drop_first() =~= a@.skip(i as int + 1));
            assert(b@.skip(i as int).drop_first() =~= b@.skip(i as int + 1));
        }
        i = i + 1;
    }
}

} // verus!
