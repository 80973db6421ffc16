//! Lexicographic ordering of text.
//!
//! Import blocks in generated stubs must be sorted lexicographically so that
//! the output is deterministic and diff-stable.  This module defines the
//! strict lexicographic order on character sequences, proves the ordering
//! laws that the sorted-import-list invariant rests on, and provides the
//! executable comparison used to maintain that invariant.

use vstd::prelude::*;

verus! {

/// Strict lexicographic order on character sequences, comparing characters
/// by Unicode scalar value.
pub open spec fn lex_lt(a: Seq<char>, b: Seq<char>) -> bool
    decreases a.len(),
{
    if b.len() == 0 {
        false
    } else if a.len() == 0 {
        true
    } else if (a[0] as u32) != (b[0] as u32) {
        (a[0] as u32) < (b[0] as u32)
    } else {
        lex_lt(a.drop_first(), b.drop_first())
    }
}

pub proof fn lemma_lex_lt_irreflexive(a: Seq<char>)
    ensures
        !lex_lt(a, a),
    decreases a.len(),
{
    if a.len() > 0 {
        lemma_lex_lt_irreflexive(a.drop_first());
    }
}

/// Any two distinct character sequences are ordered one way or the other.
pub proof fn lemma_lex_lt_total(a: Seq<char>, b: Seq<char>)
    ensures
        lex_lt(a, b) || lex_lt(b, a) || a == b,
    decreases a.len(),
{
    if a.len() == 0 && b.len() == 0 {
        assert(a =~= b);
    } else if a.len() > 0 && b.len() > 0 && (a[0] as u32) == (b[0] as u32) {
        vstd::utf8::char_u32_cast(a[0], a[0] as u32);
        vstd::utf8::char_u32_cast(b[0], b[0] as u32);
        assert(a[0] == b[0]);
        lemma_lex_lt_total(a.drop_first(), b.drop_first());
        if a.drop_first() == b.drop_first() {
            assert(a.drop_first().len() == b.drop_first().len());
            assert(a.drop_first().len() == a.len() - 1);
            assert(b.drop_first().len() == b.len() - 1);
            assert(a.len() == b.len());
            assert forall|k: int| 0 <= k < a.len() implies a[k] == b[k] by {
                if k > 0 {
                    assert(a[k] == a.drop_first()[k - 1]);
                    assert(b[k] == b.drop_first()[k - 1]);
                }
            }
            assert(a =~= b);
        }
    }
}

pub proof fn lemma_lex_lt_transitive(a: Seq<char>, b: Seq<char>, c: Seq<char>)
    requires
        lex_lt(a, b),
        lex_lt(b, c),
    ensures
        lex_lt(a, c),
    decreases a.len(),
{
    if a.len() > 0 && b.len() > 0 && c.len() > 0 {
        if (a[0] as u32) == (b[0] as u32) && (b[0] as u32) == (c[0] as u32) {
            lemma_lex_lt_transitive(a.drop_first(), b.drop_first(), c.drop_first());
        }
    }
}

pub proof fn lemma_lex_lt_asymmetric(a: Seq<char>, b: Seq<char>)
    requires
        lex_lt(a, b),
    ensures
        !lex_lt(b, a),
{
    if lex_lt(b, a) {
        lemma_lex_lt_transitive(a, b, a);
        lemma_lex_lt_irreflexive(a);
    }
}

/// Dropping a common prefix does not change how two sequences compare.
pub proof fn lemma_lex_lt_common_prefix(a: Seq<char>, b: Seq<char>, i: int)
    requires
        0 <= i <= a.len(),
        i <= b.len(),
        forall|k: int| 0 <= k < i ==> a[k] == b[k],
    ensures
        lex_lt(a, b) == lex_lt(a.skip(i), b.skip(i)),
    decreases i,
{
    if i > 0 {
        assert(a[0] == b[0]);
        assert(a.skip(i) =~= a.drop_first().skip(i - 1));
        assert(b.skip(i) =~= b.drop_first().skip(i - 1));
        lemma_lex_lt_common_prefix(a.drop_first(), b.drop_first(), i - 1);
    } else {
        assert(a.skip(0) =~= a);
        assert(b.skip(0) =~= b);
    }
}

/// A sequence of character sequences in strictly increasing lexicographic
/// order: sorted, with no duplicates.
pub open spec fn sorted_strict(s: Seq<Seq<char>>) -> bool {
    forall|i: int, j: int| 0 <= i < j < s.len() ==> lex_lt(s[i], s[j])
}

/// Two strictly sorted sequences holding the same elements are equal: the
/// sorted form of a finite set of names is canonical.
pub proof fn lemma_sorted_unique(a: Seq<Seq<char>>, b: Seq<Seq<char>>)
    requires
        sorted_strict(a),
        sorted_strict(b),
        a.to_set() == b.to_set(),
    ensures
        a == b,
    decreases a.len(),
{
    if a.len() == 0 {
        if b.len() > 0 {
            assert(b.to_set().contains(b[0]));
            assert(a.contains(b[0]));
        }
        assert(a =~= b);
    } else if b.len() == 0 {
        assert(a.to_set().contains(a[0]));
        assert(b.contains(a[0]));
    } else {
        assert(a.to_set().contains(a[0]));
        assert(b.to_set().contains(b[0]));
        assert(a.contains(b[0]));
        assert(b.contains(a[0]));
        let ia = choose|k: int| 0 <= k < a.len() && a[k] == b[0];
        let ib = choose|k: int| 0 <= k < b.len() && b[k] == a[0];
        if ia > 0 {
            assert(lex_lt(a[0], a[ia]));
        }
        if ib > 0 {
            assert(lex_lt(b[0], b[ib]));
        }
        if a[0] != b[0] {
            lemma_lex_lt_asymmetric(a[0], b[0]);
            lemma_lex_lt_asymmetric(b[0], a[0]);
            lemma_lex_lt_irreflexive(a[0]);
            lemma_lex_lt_irreflexive(b[0]);
            assert(false);
        }
        assert forall|x: Seq<char>| a.drop_first().to_set().contains(x)
            implies b.drop_first().to_set().contains(x) by {
            let k = choose|k: int| 0 <= k < a.drop_first().len() && a.drop_first()[k] == x;
            assert(a[k + 1] == x);
            assert(lex_lt(a[0], x));
            assert(a.to_set().contains(x));
            assert(b.contains(x));
            let m = choose|m: int| 0 <= m < b.len() && b[m] == x;
            lemma_lex_lt_irreflexive(x);
            assert(m != 0);
            assert(b.drop_first()[m - 1] == x);
            assert(b.drop_first().contains(x));
        }
        assert forall|x: Seq<char>| b.drop_first().to_set().contains(x)
            implies a.drop_first().to_set().contains(x) by {
            let k = choose|k: int| 0 <= k < b.drop_first().len() && b.drop_first()[k] == x;
            assert(b[k + 1] == x);
            assert(lex_lt(b[0], x));
            assert(b.to_set().contains(x));
            assert(a.contains(x));
            let m = choose|m: int| 0 <= m < a.len() && a[m] == x;
            lemma_lex_lt_irreflexive(x);
            assert(m != 0);
            assert(a.drop_first()[m - 1] == x);
            assert(a.drop_first().contains(x));
        }
        assert(a.drop_first().to_set() =~= b.drop_first().to_set());
        lemma_sorted_unique(a.drop_first(), b.drop_first());
        assert forall|k: int| 0 <= k < a.len() implies a[k] == b[k] by {
            if k > 0 {
                assert(a[k] == a.drop_first()[k - 1]);
                assert(b[k] == b.drop_first()[k - 1]);
            }
        }
        assert(a =~= b);
    }
}

/// A non-empty sequence's elements are its first element plus the rest's.
pub proof fn lemma_to_set_drop_first<A>(s: Seq<A>)
    requires
        s.len() > 0,
    ensures
        s.to_set() == s.drop_first().to_set().insert(s[0]),
{
    assert forall|x: A| s.to_set().contains(x)
        implies s.drop_first().to_set().insert(s[0]).contains(x) by {
        let k = choose|k: int| 0 <= k < s.len() && #[trigger] s[k] == x;
        if k > 0 {
            assert(s.drop_first()[k - 1] == x);
            assert(s.drop_first().contains(x));
        }
    }
    assert forall|x: A| s.drop_first().to_set().insert(s[0]).contains(x)
        implies s.to_set().contains(x) by {
        if s.drop_first().to_set().contains(x) {
            let k = choose|k: int| 0 <= k < s.drop_first().len()
                && #[trigger] s.drop_first()[k] == x;
            assert(s[k + 1] == x);
            assert(s.contains(x));
        } else {
            assert(s[0] == x);
            assert(s.contains(x));
        }
    }
    assert(s.to_set() =~= s.drop_first().to_set().insert(s[0]));
}

/// The merge of two strictly sorted sequences: the canonical sorted layout
/// of the union of their elements.
pub open spec fn merge_sorted(a: Seq<Seq<char>>, b: Seq<Seq<char>>) -> Seq<Seq<char>>
    decreases a.len() + b.len(),
{
    if a.len() == 0 {
        b
    } else if b.len() == 0 {
        a
    } else if lex_lt(a[0], b[0]) {
        seq![a[0]] + merge_sorted(a.drop_first(), b)
    } else if lex_lt(b[0], a[0]) {
        seq![b[0]] + merge_sorted(a, b.drop_first())
    } else {
        seq![a[0]] + merge_sorted(a.drop_first(), b.drop_first())
    }
}

/// Prepending an element smaller than everything in a sorted sequence keeps
/// it sorted.
pub proof fn lemma_sorted_cons(h: Seq<char>, t: Seq<Seq<char>>)
    requires
        sorted_strict(t),
        forall|x: Seq<char>| #[trigger] t.to_set().contains(x) ==> lex_lt(h, x),
    ensures
        sorted_strict(seq![h] + t),
{
    let c = seq![h] + t;
    assert forall|p: int, q: int| 0 <= p < q < c.len() implies lex_lt(c[p], c[q]) by {
        if p == 0 {
            assert(c[q] == t[q - 1]);
            assert(t.contains(t[q - 1]));
            assert(t.to_set().contains(t[q - 1]));
        } else {
            assert(c[p] == t[p - 1]);
            assert(c[q] == t[q - 1]);
        }
    }
}

/// Dropping the first element keeps a sequence sorted.
pub proof fn lemma_sorted_drop_first(s: Seq<Seq<char>>)
    requires
        sorted_strict(s),
        s.len() > 0,
    ensures
        sorted_strict(s.drop_first()),
{
    assert forall|p: int, q: int| 0 <= p < q < s.drop_first().len()
        implies lex_lt(s.drop_first()[p], s.drop_first()[q]) by {
        assert(s.drop_first()[p] == s[p + 1]);
        assert(s.drop_first()[q] == s[q + 1]);
    }
}

/// Merging two sorted sequences yields a sorted sequence holding exactly the
/// union of their elements.
pub proof fn lemma_merge_sorted(a: Seq<Seq<char>>, b: Seq<Seq<char>>)
    requires
        sorted_strict(a),
        sorted_strict(b),
    ensures
        sorted_strict(merge_sorted(a, b)),
        merge_sorted(a, b).to_set() == a.to_set().union(b.to_set()),
    decreases a.len() + b.len(),
{
    let m = merge_sorted(a, b);
    if a.len() == 0 {
        assert(a.to_set() =~= Set::<Seq<char>>::empty());
        assert(m.to_set() =~= a.to_set().union(b.to_set()));
    } else if b.len() == 0 {
        assert(b.to_set() =~= Set::<Seq<char>>::empty());
        assert(m.to_set() =~= a.to_set().union(b.to_set()));
    } else {
        lemma_sorted_drop_first(a);
        lemma_sorted_drop_first(b);
        assert forall|x: Seq<char>| #[trigger] a.drop_first().to_set().contains(x)
            implies a.to_set().contains(x) && lex_lt(a[0], x) by {
            let k = choose|k: int| 0 <= k < a.drop_first().len()
                && #[trigger] a.drop_first()[k] == x;
            assert(a[k + 1] == x);
            assert(a.contains(x));
        }
        assert forall|x: Seq<char>| #[trigger] b.drop_first().to_set().contains(x)
            implies b.to_set().contains(x) && lex_lt(b[0], x) by {
            let k = choose|k: int| 0 <= k < b.drop_first().len()
                && #[trigger] b.drop_first()[k] == x;
            assert(b[k + 1] == x);
            assert(b.contains(x));
        }
        if lex_lt(a[0], b[0]) {
            lemma_merge_sorted(a.drop_first(), b);
            let t = merge_sorted(a.drop_first(), b);
            assert forall|x: Seq<char>| #[trigger] t.to_set().contains(x)
                implies lex_lt(a[0], x) by {
                if b.to_set().contains(x) {
                    if b[0] == x {
                    } else {
                        let k = choose|k: int| 0 <= k < b.len() && #[trigger] b[k] == x;
                        assert(lex_lt(b[0], x));
                        lemma_lex_lt_transitive(a[0], b[0], x);
                    }
                }
            }
            lemma_sorted_cons(a[0], t);
            lemma_to_set_drop_first(a);
            assert(m.drop_first() =~= t);
            assert(m[0] == a[0]);
            lemma_to_set_drop_first(m);
            assert(m.to_set() =~= a.to_set().union(b.to_set()));
        } else if lex_lt(b[0], a[0]) {
            lemma_merge_sorted(a, b.drop_first());
            let t = merge_sorted(a, b.drop_first());
            assert forall|x: Seq<char>| #[trigger] t.to_set().contains(x)
                implies lex_lt(b[0], x) by {
                if a.to_set().contains(x) {
                    if a[0] == x {
                    } else {
                        let k = choose|k: int| 0 <= k < a.len() && #[trigger] a[k] == x;
                        assert(lex_lt(a[0], x));
                        lemma_lex_lt_transitive(b[0], a[0], x);
                    }
                }
            }
            lemma_sorted_cons(b[0], t);
            lemma_to_set_drop_first(b);
            assert(m.drop_first() =~= t);
            assert(m[0] == b[0]);
            lemma_to_set_drop_first(m);
            assert(m.to_set() =~= a.to_set().union(b.to_set()));
        } else {
            lemma_lex_lt_total(a[0], b[0]);
            assert(a[0] == b[0]);
            lemma_merge_sorted(a.drop_first(), b.drop_first());
            let t = merge_sorted(a.drop_first(), b.drop_first());
            assert forall|x: Seq<char>| #[trigger] t.to_set().contains(x)
                implies lex_lt(a[0], x) by {
            }
            lemma_sorted_cons(a[0], t);
            lemma_to_set_drop_first(a);
            lemma_to_set_drop_first(b);
            assert(m.drop_first() =~= t);
            assert(m[0] == a[0]);
            lemma_to_set_drop_first(m);
            assert(m.to_set() =~= a.to_set().union(b.to_set()));
        }
    }
}

/// Import-set union is idempotent: merging a sorted import list into itself
/// — once or any number of times — leaves it exactly as it was.
pub proof fn lemma_merge_idempotent(a: Seq<Seq<char>>)
    requires
        sorted_strict(a),
    ensures
        merge_sorted(a, a) == a,
{
    lemma_merge_sorted(a, a);
    assert(a.to_set().union(a.to_set()) =~= a.to_set());
    lemma_sorted_unique(merge_sorted(a, a), a);
}

/// Executable lexicographic comparison of two string slices.
pub fn str_lt(a: &str, b: &str) -> (r: bool)
    ensures
        r == lex_lt(a@, b@),
{
    let alen: usize = a.unicode_len();
    let blen: usize = b.unicode_len();
    let mut i: usize = 0;
    loop
        invariant
            i <= alen,
            i <= blen,
            alen == a@.len(),
            blen == b@.len(),
            forall|k: int| 0 <= k < i ==> a@[k] == b@[k],
        decreases alen - i,
    {
        if i == alen {
            proof {
                lemma_lex_lt_common_prefix(a@, b@, i as int);
            }
            return i < blen;
        }
        if i == blen {
            proof {
                lemma_lex_lt_common_prefix(a@, b@, i as int);
            }
            return false;
        }
        let ca: char = a.get_char(i);
        let cb: char = b.get_char(i);
        if (ca as u32) != (cb as u32) {
            proof {
                lemma_lex_lt_common_prefix(a@, b@, i as int);
                assert(a@.skip(i as int)[0] == a@[i as int]);
                assert(b@.skip(i as int)[0] == b@[i as int]);
            }
            return (ca as u32) < (cb as u32);
        }
        proof {
            vstd::utf8::char_u32_cast(ca, ca as u32);
            vstd::utf8::char_u32_cast(cb, cb as u32);
            assert(ca == cb);
        }
        i = i + 1;
    }
}

/// Executable equality of two string slices, by their character sequences.
pub fn str_eq(a: &str, b: &str) -> (r: bool)
    ensures
        r == (a@ == b@),
{
    let alen: usize = a.unicode_len();
    let blen: usize = b.unicode_len();
    if alen != blen {
        return false;
    }
    let mut i: usize = 0;
    while i < alen
        invariant
            i <= alen,
            alen == a@.len(),
            alen == b@.len(),
            forall|k: int| 0 <= k < i ==> a@[k] == b@[k],
        decreases alen - i,
    {
        let ca: char = a.get_char(i);
        let cb: char = b.get_char(i);
        if (ca as u32) != (cb as u32) {
            proof {
                if a@ == b@ {
                    assert(a@[i as int] == b@[i as int]);
                }
            }
            return false;
        }
        proof {
            vstd::utf8::char_u32_cast(ca, ca as u32);
            vstd::utf8::char_u32_cast(cb, cb as u32);
            assert(ca == cb);
        }
        i = i + 1;
    }
    proof {
        assert(a@ =~= b@);
    }
    true
}

} // verus!
