//! The order of names: strings compared character by character by code
//! point, a shorter string before any longer one that starts with it. This
//! is the order of `String`, whose UTF-8 bytes compare as their code points.

use vstd::prelude::*;
use crate::text::chars_of;

verus! {

broadcast use vstd::string::group_string_axioms;

/// `a` comes strictly before `b`.
pub open spec fn lex_lt(a: Seq<char>, b: Seq<char>) -> bool
    decreases a.len(),
{
    if b.len() == 0 {
        false
    } else if a.len() == 0 {
        true
    } else if a[0] == b[0] {
        lex_lt(a.drop_first(), b.drop_first())
    } else {
        (a[0] as int) < (b[0] as int)
    }
}

/// Each name comes no later than every name after it.
pub open spec fn is_sorted_names(v: Seq<String>) -> bool {
    forall|i: int, j: int| 0 <= i < j < v.len() ==> !lex_lt(#[trigger] v[j]@, #[trigger] v[i]@)
}

/// Nothing comes before itself.
pub proof fn lemma_lex_irreflexive(a: Seq<char>)
    ensures
        !lex_lt(a, a),
    decreases a.len(),
{
    if a.len() > 0 {
        lemma_lex_irreflexive(a.drop_first());
    }
}

/// Of two different names, one comes before the other.
pub proof fn lemma_lex_total(a: Seq<char>, b: Seq<char>)
    ensures
        a == b || lex_lt(a, b) || lex_lt(b, a),
    decreases a.len(),
{
    if a.len() > 0 && b.len() > 0 && a[0] == b[0] {
        lemma_lex_total(a.drop_first(), b.drop_first());
        if a.drop_first() == b.drop_first() {
            assert(a =~= seq![a[0]] + a.drop_first());
            assert(b =~= seq![b[0]] + b.drop_first());
        }
    } else if a.len() == 0 && b.len() == 0 {
        assert(a =~= b);
    } else if a.len() > 0 && b.len() > 0 {
        assert((a[0] as int) != (b[0] as int));
    }
}

/// Coming before is transitive.
pub proof fn lemma_lex_transitive(a: Seq<char>, b: Seq<char>, c: Seq<char>)
    requires
        lex_lt(a, b),
        lex_lt(b, c),
    ensures
        lex_lt(a, c),
    decreases a.len(),
{
    if a.len() > 0 && a[0] == b[0] && b[0] == c[0] {
        lemma_lex_transitive(a.drop_first(), b.drop_first(), c.drop_first());
    }
}

/// Coming no later is transitive.
pub proof fn lemma_lex_le_transitive(a: Seq<char>, b: Seq<char>, c: Seq<char>)
    requires
        !lex_lt(b, a),
        !lex_lt(c, b),
    ensures
        !lex_lt(c, a),
{
    lemma_lex_total(a, b);
    lemma_lex_total(b, c);
    if lex_lt(c, a) {
        if a == b {
        } else if b == c {
        } else {
            lemma_lex_transitive(a, b, c);
            lemma_lex_transitive(c, a, c);
            lemma_lex_irreflexive(c);
        }
    }
}

/// Whether `a` comes strictly before `b`.
pub fn name_lt(a: &str, b: &str) -> (r: bool)
    ensures
        r == lex_lt(a@, b@),
{
    let x = chars_of(a);
    let y = chars_of(b);
    let mut i: usize = 0;
    assert(a@.skip(0) =~= a@);
    assert(b@.skip(0) =~= b@);
    while i < x.len() && i < y.len() && x[i] == y[i]
        invariant
            i <= x@.len(),
            i <= y@.len(),
            x@ == a@,
            y@ == b@,
            lex_lt(a@, b@) == lex_lt(a@.skip(i as int), b@.skip(i as int)),
        decreases x@.len() - i,
    {
        proof {
            let sa = a@.skip(i as int);
            let sb = b@.skip(i as int);
            assert(sa.drop_first() =~= a@.skip(i + 1));
            assert(sb.drop_first() =~= b@.skip(i + 1));
            assert(sa[0] == sb[0]);
        }
        i = i + 1;
    }
    if i == y.len() {
        false
    } else if i == x.len() {
        true
    } else {
        assert(a@.skip(i as int)[0] == x@[i as int]);
        assert(b@.skip(i as int)[0] == y@[i as int]);
        assert(x@[i as int] != y@[i as int]);
        x[i] < y[i]
    }
}

/// The names in order, holding the same names as the argument, each as
/// often.
pub fn sorted_names(names: Vec<String>) -> (r: Vec<String>)
    ensures
        is_sorted_names(r@),
        r@.to_multiset() == names@.to_multiset(),
{
    let mut r: Vec<String> = Vec::new();
    let n = names.len();
    assert(r@ =~= names@.take(0));
    for i in 0..n
        invariant
            n == names@.len(),
            is_sorted_names(r@),
            r@.to_multiset() == names@.take(i as int).to_multiset(),
    {
        let x = names[i].clone();
        let mut j: usize = 0;
        while j < r.len() && !name_lt(x.as_str(), r[j].as_str())
            invariant
                j <= r@.len(),
                forall|k: int| 0 <= k < j ==> !lex_lt(x@, #[trigger] r@[k]@),
            decreases r@.len() - j,
        {
            j = j + 1;
        }
        let ghost before = r@;
        r.insert(j, x);
        proof {
            assert(names@.take(i + 1) =~= names@.take(i as int).push(names@[i as int]));
            assert(r@ == before.insert(j as int, x));
            vstd::seq_lib::to_multiset_insert(before, j as int, x);
            vstd::seq_lib::to_multiset_build(names@.take(i as int), names@[i as int]);
            assert forall|p: int, q: int| 0 <= p < q < r@.len() implies !lex_lt(
                #[trigger] r@[q]@,
                #[trigger] r@[p]@,
            ) by {
                if q < j {
                    assert(r@[p] == before[p] && r@[q] == before[q]);
                } else if q == j {
                    assert(r@[p] == before[p]);
                    lemma_lex_total(x@, before[p]@);
                    if lex_lt(x@, before[p]@) {
                        assert(!lex_lt(x@, before[p]@));
                    }
                    if x@ == before[p]@ {
                        lemma_lex_irreflexive(x@);
                    }
                } else if p == j {
                    assert(r@[q] == before[q - 1]);
                    lemma_lex_total(x@, before[j as int]@);
                    if q - 1 > j {
                        assert(!lex_lt(before[q - 1]@, before[j as int]@));
                    }
                    if lex_lt(before[q - 1]@, x@) {
                        lemma_lex_transitive(before[q - 1]@, x@, before[j as int]@);
                        if q - 1 == j {
                            lemma_lex_irreflexive(before[j as int]@);
                        }
                    }
                } else if p < j {
                    assert(r@[p] == before[p] && r@[q] == before[q - 1]);
                } else {
                    assert(r@[p] == before[p - 1] && r@[q] == before[q - 1]);
                }
            }
        }
    }
    assert(names@.take(n as int) =~= names@);
    r
}

} // verus!
