//! Lexicographic order on character sequences: the order of `str`'s `Ord`
//! (UTF-8 byte order and code-point order agree).

use vstd::prelude::*;
use vstd::relations::sorted_by;
use vstd::relations::total_ordering;
use crate::text::views;

verus! {

/// `a` sorts strictly before `b`.
pub open spec fn lex_lt(a: Seq<char>, b: Seq<char>) -> bool
    decreases a.len(),
{
    if a.len() == 0 {
        b.len() > 0
    } else if b.len() == 0 {
        false
    } else if a[0] < b[0] {
        true
    } else if a[0] > b[0] {
        false
    } else {
        lex_lt(a.drop_first(), b.drop_first())
    }
}

pub proof fn lemma_lex_irreflexive(a: Seq<char>)
    ensures
        !lex_lt(a, a),
    decreases a.len(),
{
    if a.len() > 0 {
        lemma_lex_irreflexive(a.drop_first());
    }
}

pub proof fn lemma_lex_asymmetric(a: Seq<char>, b: Seq<char>)
    requires
        lex_lt(a, b),
    ensures
        !lex_lt(b, a),
    decreases a.len(),
{
    if a.len() > 0 && b.len() > 0 && a[0] == b[0] {
        lemma_lex_asymmetric(a.drop_first(), b.drop_first());
    }
}

pub proof fn lemma_lex_transitive(a: Seq<char>, b: Seq<char>, c: Seq<char>)
    requires
        lex_lt(a, b),
        lex_lt(b, c),
    ensures
        lex_lt(a, c),
    decreases a.len(),
{
    if a.len() > 0 && b.len() > 0 && c.len() > 0 && a[0] == b[0] && b[0] == c[0] {
        lemma_lex_transitive(a.drop_first(), b.drop_first(), c.drop_first());
    }
}

pub proof fn lemma_lex_total(a: Seq<char>, b: Seq<char>)
    ensures
        a == b || lex_lt(a, b) || lex_lt(b, a),
    decreases a.len(),
{
    if a.len() > 0 && b.len() > 0 && a[0] == b[0] {
        lemma_lex_total(a.drop_first(), b.drop_first());
        if a.drop_first() == b.drop_first() {
            assert(a =~= seq![a[0]] + a.drop_first());
            assert(b =~= seq![b[0]] + b.drop_first());
        }
    } else if a.len() == 0 && b.len() == 0 {
        assert(a =~= b);
    }
}

/// Computes `lex_lt`.
pub fn lex_less(a: &str, b: &str) -> (r: bool)
    ensures
        r == lex_lt(a@, b@),
{
    let x = crate::text::str_chars(a);
    let y = crate::text::str_chars(b);
    let mut i: usize = 0;
    assert(x@.skip(0) =~= x@);
    assert(y@.skip(0) =~= y@);
    while i < x.len() && i < y.len() && x[i] == y[i]
        invariant
            i <= x.len(),
            i <= y.len(),
            lex_lt(x@, y@) == lex_lt(x@.skip(i as int), y@.skip(i as int)),
        decreases x.len() - i,
    {
        assert(x@.skip(i as int).drop_first() =~= x@.skip(i + 1));
        assert(y@.skip(i as int).drop_first() =~= y@.skip(i + 1));
        i = i + 1;
    }
    if i >= x.len() {
        i < y.len()
    } else if i >= y.len() {
        false
    } else {
        x[i] < y[i]
    }
}

/// `a` sorts before `b` or equals it.
pub open spec fn lex_le(a: Seq<char>, b: Seq<char>) -> bool {
    !lex_lt(b, a)
}

/// `lex_le` as a relation.
pub open spec fn lex_order() -> spec_fn(Seq<char>, Seq<char>) -> bool {
    |a: Seq<char>, b: Seq<char>| lex_le(a, b)
}

/// `lex_le` is a total order.
pub proof fn lemma_lex_total_ordering()
    ensures
        total_ordering(lex_order()),
{
    let r = lex_order();
    assert forall|x: Seq<char>| #[trigger] r(x, x) by {
        lemma_lex_irreflexive(x);
    }
    assert forall|x: Seq<char>, y: Seq<char>| #[trigger] r(x, y) && #[trigger] r(y, x) implies x == y by {
        lemma_lex_total(x, y);
    }
    assert forall|x: Seq<char>, y: Seq<char>, z: Seq<char>| #[trigger] r(x, y) && #[trigger] r(y, z) implies r(x, z) by {
        lemma_lex_total(x, y);
        lemma_lex_total(y, z);
        if lex_lt(z, x) {
            if x == y {
            } else if y == z {
            } else {
                lemma_lex_transitive(x, y, z);
                lemma_lex_asymmetric(x, z);
            }
        }
    }
    assert forall|x: Seq<char>, y: Seq<char>| #[trigger] r(x, y) || #[trigger] r(y, x) by {
        if lex_lt(y, x) {
            lemma_lex_asymmetric(y, x);
        }
    }
}

/// Sort strings in ascending lexicographic order (`slice::sort` on `String`s).
pub fn sort_strings(v: Vec<String>) -> (r: Vec<String>)
    ensures
        views(r@) == views(v@).sort_by(lex_order()),
{
    broadcast use vstd::seq_lib::group_to_multiset_ensures, vstd::multiset::group_multiset_axioms;

    let ghost input = views(v@);
    let mut out: Vec<String> = Vec::new();
    let mut rest = v;
    assert(views(out@) =~= Seq::<Seq<char>>::empty());
    assert(views(out@).to_multiset().len() == 0);
    assert(views(out@).to_multiset() =~= vstd::multiset::Multiset::<Seq<char>>::empty());
    assert(views(out@).to_multiset().add(views(rest@).to_multiset()) =~= input.to_multiset());
    while rest.len() > 0
        invariant
            sorted_by(views(out@), lex_order()),
            views(out@).to_multiset().add(views(rest@).to_multiset()) == input.to_multiset(),
        decreases rest.len(),
    {
        let ghost before_rest = views(rest@);
        let x = rest.pop().unwrap();
        proof {
            assert(before_rest =~= views(rest@).push(x@));
            vstd::seq_lib::to_multiset_build(views(rest@), x@);
        }
        let mut p: usize = 0;
        while p < out.len() && !lex_less(x.as_str(), out[p].as_str())
            invariant
                p <= out.len(),
                forall|k: int| 0 <= k < p ==> !lex_lt(x@, #[trigger] views(out@)[k]),
            decreases out.len() - p,
        {
            p = p + 1;
        }
        let ghost old_out = views(out@);
        proof {
            lemma_lex_total_ordering();
            assert forall|k: int| 0 <= k < old_out.len() && p < old_out.len() && p <= k implies !lex_lt(
                #[trigger] old_out[k],
                x@,
            ) by {
                if lex_lt(old_out[k], x@) {
                    assert(lex_lt(x@, old_out[p as int]));
                    lemma_lex_transitive(old_out[k], x@, old_out[p as int]);
                    if k == p {
                        lemma_lex_asymmetric(old_out[k], x@);
                    } else {
                        assert(lex_order()(old_out[p as int], old_out[k]));
                    }
                }
            }
        }
        out.insert(p, x);
        proof {
            let nv = views(out@);
            assert(nv =~= old_out.insert(p as int, x@));
            vstd::seq_lib::to_multiset_insert(old_out, p as int, x@);
            assert forall|i: int, j: int| 0 <= i < j < nv.len() implies #[trigger] lex_order()(nv[i], nv[j]) by {
                if j < p {
                    assert(lex_order()(old_out[i], old_out[j]));
                } else if j == p {
                    assert(nv[i] == old_out[i]);
                } else if i < p {
                    assert(nv[j] == old_out[j - 1]);
                    assert(nv[i] == old_out[i]);
                    assert(!lex_lt(x@, old_out[i]));
                    if lex_lt(old_out[j - 1], old_out[i]) {
                        assert(lex_order()(old_out[i], old_out[j - 1]));
                    }
                } else if i == p {
                    assert(nv[j] == old_out[j - 1]);
                } else {
                    assert(nv[j] == old_out[j - 1]);
                    assert(nv[i] == old_out[i - 1]);
                    assert(lex_order()(old_out[i - 1], old_out[j - 1]));
                }
            }
            assert(nv.to_multiset().add(views(rest@).to_multiset()) =~= input.to_multiset());
        }
    }
    proof {
        assert(views(rest@) =~= Seq::<Seq<char>>::empty());
        assert(views(rest@).to_multiset().len() == 0);
        assert(views(rest@).to_multiset() =~= vstd::multiset::Multiset::<Seq<char>>::empty());
        assert(views(out@).to_multiset() =~= input.to_multiset());
        lemma_lex_total_ordering();
        input.lemma_sort_by_ensures(lex_order());
        vstd::seq_lib::lemma_sorted_unique(views(out@), input.sort_by(lex_order()), lex_order());
    }
    out
}

} // verus!
