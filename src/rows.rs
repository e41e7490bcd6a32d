//! Facts about filtered row sequences, and the loop that filters a vector.
use vstd::prelude::*;

verus! {

broadcast use vstd::seq_lib::group_filter_ensures;

/// Every row of `s.filter(pred)` is a row of `s` that passes `pred`.
pub proof fn lemma_filter_from<T>(s: Seq<T>, pred: spec_fn(T) -> bool, i: int)
    requires
        0 <= i < s.filter(pred).len(),
    ensures
        exists|j: int| 0 <= j < s.len() && s[j] == s.filter(pred)[i],
        pred(s.filter(pred)[i]),
{
    let x = s.filter(pred)[i];
    assert(s.filter(pred).contains(x));
    s.lemma_filter_contains_rev(pred, x);
}

/// Every row of `s` that passes `pred` stays in `s.filter(pred)`.
pub proof fn lemma_filter_keeps<T>(s: Seq<T>, pred: spec_fn(T) -> bool, j: int)
    requires
        0 <= j < s.len(),
        pred(s[j]),
    ensures
        exists|i: int| 0 <= i < s.filter(pred).len() && s.filter(pred)[i] == s[j],
{
    assert(s.filter(pred).contains(s[j]));
}

/// A relation that holds between the rows at any two distinct positions of
/// `s` still holds so in `s.filter(pred)`.
pub proof fn lemma_filter_pairwise<T>(s: Seq<T>, pred: spec_fn(T) -> bool, rel: spec_fn(T, T) -> bool)
    requires
        forall|i: int, j: int| 0 <= i < s.len() && 0 <= j < s.len() && i != j ==> rel(s[i], s[j]),
    ensures
        forall|i: int, j: int|
            0 <= i < s.filter(pred).len() && 0 <= j < s.filter(pred).len() && i != j ==> rel(
                s.filter(pred)[i],
                s.filter(pred)[j],
            ),
    decreases s.len(),
{
    reveal(Seq::filter);
    if s.len() > 0 {
        let d = s.drop_last();
        assert forall|i: int, j: int| 0 <= i < d.len() && 0 <= j < d.len() && i != j implies rel(
            d[i],
            d[j],
        ) by {
            assert(d[i] == s[i] && d[j] == s[j]);
        }
        lemma_filter_pairwise(d, pred, rel);
        let f = d.filter(pred);
        if pred(s.last()) {
            let g = f.push(s.last());
            assert(s.filter(pred) == g);
            assert forall|i: int, j: int|
                0 <= i < g.len() && 0 <= j < g.len() && i != j implies rel(g[i], g[j]) by {
                let n = s.len() - 1;
                if i == f.len() {
                    lemma_filter_from(d, pred, j);
                    let q = choose|q: int| 0 <= q < d.len() && d[q] == f[j];
                    assert(s[q] == g[j]);
                    assert(rel(s[n], s[q]));
                } else if j == f.len() {
                    lemma_filter_from(d, pred, i);
                    let q = choose|q: int| 0 <= q < d.len() && d[q] == f[i];
                    assert(s[q] == g[i]);
                    assert(rel(s[q], s[n]));
                } else {
                    assert(g[i] == f[i] && g[j] == f[j]);
                }
            }
        } else {
            assert(s.filter(pred) == f);
        }
    }
}

/// The rows of `rows` that `keep` accepts, in their order.
pub fn retain_rows<T, F: Fn(&T) -> bool>(rows: Vec<T>, keep: F, Ghost(pred): Ghost<spec_fn(T) -> bool>) -> (r: Vec<T>)
    requires
        forall|x: &T| #[trigger] keep.requires((x,)),
        forall|x: &T, b: bool| keep.ensures((x,), b) ==> b == pred(*x),
    ensures
        r@ == rows@.filter(pred),
{
    let ghost orig = rows@;
    let mut rest = rows;
    let mut out: Vec<T> = Vec::new();
    proof {
        reveal(Seq::filter);
        assert(orig.subrange(0, 0) =~= Seq::<T>::empty());
        assert(rest@ =~= orig.subrange(0, orig.len() as int));
    }
    while rest.len() > 0
        invariant
            forall|x: &T| #[trigger] keep.requires((x,)),
            forall|x: &T, b: bool| keep.ensures((x,), b) ==> b == pred(*x),
            rest@.len() <= orig.len(),
            rest@ == orig.subrange(orig.len() - rest@.len(), orig.len() as int),
            out@ == orig.subrange(0, orig.len() - rest@.len()).filter(pred),
        decreases rest@.len(),
    {
        let ghost k = orig.len() - rest@.len();
        let x = rest.remove(0);
        proof {
            assert(x == orig[k]);
            assert(orig.subrange(0, k + 1).drop_last() =~= orig.subrange(0, k));
            assert(orig.subrange(0, k + 1).last() == x);
            reveal(Seq::filter);
            assert(rest@ =~= orig.subrange(k + 1, orig.len() as int));
        }
        let b = keep(&x);
        if b {
            out.push(x);
        }
    }
    proof {
        assert(orig.subrange(0, orig.len() as int) =~= orig);
    }
    out
}

/// Copies of the rows of `rows` that `keep` accepts, in their order.
pub fn select_rows<T: Clone, F: Fn(&T) -> bool>(rows: &Vec<T>, keep: F, Ghost(pred): Ghost<spec_fn(T) -> bool>) -> (r: Vec<T>)
    requires
        forall|x: &T| #[trigger] keep.requires((x,)),
        forall|x: &T, b: bool| keep.ensures((x,), b) ==> b == pred(*x),
        forall|a: T, b: T| #[trigger] cloned::<T>(a, b) ==> b == a,
    ensures
        r@ == rows@.filter(pred),
{
    let mut out: Vec<T> = Vec::new();
    let mut i: usize = 0;
    proof {
        reveal(Seq::filter);
        assert(rows@.subrange(0, 0) =~= Seq::<T>::empty());
    }
    while i < rows.len()
        invariant
            forall|x: &T| #[trigger] keep.requires((x,)),
            forall|x: &T, b: bool| keep.ensures((x,), b) ==> b == pred(*x),
            forall|a: T, b: T| #[trigger] cloned::<T>(a, b) ==> b == a,
            i <= rows@.len(),
            out@ == rows@.subrange(0, i as int).filter(pred),
        decreases rows@.len() - i,
    {
        proof {
            assert(rows@.subrange(0, i + 1).drop_last() =~= rows@.subrange(0, i as int));
            assert(rows@.subrange(0, i + 1).last() == rows@[i as int]);
            reveal(Seq::filter);
        }
        if keep(&rows[i]) {
            let c = rows[i].clone();
            assert(cloned::<T>(rows@[i as int], c));
            out.push(c);
        }
        i += 1;
    }
    proof {
        assert(rows@.subrange(0, rows@.len() as int) =~= rows@);
    }
    out
}

} // verus!
