//! Listing order: newest first by creation time, ties broken by identifier.
use vstd::prelude::*;
use vstd::multiset::Multiset;
use crate::model::{Task, User};

verus! {

broadcast use vstd::seq_lib::group_to_multiset_ensures;

/// A row with a creation time and an identifier.
pub trait Dated: Sized {
    spec fn created_at(&self) -> int;

    spec fn row_id(&self) -> int;

    fn stamp(&self) -> (r: (i64, i32))
        ensures
            r.0 == self.created_at(),
            r.1 == self.row_id(),
    ;
}

impl Dated for Task {
    open spec fn created_at(&self) -> int {
        self.date_created as int
    }

    open spec fn row_id(&self) -> int {
        self.id as int
    }

    fn stamp(&self) -> (r: (i64, i32)) {
        (self.date_created, self.id)
    }
}

impl Dated for User {
    open spec fn created_at(&self) -> int {
        self.date_created as int
    }

    open spec fn row_id(&self) -> int {
        self.id as int
    }

    fn stamp(&self) -> (r: (i64, i32)) {
        (self.date_created, self.id)
    }
}

/// `a` was created after `b`, or at the same time with a larger identifier.
pub open spec fn newer<T: Dated>(a: T, b: T) -> bool {
    a.created_at() > b.created_at() || (a.created_at() == b.created_at() && a.row_id()
        > b.row_id())
}

/// No row of `s` is newer than a row before it.
pub open spec fn newest_first<T: Dated>(s: Seq<T>) -> bool {
    forall|i: int, j: int| 0 <= i < j < s.len() ==> !newer(#[trigger] s[j], #[trigger] s[i])
}

/// Two rows of `s` with the same creation time and identifier are the same row.
pub open spec fn keys_identify<T: Dated>(s: Seq<T>) -> bool {
    forall|x: T, y: T|
        #![trigger s.contains(x), s.contains(y)]
        s.contains(x) && s.contains(y) && x.created_at() == y.created_at() && x.row_id()
            == y.row_id() ==> x == y
}

/// The newest-first order of a collection of rows is unique when no two
/// different rows share a creation time and identifier.
pub proof fn lemma_newest_first_unique<T: Dated>(a: Seq<T>, b: Seq<T>)
    requires
        a.to_multiset() == b.to_multiset(),
        newest_first(a),
        newest_first(b),
        keys_identify(a),
    ensures
        a == b,
    decreases a.len(),
{
    if a.len() == 0 {
        assert(b.to_multiset().len() == 0);
        assert(b =~= a);
    } else {
        vstd::seq_lib::to_multiset_len(a);
        vstd::seq_lib::to_multiset_len(b);
        assert(b.len() == a.len());
        assert(a.contains(a[0]));
        assert(b.to_multiset().count(a[0]) > 0);
        assert(b.contains(a[0]));
        let j = choose|j: int| 0 <= j < b.len() && b[j] == a[0];
        if j > 0 {
            assert(!newer(b[j], b[0]));
        }
        assert(b.contains(b[0]));
        assert(a.to_multiset().count(b[0]) > 0);
        assert(a.contains(b[0]));
        let k = choose|k: int| 0 <= k < a.len() && a[k] == b[0];
        if k > 0 {
            assert(!newer(a[k], a[0]));
        }
        assert(a[0] == b[0]);
        let a1 = a.drop_first();
        let b1 = b.drop_first();
        vstd::seq_lib::to_multiset_remove(a, 0);
        vstd::seq_lib::to_multiset_remove(b, 0);
        assert(a.remove(0) =~= a1);
        assert(b.remove(0) =~= b1);
        assert forall|x: T, y: T|
            a1.contains(x) && a1.contains(y) && x.created_at() == y.created_at() && x.row_id()
                == y.row_id() implies x == y by {
            let p = choose|p: int| 0 <= p < a1.len() && a1[p] == x;
            let q = choose|q: int| 0 <= q < a1.len() && a1[q] == y;
            assert(a[p + 1] == x && a[q + 1] == y);
            assert(a.contains(x) && a.contains(y));
        }
        assert forall|i: int, j: int| 0 <= i < j < a1.len() implies !newer(#[trigger] a1[j], #[trigger] a1[i]) by {
            assert(a1[j] == a[j + 1] && a1[i] == a[i + 1]);
        }
        assert forall|i: int, j: int| 0 <= i < j < b1.len() implies !newer(#[trigger] b1[j], #[trigger] b1[i]) by {
            assert(b1[j] == b[j + 1] && b1[i] == b[i + 1]);
        }
        lemma_newest_first_unique(a1, b1);
        assert forall|i: int| 0 <= i < a.len() implies a[i] == b[i] by {
            if i > 0 {
                assert(a[i] == a1[i - 1] && b[i] == b1[i - 1]);
            }
        }
        assert(a =~= b);
    }
}

/// The rows of `v`, newest first.
pub fn sort_newest_first<T: Dated>(v: Vec<T>) -> (r: Vec<T>)
    ensures
        r@.to_multiset() == v@.to_multiset(),
        newest_first(r@),
{
    let ghost orig = v@;
    let mut rest = v;
    let mut out: Vec<T> = Vec::new();
    proof {
        assert(out@.to_multiset() =~= Multiset::empty());
        assert(rest@.to_multiset().add(out@.to_multiset()) =~= orig.to_multiset());
    }
    while rest.len() > 0
        invariant
            rest@.to_multiset().add(out@.to_multiset()) == orig.to_multiset(),
            newest_first(out@),
        decreases rest@.len(),
    {
        let ghost before = rest@;
        let x = rest.pop().unwrap();
        proof {
            assert(before =~= rest@.push(x));
            vstd::seq_lib::to_multiset_build(rest@, x);
        }
        let (xt, xi) = x.stamp();
        let mut p: usize = 0;
        while p < out.len()
            invariant
                0 <= p <= out@.len(),
                xt == x.created_at(),
                xi == x.row_id(),
                forall|j: int| 0 <= j < p ==> !newer(x, #[trigger] out@[j]),
            ensures
                0 <= p <= out@.len(),
                forall|j: int| 0 <= j < p ==> !newer(x, #[trigger] out@[j]),
                p < out@.len() ==> newer(x, out@[p as int]),
            decreases out@.len() - p,
        {
            let (ot, oi) = out[p].stamp();
            if xt > ot || (xt == ot && xi > oi) {
                break;
            }
            p += 1;
        }
        let ghost prev = out@;
        proof {
            assert(p < prev.len() ==> newer(x, prev[p as int]));
        }
        out.insert(p, x);
        proof {
            vstd::seq_lib::to_multiset_insert(prev, p as int, x);
            assert forall|i: int, j: int| 0 <= i < j < out@.len() implies !newer(#[trigger] out@[j], #[trigger] out@[i]) by {
                if j < p {
                    assert(out@[i] == prev[i] && out@[j] == prev[j]);
                } else if j == p {
                    assert(out@[i] == prev[i]);
                } else if i == p {
                    assert(out@[j] == prev[j - 1]);
                    if j - 1 > p {
                        assert(!newer(prev[j - 1], prev[p as int]));
                    }
                } else if i < p {
                    assert(out@[i] == prev[i] && out@[j] == prev[j - 1]);
                } else {
                    assert(out@[i] == prev[i - 1] && out@[j] == prev[j - 1]);
                }
            }
        }
    }
    proof {
        assert(rest@.to_multiset() =~= Multiset::empty());
    }
    out
}

} // verus!
