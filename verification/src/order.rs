//! The order of texts, and sorting by it.

use vstd::prelude::*;
use vstd::relations::*;
use vstd::seq_lib::*;

use crate::text::chars_of;
use crate::views::{group_views, views};

verus! {

broadcast use group_views;

/// Whether `a` is not behind `b` when both are compared character by character from `i` on.
pub open spec fn le_from(a: Seq<char>, b: Seq<char>, i: int) -> bool
    decreases a.len() - i,
{
    if i < 0 || i >= a.len() {
        true
    } else if i >= b.len() {
        false
    } else if a[i] != b[i] {
        a[i] < b[i]
    } else {
        le_from(a, b, i + 1)
    }
}

/// The order of texts by their characters, which is the order of their bytes.
pub open spec fn text_le(a: Seq<char>, b: Seq<char>) -> bool {
    le_from(a, b, 0)
}

/// The texts in ascending order.
pub open spec fn sorted_texts(s: Seq<Seq<char>>) -> Seq<Seq<char>> {
    s.sort_by(|a: Seq<char>, b: Seq<char>| text_le(a, b))
}

proof fn lemma_le_total(a: Seq<char>, b: Seq<char>, i: int)
    requires
        0 <= i,
    ensures
        le_from(a, b, i) || le_from(b, a, i),
    decreases a.len() - i,
{
    if i < a.len() && i < b.len() && a[i] == b[i] {
        lemma_le_total(a, b, i + 1);
    }
}

proof fn lemma_le_antisymmetric(a: Seq<char>, b: Seq<char>, i: int)
    requires
        0 <= i <= a.len(),
        i <= b.len(),
        le_from(a, b, i),
        le_from(b, a, i),
        a.take(i) == b.take(i),
    ensures
        a == b,
    decreases a.len() - i,
{
    if i < a.len() && i < b.len() {
        assert(a.take(i + 1) =~= a.take(i).push(a[i]));
        assert(b.take(i + 1) =~= b.take(i).push(b[i]));
        lemma_le_antisymmetric(a, b, i + 1);
    } else {
        assert(a =~= a.take(i));
        assert(b =~= b.take(i));
    }
}

proof fn lemma_le_transitive(a: Seq<char>, b: Seq<char>, c: Seq<char>, i: int)
    requires
        0 <= i,
        le_from(a, b, i),
        le_from(b, c, i),
    ensures
        le_from(a, c, i),
    decreases a.len() - i,
{
    if i < a.len() && i < b.len() && i < c.len() && a[i] == b[i] && b[i] == c[i] {
        lemma_le_transitive(a, b, c, i + 1);
    }
}

/// The order of texts is total.
pub proof fn law_text_order()
    ensures
        total_ordering(|a: Seq<char>, b: Seq<char>| text_le(a, b)),
{
    let r = |a: Seq<char>, b: Seq<char>| text_le(a, b);
    assert forall|x: Seq<char>| #[trigger] r(x, x) by {
        lemma_le_total(x, x, 0);
    }
    assert forall|x: Seq<char>, y: Seq<char>| #[trigger] r(x, y) || #[trigger] r(y, x) by {
        lemma_le_total(x, y, 0);
    }
    assert forall|x: Seq<char>, y: Seq<char>| #[trigger] r(x, y) && #[trigger] r(y, x) implies x
        == y by {
        assert(x.take(0) =~= y.take(0));
        lemma_le_antisymmetric(x, y, 0);
    }
    assert forall|x: Seq<char>, y: Seq<char>, z: Seq<char>|
        #[trigger] r(x, y) && #[trigger] r(y, z) implies r(x, z) by {
        lemma_le_transitive(x, y, z, 0);
    }
}

/// Whether `a` is not behind `b`.
pub fn text_at_most(a: &str, b: &str) -> (r: bool)
    ensures
        r == text_le(a@, b@),
{
    let x = chars_of(a);
    let y = chars_of(b);
    let mut i: usize = 0;
    while i < x.len()
        invariant
            i <= x@.len(),
            x@ == a@,
            y@ == b@,
            le_from(a@, b@, i as int) == text_le(a@, b@),
        decreases x@.len() - i,
    {
        if i >= y.len() {
            return false;
        }
        if x[i] != y[i] {
            return x[i] < y[i];
        }
        i = i + 1;
    }
    true
}

pub proof fn lemma_insert_multiset<T>(s: Seq<T>, p: int, x: T)
    requires
        0 <= p <= s.len(),
    ensures
        s.insert(p, x).to_multiset() == s.to_multiset().insert(x),
{
    broadcast use group_to_multiset_ensures;

    let a = s.take(p);
    let b = s.skip(p);
    assert(s =~= a + b);
    assert(s.insert(p, x) =~= a.push(x) + b);
    lemma_multiset_commutative(a, b);
    lemma_multiset_commutative(a.push(x), b);
    assert(s.insert(p, x).to_multiset() =~= s.to_multiset().insert(x));
}

/// Sorts texts.
pub fn sort_texts(v: &Vec<String>) -> (r: Vec<String>)
    ensures
        views(r@) == sorted_texts(views(v@)),
{
    let ghost leq = |a: Seq<char>, b: Seq<char>| text_le(a, b);
    let ghost all = views(v@);
    let mut r: Vec<String> = Vec::new();
    let mut i: usize = 0;
    proof {
        law_text_order();
        assert(all.take(0) =~= Seq::empty());
    }
    while i < v.len()
        invariant
            i <= v@.len(),
            all == views(v@),
            leq == (|a: Seq<char>, b: Seq<char>| text_le(a, b)),
            total_ordering(leq),
            sorted_by(views(r@), leq),
            views(r@).to_multiset() == all.take(i as int).to_multiset(),
        decreases v@.len() - i,
    {
        let ghost before = views(r@);
        let ghost x = all[i as int];
        let mut p: usize = 0;
        while p < r.len() && text_at_most(r[p].as_str(), v[i].as_str())
            invariant
                p <= r@.len(),
                i < v@.len(),
                before == views(r@),
                x == v@[i as int]@,
                leq == (|a: Seq<char>, b: Seq<char>| text_le(a, b)),
                forall|j: int| 0 <= j < p ==> leq(#[trigger] before[j], x),
            decreases r@.len() - p,
        {
            p = p + 1;
        }
        proof {
            if p < r@.len() {
                assert(before[p as int] == r@[p as int]@);
                assert(!leq(before[p as int], x));
                assert(leq(x, before[p as int]));
            }
        }
        r.insert(p, v[i].clone());
        proof {
            assert(views(r@) =~= before.insert(p as int, x));
            assert(sorted_by(views(r@), leq)) by {
                let n = before.insert(p as int, x);
                assert forall|a: int, b: int| 0 <= a < b < n.len() implies #[trigger] leq(
                    n[a],
                    n[b],
                ) by {
                    let a2 = if a < p {
                        a
                    } else {
                        a - 1
                    };
                    let b2 = if b < p {
                        b
                    } else {
                        b - 1
                    };
                    if a != p && b != p {
                        assert(leq(before[a2], before[b2]));
                    } else if a == p {
                        if p < b2 {
                            assert(leq(before[p as int], before[b2]));
                        }
                    }
                }
            }
            lemma_insert_multiset(before, p as int, x);
            assert(all.take(i + 1) =~= all.take(i as int).push(x));
            broadcast use group_to_multiset_ensures;

        }
        i = i + 1;
    }
    proof {
        assert(all.take(i as int) =~= all);
        all.lemma_sort_by_ensures(leq);
        lemma_sorted_unique(views(r@), sorted_texts(all), leq);
    }
    r
}

} // verus!
