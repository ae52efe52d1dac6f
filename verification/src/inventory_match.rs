//! Comparison of inventories whatever the order of their objects.

use vstd::prelude::*;

use crate::firewall_model::{FirewallObject, FirewallObjectView};
use crate::items::{same_list, Item};
use crate::network_model::{NetworkObject, NetworkObjectView};
use crate::text::same;
use crate::views::{group_views, views};
use crate::wireless_model::{WirelessObject, WirelessObjectView};

verus! {

broadcast use group_views;

/// An object with a key that an inventory is ordered by.
pub trait Keyed: Item {
    spec fn key(v: Self::V) -> (Seq<char>, Seq<char>);

    fn same_key(&self, other: &Self) -> (r: bool)
        ensures
            r == (Self::key(self@) == Self::key(other@)),
    ;
}

impl Keyed for FirewallObject {
    open spec fn key(v: FirewallObjectView) -> (Seq<char>, Seq<char>) {
        (v.kind(), v.id())
    }

    fn same_key(&self, other: &Self) -> (r: bool) {
        same(self.kind(), other.kind()) && same(self.id(), other.id())
    }
}

impl Keyed for NetworkObject {
    open spec fn key(v: NetworkObjectView) -> (Seq<char>, Seq<char>) {
        (v.kind(), v.id())
    }

    fn same_key(&self, other: &Self) -> (r: bool) {
        same(self.kind(), other.kind()) && same(self.id(), other.id())
    }
}

impl Keyed for WirelessObject {
    open spec fn key(v: WirelessObjectView) -> (Seq<char>, Seq<char>) {
        (v.kind(), v.id())
    }

    fn same_key(&self, other: &Self) -> (r: bool) {
        same(self.kind(), other.kind()) && same(self.id(), other.id())
    }
}

/// The objects of a key, in their order.
pub open spec fn keyed<T: Keyed>(s: Seq<T::V>, key: (Seq<char>, Seq<char>)) -> Seq<T::V> {
    s.filter(|v: T::V| T::key(v) == key)
}

/// Whether two lists become equal once both are sorted by key and objects of equal keys keep their
/// order: for each key they hold the same objects in the same order.
pub open spec fn same_inventory<T: Keyed>(a: Seq<T::V>, b: Seq<T::V>) -> bool {
    forall|key: (Seq<char>, Seq<char>)| #[trigger] keyed::<T>(a, key) == keyed::<T>(b, key)
}

fn of_key<T: Keyed>(list: &Vec<T>, x: &T) -> (r: Vec<T>)
    ensures
        views(r@) == keyed::<T>(views(list@), T::key(x@)),
{
    let ghost all = views(list@);
    let ghost key = T::key(x@);
    let mut r: Vec<T> = Vec::new();
    let mut i: usize = 0;
    proof {
        reveal(Seq::filter);
        assert(all.take(0) =~= Seq::empty());
    }
    while i < list.len()
        invariant
            i <= list@.len(),
            all == views(list@),
            key == T::key(x@),
            views(r@) == keyed::<T>(all.take(i as int), key),
        decreases list@.len() - i,
    {
        proof {
            reveal(Seq::filter);
            assert(all.take(i + 1).drop_last() =~= all.take(i as int));
            assert(all[i as int] == list@[i as int]@);
        }
        if list[i].same_key(x) {
            r.push(list[i].twin());
        }
        i = i + 1;
    }
    assert(all.take(i as int) =~= all);
    r
}

proof fn lemma_no_key<T: Keyed>(s: Seq<T::V>, key: (Seq<char>, Seq<char>))
    requires
        forall|i: int| 0 <= i < s.len() ==> T::key(#[trigger] s[i]) != key,
    ensures
        keyed::<T>(s, key) == Seq::<T::V>::empty(),
    decreases s.len(),
{
    reveal(Seq::filter);
    if s.len() > 0 {
        assert(T::key(s[s.len() - 1]) != key);
        assert forall|i: int| 0 <= i < s.drop_last().len() implies T::key(
            #[trigger] s.drop_last()[i],
        ) != key by {
            assert(s.drop_last()[i] == s[i]);
        }
        lemma_no_key::<T>(s.drop_last(), key);
    }
}

/// Whether two inventories hold the same objects, whatever the order of their keys.
pub fn inventory_equal<T: Keyed>(left: &Vec<T>, right: &Vec<T>) -> (r: bool)
    ensures
        r == same_inventory::<T>(views(left@), views(right@)),
{
    let ghost a = views(left@);
    let ghost b = views(right@);
    let mut i: usize = 0;
    while i < left.len()
        invariant
            i <= left@.len(),
            a == views(left@),
            b == views(right@),
            forall|j: int|
                0 <= j < i ==> keyed::<T>(a, T::key(#[trigger] a[j])) == keyed::<T>(b, T::key(a[j])),
        decreases left@.len() - i,
    {
        assert(a[i as int] == left@[i as int]@);
        if !same_list(&of_key(left, &left[i]), &of_key(right, &left[i])) {
            assert(keyed::<T>(a, T::key(a[i as int])) != keyed::<T>(b, T::key(a[i as int])));
            return false;
        }
        i = i + 1;
    }
    let mut i: usize = 0;
    while i < right.len()
        invariant
            i <= right@.len(),
            a == views(left@),
            b == views(right@),
            forall|j: int|
                0 <= j < a.len() ==> keyed::<T>(a, T::key(#[trigger] a[j])) == keyed::<T>(
                    b,
                    T::key(a[j]),
                ),
            forall|j: int|
                0 <= j < i ==> keyed::<T>(a, T::key(#[trigger] b[j])) == keyed::<T>(b, T::key(b[j])),
        decreases right@.len() - i,
    {
        assert(b[i as int] == right@[i as int]@);
        if !same_list(&of_key(left, &right[i]), &of_key(right, &right[i])) {
            assert(keyed::<T>(a, T::key(b[i as int])) != keyed::<T>(b, T::key(b[i as int])));
            return false;
        }
        i = i + 1;
    }
    proof {
        assert forall|key: (Seq<char>, Seq<char>)| #[trigger]
            keyed::<T>(a, key) == keyed::<T>(b, key) by {
            if exists|j: int| 0 <= j < a.len() && T::key(#[trigger] a[j]) == key {
                let j = choose|j: int| 0 <= j < a.len() && T::key(#[trigger] a[j]) == key;
                assert(keyed::<T>(a, T::key(a[j])) == keyed::<T>(b, T::key(a[j])));
            } else if exists|j: int| 0 <= j < b.len() && T::key(#[trigger] b[j]) == key {
                let j = choose|j: int| 0 <= j < b.len() && T::key(#[trigger] b[j]) == key;
                assert(keyed::<T>(a, T::key(b[j])) == keyed::<T>(b, T::key(b[j])));
            } else {
                lemma_no_key::<T>(a, key);
                lemma_no_key::<T>(b, key);
            }
        }
    }
    true
}

} // verus!
