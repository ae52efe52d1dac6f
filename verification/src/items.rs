//! Comparison and copying of values by their views.

use vstd::prelude::*;

use crate::net::{IpAddr, IpNetwork};
use crate::text::same;
use crate::views::{group_views, opt, views};

verus! {

broadcast use group_views;

/// A value that can be compared and copied, both by its view.
pub trait Item: View + Sized {
    fn alike(&self, other: &Self) -> (r: bool)
        ensures
            r == (self@ == other@),
    ;

    fn twin(&self) -> (r: Self)
        ensures
            r@ == self@,
    ;
}

impl Item for String {
    fn alike(&self, other: &Self) -> (r: bool) {
        same(self.as_str(), other.as_str())
    }

    fn twin(&self) -> (r: Self) {
        self.clone()
    }
}

impl Item for u8 {
    fn alike(&self, other: &Self) -> (r: bool) {
        *self == *other
    }

    fn twin(&self) -> (r: Self) {
        *self
    }
}

impl Item for u16 {
    fn alike(&self, other: &Self) -> (r: bool) {
        *self == *other
    }

    fn twin(&self) -> (r: Self) {
        *self
    }
}

impl Item for u32 {
    fn alike(&self, other: &Self) -> (r: bool) {
        *self == *other
    }

    fn twin(&self) -> (r: Self) {
        *self
    }
}

impl Item for bool {
    fn alike(&self, other: &Self) -> (r: bool) {
        *self == *other
    }

    fn twin(&self) -> (r: Self) {
        *self
    }
}

impl View for IpAddr {
    type V = IpAddr;

    open spec fn view(&self) -> IpAddr {
        *self
    }
}

impl Item for IpAddr {
    fn alike(&self, other: &Self) -> (r: bool) {
        *self == *other
    }

    fn twin(&self) -> (r: Self) {
        *self
    }
}

impl View for IpNetwork {
    type V = IpNetwork;

    open spec fn view(&self) -> IpNetwork {
        *self
    }
}

impl Item for IpNetwork {
    fn alike(&self, other: &Self) -> (r: bool) {
        *self == *other
    }

    fn twin(&self) -> (r: Self) {
        *self
    }
}

/// Whether two lists hold equal values in the same order.
pub fn same_list<T: Item>(a: &Vec<T>, b: &Vec<T>) -> (r: bool)
    ensures
        r == (views(a@) == views(b@)),
{
    if a.len() != b.len() {
        assert(views(a@).len() != views(b@).len());
        return false;
    }
    let mut i: usize = 0;
    while i < a.len()
        invariant
            i <= a@.len() == b@.len(),
            forall|j: int| 0 <= j < i ==> views(a@)[j] == views(b@)[j],
        decreases a@.len() - i,
    {
        if !a[i].alike(&b[i]) {
            assert(views(a@)[i as int] != views(b@)[i as int]);
            return false;
        }
        i = i + 1;
    }
    assert(views(a@) =~= views(b@));
    true
}

/// Copies a list.
pub fn copy_list<T: Item>(v: &Vec<T>) -> (r: Vec<T>)
    ensures
        views(r@) == views(v@),
{
    let mut r: Vec<T> = Vec::new();
    let mut i: usize = 0;
    while i < v.len()
        invariant
            i <= v@.len(),
            views(r@) =~= views(v@).take(i as int),
        decreases v@.len() - i,
    {
        r.push(v[i].twin());
        i = i + 1;
    }
    assert(views(v@).take(i as int) =~= views(v@));
    r
}

pub fn same_opt<T: Item>(a: &Option<T>, b: &Option<T>) -> (r: bool)
    ensures
        r == (opt(*a) == opt(*b)),
{
    match (a, b) {
        (Some(x), Some(y)) => x.alike(y),
        (None, None) => true,
        _ => false,
    }
}

pub fn copy_opt<T: Item>(a: &Option<T>) -> (r: Option<T>)
    ensures
        opt(r) == opt(*a),
{
    match a {
        Some(x) => Some(x.twin()),
        None => None,
    }
}

/// Whether a list holds a value.
pub fn has_item<T: Item>(list: &Vec<T>, x: &T) -> (r: bool)
    ensures
        r == views(list@).contains(x@),
{
    let mut i: usize = 0;
    while i < list.len()
        invariant
            i <= list@.len(),
            forall|j: int| 0 <= j < i ==> views(list@)[j] != x@,
        decreases list@.len() - i,
    {
        if list[i].alike(x) {
            assert(views(list@)[i as int] == x@);
            return true;
        }
        i = i + 1;
    }
    false
}

} // verus!
