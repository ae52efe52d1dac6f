//! Reading lists of values.

use vstd::prelude::*;

use crate::net::{address_value, network_value, parse_address, parse_network, IpAddr, IpNetwork};
use crate::text::{chars_of, decimal_value, parse_decimal};
use crate::views::{group_views, opt, views};

verus! {

broadcast use group_views;

/// The results of reading each element, if each can be read.
pub open spec fn map_all<A, B>(s: Seq<A>, f: spec_fn(A) -> Option<B>) -> Option<Seq<B>> {
    if forall|i: int| 0 <= i < s.len() ==> f(#[trigger] s[i]) is Some {
        Some(Seq::new(s.len(), |i: int| f(s[i])->Some_0))
    } else {
        None
    }
}

/// The view of an optional list.
pub open spec fn olist<T: View>(o: Option<Vec<T>>) -> Option<Seq<T::V>> {
    match o {
        Some(v) => Some(views(v@)),
        None => None,
    }
}

/// A way to read a value from a text.
pub trait Reader {
    type Out: View;

    spec fn value(s: Seq<char>) -> Option<<Self::Out as View>::V>;

    fn read(s: &str) -> (r: Option<Self::Out>)
        ensures
            opt(r) == Self::value(s@),
    ;
}

/// Reads each text.
pub fn read_all<R: Reader>(values: &[String]) -> (r: Option<Vec<R::Out>>)
    ensures
        olist(r) == map_all(views(values@), |s: Seq<char>| R::value(s)),
{
    let ghost f = |s: Seq<char>| R::value(s);
    let ghost all = views(values@);
    let mut r: Vec<R::Out> = Vec::new();
    let mut i: usize = 0;
    while i < values.len()
        invariant
            i <= values@.len(),
            all == views(values@),
            f == (|s: Seq<char>| R::value(s)),
            r@.len() == i,
            forall|j: int| 0 <= j < i ==> f(#[trigger] all[j]) is Some,
            forall|j: int| 0 <= j < i ==> #[trigger] views(r@)[j] == f(all[j])->Some_0,
        decreases values@.len() - i,
    {
        assert(all[i as int] == values@[i as int]@);
        match R::read(values[i].as_str()) {
            Some(x) => {
                assert(f(all[i as int]) == Some(x@));
                r.push(x);
            },
            None => {
                assert(f(all[i as int]) is None);
                return None;
            },
        }
        i = i + 1;
    }
    assert(views(r@) =~= Seq::new(all.len(), |i: int| f(all[i])->Some_0));
    Some(r)
}

/// Reads an address.
pub struct Addresses;

impl Reader for Addresses {
    type Out = IpAddr;

    open spec fn value(s: Seq<char>) -> Option<IpAddr> {
        address_value(s)
    }

    fn read(s: &str) -> (r: Option<IpAddr>) {
        parse_address(chars_of(s).as_slice())
    }
}

/// Reads an address with a prefix length.
pub struct Networks;

impl Reader for Networks {
    type Out = IpNetwork;

    open spec fn value(s: Seq<char>) -> Option<IpNetwork> {
        network_value(s)
    }

    fn read(s: &str) -> (r: Option<IpNetwork>) {
        parse_network(chars_of(s).as_slice())
    }
}

pub open spec fn u16_value(s: Seq<char>) -> Option<u16> {
    match decimal_value(s, u16::MAX as nat) {
        Some(n) => Some(n as u16),
        None => None,
    }
}

pub open spec fn u8_value(s: Seq<char>) -> Option<u8> {
    match decimal_value(s, u8::MAX as nat) {
        Some(n) => Some(n as u8),
        None => None,
    }
}

pub open spec fn u32_value(s: Seq<char>) -> Option<u32> {
    match decimal_value(s, u32::MAX as nat) {
        Some(n) => Some(n as u32),
        None => None,
    }
}

pub fn read_u16(s: &str) -> (r: Option<u16>)
    ensures
        r == u16_value(s@),
{
    match parse_decimal(chars_of(s).as_slice(), u16::MAX as u64) {
        Some(n) => Some(n as u16),
        None => None,
    }
}

pub fn read_u8(s: &str) -> (r: Option<u8>)
    ensures
        r == u8_value(s@),
{
    match parse_decimal(chars_of(s).as_slice(), u8::MAX as u64) {
        Some(n) => Some(n as u8),
        None => None,
    }
}

pub fn read_u32(s: &str) -> (r: Option<u32>)
    ensures
        r == u32_value(s@),
{
    match parse_decimal(chars_of(s).as_slice(), u32::MAX as u64) {
        Some(n) => Some(n as u32),
        None => None,
    }
}

pub struct Halves;

impl Reader for Halves {
    type Out = u16;

    open spec fn value(s: Seq<char>) -> Option<u16> {
        u16_value(s)
    }

    fn read(s: &str) -> (r: Option<u16>) {
        read_u16(s)
    }
}

pub struct Bytes;

impl Reader for Bytes {
    type Out = u8;

    open spec fn value(s: Seq<char>) -> Option<u8> {
        u8_value(s)
    }

    fn read(s: &str) -> (r: Option<u8>) {
        read_u8(s)
    }
}

} // verus!
