//! SHA-256 digests and their hexadecimal text.

use vstd::prelude::*;

use crate::text::{digit_char, digit_to_char};

verus! {

/// The longest input that SHA-256 takes: its length in bits has to fit 64 bits.
pub const MAX_DIGEST_INPUT: u64 = 0x1fff_ffff_ffff_ffff;

/// The digest that `ring::digest::digest` computes with `ring::digest::SHA256`.
pub uninterp spec fn sha256(data: Seq<u8>) -> Seq<u8>;

/// Calls `ring::digest::digest` with `ring::digest::SHA256`: the digest has 32 bytes. An input that
/// is too long for the algorithm would panic.
#[verifier::external_body]
fn digest_bytes(data: &[u8]) -> (r: Vec<u8>)
    requires
        data@.len() <= MAX_DIGEST_INPUT,
    ensures
        r@ == sha256(data@),
        r@.len() == 32,
{
    ring::digest::digest(&ring::digest::SHA256, data).as_ref().to_vec()
}

/// The two digits of each byte, in order.
pub open spec fn hex_pairs(bytes: Seq<u8>) -> Seq<char>
    decreases bytes.len(),
{
    if bytes.len() == 0 {
        Seq::empty()
    } else {
        hex_pairs(bytes.drop_last()).push(digit_char((bytes.last() / 16) as nat)).push(
            digit_char((bytes.last() % 16) as nat),
        )
    }
}

/// The first bytes of a list, as many as it has up to a number.
pub open spec fn first_bytes(bytes: Seq<u8>, count: int) -> Seq<u8> {
    bytes.take(
        if count < bytes.len() {
            count
        } else {
            bytes.len() as int
        },
    )
}

/// Writes the first bytes of a list in hexadecimal.
pub fn hex_prefix(bytes: &[u8], count: usize) -> (r: String)
    ensures
        r@ == hex_pairs(first_bytes(bytes@, count as int)),
{
    let mut r = String::new();
    let n: usize = if count < bytes.len() {
        count
    } else {
        bytes.len()
    };
    let mut i: usize = 0;
    assert(bytes@.take(0) =~= Seq::empty());
    while i < n
        invariant
            i <= n <= bytes@.len(),
            r@ == hex_pairs(bytes@.take(i as int)),
        decreases n - i,
    {
        let b: u8 = bytes[i];
        assert(bytes@.take(i + 1).drop_last() =~= bytes@.take(i as int));
        r.push(digit_to_char((b / 16) as u64));
        r.push(digit_to_char((b % 16) as u64));
        i = i + 1;
    }
    r
}

/// The digest of a list of bytes, unless the list is too long for one.
pub open spec fn digest_value(data: Seq<u8>) -> Option<Seq<u8>> {
    if data.len() <= MAX_DIGEST_INPUT {
        Some(sha256(data))
    } else {
        None
    }
}

/// Computes a digest, unless the input is too long for one.
pub fn digest_of(data: &[u8]) -> (r: Option<Vec<u8>>)
    ensures
        match r {
            Some(d) => digest_value(data@) == Some(d@) && d@.len() == 32,
            None => digest_value(data@) is None,
        },
{
    if data.len() as u64 <= MAX_DIGEST_INPUT {
        Some(digest_bytes(data))
    } else {
        None
    }
}

} // verus!
