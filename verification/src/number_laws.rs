//! What is written as a number is read back as the same number.

use vstd::prelude::*;

use crate::parse::{u16_value, u32_value, u8_value};
use crate::text::{
    decimal, decimal_value, digit_char, digit_value, digits_from, hex, hex_value, is_digit, is_hex, strip_plus,
};

verus! {

proof fn lemma_digits_push(acc: nat, s: Seq<char>, c: char, base: nat, i: int)
    requires
        0 <= i <= s.len(),
    ensures
        digits_from(acc, s.push(c), base, i) == digits_from(acc, s, base, i) * base + digit_value(c),
    decreases s.len() - i,
{
    let t = s.push(c);
    if i < s.len() {
        assert(t[i] == s[i]);
        lemma_digits_push(acc * base + digit_value(s[i]), s, c, base, i + 1);
    } else {
        assert(t[i] == c);
        assert(digits_from(acc * base + digit_value(c), t, base, i + 1) == acc * base + digit_value(
            c,
        ));
    }
}

proof fn lemma_digit_char(d: nat)
    requires
        d < 16,
    ensures
        digit_value(digit_char(d)) == d,
        is_hex(digit_char(d)),
        d < 10 ==> is_digit(digit_char(d)),
        d > 0 ==> digit_char(d) != '0',
{
}

/// The decimal text of a number: digits alone, without a leading zero, worth the number.
pub proof fn lemma_decimal(n: nat)
    ensures
        decimal(n).len() > 0,
        forall|i: int| 0 <= i < decimal(n).len() ==> is_digit(#[trigger] decimal(n)[i]),
        digits_from(0, decimal(n), 10, 0) == n,
        decimal(n)[0] != '0' || decimal(n).len() == 1,
        n > 0 ==> decimal(n)[0] != '0',
        n < 10 ==> decimal(n).len() == 1,
        n < 100 ==> decimal(n).len() <= 2,
        n < 1000 ==> decimal(n).len() <= 3,
    decreases n,
{
    if n < 10 {
        lemma_digit_char(n);
        let s = seq![digit_char(n)];
        assert(s[0] == digit_char(n));
        assert(digits_from(0 * 10 + digit_value(s[0]), s, 10, 1) == n);
        assert(digits_from(0, s, 10, 0) == n);
    } else {
        let head = decimal(n / 10);
        lemma_decimal(n / 10);
        lemma_digit_char(n % 10);
        lemma_digits_push(0, head, digit_char(n % 10), 10, 0);
        assert(decimal(n) == head.push(digit_char(n % 10)));
        assert(decimal(n)[0] == head[0]);
        assert forall|i: int| 0 <= i < decimal(n).len() implies is_digit(#[trigger] decimal(n)[i]) by {
            if i < head.len() {
                assert(decimal(n)[i] == head[i]);
            }
        }
    }
}

/// The hexadecimal text of a number: digits alone, worth the number.
pub proof fn lemma_hex(n: nat)
    ensures
        hex(n).len() > 0,
        forall|i: int| 0 <= i < hex(n).len() ==> is_hex(#[trigger] hex(n)[i]),
        digits_from(0, hex(n), 16, 0) == n,
        n < 16 ==> hex(n).len() == 1,
        n < 256 ==> hex(n).len() <= 2,
        n < 4096 ==> hex(n).len() <= 3,
        n < 65536 ==> hex(n).len() <= 4,
    decreases n,
{
    if n < 16 {
        lemma_digit_char(n);
        let s = seq![digit_char(n)];
        assert(s[0] == digit_char(n));
        assert(digits_from(0 * 16 + digit_value(s[0]), s, 16, 1) == n);
        assert(digits_from(0, s, 16, 0) == n);
    } else {
        let head = hex(n / 16);
        lemma_hex(n / 16);
        lemma_digit_char(n % 16);
        lemma_digits_push(0, head, digit_char(n % 16), 16, 0);
        assert(hex(n) == head.push(digit_char(n % 16)));
        assert forall|i: int| 0 <= i < hex(n).len() implies is_hex(#[trigger] hex(n)[i]) by {
            if i < head.len() {
                assert(hex(n)[i] == head[i]);
            }
        }
    }
}

/// A number that is written in decimal is read back as itself.
pub proof fn law_decimal_round_trips(n: nat, max: nat)
    requires
        n <= max,
    ensures
        decimal_value(decimal(n), max) == Some(n),
{
    lemma_decimal(n);
    assert(is_digit(decimal(n)[0]));
    assert(strip_plus(decimal(n)) == decimal(n));
}

/// A number that is written in hexadecimal is read back as itself.
pub proof fn law_hex_round_trips(n: nat, max: nat)
    requires
        n <= max,
    ensures
        hex_value(hex(n), max) == Some(n),
{
    lemma_hex(n);
    assert(is_hex(hex(n)[0]));
    assert(strip_plus(hex(n)) == hex(n));
}

/// Numbers of the three sizes are read back as themselves.
pub proof fn law_sized_numbers_round_trip(a: u8, b: u16, c: u32)
    ensures
        u8_value(decimal(a as nat)) == Some(a),
        u16_value(decimal(b as nat)) == Some(b),
        u32_value(decimal(c as nat)) == Some(c),
{
    law_decimal_round_trips(a as nat, u8::MAX as nat);
    law_decimal_round_trips(b as nat, u16::MAX as nat);
    law_decimal_round_trips(c as nat, u32::MAX as nat);
}

} // verus!
