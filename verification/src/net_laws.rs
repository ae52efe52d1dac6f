//! What is written as an address is read back as the same address.

use vstd::prelude::*;

use crate::net::{
    address_format, address_value, gap_from, group_value, groups_from, groups_text, ipv4_format, ipv4_value,
    ipv6_format, ipv6_value, longest_run, network_format, network_value, octet_value, pack, quad, side, unpack,
    zero_run, IpAddr, IpNetwork,
};
use crate::number_laws::{law_decimal_round_trips, lemma_decimal, lemma_hex};
use crate::text::{
    decimal, digit_value, digits_from, find_from, hex, is_digit, is_hex, lemma_find_from, split, split_from,
    split_once,
};

verus! {

/// Whether a character occurs nowhere in a text.
pub open spec fn lacks(s: Seq<char>, c: char) -> bool {
    forall|i: int| 0 <= i < s.len() ==> #[trigger] s[i] != c
}

proof fn lemma_find_shift(a: Seq<char>, b: Seq<char>, c: char, j: int)
    requires
        0 <= j <= b.len(),
    ensures
        find_from(a + b, c, a.len() + j) == a.len() + find_from(b, c, j),
    decreases b.len() - j,
{
    if j < b.len() {
        assert((a + b)[a.len() + j] == b[j]);
        lemma_find_shift(a, b, c, j + 1);
    }
}

proof fn lemma_split_shift(a: Seq<char>, b: Seq<char>, c: char, j: int)
    requires
        0 <= j <= b.len(),
    ensures
        split_from(a + b, c, a.len() + j) == split_from(b, c, j),
    decreases b.len() - j,
{
    lemma_find_shift(a, b, c, j);
    lemma_find_from(b, c, j);
    let k = find_from(b, c, j);
    if k < b.len() {
        lemma_split_shift(a, b, c, k + 1);
        assert((a + b).subrange(a.len() + j, a.len() + k) =~= b.subrange(j, k));
    } else {
        assert((a + b).subrange(a.len() + j, (a + b).len() as int) =~= b.subrange(
            j,
            b.len() as int,
        ));
    }
}

pub proof fn lemma_find_at(s: Seq<char>, c: char, i: int, k: int)
    requires
        0 <= i <= k < s.len(),
        s[k] == c,
        forall|j: int| i <= j < k ==> s[j] != c,
    ensures
        find_from(s, c, i) == k,
    decreases k - i,
{
    if i < k {
        lemma_find_at(s, c, i + 1, k);
    }
}

/// A text that has one separator behind a part without it.
proof fn lemma_split_join(a: Seq<char>, c: char, b: Seq<char>)
    requires
        lacks(a, c),
    ensures
        split(a + seq![c] + b, c) == seq![a] + split(b, c),
{
    let s = a + seq![c] + b;
    assert(s[a.len() as int] == c);
    assert forall|j: int| 0 <= j < a.len() implies s[j] != c by {
        assert(s[j] == a[j]);
    }
    lemma_find_at(s, c, 0, a.len() as int);
    assert(s.subrange(0, a.len() as int) =~= a);
    lemma_split_shift(a + seq![c], b, c, 0);
}

proof fn lemma_split_whole(a: Seq<char>, c: char)
    requires
        lacks(a, c),
    ensures
        split(a, c) == seq![a],
{
    lemma_find_from(a, c, 0);
    let k = find_from(a, c, 0);
    if k < a.len() {
        assert(a[k] == c);
    }
    assert(a.subrange(0, a.len() as int) =~= a);
}

proof fn lemma_octet(n: nat)
    requires
        n <= 255,
    ensures
        octet_value(decimal(n)) == Some(n),
{
    lemma_decimal(n);
}

proof fn lemma_decimal_lacks(n: nat)
    ensures
        lacks(decimal(n), '.'),
        lacks(decimal(n), ':'),
        lacks(decimal(n), '/'),
{
    lemma_decimal(n);
    assert forall|i: int| 0 <= i < decimal(n).len() implies #[trigger] decimal(n)[i] != '.'
        && decimal(n)[i] != ':' && decimal(n)[i] != '/' by {
        assert(is_digit(decimal(n)[i]));
    }
}

proof fn lemma_hex_lacks(n: nat)
    ensures
        lacks(hex(n), '.'),
        lacks(hex(n), ':'),
        lacks(hex(n), '/'),
{
    lemma_hex(n);
    assert forall|i: int| 0 <= i < hex(n).len() implies #[trigger] hex(n)[i] != '.' && hex(n)[i]
        != ':' && hex(n)[i] != '/' by {
        assert(is_hex(hex(n)[i]));
    }
}

proof fn lemma_quad(n: nat)
    requires
        n < 0x1_0000_0000,
    ensures
        quad(n / 16777216 % 256, n / 65536 % 256, n / 256 % 256, n % 256) == n,
{
    assert(n / 16777216 < 256);
    assert(n / 65536 / 256 == n / 16777216);
    assert(n / 256 / 256 == n / 65536);
}

/// An address of the older family that is written as a dotted quad is read back as itself.
pub proof fn law_ipv4_round_trips(n: nat)
    requires
        n < 0x1_0000_0000,
    ensures
        ipv4_value(ipv4_format(n)) == Some(n),
{
    let a = decimal(n / 16777216 % 256);
    let b = decimal(n / 65536 % 256);
    let c = decimal(n / 256 % 256);
    let d = decimal(n % 256);
    reveal_strlit(".");
    let dot = seq!['.'];
    assert("."@ =~= dot);
    let s = ipv4_format(n);
    assert(s =~= a + dot + (b + dot + (c + dot + d)));
    lemma_decimal_lacks(n / 16777216 % 256);
    lemma_decimal_lacks(n / 65536 % 256);
    lemma_decimal_lacks(n / 256 % 256);
    lemma_decimal_lacks(n % 256);
    lemma_split_join(a, '.', b + dot + (c + dot + d));
    lemma_split_join(b, '.', c + dot + d);
    lemma_split_join(c, '.', d);
    lemma_split_whole(d, '.');
    let p = split(s, '.');
    assert(p =~= seq![a, b, c, d]);
    lemma_octet(n / 16777216 % 256);
    lemma_octet(n / 65536 % 256);
    lemma_octet(n / 256 % 256);
    lemma_octet(n % 256);
    lemma_quad(n);
}

proof fn lemma_split_covers(s: Seq<char>, c: char, from: int, j: int)
    requires
        0 <= from <= j < s.len(),
        s[j] != c,
    ensures
        exists|k: int, m: int|
            0 <= k < split_from(s, c, from).len() && 0 <= m < split_from(s, c, from)[k].len()
                && #[trigger] split_from(s, c, from)[k][m] == s[j],
    decreases s.len() - from,
{
    lemma_find_from(s, c, from);
    let k = find_from(s, c, from);
    let p = split_from(s, c, from);
    if k < s.len() && j > k {
        lemma_split_covers(s, c, k + 1, j);
        let rest = split_from(s, c, k + 1);
        let (x, m) = choose|x: int, m: int|
            0 <= x < rest.len() && 0 <= m < rest[x].len() && #[trigger] rest[x][m] == s[j];
        assert(p == seq![s.subrange(from, k)] + rest);
        assert(p[x + 1] == rest[x]);
        assert(p[x + 1][m] == s[j]);
    } else {
        assert(p[0][j - from] == s[j]);
    }
}

/// A text with a colon is no dotted quad.
proof fn lemma_colon_is_no_quad(s: Seq<char>, j: int)
    requires
        0 <= j < s.len(),
        s[j] == ':',
    ensures
        ipv4_value(s) is None,
{
    let p = split(s, '.');
    lemma_split_covers(s, '.', 0, j);
    let (k, m) = choose|k: int, m: int|
        0 <= k < p.len() && 0 <= m < p[k].len() && #[trigger] p[k][m] == s[j];
    assert(!is_digit(p[k][m]));
    assert(octet_value(p[k]) is None);
    if p.len() == 4 {
        assert(k == 0 || k == 1 || k == 2 || k == 3);
    }
}

/// The groups from `i` up to `to` in hexadecimal, with colons between them.
pub open spec fn colon_join(g: Seq<nat>, i: int, to: int) -> Seq<char>
    decreases to - i,
{
    if i >= to {
        Seq::empty()
    } else if i == to - 1 {
        hex(g[i])
    } else {
        hex(g[i]) + seq![':'] + colon_join(g, i + 1, to)
    }
}

proof fn lemma_groups_text_tail(acc: Seq<char>, g: Seq<nat>, from: int, i: int, to: int)
    requires
        from < i <= to,
    ensures
        groups_text(acc, g, from, i, to) == (if i < to {
            acc + seq![':'] + colon_join(g, i, to)
        } else {
            acc
        }),
    decreases to - i,
{
    reveal_strlit(":");
    assert(":"@ =~= seq![':']);
    if i < to {
        let next = acc + ":"@ + hex(g[i]);
        lemma_groups_text_tail(next, g, from, i + 1, to);
        if i + 1 < to {
            assert(next + seq![':'] + colon_join(g, i + 1, to) =~= acc + seq![':'] + (hex(g[i])
                + seq![':'] + colon_join(g, i + 1, to)));
        } else {
            assert(next =~= acc + seq![':'] + hex(g[i]));
        }
    }
}

proof fn lemma_groups_text(acc: Seq<char>, g: Seq<nat>, from: int, to: int)
    requires
        from <= to,
    ensures
        groups_text(acc, g, from, from, to) == acc + colon_join(g, from, to),
{
    if from < to {
        lemma_groups_text_tail(acc + hex(g[from]), g, from, from + 1, to);
        if from + 1 < to {
            assert(acc + hex(g[from]) + seq![':'] + colon_join(g, from + 1, to) =~= acc + (hex(g[from])
                + seq![':'] + colon_join(g, from + 1, to)));
        }
    } else {
        assert(acc + Seq::<char>::empty() =~= acc);
    }
}

/// Whether two colons stand in a row at an index.
pub open spec fn is_gap(s: Seq<char>, i: int) -> bool {
    0 <= i && i + 1 < s.len() && s[i] == ':' && s[i + 1] == ':'
}

/// Whether a text has no two colons in a row, and none at its ends.
pub open spec fn is_tight(s: Seq<char>) -> bool {
    s.len() > 0 && s[0] != ':' && s.last() != ':' && forall|i: int| !#[trigger] is_gap(s, i)
}

proof fn lemma_join_tight(g: Seq<nat>, i: int, to: int)
    requires
        i < to,
    ensures
        is_tight(colon_join(g, i, to)),
        lacks(colon_join(g, i, to), '.'),
        lacks(colon_join(g, i, to), '/'),
        i + 1 < to ==> exists|j: int|
            0 <= j < colon_join(g, i, to).len() && #[trigger] colon_join(g, i, to)[j] == ':',
    decreases to - i,
{
    let h = hex(g[i]);
    lemma_hex(g[i]);
    lemma_hex_lacks(g[i]);
    if i == to - 1 {
        assert forall|j: int| !#[trigger] is_gap(h, j) by {
            if 0 <= j < h.len() {
                assert(h[j] != ':');
            }
        }
        assert(h[h.len() - 1] != ':');
    } else {
        let rest = colon_join(g, i + 1, to);
        lemma_join_tight(g, i + 1, to);
        let s = h + seq![':'] + rest;
        assert(s == colon_join(g, i, to));
        assert(s[0] == h[0]);
        assert(s.last() == rest.last());
        assert forall|j: int| !#[trigger] is_gap(s, j) by {
            if 0 <= j && j + 1 < s.len() {
                if j < h.len() {
                    assert(s[j] == h[j]);
                } else if j == h.len() {
                    assert(s[j + 1] == rest[0]);
                } else {
                    assert(s[j] == rest[j - h.len() - 1]);
                    assert(s[j + 1] == rest[j - h.len()]);
                    assert(!is_gap(rest, j - h.len() - 1));
                }
            }
        }
        assert forall|j: int| 0 <= j < s.len() implies #[trigger] s[j] != '.' && s[j] != '/' by {
            if j < h.len() {
                assert(s[j] == h[j]);
            } else if j > h.len() {
                assert(s[j] == rest[j - h.len() - 1]);
            }
        }
        assert(s[h.len() as int] == ':');
    }
}

/// The texts of the groups from `i` up to `to`.
pub open spec fn group_texts(g: Seq<nat>, i: int, to: int) -> Seq<Seq<char>> {
    Seq::new((to - i) as nat, |k: int| hex(g[i + k]))
}

proof fn lemma_join_split(g: Seq<nat>, i: int, to: int)
    requires
        i < to,
    ensures
        split(colon_join(g, i, to), ':') == group_texts(g, i, to),
    decreases to - i,
{
    lemma_hex_lacks(g[i]);
    if i == to - 1 {
        lemma_split_whole(hex(g[i]), ':');
        assert(seq![hex(g[i])] =~= group_texts(g, i, to));
    } else {
        lemma_join_split(g, i + 1, to);
        lemma_split_join(hex(g[i]), ':', colon_join(g, i + 1, to));
        assert(seq![hex(g[i])] + group_texts(g, i + 1, to) =~= group_texts(g, i, to));
    }
}

/// Whether each group fits sixteen bits.
pub open spec fn are_groups(g: Seq<nat>) -> bool {
    forall|k: int| 0 <= k < g.len() ==> #[trigger] g[k] < 65536
}

proof fn lemma_no_dot_is_no_quad(s: Seq<char>)
    requires
        lacks(s, '.'),
    ensures
        ipv4_value(s) is None,
{
    lemma_split_whole(s, '.');
}

proof fn lemma_read_groups(acc: Seq<nat>, g: Seq<nat>, i: int, to: int, quads: bool, k: int)
    requires
        0 <= i <= to <= g.len(),
        are_groups(g),
        0 <= k <= to - i,
    ensures
        groups_from(acc, group_texts(g, i, to), quads, k) == Some(acc + g.subrange(i + k, to)),
    decreases to - i - k,
{
    let parts = group_texts(g, i, to);
    if k < to - i {
        let x = g[i + k];
        assert(parts[k] == hex(x));
        lemma_hex(x);
        lemma_hex_lacks(x);
        lemma_no_dot_is_no_quad(parts[k]);
        assert(group_value(parts[k]) == Some(x));
        lemma_read_groups(acc.push(x), g, i, to, quads, k + 1);
        assert(acc.push(x) + g.subrange(i + k + 1, to) =~= acc + g.subrange(i + k, to));
    } else {
        assert(acc + g.subrange(i + k, to) =~= acc);
    }
}

proof fn lemma_side(g: Seq<nat>, i: int, to: int, quads: bool)
    requires
        0 <= i <= to <= g.len(),
        are_groups(g),
    ensures
        side(colon_join(g, i, to), quads) == Some(g.subrange(i, to)),
{
    if i < to {
        lemma_join_tight(g, i, to);
        lemma_join_split(g, i, to);
        lemma_read_groups(Seq::empty(), g, i, to, quads, 0);
        assert(Seq::<nat>::empty() + g.subrange(i, to) =~= g.subrange(i, to));
    } else {
        assert(g.subrange(i, to) =~= Seq::<nat>::empty());
    }
}

proof fn lemma_gap_at(s: Seq<char>, i: int, k: int)
    requires
        0 <= i <= k,
        is_gap(s, k),
        forall|j: int| i <= j < k ==> !#[trigger] is_gap(s, j),
    ensures
        gap_from(s, i) == k,
    decreases k - i,
{
    if i < k {
        assert(!is_gap(s, i));
        lemma_gap_at(s, i + 1, k);
    }
}

proof fn lemma_no_gap(s: Seq<char>, i: int)
    requires
        0 <= i,
        forall|j: int| !#[trigger] is_gap(s, j),
    ensures
        gap_from(s, i) == s.len(),
    decreases s.len() - i,
{
    if i + 1 < s.len() {
        assert(!is_gap(s, i));
        lemma_no_gap(s, i + 1);
    }
}

proof fn lemma_zero_run(g: Seq<nat>, i: int)
    requires
        0 <= i <= g.len(),
    ensures
        i + zero_run(g, i) <= g.len(),
        forall|k: int| i <= k < i + zero_run(g, i) ==> g[k] == 0,
    decreases g.len() - i,
{
    if i < g.len() && g[i] == 0 {
        lemma_zero_run(g, i + 1);
    }
}

/// Whether a start and a length describe a run of zero groups.
pub open spec fn is_run(g: Seq<nat>, best: (int, nat)) -> bool {
    0 <= best.0 && best.0 + best.1 <= g.len() && forall|k: int|
        best.0 <= k < best.0 + best.1 ==> g[k] == 0
}

proof fn lemma_longest_run(g: Seq<nat>, i: int, best: (int, nat))
    requires
        0 <= i <= g.len(),
        is_run(g, best),
    ensures
        is_run(g, longest_run(g, i, best)),
    decreases g.len() - i,
{
    if i < g.len() {
        lemma_zero_run(g, i);
        if zero_run(g, i) > best.1 {
            lemma_longest_run(g, i + 1, (i, zero_run(g, i)));
        } else {
            lemma_longest_run(g, i + 1, best);
        }
    }
}

proof fn lemma_shifted(n: nat, d: nat)
    requires
        d > 0,
    ensures
        n / (d * 65536) == n / d / 65536,
        n / d == n / (d * 65536) * 65536 + n / d % 65536,
{
    vstd::arithmetic::div_mod::lemma_div_denominator(n as int, d as int, 65536);
    let q = n / d;
    assert(q == q / 65536 * 65536 + q % 65536);
}

proof fn lemma_pack(n: nat)
    requires
        n < 0x1_0000_0000_0000_0000_0000_0000_0000_0000,
    ensures
        unpack(n).len() == 8,
        are_groups(unpack(n)),
        pack(unpack(n)) == n,
{
    let d1: nat = 0x1_0000;
    let d2: nat = 0x1_0000_0000;
    let d3: nat = 0x1_0000_0000_0000;
    let d4: nat = 0x1_0000_0000_0000_0000;
    let d5: nat = 0x1_0000_0000_0000_0000_0000;
    let d6: nat = 0x1_0000_0000_0000_0000_0000_0000;
    let d7: nat = 0x1_0000_0000_0000_0000_0000_0000_0000;
    lemma_shifted(n, 1);
    lemma_shifted(n, d1);
    lemma_shifted(n, d2);
    lemma_shifted(n, d3);
    lemma_shifted(n, d4);
    lemma_shifted(n, d5);
    lemma_shifted(n, d6);
    assert(n / 1 == n);
    assert(1 * 65536 == d1);
    assert(d1 * 65536 == d2);
    assert(d2 * 65536 == d3);
    assert(d3 * 65536 == d4);
    assert(d4 * 65536 == d5);
    assert(d5 * 65536 == d6);
    assert(d6 * 65536 == d7);
    assert(n / d7 < 65536);
    assert(n / d7 % 65536 == n / d7);
    let g = unpack(n);
    assert(g[0] == n / d7 % 65536);
    assert(g[1] == n / d6 % 65536);
    assert(g[2] == n / d5 % 65536);
    assert(g[3] == n / d4 % 65536);
    assert(g[4] == n / d3 % 65536);
    assert(g[5] == n / d2 % 65536);
    assert(g[6] == n / d1 % 65536);
    assert(g[7] == n % 65536);
}

proof fn lemma_full(g: Seq<nat>)
    requires
        g.len() == 8,
        are_groups(g),
    ensures
        ipv6_value(colon_join(g, 0, 8)) == Some(pack(g)),
{
    let s = colon_join(g, 0, 8);
    lemma_join_tight(g, 0, 8);
    lemma_no_gap(s, 0);
    lemma_join_split(g, 0, 8);
    lemma_read_groups(Seq::empty(), g, 0, 8, true, 0);
    assert(Seq::<nat>::empty() + g.subrange(0, 8) =~= g);
}

proof fn lemma_gapped(g: Seq<nat>, best: (int, nat))
    requires
        g.len() == 8,
        are_groups(g),
        is_run(g, best),
        best.1 > 1,
    ensures
        ipv6_value(
            colon_join(g, 0, best.0) + seq![':', ':'] + colon_join(g, best.0 + best.1, 8),
        ) == Some(pack(g)),
{
    let a = colon_join(g, 0, best.0);
    let b = colon_join(g, best.0 + best.1, 8);
    let s = a + seq![':', ':'] + b;
    if best.0 > 0 {
        lemma_join_tight(g, 0, best.0);
    }
    assert(s[a.len() as int] == ':');
    assert(s[(a.len() + 1) as int] == ':');
    assert(is_gap(s, a.len() as int));
    assert forall|j: int| 0 <= j < a.len() implies !#[trigger] is_gap(s, j) by {
        assert(s[j] == a[j]);
        if j + 1 < a.len() {
            assert(s[j + 1] == a[j + 1]);
            assert(!is_gap(a, j));
        } else {
            assert(a[j] == a.last());
        }
    }
    lemma_gap_at(s, 0, a.len() as int);
    assert(s.take(a.len() as int) =~= a);
    assert(s.skip((a.len() + 2) as int) =~= b);
    lemma_side(g, 0, best.0, false);
    lemma_side(g, best.0 + best.1, 8, true);
    let h = g.subrange(0, best.0);
    let t = g.subrange(best.0 + best.1, 8);
    assert(h + Seq::new((8 - h.len() - t.len()) as nat, |i: int| 0nat) + t =~= g);
}

proof fn lemma_ffff()
    ensures
        "ffff"@.len() == 4,
        lacks("ffff"@, ':'),
        lacks("ffff"@, '.'),
        lacks("ffff"@, '/'),
        group_value("ffff"@) == Some(0xffffnat),
{
    reveal_strlit("ffff");
    let s = "ffff"@;
    assert(digit_value('f') == 15);
    assert(digits_from(0xffff, s, 16, 4) == 0xffff);
    assert(digits_from(0xfff, s, 16, 3) == 0xffff);
    assert(digits_from(0xff, s, 16, 2) == 0xffff);
    assert(digits_from(0xf, s, 16, 1) == 0xffff);
    assert(digits_from(0, s, 16, 0) == 0xffff);
}

proof fn lemma_ipv4_text(n: nat)
    ensures
        ipv4_format(n).len() > 0,
        lacks(ipv4_format(n), ':'),
        lacks(ipv4_format(n), '/'),
{
    reveal_strlit(".");
    lemma_decimal(n / 16777216 % 256);
    lemma_decimal_lacks(n / 16777216 % 256);
    lemma_decimal_lacks(n / 65536 % 256);
    lemma_decimal_lacks(n / 256 % 256);
    lemma_decimal_lacks(n % 256);
    let a = decimal(n / 16777216 % 256);
    let b = decimal(n / 65536 % 256);
    let c = decimal(n / 256 % 256);
    let d = decimal(n % 256);
    let s = ipv4_format(n);
    assert forall|i: int| 0 <= i < s.len() implies #[trigger] s[i] != ':' && s[i] != '/' by {
        let i1 = a.len() as int;
        let i2 = i1 + 1 + b.len();
        let i3 = i2 + 1 + c.len();
        if i < i1 {
            assert(s[i] == a[i]);
        } else if i == i1 || i == i2 || i == i3 {
            assert(s[i] == '.');
        } else if i < i2 {
            assert(s[i] == b[i - i1 - 1]);
        } else if i < i3 {
            assert(s[i] == c[i - i2 - 1]);
        } else {
            assert(s[i] == d[i - i3 - 1]);
        }
    }
}

proof fn lemma_mapped(n: nat)
    requires
        n / 0x1_0000_0000 == 0xffff,
    ensures
        ipv6_value("::ffff:"@ + ipv4_format(n % 0x1_0000_0000)) == Some(n),
        lacks("::ffff:"@ + ipv4_format(n % 0x1_0000_0000), '/'),
        ("::ffff:"@ + ipv4_format(n % 0x1_0000_0000))[0] == ':',
        ("::ffff:"@ + ipv4_format(n % 0x1_0000_0000)).len() > 0,
{
    let v = n % 0x1_0000_0000;
    let q = ipv4_format(v);
    reveal_strlit("::ffff:");
    reveal_strlit("ffff");
    lemma_ffff();
    lemma_ipv4_text(v);
    law_ipv4_round_trips(v);
    let s = "::ffff:"@ + q;
    assert(s[0] == ':');
    assert(s[1] == ':');
    assert(is_gap(s, 0));
    lemma_gap_at(s, 0, 0);
    assert(s.take(0) =~= Seq::<char>::empty());
    let rest = s.skip(2);
    assert(rest =~= "ffff"@ + seq![':'] + q);
    lemma_split_join("ffff"@, ':', q);
    lemma_split_whole(q, ':');
    let parts = split(rest, ':');
    assert(parts =~= seq!["ffff"@, q]);
    let e = Seq::<nat>::empty();
    let t = e.push(0xffffnat).push(v / 65536).push(v % 65536);
    assert(groups_from(e.push(0xffffnat), parts, true, 1) == Some(t));
    assert(groups_from(e, parts, true, 0) == Some(t));
    assert(side(rest, true) == Some(t));
    assert(side(s.take(0), false) == Some(e));
    let g = e + Seq::new((8 - e.len() - t.len()) as nat, |i: int| 0nat) + t;
    assert(g =~= seq![0nat, 0nat, 0nat, 0nat, 0nat, 0xffffnat, v / 65536, v % 65536]);
    assert(pack(g) == 0xffff * 0x1_0000_0000 + v / 65536 * 0x1_0000 + v % 65536);
    assert forall|i: int| 0 <= i < s.len() implies #[trigger] s[i] != '/' by {
        if i >= 7 {
            assert(s[i] == q[i - 7]);
        }
    }
}

/// An address of the newer family is read back as itself, whichever of its short forms it is written in.
/// The text of one is no dotted quad, and holds no slash.
pub proof fn law_ipv6_round_trips(n: nat)
    requires
        n < 0x1_0000_0000_0000_0000_0000_0000_0000_0000,
    ensures
        ipv6_value(ipv6_format(n)) == Some(n),
        ipv4_value(ipv6_format(n)) is None,
        lacks(ipv6_format(n), '/'),
{
    let g = unpack(n);
    let best = longest_run(g, 0, (0, 0));
    let s = ipv6_format(n);
    lemma_pack(n);
    lemma_longest_run(g, 0, (0, 0));
    if n / 0x1_0000_0000 == 0xffff {
        lemma_mapped(n);
        lemma_colon_is_no_quad(s, 0);
    } else if best.1 > 1 {
        let a = colon_join(g, 0, best.0);
        let b = colon_join(g, best.0 + best.1, 8);
        let colons = seq![':', ':'];
        reveal_strlit("::");
        assert("::"@ =~= colons);
        lemma_groups_text(Seq::empty(), g, 0, best.0);
        assert(Seq::<char>::empty() + a =~= a);
        lemma_groups_text(a + "::"@, g, best.0 + best.1, 8);
        assert(s == a + colons + b);
        lemma_gapped(g, best);
        assert(s[a.len() as int] == ':');
        lemma_colon_is_no_quad(s, a.len() as int);
        if best.0 > 0 {
            lemma_join_tight(g, 0, best.0);
        }
        if best.0 + best.1 < 8 {
            lemma_join_tight(g, best.0 + best.1, 8);
        }
        assert forall|i: int| 0 <= i < s.len() implies #[trigger] s[i] != '/' by {
            if i < a.len() {
                assert(s[i] == a[i]);
            } else if i >= a.len() + 2 {
                assert(s[i] == b[i - a.len() - 2]);
            }
        }
    } else {
        lemma_groups_text(Seq::empty(), g, 0, 8);
        let a = colon_join(g, 0, 8);
        assert(Seq::<char>::empty() + a =~= a);
        lemma_full(g);
        lemma_join_tight(g, 0, 8);
        let j = choose|j: int| 0 <= j < a.len() && #[trigger] a[j] == ':';
        lemma_colon_is_no_quad(s, j);
    }
}

/// The empty text is no address.
pub proof fn lemma_empty_is_no_address()
    ensures
        address_value(Seq::<char>::empty()) is None,
{
}

/// An address that is written as a text is read back as itself.
pub proof fn law_address_round_trips(a: IpAddr)
    ensures
        address_value(address_format(a)) == Some(a),
        lacks(address_format(a), '/'),
{
    match a {
        IpAddr::V4(n) => {
            law_ipv4_round_trips(n as nat);
            lemma_ipv4_text(n as nat);
        },
        IpAddr::V6(n) => {
            law_ipv6_round_trips(n as nat);
        },
    }
}

/// An address with its prefix length that is written as a text is read back as itself.
pub proof fn law_network_round_trips(n: IpNetwork)
    ensures
        network_value(network_format(n)) == Some(n),
{
    law_address_round_trips(n.address);
    law_decimal_round_trips(n.prefix_len as nat, 255);
    reveal_strlit("/");
    let a = address_format(n.address);
    let p = decimal(n.prefix_len as nat);
    let s = network_format(n);
    assert("/"@ =~= seq!['/']);
    assert(s == a + seq!['/'] + p);
    assert(s[a.len() as int] == '/');
    assert forall|j: int| 0 <= j < a.len() implies s[j] != '/' by {
        assert(s[j] == a[j]);
    }
    lemma_find_at(s, '/', 0, a.len() as int);
    assert(s.take(a.len() as int) =~= a);
    assert(s.skip((a.len() + 1) as int) =~= p);
    assert(split_once(s, '/') == Some((a, p)));
}

} // verus!
