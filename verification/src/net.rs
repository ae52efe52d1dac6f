//! Addresses and networks, their text forms and their parsers.

use vstd::prelude::*;
use vstd::string::*;

use crate::text::{
    chars_of, cut, decimal, decimal_text, decimal_value, digit, digits_from, hex, hex_digit, hex_text, is_digit,
    is_hex, parse_decimal, parse_hex, piece, split, split_at_each, split_once,
};
use crate::views::{group_views, views};

verus! {

broadcast use group_views;

/// An address, held as the number that its octets or groups spell in network order.
#[derive(Debug, Clone, Copy, PartialEq, Eq, Structural)]
pub enum IpAddr {
    V4(u32),
    V6(u128),
}

/// An address with the length of its network prefix.
#[derive(Debug, Clone, Copy, PartialEq, Eq, Structural)]
pub struct IpNetwork {
    pub address: IpAddr,
    pub prefix_len: u8,
}

pub open spec fn quad(a: nat, b: nat, c: nat, d: nat) -> nat {
    a * 16777216 + b * 65536 + c * 256 + d
}

/// One decimal octet: up to three digits without a leading zero.
pub open spec fn octet_value(s: Seq<char>) -> Option<nat> {
    if 1 <= s.len() <= 3 && (forall|i: int| 0 <= i < s.len() ==> is_digit(#[trigger] s[i])) && (s[0]
        != '0' || s.len() == 1) && digits_from(0, s, 10, 0) <= 255 {
        Some(digits_from(0, s, 10, 0))
    } else {
        None
    }
}

/// A dotted quad.
pub open spec fn ipv4_value(s: Seq<char>) -> Option<nat> {
    let p = split(s, '.');
    if p.len() == 4 && octet_value(p[0]) is Some && octet_value(p[1]) is Some && octet_value(
        p[2],
    ) is Some && octet_value(p[3]) is Some {
        Some(
            quad(
                octet_value(p[0])->Some_0,
                octet_value(p[1])->Some_0,
                octet_value(p[2])->Some_0,
                octet_value(p[3])->Some_0,
            ),
        )
    } else {
        None
    }
}

/// One group of up to four hexadecimal digits.
pub open spec fn group_value(s: Seq<char>) -> Option<nat> {
    if 1 <= s.len() <= 4 && (forall|i: int| 0 <= i < s.len() ==> is_hex(#[trigger] s[i])) {
        Some(digits_from(0, s, 16, 0))
    } else {
        None
    }
}

/// The groups that the parts from `i` on add to `acc`. With `quads`, the last part may be a
/// dotted quad, which makes two groups.
pub open spec fn groups_from(
    acc: Seq<nat>,
    parts: Seq<Seq<char>>,
    quads: bool,
    i: int,
) -> Option<Seq<nat>>
    decreases parts.len() - i,
{
    if i < 0 || i >= parts.len() {
        Some(acc)
    } else if quads && i == parts.len() - 1 && ipv4_value(parts[i]) is Some {
        let v = ipv4_value(parts[i])->Some_0;
        Some(acc.push(v / 65536).push(v % 65536))
    } else {
        match group_value(parts[i]) {
            Some(g) => groups_from(acc.push(g), parts, quads, i + 1),
            None => None,
        }
    }
}

/// The groups of one side of an address; the empty text has none.
pub open spec fn side(s: Seq<char>, quads: bool) -> Option<Seq<nat>> {
    if s.len() == 0 {
        Some(Seq::empty())
    } else {
        groups_from(Seq::empty(), split(s, ':'), quads, 0)
    }
}

/// The least index from `i` on at which two colons stand in a row, or the length.
pub open spec fn gap_from(s: Seq<char>, i: int) -> int
    decreases s.len() - i,
{
    if i < 0 || i + 1 >= s.len() {
        s.len() as int
    } else if s[i] == ':' && s[i + 1] == ':' {
        i
    } else {
        gap_from(s, i + 1)
    }
}

pub open spec fn pack(g: Seq<nat>) -> nat {
    g[0] * 0x1_0000_0000_0000_0000_0000_0000_0000 + g[1] * 0x1_0000_0000_0000_0000_0000_0000 + g[2]
        * 0x1_0000_0000_0000_0000_0000 + g[3] * 0x1_0000_0000_0000_0000 + g[4] * 0x1_0000_0000_0000
        + g[5] * 0x1_0000_0000 + g[6] * 0x1_0000 + g[7]
}

/// An address of eight groups, or of fewer around one double colon that stands for one or more
/// groups of zero. The last two groups may be written as a dotted quad.
pub open spec fn ipv6_value(s: Seq<char>) -> Option<nat> {
    let k = gap_from(s, 0);
    if k < s.len() {
        match (side(s.take(k), false), side(s.skip(k + 2), true)) {
            (Some(h), Some(t)) => if h.len() + t.len() <= 7 {
                Some(pack(h + Seq::new((8 - h.len() - t.len()) as nat, |i: int| 0nat) + t))
            } else {
                None
            },
            _ => None,
        }
    } else {
        match groups_from(Seq::empty(), split(s, ':'), true, 0) {
            Some(g) => if g.len() == 8 {
                Some(pack(g))
            } else {
                None
            },
            None => None,
        }
    }
}

/// The address that a text spells.
pub open spec fn address_value(s: Seq<char>) -> Option<IpAddr> {
    match ipv4_value(s) {
        Some(v) => Some(IpAddr::V4(v as u32)),
        None => match ipv6_value(s) {
            Some(v) => Some(IpAddr::V6(v as u128)),
            None => None,
        },
    }
}

/// An address, a slash and a prefix length.
pub open spec fn network_value(s: Seq<char>) -> Option<IpNetwork> {
    match split_once(s, '/') {
        Some((a, p)) => match (address_value(a), decimal_value(p, 255)) {
            (Some(address), Some(n)) => Some(IpNetwork { address, prefix_len: n as u8 }),
            _ => None,
        },
        None => None,
    }
}

pub open spec fn ipv4_format(n: nat) -> Seq<char> {
    decimal(n / 16777216 % 256) + "."@ + decimal(n / 65536 % 256) + "."@ + decimal(n / 256 % 256)
        + "."@ + decimal(n % 256)
}

/// The eight groups of an address.
pub open spec fn unpack(n: nat) -> Seq<nat> {
    seq![
        n / 0x1_0000_0000_0000_0000_0000_0000_0000 % 65536,
        n / 0x1_0000_0000_0000_0000_0000_0000 % 65536,
        n / 0x1_0000_0000_0000_0000_0000 % 65536,
        n / 0x1_0000_0000_0000_0000 % 65536,
        n / 0x1_0000_0000_0000 % 65536,
        n / 0x1_0000_0000 % 65536,
        n / 0x1_0000 % 65536,
        n % 65536,
    ]
}

/// How many groups of zero stand in a row from `i` on.
pub open spec fn zero_run(g: Seq<nat>, i: int) -> nat
    decreases g.len() - i,
{
    if 0 <= i < g.len() && g[i] == 0 {
        1 + zero_run(g, i + 1)
    } else {
        0
    }
}

/// The first of the longest runs of zero groups, as its start and its length, given that the best
/// before `i` is `best`.
pub open spec fn longest_run(g: Seq<nat>, i: int, best: (int, nat)) -> (int, nat)
    decreases g.len() - i,
{
    if i < 0 || i >= g.len() {
        best
    } else if zero_run(g, i) > best.1 {
        longest_run(g, i + 1, (i, zero_run(g, i)))
    } else {
        longest_run(g, i + 1, best)
    }
}

/// The groups from `i` up to `to` in hexadecimal, with colons between them, behind `acc`.
pub open spec fn groups_text(acc: Seq<char>, g: Seq<nat>, from: int, i: int, to: int) -> Seq<char>
    decreases to - i,
{
    if i >= to {
        acc
    } else if i == from {
        groups_text(acc + hex(g[i]), g, from, i + 1, to)
    } else {
        groups_text(acc + ":"@ + hex(g[i]), g, from, i + 1, to)
    }
}

/// The shortest text form: the first longest run of two or more zero groups becomes a double
/// colon, and an address mapped from the older family ends in a dotted quad.
pub open spec fn ipv6_format(n: nat) -> Seq<char> {
    let g = unpack(n);
    let best = longest_run(g, 0, (0, 0));
    if n / 0x1_0000_0000 == 0xffff {
        "::ffff:"@ + ipv4_format(n % 0x1_0000_0000)
    } else if best.1 > 1 {
        groups_text(
            groups_text(Seq::empty(), g, 0, 0, best.0) + "::"@,
            g,
            best.0 + best.1,
            best.0 + best.1,
            8,
        )
    } else {
        groups_text(Seq::empty(), g, 0, 0, 8)
    }
}

pub open spec fn address_format(a: IpAddr) -> Seq<char> {
    match a {
        IpAddr::V4(n) => ipv4_format(n as nat),
        IpAddr::V6(n) => ipv6_format(n as nat),
    }
}

pub open spec fn network_format(n: IpNetwork) -> Seq<char> {
    address_format(n.address) + "/"@ + decimal(n.prefix_len as nat)
}

pub open spec fn is_multicast(a: IpAddr) -> bool {
    match a {
        IpAddr::V4(n) => 0xe000_0000 <= n < 0xf000_0000,
        IpAddr::V6(n) => n >= 0xff00_0000_0000_0000_0000_0000_0000_0000,
    }
}

pub open spec fn is_unspecified(a: IpAddr) -> bool {
    match a {
        IpAddr::V4(n) => n == 0,
        IpAddr::V6(n) => n == 0,
    }
}

impl IpAddr {
    /// The address of four octets.
    pub fn v4(a: u8, b: u8, c: u8, d: u8) -> (r: IpAddr)
        ensures
            r == IpAddr::V4(quad(a as nat, b as nat, c as nat, d as nat) as u32),
    {
        IpAddr::V4(a as u32 * 16777216 + b as u32 * 65536 + c as u32 * 256 + d as u32)
    }

    pub fn is_ipv4(&self) -> (r: bool)
        ensures
            r == (*self is V4),
    {
        matches!(self, IpAddr::V4(_))
    }

    pub fn is_ipv6(&self) -> (r: bool)
        ensures
            r == (*self is V6),
    {
        matches!(self, IpAddr::V6(_))
    }

    pub fn is_unspecified(&self) -> (r: bool)
        ensures
            r == is_unspecified(*self),
    {
        match self {
            IpAddr::V4(n) => *n == 0,
            IpAddr::V6(n) => *n == 0,
        }
    }

    pub fn is_multicast(&self) -> (r: bool)
        ensures
            r == is_multicast(*self),
    {
        match self {
            IpAddr::V4(n) => 0xe000_0000 <= *n && *n < 0xf000_0000,
            IpAddr::V6(n) => *n >= 0xff00_0000_0000_0000_0000_0000_0000_0000,
        }
    }

    /// The text form of the address.
    pub fn text(&self) -> (r: String)
        ensures
            r@ == address_format(*self),
    {
        match self {
            IpAddr::V4(n) => ipv4_text(*n),
            IpAddr::V6(n) => ipv6_text(*n),
        }
    }

    /// Reads an address.
    pub fn parse(s: &str) -> (r: Option<IpAddr>)
        ensures
            r == address_value(s@),
    {
        parse_address(chars_of(s).as_slice())
    }
}

impl IpNetwork {
    /// The text form of the network.
    pub fn text(&self) -> (r: String)
        ensures
            r@ == network_format(*self),
    {
        let mut r = self.address.text();
        r.append("/");
        r.append(decimal_text(self.prefix_len as u64).as_str());
        r
    }
}

fn ipv4_text(n: u32) -> (r: String)
    ensures
        r@ == ipv4_format(n as nat),
{
    let mut r = decimal_text((n / 16777216 % 256) as u64);
    r.append(".");
    r.append(decimal_text((n / 65536 % 256) as u64).as_str());
    r.append(".");
    r.append(decimal_text((n / 256 % 256) as u64).as_str());
    r.append(".");
    r.append(decimal_text((n % 256) as u64).as_str());
    r
}

/// The numbers that the groups are.
pub open spec fn naturals(g: Seq<u16>) -> Seq<nat> {
    Seq::new(g.len(), |i: int| g[i] as nat)
}

fn groups_of(n: u128) -> (r: Vec<u16>)
    ensures
        naturals(r@) == unpack(n as nat),
        r@.len() == 8,
{
    let mut r: Vec<u16> = Vec::new();
    r.push((n / 0x1_0000_0000_0000_0000_0000_0000_0000 % 65536) as u16);
    r.push((n / 0x1_0000_0000_0000_0000_0000_0000 % 65536) as u16);
    r.push((n / 0x1_0000_0000_0000_0000_0000 % 65536) as u16);
    r.push((n / 0x1_0000_0000_0000_0000 % 65536) as u16);
    r.push((n / 0x1_0000_0000_0000 % 65536) as u16);
    r.push((n / 0x1_0000_0000 % 65536) as u16);
    r.push((n / 0x1_0000 % 65536) as u16);
    r.push((n % 65536) as u16);
    assert(naturals(r@) =~= unpack(n as nat));
    r
}

fn run_at(g: &Vec<u16>, from: usize) -> (r: usize)
    requires
        from <= g@.len(),
    ensures
        r == zero_run(naturals(g@), from as int),
        from + r <= g@.len(),
    decreases g@.len() - from,
{
    if from < g.len() && g[from] == 0 {
        1 + run_at(g, from + 1)
    } else {
        0
    }
}

/// Appends the groups from `from` up to `to`.
fn append_groups(out: String, g: &Vec<u16>, from: usize, to: usize) -> (r: String)
    requires
        from <= to <= g@.len(),
    ensures
        r@ == groups_text(out@, naturals(g@), from as int, from as int, to as int),
{
    let mut r = out;
    let mut i: usize = from;
    while i < to
        invariant
            from <= i <= to <= g@.len(),
            groups_text(r@, naturals(g@), from as int, i as int, to as int) == groups_text(
                out@,
                naturals(g@),
                from as int,
                from as int,
                to as int,
            ),
        decreases to - i,
    {
        if i != from {
            r.append(":");
        }
        r.append(hex_text(g[i] as u64).as_str());
        i = i + 1;
    }
    r
}

fn ipv6_text(n: u128) -> (r: String)
    ensures
        r@ == ipv6_format(n as nat),
{
    if n / 0x1_0000_0000 == 0xffff {
        let mut r = "::ffff:".to_owned();
        r.append(ipv4_text((n % 0x1_0000_0000) as u32).as_str());
        return r;
    }
    let g = groups_of(n);
    let mut start: usize = 0;
    let mut len: usize = 0;
    let mut i: usize = 0;
    while i < 8
        invariant
            i <= 8,
            g@.len() == 8,
            start + len <= 8,
            longest_run(naturals(g@), i as int, (start as int, len as nat)) == longest_run(
                naturals(g@),
                0,
                (0, 0),
            ),
        decreases 8 - i,
    {
        let z: usize = run_at(&g, i);
        if z > len {
            start = i;
            len = z;
        }
        i = i + 1;
    }
    if len > 1 {
        let mut r = append_groups(String::new(), &g, 0, start);
        r.append("::");
        append_groups(r, &g, start + len, 8)
    } else {
        append_groups(String::new(), &g, 0, 8)
    }
}

fn parse_octet(s: &[char]) -> (r: Option<u32>)
    ensures
        r is Some == octet_value(s@) is Some,
        r is Some ==> Some(r->Some_0 as nat) == octet_value(s@),
        r is Some ==> r->Some_0 <= 255,
{
    if s.len() < 1 || s.len() > 3 || (s[0] == '0' && s.len() != 1) || !digit(s[0]) {
        return None;
    }
    assert(crate::text::strip_plus(s@) == s@);
    match parse_decimal(s, 255) {
        Some(v) => Some(v as u32),
        None => None,
    }
}

fn parse_ipv4(s: &[char]) -> (r: Option<u32>)
    ensures
        r is Some == ipv4_value(s@) is Some,
        r is Some ==> Some(r->Some_0 as nat) == ipv4_value(s@),
{
    let p = split_at_each(s, '.');
    if p.len() != 4 {
        return None;
    }
    assert(views(p@)[0] == p@[0]@ && views(p@)[1] == p@[1]@ && views(p@)[2] == p@[2]@
        && views(p@)[3] == p@[3]@);
    match (
        parse_octet(p[0].as_slice()),
        parse_octet(p[1].as_slice()),
        parse_octet(p[2].as_slice()),
        parse_octet(p[3].as_slice()),
    ) {
        (Some(a), Some(b), Some(c), Some(d)) => Some(a * 16777216 + b * 65536 + c * 256 + d),
        _ => None,
    }
}

proof fn lemma_four_hex(s: Seq<char>)
    requires
        1 <= s.len() <= 4,
        forall|i: int| 0 <= i < s.len() ==> is_hex(#[trigger] s[i]),
    ensures
        digits_from(0, s, 16, 0) <= 0xffff,
{
    reveal_with_fuel(digits_from, 6);
    assert(is_hex(s[0]));
    if s.len() > 1 {
        assert(is_hex(s[1]));
    }
    if s.len() > 2 {
        assert(is_hex(s[2]));
    }
    if s.len() > 3 {
        assert(is_hex(s[3]));
    }
}

fn parse_group(s: &[char]) -> (r: Option<u16>)
    ensures
        r is Some == group_value(s@) is Some,
        r is Some ==> Some(r->Some_0 as nat) == group_value(s@),
{
    if s.len() < 1 || s.len() > 4 || !hex_digit(s[0]) {
        return None;
    }
    assert(crate::text::strip_plus(s@) == s@);
    proof {
        if forall|i: int| 0 <= i < s@.len() ==> is_hex(#[trigger] s@[i]) {
            lemma_four_hex(s@);
        }
    }
    match parse_hex(s, 0xffff) {
        Some(v) => Some(v as u16),
        None => None,
    }
}

proof fn lemma_naturals_push(g: Seq<u16>, x: u16)
    ensures
        naturals(g.push(x)) == naturals(g).push(x as nat),
{
    assert(naturals(g.push(x)) =~= naturals(g).push(x as nat));
}

fn parse_groups(s: &[char], quads: bool) -> (r: Option<Vec<u16>>)
    ensures
        match r {
            Some(v) => groups_from(Seq::empty(), split(s@, ':'), quads, 0) == Some(naturals(v@)),
            None => groups_from(Seq::empty(), split(s@, ':'), quads, 0) is None,
        },
{
    let parts = split_at_each(s, ':');
    let ghost all = split(s@, ':');
    let mut r: Vec<u16> = Vec::new();
    assert(naturals(r@) =~= Seq::empty());
    let mut i: usize = 0;
    while i < parts.len()
        invariant
            i <= parts@.len(),
            views(parts@) == all,
            all == split(s@, ':'),
            groups_from(naturals(r@), all, quads, i as int) == groups_from(
                Seq::empty(),
                all,
                quads,
                0,
            ),
        decreases parts@.len() - i,
    {
        assert(all[i as int] == parts@[i as int]@);
        if quads && i == parts.len() - 1 {
            match parse_ipv4(parts[i].as_slice()) {
                Some(v) => {
                    let ghost before = r@;
                    let high: u16 = (v / 65536) as u16;
                    let low: u16 = (v % 65536) as u16;
                    r.push(high);
                    r.push(low);
                    proof {
                        lemma_naturals_push(before, high);
                        lemma_naturals_push(before.push(high), low);
                    }
                    return Some(r);
                },
                None => {},
            }
        }
        match parse_group(parts[i].as_slice()) {
            Some(g) => {
                proof {
                    lemma_naturals_push(r@, g);
                }
                r.push(g);
            },
            None => {
                return None;
            },
        }
        i = i + 1;
    }
    Some(r)
}

fn parse_side(s: &[char], quads: bool) -> (r: Option<Vec<u16>>)
    ensures
        match r {
            Some(v) => side(s@, quads) == Some(naturals(v@)),
            None => side(s@, quads) is None,
        },
{
    if s.len() == 0 {
        let r: Vec<u16> = Vec::new();
        assert(naturals(r@) =~= Seq::empty());
        Some(r)
    } else {
        parse_groups(s, quads)
    }
}

fn find_gap(s: &[char]) -> (r: usize)
    ensures
        r == gap_from(s@, 0),
        r <= s@.len(),
        r < s@.len() ==> r + 2 <= s@.len(),
{
    let mut i: usize = 0;
    while i < s.len() && i + 1 < s.len()
        invariant
            i <= s@.len(),
            gap_from(s@, i as int) == gap_from(s@, 0),
        decreases s@.len() - i,
    {
        if s[i] == ':' && s[i + 1] == ':' {
            return i;
        }
        i = i + 1;
    }
    s.len()
}

fn pack_groups(g: &Vec<u16>) -> (r: u128)
    requires
        g@.len() == 8,
    ensures
        r == pack(naturals(g@)),
{
    g[0] as u128 * 0x1_0000_0000_0000_0000_0000_0000_0000 + g[1] as u128
        * 0x1_0000_0000_0000_0000_0000_0000 + g[2] as u128 * 0x1_0000_0000_0000_0000_0000 + g[3] as u128
        * 0x1_0000_0000_0000_0000 + g[4] as u128 * 0x1_0000_0000_0000 + g[5] as u128 * 0x1_0000_0000
        + g[6] as u128 * 0x1_0000 + g[7] as u128
}

fn parse_ipv6(s: &[char]) -> (r: Option<u128>)
    ensures
        r is Some == ipv6_value(s@) is Some,
        r is Some ==> Some(r->Some_0 as nat) == ipv6_value(s@),
{
    let k: usize = find_gap(s);
    if k < s.len() {
        let head = piece(s, 0, k);
        let tail = piece(s, k + 2, s.len());
        assert(head@ =~= s@.take(k as int));
        assert(tail@ =~= s@.skip(k + 2));
        match (parse_side(head, false), parse_side(tail, true)) {
            (Some(h), Some(t)) => {
                if h.len() > 7 || t.len() > 7 || h.len() + t.len() > 7 {
                    return None;
                }
                let ghost zeros = Seq::new(
                    (8 - h@.len() - t@.len()) as nat,
                    |i: int| 0nat,
                );
                let mut g: Vec<u16> = Vec::new();
                let mut i: usize = 0;
                while i < 8
                    invariant
                        i <= 8,
                        g@.len() == i,
                        h@.len() + t@.len() <= 7,
                        zeros == Seq::new((8 - h@.len() - t@.len()) as nat, |i: int| 0nat),
                        forall|j: int|
                            0 <= j < i ==> g@[j] as nat == (naturals(h@) + zeros + naturals(t@))[j],
                    decreases 8 - i,
                {
                    if i < h.len() {
                        g.push(h[i]);
                    } else if i < 8 - t.len() {
                        g.push(0);
                    } else {
                        g.push(t[i - (8 - t.len())]);
                    }
                    i = i + 1;
                }
                assert(naturals(g@) =~= naturals(h@) + zeros + naturals(t@));
                Some(pack_groups(&g))
            },
            _ => None,
        }
    } else {
        match parse_groups(s, true) {
            Some(g) => if g.len() == 8 {
                Some(pack_groups(&g))
            } else {
                None
            },
            None => None,
        }
    }
}

/// Reads a dotted quad.
pub fn parse_ipv4_address(s: &[char]) -> (r: Option<u32>)
    ensures
        r is Some == ipv4_value(s@) is Some,
        r is Some ==> Some(r->Some_0 as nat) == ipv4_value(s@),
{
    parse_ipv4(s)
}

/// Reads an address of either family.
pub fn parse_address(s: &[char]) -> (r: Option<IpAddr>)
    ensures
        r == address_value(s@),
{
    match parse_ipv4(s) {
        Some(v) => Some(IpAddr::V4(v)),
        None => match parse_ipv6(s) {
            Some(v) => Some(IpAddr::V6(v)),
            None => None,
        },
    }
}

/// Reads an address, a slash and a prefix length.
pub fn parse_network(s: &[char]) -> (r: Option<IpNetwork>)
    ensures
        r == network_value(s@),
{
    match cut(s, '/') {
        Some((a, p)) => match (parse_address(a), parse_decimal(p, 255)) {
            (Some(address), Some(n)) => Some(IpNetwork { address, prefix_len: n as u8 }),
            _ => None,
        },
        None => None,
    }
}

} // verus!
