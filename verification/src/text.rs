//! Text helpers: views of strings, character classes, numbers and line splitting.

use vstd::prelude::*;
use vstd::string::*;
use vstd::utf8::*;

use crate::views::{group_views, views};

verus! {

broadcast use group_views;

/// `String::push` appends one character.
pub assume_specification [String::push] (s: &mut String, ch: char)
    ensures
        final(s)@ == old(s)@.push(ch),
;

/// The number of bytes that a text takes in UTF-8.
pub open spec fn byte_len(s: Seq<char>) -> nat {
    encode_utf8(s).len()
}

pub open spec fn is_digit(c: char) -> bool {
    '0' <= c <= '9'
}

pub open spec fn is_lower(c: char) -> bool {
    'a' <= c <= 'z'
}

pub open spec fn is_upper(c: char) -> bool {
    'A' <= c <= 'Z'
}

pub open spec fn is_alnum(c: char) -> bool {
    is_digit(c) || is_lower(c) || is_upper(c)
}

pub open spec fn is_hex(c: char) -> bool {
    is_digit(c) || 'a' <= c <= 'f' || 'A' <= c <= 'F'
}

/// An ASCII control character.
pub open spec fn is_ascii_control(c: char) -> bool {
    (c as u32) < 0x20 || (c as u32) == 0x7f
}

/// A Unicode control character (general category Cc).
pub open spec fn is_control(c: char) -> bool {
    (c as u32) < 0x20 || 0x7f <= (c as u32) <= 0x9f
}

/// An ASCII letter in lower case; every other character is unchanged.
pub open spec fn lower(c: char) -> char {
    if is_upper(c) {
        ((c as u32) + 32) as char
    } else {
        c
    }
}

pub open spec fn lower_all(s: Seq<char>) -> Seq<char> {
    s.map_values(|c: char| lower(c))
}

pub open spec fn starts(s: Seq<char>, prefix: Seq<char>) -> bool {
    prefix.len() <= s.len() && s.take(prefix.len() as int) == prefix
}

pub open spec fn ends(s: Seq<char>, suffix: Seq<char>) -> bool {
    suffix.len() <= s.len() && s.skip(s.len() - suffix.len()) == suffix
}

/// The least index from `from` on at which `c` stands, or the length of the text.
pub open spec fn find_from(s: Seq<char>, c: char, from: int) -> int
    decreases s.len() - from,
{
    if from < 0 || from >= s.len() {
        s.len() as int
    } else if s[from] == c {
        from
    } else {
        find_from(s, c, from + 1)
    }
}

/// The text before and after the first `c`.
pub open spec fn split_once(s: Seq<char>, c: char) -> Option<(Seq<char>, Seq<char>)> {
    let k = find_from(s, c, 0);
    if k < s.len() {
        Some((s.take(k), s.skip(k + 1)))
    } else {
        None
    }
}

/// A line without one carriage return at its end.
pub open spec fn chomp(s: Seq<char>) -> Seq<char> {
    if s.len() > 0 && s.last() == '\r' {
        s.drop_last()
    } else {
        s
    }
}

/// The lines of the text from `from` on. A line ends at a line feed, which may follow a carriage
/// return; the last line may lack it.
pub open spec fn lines_from(s: Seq<char>, from: int) -> Seq<Seq<char>>
    decreases s.len() - from,
{
    if from < 0 || from >= s.len() {
        Seq::empty()
    } else {
        let k = find_from(s, '\n', from);
        if from <= k < s.len() {
            seq![chomp(s.subrange(from, k))] + lines_from(s, k + 1)
        } else {
            seq![s.subrange(from, s.len() as int)]
        }
    }
}

pub open spec fn lines(s: Seq<char>) -> Seq<Seq<char>> {
    lines_from(s, 0)
}

/// The parts of the text from `from` on between occurrences of `c`.
pub open spec fn split_from(s: Seq<char>, c: char, from: int) -> Seq<Seq<char>>
    decreases s.len() - from,
{
    if from < 0 || from > s.len() {
        Seq::empty()
    } else {
        let k = find_from(s, c, from);
        if from <= k < s.len() {
            seq![s.subrange(from, k)] + split_from(s, c, k + 1)
        } else {
            seq![s.subrange(from, s.len() as int)]
        }
    }
}

/// The parts of a text between occurrences of `c`.
pub open spec fn split(s: Seq<char>, c: char) -> Seq<Seq<char>> {
    split_from(s, c, 0)
}

/// An ASCII space, tab, line feed, form feed or carriage return.
pub open spec fn is_ascii_space(c: char) -> bool {
    c == ' ' || c == '\t' || c == '\n' || c == '\x0c' || c == '\r'
}

/// A Unicode white space character.
pub open spec fn is_white(c: char) -> bool {
    let u = c as u32;
    0x9 <= u <= 0xd || u == 0x20 || u == 0x85 || u == 0xa0 || u == 0x1680 || 0x2000 <= u <= 0x200a
        || u == 0x2028 || u == 0x2029 || u == 0x202f || u == 0x205f || u == 0x3000
}

/// The least index from `i` on of a character that is no white space, or the length.
pub open spec fn white_end(s: Seq<char>, i: int) -> int
    decreases s.len() - i,
{
    if 0 <= i < s.len() && is_white(s[i]) {
        white_end(s, i + 1)
    } else {
        i
    }
}

/// The end of the text before the white space that ends at `j`, but not below `from`.
pub open spec fn white_start(s: Seq<char>, from: int, j: int) -> int
    decreases j,
{
    if 0 <= from < j <= s.len() && is_white(s[j - 1]) {
        white_start(s, from, j - 1)
    } else {
        j
    }
}

/// A text without white space around it.
pub open spec fn trim(s: Seq<char>) -> Seq<char> {
    let a = white_end(s, 0);
    s.subrange(a, white_start(s, a, s.len() as int))
}

/// The least index from `i` on of white space, or the length.
pub open spec fn ink_end(s: Seq<char>, i: int) -> int
    decreases s.len() - i,
{
    if 0 <= i < s.len() && !is_white(s[i]) {
        ink_end(s, i + 1)
    } else {
        i
    }
}

/// The tokens of the text from `i` on, behind `acc`.
pub open spec fn tokens_from(acc: Seq<Seq<char>>, s: Seq<char>, i: int) -> Seq<Seq<char>>
    decreases s.len() - i,
{
    let j = white_end(s, i);
    let e = ink_end(s, j);
    if i < 0 || !(i <= j < e <= s.len()) {
        acc
    } else {
        tokens_from(acc.push(s.subrange(j, e)), s, e)
    }
}

/// The tokens of a text, as white space parts them.
pub open spec fn tokens(s: Seq<char>) -> Seq<Seq<char>> {
    tokens_from(Seq::empty(), s, 0)
}

/// The least index from `i` on of a character other than `c`, or the length.
pub open spec fn run_end(s: Seq<char>, c: char, i: int) -> int
    decreases s.len() - i,
{
    if 0 <= i < s.len() && s[i] == c {
        run_end(s, c, i + 1)
    } else {
        i
    }
}

/// The end of the text before the run of `c` that ends at `j`, but not below `from`.
pub open spec fn run_start(s: Seq<char>, c: char, from: int, j: int) -> int
    decreases j,
{
    if 0 <= from < j <= s.len() && s[j - 1] == c {
        run_start(s, c, from, j - 1)
    } else {
        j
    }
}

/// A text without the `c` around it.
pub open spec fn trim_char(s: Seq<char>, c: char) -> Seq<char> {
    let a = run_end(s, c, 0);
    s.subrange(a, run_start(s, c, a, s.len() as int))
}

/// The least index from `i` on of a character that is no ASCII space, or the length.
pub open spec fn skip_spaces(s: Seq<char>, i: int) -> int
    decreases s.len() - i,
{
    if 0 <= i < s.len() && is_ascii_space(s[i]) {
        skip_spaces(s, i + 1)
    } else {
        i
    }
}

/// The least index from `i` on of an ASCII space, or the length.
pub open spec fn word_end(s: Seq<char>, i: int) -> int
    decreases s.len() - i,
{
    if 0 <= i < s.len() && !is_ascii_space(s[i]) {
        word_end(s, i + 1)
    } else {
        i
    }
}

/// The words of the text from `i` on, behind `acc`.
pub open spec fn words_from(acc: Seq<Seq<char>>, s: Seq<char>, i: int) -> Seq<Seq<char>>
    decreases s.len() - i,
{
    let j = skip_spaces(s, i);
    let e = word_end(s, j);
    if i < 0 || !(i <= j < e <= s.len()) {
        acc
    } else {
        words_from(acc.push(s.subrange(j, e)), s, e)
    }
}

/// The words of a text, as ASCII spaces part them.
pub open spec fn words(s: Seq<char>) -> Seq<Seq<char>> {
    words_from(Seq::empty(), s, 0)
}

/// The texts from `i` on with `sep` between all of them, behind `acc`.
pub open spec fn joined_from(
    acc: Seq<char>,
    parts: Seq<Seq<char>>,
    sep: Seq<char>,
    i: int,
) -> Seq<char>
    decreases parts.len() - i,
{
    if i < 0 || i >= parts.len() {
        acc
    } else if i == 0 {
        joined_from(acc + parts[i], parts, sep, i + 1)
    } else {
        joined_from(acc + sep + parts[i], parts, sep, i + 1)
    }
}

/// The texts with `sep` between them.
pub open spec fn joined(parts: Seq<Seq<char>>, sep: Seq<char>) -> Seq<char> {
    joined_from(Seq::empty(), parts, sep, 0)
}

/// Whether a text holds another.
pub open spec fn has_text(s: Seq<char>, part: Seq<char>) -> bool {
    exists|i: int| #[trigger] text_at(s, part, i)
}

pub open spec fn text_at(s: Seq<char>, part: Seq<char>, i: int) -> bool {
    0 <= i && i + part.len() <= s.len() && s.subrange(i, i + part.len()) == part
}

pub open spec fn is_blank(s: Seq<char>) -> bool {
    forall|i: int| 0 <= i < s.len() ==> is_white(#[trigger] s[i])
}

pub open spec fn digit_value(c: char) -> nat {
    if is_digit(c) {
        (c as nat - '0' as nat) as nat
    } else if 'a' <= c <= 'f' {
        (c as nat - 'a' as nat + 10) as nat
    } else if 'A' <= c <= 'F' {
        (c as nat - 'A' as nat + 10) as nat
    } else {
        0
    }
}

/// The value of the digits from `i` on, read in `base` behind a leading part worth `acc`.
pub open spec fn digits_from(acc: nat, s: Seq<char>, base: nat, i: int) -> nat
    decreases s.len() - i,
{
    if i < 0 || i >= s.len() {
        acc
    } else {
        digits_from(acc * base + digit_value(s[i]), s, base, i + 1)
    }
}

pub open spec fn strip_plus(s: Seq<char>) -> Seq<char> {
    if s.len() > 0 && s[0] == '+' {
        s.skip(1)
    } else {
        s
    }
}

/// An unsigned decimal number of at most `max`: one or more digits, which one plus sign may
/// precede.
pub open spec fn decimal_value(s: Seq<char>, max: nat) -> Option<nat> {
    let d = strip_plus(s);
    if d.len() > 0 && (forall|i: int| 0 <= i < d.len() ==> is_digit(#[trigger] d[i]))
        && digits_from(0, d, 10, 0) <= max {
        Some(digits_from(0, d, 10, 0))
    } else {
        None
    }
}

/// An unsigned hexadecimal number of at most `max`: one or more digits, which one plus sign may
/// precede.
pub open spec fn hex_value(s: Seq<char>, max: nat) -> Option<nat> {
    let d = strip_plus(s);
    if d.len() > 0 && (forall|i: int| 0 <= i < d.len() ==> is_hex(#[trigger] d[i]))
        && digits_from(0, d, 16, 0) <= max {
        Some(digits_from(0, d, 16, 0))
    } else {
        None
    }
}

pub open spec fn digit_char(d: nat) -> char {
    if d < 10 {
        (d + '0' as nat) as char
    } else {
        ((d - 10) + 'a' as nat) as char
    }
}

/// A number in decimal, without leading zeros.
pub open spec fn decimal(n: nat) -> Seq<char>
    decreases n,
{
    if n < 10 {
        seq![digit_char(n)]
    } else {
        decimal(n / 10).push(digit_char(n % 10))
    }
}

/// A number in lower-case hexadecimal, without leading zeros.
pub open spec fn hex(n: nat) -> Seq<char>
    decreases n,
{
    if n < 16 {
        seq![digit_char(n)]
    } else {
        hex(n / 16).push(digit_char(n % 16))
    }
}

pub fn byte_length(s: &str) -> (r: usize)
    ensures
        r == byte_len(s@),
{
    s.as_bytes().len()
}

/// Whether two texts are equal.
pub fn same(a: &str, b: &str) -> (r: bool)
    ensures
        r == (a@ == b@),
{
    let x = a.as_bytes();
    let y = b.as_bytes();
    if x.len() != y.len() {
        return false;
    }
    let mut i: usize = 0;
    while i < x.len()
        invariant
            i <= x@.len(),
            x@.len() == y@.len(),
            x@ == encode_utf8(a@),
            y@ == encode_utf8(b@),
            x@.take(i as int) =~= y@.take(i as int),
        decreases x@.len() - i,
    {
        if x[i] != y[i] {
            return false;
        }
        assert(x@.take(i + 1) =~= x@.take(i as int).push(x@[i as int]));
        assert(y@.take(i + 1) =~= y@.take(i as int).push(y@[i as int]));
        i = i + 1;
    }
    proof {
        assert(x@ =~= x@.take(i as int));
        assert(y@ =~= y@.take(i as int));
        encode_utf8_decode_utf8(a@);
        encode_utf8_decode_utf8(b@);
    }
    true
}

pub fn same_option(a: Option<&str>, b: &str) -> (r: bool)
    ensures
        r == (a is Some && a->Some_0@ == b@),
{
    match a {
        Some(v) => same(v, b),
        None => false,
    }
}

/// Whether a list of texts holds a text.
pub fn holds(list: &Vec<String>, s: &str) -> (r: bool)
    ensures
        r == views(list@).contains(s@),
{
    let mut i: usize = 0;
    while i < list.len()
        invariant
            i <= list@.len(),
            forall|j: int| 0 <= j < i ==> views(list@)[j] != s@,
        decreases list@.len() - i,
    {
        if same(list[i].as_str(), s) {
            assert(views(list@)[i as int] == s@);
            return true;
        }
        i = i + 1;
    }
    false
}

/// The characters of a text.
pub fn chars_of(s: &str) -> (r: Vec<char>)
    ensures
        r@ == s@,
{
    let mut r: Vec<char> = Vec::new();
    for c in it: s.chars()
        invariant
            r@ =~= s@.take(it.index() as int),
            it.seq() == s@,
    {
        r.push(c);
    }
    r
}

pub fn string_of(s: &[char]) -> (r: String)
    ensures
        r@ == s@,
{
    let mut r = String::new();
    let mut i: usize = 0;
    while i < s.len()
        invariant
            i <= s@.len(),
            r@ =~= s@.take(i as int),
        decreases s@.len() - i,
    {
        r.push(s[i]);
        i = i + 1;
    }
    assert(s@.take(i as int) =~= s@);
    r
}


pub fn digit_to_char(d: u64) -> (r: char)
    requires
        d < 16,
    ensures
        r == digit_char(d as nat),
{
    match d {
        0 => '0',
        1 => '1',
        2 => '2',
        3 => '3',
        4 => '4',
        5 => '5',
        6 => '6',
        7 => '7',
        8 => '8',
        9 => '9',
        10 => 'a',
        11 => 'b',
        12 => 'c',
        13 => 'd',
        14 => 'e',
        _ => 'f',
    }
}

/// Formats a number in decimal.
pub fn decimal_text(n: u64) -> (r: String)
    ensures
        r@ == decimal(n as nat),
    decreases n,
{
    if n < 10 {
        let mut r = String::new();
        r.push(digit_to_char(n));
        assert(r@ =~= seq![digit_char(n as nat)]);
        r
    } else {
        let mut r = decimal_text(n / 10);
        r.push(digit_to_char(n % 10));
        r
    }
}

/// Formats a number in lower-case hexadecimal.
pub fn hex_text(n: u64) -> (r: String)
    ensures
        r@ == hex(n as nat),
    decreases n,
{
    if n < 16 {
        let mut r = String::new();
        r.push(digit_to_char(n));
        assert(r@ =~= seq![digit_char(n as nat)]);
        r
    } else {
        let mut r = hex_text(n / 16);
        r.push(digit_to_char(n % 16));
        r
    }
}

pub fn digit(c: char) -> (r: bool)
    ensures
        r == is_digit(c),
{
    '0' <= c && c <= '9'
}

pub fn alnum(c: char) -> (r: bool)
    ensures
        r == is_alnum(c),
{
    ('0' <= c && c <= '9') || ('a' <= c && c <= 'z') || ('A' <= c && c <= 'Z')
}

pub fn hex_digit(c: char) -> (r: bool)
    ensures
        r == is_hex(c),
{
    ('0' <= c && c <= '9') || ('a' <= c && c <= 'f') || ('A' <= c && c <= 'F')
}

pub fn ascii_control(c: char) -> (r: bool)
    ensures
        r == is_ascii_control(c),
{
    (c as u32) < 0x20 || (c as u32) == 0x7f
}

pub fn control(c: char) -> (r: bool)
    ensures
        r == is_control(c),
{
    (c as u32) < 0x20 || (0x7f <= (c as u32) && (c as u32) <= 0x9f)
}

pub fn ascii_space(c: char) -> (r: bool)
    ensures
        r == is_ascii_space(c),
{
    c == ' ' || c == '\t' || c == '\n' || c == '\x0c' || c == '\r'
}

pub fn white(c: char) -> (r: bool)
    ensures
        r == is_white(c),
{
    let u: u32 = c as u32;
    (0x9 <= u && u <= 0xd) || u == 0x20 || u == 0x85 || u == 0xa0 || u == 0x1680 || (0x2000 <= u
        && u <= 0x200a) || u == 0x2028 || u == 0x2029 || u == 0x202f || u == 0x205f || u == 0x3000
}

/// A text without white space around it.
pub fn trimmed(s: &[char]) -> (r: &[char])
    ensures
        r@ == trim(s@),
{
    let mut a: usize = 0;
    while a < s.len() && white(s[a])
        invariant
            a <= s@.len(),
            white_end(s@, a as int) == white_end(s@, 0),
        decreases s@.len() - a,
    {
        a = a + 1;
    }
    let mut b: usize = s.len();
    while b > a && white(s[b - 1])
        invariant
            a <= b <= s@.len(),
            white_start(s@, a as int, b as int) == white_start(s@, a as int, s@.len() as int),
        decreases b,
    {
        b = b - 1;
    }
    piece(s, a, b)
}

/// The least index from `from` on of a character that is no ASCII space, or the length.
pub fn spaces_end(s: &[char], from: usize) -> (r: usize)
    requires
        from <= s@.len(),
    ensures
        r == skip_spaces(s@, from as int),
        from <= r <= s@.len(),
        r < s@.len() ==> !is_ascii_space(s@[r as int]),
{
    let mut i: usize = from;
    while i < s.len() && ascii_space(s[i])
        invariant
            from <= i <= s@.len(),
            skip_spaces(s@, i as int) == skip_spaces(s@, from as int),
        decreases s@.len() - i,
    {
        i = i + 1;
    }
    i
}

/// Splits a text into its words.
pub fn split_words(s: &[char]) -> (r: Vec<String>)
    ensures
        views(r@) == words(s@),
{
    let mut r: Vec<String> = Vec::new();
    let mut i: usize = 0;
    loop
        invariant
            i <= s@.len(),
            words_from(views(r@), s@, i as int) == words(s@),
        decreases s@.len() - i,
    {
        let j: usize = spaces_end(s, i);
        if j == s.len() {
            return r;
        }
        let mut e: usize = j;
        while e < s.len() && !ascii_space(s[e])
            invariant
                j <= e <= s@.len(),
                word_end(s@, e as int) == word_end(s@, j as int),
            decreases s@.len() - e,
        {
            e = e + 1;
        }
        r.push(string_of(piece(s, j, e)));
        i = e;
    }
}

/// Splits a text into its tokens.
pub fn split_tokens(s: &[char]) -> (r: Vec<String>)
    ensures
        views(r@) == tokens(s@),
{
    let mut r: Vec<String> = Vec::new();
    let mut i: usize = 0;
    loop
        invariant
            i <= s@.len(),
            tokens_from(views(r@), s@, i as int) == tokens(s@),
        decreases s@.len() - i,
    {
        let mut j: usize = i;
        while j < s.len() && white(s[j])
            invariant
                i <= j <= s@.len(),
                white_end(s@, j as int) == white_end(s@, i as int),
            decreases s@.len() - j,
        {
            j = j + 1;
        }
        if j == s.len() {
            return r;
        }
        let mut e: usize = j;
        while e < s.len() && !white(s[e])
            invariant
                j <= e <= s@.len(),
                ink_end(s@, e as int) == ink_end(s@, j as int),
            decreases s@.len() - e,
        {
            e = e + 1;
        }
        r.push(string_of(piece(s, j, e)));
        i = e;
    }
}

/// A text without the `c` around it.
pub fn trimmed_of(s: &[char], c: char) -> (r: &[char])
    ensures
        r@ == trim_char(s@, c),
{
    let mut a: usize = 0;
    while a < s.len() && s[a] == c
        invariant
            a <= s@.len(),
            run_end(s@, c, a as int) == run_end(s@, c, 0),
        decreases s@.len() - a,
    {
        a = a + 1;
    }
    let mut b: usize = s.len();
    while b > a && s[b - 1] == c
        invariant
            a <= b <= s@.len(),
            run_start(s@, c, a as int, b as int) == run_start(s@, c, a as int, s@.len() as int),
        decreases b,
    {
        b = b - 1;
    }
    piece(s, a, b)
}

/// Joins texts with `sep` between them.
pub fn join_texts(parts: &Vec<String>, sep: &str) -> (r: String)
    ensures
        r@ == joined(views(parts@), sep@),
{
    let mut r = String::new();
    let mut i: usize = 0;
    while i < parts.len()
        invariant
            i <= parts@.len(),
            joined_from(r@, views(parts@), sep@, i as int) == joined(views(parts@), sep@),
        decreases parts@.len() - i,
    {
        assert(views(parts@)[i as int] == parts@[i as int]@);
        if i > 0 {
            r.append(sep);
        }
        r.append(parts[i].as_str());
        i = i + 1;
    }
    r
}

/// Whether a text holds another.
pub fn text_in(s: &str, part: &str) -> (r: bool)
    ensures
        r == has_text(s@, part@),
{
    let cs = chars_of(s);
    let w = chars_of(part);
    let total: usize = cs.len();
    if w.len() > total {
        return false;
    }
    let last: usize = total - w.len();
    let mut i: usize = 0;
    loop
        invariant
            total == cs@.len(),
            cs@ == s@,
            w@ == part@,
            last + w@.len() == cs@.len(),
            i <= last,
            forall|j: int| 0 <= j < i ==> !#[trigger] text_at(s@, part@, j),
        decreases last + 1 - i,
    {
        if begins(piece(cs.as_slice(), i, total), part) {
            assert(s@.subrange(i as int, total as int).take(part@.len() as int) =~= s@.subrange(
                i as int,
                i + part@.len(),
            ));
            assert(text_at(s@, part@, i as int));
            return true;
        }
        assert(!text_at(s@, part@, i as int)) by {
            assert(s@.subrange(i as int, total as int).take(part@.len() as int) =~= s@.subrange(
                i as int,
                i + part@.len(),
            ));
        }
        if i == last {
            assert forall|j: int| !#[trigger] text_at(s@, part@, j) by {}
            return false;
        }
        i = i + 1;
    }
}

pub fn blank(s: &[char]) -> (r: bool)
    ensures
        r == is_blank(s@),
{
    let mut i: usize = 0;
    while i < s.len()
        invariant
            i <= s@.len(),
            forall|j: int| 0 <= j < i ==> is_white(#[trigger] s@[j]),
        decreases s@.len() - i,
    {
        if !white(s[i]) {
            return false;
        }
        i = i + 1;
    }
    true
}

pub fn to_lower(c: char) -> (r: char)
    ensures
        r == lower(c),
{
    if 'A' <= c && c <= 'Z' {
        let u: u8 = c as u8;
        (u + 32) as char
    } else {
        c
    }
}

pub fn value_of_digit(c: char) -> (r: u64)
    requires
        is_hex(c),
    ensures
        r == digit_value(c),
        r < 16,
        is_digit(c) ==> r < 10,
{
    let u: u64 = c as u64;
    if '0' <= c && c <= '9' {
        u - 48
    } else if 'a' <= c && c <= 'f' {
        u - 87
    } else {
        u - 55
    }
}

pub proof fn lemma_digits_from_grows(acc: nat, s: Seq<char>, base: nat, i: int)
    requires
        base >= 1,
    ensures
        digits_from(acc, s, base, i) >= acc,
    decreases s.len() - i,
{
    if 0 <= i < s.len() {
        let next = acc * base + digit_value(s[i]);
        assert(acc * base >= acc) by (nonlinear_arith)
            requires
                base >= 1,
        ;
        lemma_digits_from_grows(next, s, base, i + 1);
    }
}

/// Reads digits in `base` (ten or sixteen) into a number of at most `max`.
fn parse_digits(s: &[char], from: usize, base: u64, max: u64) -> (r: Option<u64>)
    requires
        from <= s@.len(),
        base == 10 || base == 16,
    ensures
        ({
            let d = s@.skip(from as int);
            let ok = d.len() > 0 && (forall|i: int|
                0 <= i < d.len() ==> (if base == 10 {
                    is_digit(#[trigger] d[i])
                } else {
                    is_hex(d[i])
                })) && digits_from(0, d, base as nat, 0) <= max;
            &&& r is Some == ok
            &&& ok ==> r->Some_0 == digits_from(0, d, base as nat, 0)
        }),
{
    let ghost d = s@.skip(from as int);
    if from == s.len() {
        return None;
    }
    let mut value: u64 = 0;
    let mut i: usize = from;
    while i < s.len()
        invariant
            from <= i <= s@.len(),
            base == 10 || base == 16,
            d == s@.skip(from as int),
            value <= max,
            forall|j: int|
                0 <= j < i - from ==> (if base == 10 {
                    is_digit(#[trigger] d[j])
                } else {
                    is_hex(d[j])
                }),
            digits_from(value as nat, d, base as nat, i - from) == digits_from(
                0,
                d,
                base as nat,
                0,
            ),
        decreases s@.len() - i,
    {
        let c = s[i];
        assert(d[i - from] == c);
        let good = if base == 10 {
            digit(c)
        } else {
            hex_digit(c)
        };
        if !good {
            return None;
        }
        let v: u64 = value_of_digit(c);
        let ghost next = value as nat * base as nat + v as nat;
        proof {
            lemma_digits_from_grows(next, d, base as nat, i - from + 1);
        }
        if v > max || value > (max - v) / base {
            assert(next > max) by (nonlinear_arith)
                requires
                    next == value as nat * base as nat + v as nat,
                    base > 0,
                    v > max || value > (max - v) / base as int,
            ;
            return None;
        }
        assert(value * base + v <= max) by (nonlinear_arith)
            requires
                base > 0,
                v <= max,
                value <= (max - v) / base as int,
        ;
        assert(value * base <= max);
        value = value * base + v;
        i = i + 1;
    }
    Some(value)
}

pub fn parse_decimal(s: &[char], max: u64) -> (r: Option<u64>)
    ensures
        r is Some == decimal_value(s@, max as nat) is Some,
        r is Some ==> Some(r->Some_0 as nat) == decimal_value(s@, max as nat),
{
    let from: usize = if s.len() > 0 && s[0] == '+' {
        1
    } else {
        0
    };
    assert(s@.skip(0) =~= s@);
    parse_digits(s, from, 10, max)
}

pub fn parse_hex(s: &[char], max: u64) -> (r: Option<u64>)
    ensures
        r is Some == hex_value(s@, max as nat) is Some,
        r is Some ==> Some(r->Some_0 as nat) == hex_value(s@, max as nat),
{
    let from: usize = if s.len() > 0 && s[0] == '+' {
        1
    } else {
        0
    };
    assert(s@.skip(0) =~= s@);
    parse_digits(s, from, 16, max)
}

pub proof fn lemma_find_from(s: Seq<char>, c: char, from: int)
    requires
        0 <= from <= s.len(),
    ensures
        from <= find_from(s, c, from) <= s.len(),
        find_from(s, c, from) < s.len() ==> s[find_from(s, c, from)] == c,
        forall|j: int| from <= j < find_from(s, c, from) ==> s[j] != c,
    decreases s.len() - from,
{
    if from < s.len() && s[from] != c {
        lemma_find_from(s, c, from + 1);
    }
}

/// The least index from `from` on at which `c` stands, or the length.
pub fn find(s: &[char], c: char, from: usize) -> (r: usize)
    requires
        from <= s@.len(),
    ensures
        r == find_from(s@, c, from as int),
        from <= r <= s@.len(),
        r < s@.len() ==> s@[r as int] == c,
        forall|j: int| from <= j < r ==> s@[j] != c,
{
    let mut i: usize = from;
    while i < s.len()
        invariant
            from <= i <= s@.len(),
            find_from(s@, c, i as int) == find_from(s@, c, from as int),
            forall|j: int| from <= j < i ==> s@[j] != c,
        decreases s@.len() - i,
    {
        if s[i] == c {
            return i;
        }
        i = i + 1;
    }
    i
}

/// The characters from `from` up to but not including `to`.
pub fn piece(s: &[char], from: usize, to: usize) -> (r: &[char])
    requires
        from <= to <= s@.len(),
    ensures
        r@ == s@.subrange(from as int, to as int),
{
    vstd::slice::slice_subrange(s, from, to)
}

/// The text before and after the first `c`.
pub fn cut(s: &[char], c: char) -> (r: Option<(&[char], &[char])>)
    ensures
        match r {
            Some((a, b)) => split_once(s@, c) == Some((a@, b@)),
            None => split_once(s@, c) is None,
        },
{
    let k: usize = find(s, c, 0);
    if k < s.len() {
        let a = piece(s, 0, k);
        let b = piece(s, k + 1, s.len());
        assert(a@ =~= s@.take(k as int));
        assert(b@ =~= s@.skip(k + 1));
        Some((a, b))
    } else {
        None
    }
}

/// Splits a text into lines.
pub fn split_lines(s: &[char]) -> (r: Vec<Vec<char>>)
    ensures
        views(r@) == lines(s@),
{
    let mut r: Vec<Vec<char>> = Vec::new();
    let mut from: usize = 0;
    while from < s.len()
        invariant
            from <= s@.len(),
            views(r@) + lines_from(s@, from as int) =~= lines(s@),
        decreases s@.len() - from,
    {
        let k: usize = find(s, '\n', from);
        let ghost before = views(r@);
        let ghost rest = lines_from(s@, from as int);
        if k < s.len() {
            let end: usize = if k > from && s[k - 1] == '\r' {
                k - 1
            } else {
                k
            };
            let line = piece(s, from, end);
            assert(line@ =~= chomp(s@.subrange(from as int, k as int)));
            r.push(slice_vec(line));
            assert(views(r@) =~= before.push(line@));
            assert(rest =~= seq![line@] + lines_from(s@, k + 1));
            from = k + 1;
        } else {
            let line = piece(s, from, s.len());
            r.push(slice_vec(line));
            assert(views(r@) =~= before.push(line@));
            assert(rest =~= seq![line@]);
            from = s.len();
        }
    }
    r
}

/// Splits a text at each `c`.
pub fn split_at_each(s: &[char], c: char) -> (r: Vec<Vec<char>>)
    ensures
        views(r@) == split(s@, c),
        r@.len() >= 1,
{
    let mut r: Vec<Vec<char>> = Vec::new();
    let mut from: usize = 0;
    loop
        invariant
            from <= s@.len(),
            views(r@) + split_from(s@, c, from as int) =~= split(s@, c),
        decreases s@.len() - from,
    {
        let k: usize = find(s, c, from);
        let ghost before = views(r@);
        let line = piece(s, from, k);
        r.push(slice_vec(line));
        if k < s.len() {
            assert(split_from(s@, c, from as int) =~= seq![line@] + split_from(s@, c, k + 1));
            from = k + 1;
        } else {
            assert(split_from(s@, c, from as int) =~= seq![line@]);
            assert(views(r@) =~= split(s@, c));
            return r;
        }
    }
}

pub fn slice_vec(s: &[char]) -> (r: Vec<char>)
    ensures
        r@ == s@,
{
    let mut r: Vec<char> = Vec::new();
    let mut i: usize = 0;
    while i < s.len()
        invariant
            i <= s@.len(),
            r@ =~= s@.take(i as int),
        decreases s@.len() - i,
    {
        r.push(s[i]);
        i = i + 1;
    }
    assert(s@.take(i as int) =~= s@);
    r
}

/// Whether the characters are those of a text.
pub fn chars_are(s: &[char], t: &str) -> (r: bool)
    ensures
        r == (s@ == t@),
{
    same(string_of(s).as_str(), t)
}

pub fn begins(s: &[char], prefix: &str) -> (r: bool)
    ensures
        r == starts(s@, prefix@),
{
    let p = chars_of(prefix);
    if p.len() > s.len() {
        return false;
    }
    let mut i: usize = 0;
    while i < p.len()
        invariant
            i <= p@.len() <= s@.len(),
            p@ == prefix@,
            s@.take(i as int) =~= p@.take(i as int),
        decreases p@.len() - i,
    {
        if s[i] != p[i] {
            assert(s@.take(p@.len() as int)[i as int] != prefix@[i as int]);
            return false;
        }
        assert(s@.take(i + 1) =~= s@.take(i as int).push(s@[i as int]));
        assert(p@.take(i + 1) =~= p@.take(i as int).push(p@[i as int]));
        i = i + 1;
    }
    assert(p@.take(i as int) =~= p@);
    true
}

pub fn has_prefix(s: &str, prefix: &str) -> (r: bool)
    ensures
        r == starts(s@, prefix@),
{
    begins(chars_of(s).as_slice(), prefix)
}

/// A text with its ASCII letters in lower case.
pub fn lower_text(s: &str) -> (r: String)
    ensures
        r@ == lower_all(s@),
{
    let cs = chars_of(s);
    let mut r = String::new();
    let mut i: usize = 0;
    while i < cs.len()
        invariant
            i <= cs@.len(),
            cs@ == s@,
            r@ =~= lower_all(s@).take(i as int),
        decreases cs@.len() - i,
    {
        r.push(to_lower(cs[i]));
        i = i + 1;
    }
    assert(lower_all(s@).take(i as int) =~= lower_all(s@));
    r
}

/// The text that bytes encode, where they are UTF-8.
pub open spec fn utf8_value(bytes: Seq<u8>) -> Option<Seq<char>> {
    if valid_utf8(bytes) {
        Some(decode_utf8(bytes))
    } else {
        None
    }
}

/// Calls `String::from_utf8` of std: the text that the bytes encode, or nothing where they are not
/// UTF-8.
#[verifier::external_body]
pub(crate) fn utf8_text(bytes: Vec<u8>) -> (r: Option<String>)
    ensures
        match r {
            Some(s) => utf8_value(bytes@) == Some(s@),
            None => utf8_value(bytes@) is None,
        },
{
    String::from_utf8(bytes).ok()
}

/// Whether a text ends with another.
pub fn has_suffix(s: &str, suffix: &str) -> (r: bool)
    ensures
        r == ends(s@, suffix@),
{
    let a = chars_of(s);
    let b = chars_of(suffix);
    if b.len() > a.len() {
        return false;
    }
    let from: usize = a.len() - b.len();
    let tail = piece(a.as_slice(), from, a.len());
    assert(tail@ =~= s@.skip(s@.len() - suffix@.len()));
    chars_are(tail, suffix)
}

} // verus!
