//! Slash-separated paths as texts.

use vstd::prelude::*;
use vstd::string::*;

use crate::text::{chars_of, same, split, split_at_each, string_of};
use crate::views::{group_views, views};

verus! {

broadcast use group_views;

/// Whether a path starts at the root.
pub open spec fn is_absolute(path: Seq<char>) -> bool {
    path.len() > 0 && path[0] == '/'
}

/// Whether a piece between slashes is a component: an empty piece and a dot are none.
pub open spec fn is_part(s: Seq<char>) -> bool {
    s.len() > 0 && s != "."@
}

/// The components of a path.
pub open spec fn parts(path: Seq<char>) -> Seq<Seq<char>> {
    split(path, '/').filter(|s: Seq<char>| is_part(s))
}

/// Whether a path climbs to a parent.
pub open spec fn climbs(path: Seq<char>) -> bool {
    parts(path).contains(".."@)
}

/// Whether a path starts at the root and never climbs.
pub open spec fn is_plain(path: Seq<char>) -> bool {
    is_absolute(path) && !climbs(path)
}

/// Whether a path is a directory or lies below it, component by component.
pub open spec fn is_within(path: Seq<char>, root: Seq<char>) -> bool {
    is_absolute(path) == is_absolute(root) && parts(root).is_prefix_of(parts(path))
}

/// Whether a path lies below the volatile directory, and is not that directory.
pub open spec fn is_volatile(path: Seq<char>) -> bool {
    is_within(path, "/tmp"@) && parts(path).len() > parts("/tmp"@).len()
}

/// A path with a component behind it.
pub open spec fn path_join(base: Seq<char>, part: Seq<char>) -> Seq<char> {
    if base.len() == 0 {
        part
    } else if base.last() == '/' {
        base + part
    } else {
        base + "/"@ + part
    }
}

pub fn starts_at_root(path: &str) -> (r: bool)
    ensures
        r == is_absolute(path@),
{
    let cs = chars_of(path);
    cs.len() > 0 && cs[0] == '/'
}

pub fn split_path(path: &str) -> (r: Vec<String>)
    ensures
        views(r@) == parts(path@),
{
    let cs = chars_of(path);
    let pieces = split_at_each(cs.as_slice(), '/');
    let ghost all = views(pieces@);
    let ghost p = |s: Seq<char>| is_part(s);
    let mut r: Vec<String> = Vec::new();
    let mut i: usize = 0;
    proof {
        reveal(Seq::filter);
        assert(all.take(0) =~= Seq::empty());
    }
    while i < pieces.len()
        invariant
            i <= pieces@.len(),
            all == views(pieces@),
            p == (|s: Seq<char>| is_part(s)),
            views(r@) == all.take(i as int).filter(p),
        decreases pieces@.len() - i,
    {
        proof {
            reveal(Seq::filter);
            assert(all.take(i + 1).drop_last() =~= all.take(i as int));
            assert(all[i as int] == pieces@[i as int]@);
        }
        let piece = string_of(pieces[i].as_slice());
        if pieces[i].len() > 0 && !same(piece.as_str(), ".") {
            r.push(piece);
        }
        i = i + 1;
    }
    assert(all.take(i as int) =~= all);
    r
}

/// Whether a path starts at the root and never climbs.
pub fn plain_path(path: &str) -> (r: bool)
    ensures
        r == is_plain(path@),
{
    if !starts_at_root(path) {
        return false;
    }
    let list = split_path(path);
    let ghost all = views(list@);
    let mut i: usize = 0;
    while i < list.len()
        invariant
            i <= list@.len(),
            all == views(list@),
            all == parts(path@),
            is_absolute(path@),
            forall|j: int| 0 <= j < i ==> all[j] != ".."@,
        decreases list@.len() - i,
    {
        assert(all[i as int] == list@[i as int]@);
        if same(list[i].as_str(), "..") {
            return false;
        }
        i = i + 1;
    }
    true
}

/// Whether a path is a directory or lies below it.
pub fn within(path: &str, root: &str) -> (r: bool)
    ensures
        r == is_within(path@, root@),
{
    if starts_at_root(path) != starts_at_root(root) {
        return false;
    }
    let a = split_path(path);
    let b = split_path(root);
    let ghost x = views(a@);
    let ghost y = views(b@);
    if b.len() > a.len() {
        return false;
    }
    let mut i: usize = 0;
    while i < b.len()
        invariant
            i <= b@.len() <= a@.len(),
            x == views(a@),
            y == views(b@),
            x == parts(path@),
            y == parts(root@),
            forall|j: int| 0 <= j < i ==> x[j] == y[j],
        decreases b@.len() - i,
    {
        assert(x[i as int] == a@[i as int]@);
        assert(y[i as int] == b@[i as int]@);
        if !same(a[i].as_str(), b[i].as_str()) {
            assert(x.subrange(0, y.len() as int)[i as int] != y[i as int]);
            return false;
        }
        i = i + 1;
    }
    assert(y =~= x.subrange(0, y.len() as int));
    true
}

/// Whether a path lies below the volatile directory.
pub fn volatile_path(path: &str) -> (r: bool)
    ensures
        r == is_volatile(path@),
{
    within(path, "/tmp") && split_path(path).len() > split_path("/tmp").len()
}

/// A path with a component behind it.
pub fn join_path(base: &str, part: &str) -> (r: String)
    ensures
        r@ == path_join(base@, part@),
{
    let cs = chars_of(base);
    if cs.len() == 0 {
        return part.to_owned();
    }
    let mut r = base.to_owned();
    if cs[cs.len() - 1] != '/' {
        r.append("/");
    }
    r.append(part);
    r
}

} // verus!
