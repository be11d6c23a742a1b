//! Paths as text.
//!
//! A path is a text whose components are separated by slashes. Repeated slashes
//! and `.` components other than a leading one do not count.

use vstd::prelude::*;
use vstd::string::*;

use crate::text::{lemma_run_back_is, other_than, run_back, same, slice, split, split_of, to_chars};

verus! {

/// A path that starts at the root.
pub open spec fn is_absolute_of(path: Seq<char>) -> bool {
    path.len() > 0 && path[0] == '/'
}

/// `base` with `rel` under it; an absolute `rel` stands for itself.
pub open spec fn joined(base: Seq<char>, rel: Seq<char>) -> Seq<char> {
    if is_absolute_of(rel) || base.len() == 0 {
        rel
    } else if base.last() == '/' {
        base + rel
    } else {
        base + "/"@ + rel
    }
}

/// Where the piece of `path` that ends at `end` starts.
pub open spec fn piece_start(path: Seq<char>, end: int) -> int {
    end - run_back(path.take(end), other_than('/'))
}

/// Where the last component of `path.take(end)` ends; 0 if there is none.
pub open spec fn component_end(path: Seq<char>, end: int) -> int
    decreases end,
{
    if end <= 0 || end > path.len() {
        0
    } else if path[end - 1] == '/' {
        component_end(path, end - 1)
    } else {
        let start = piece_start(path, end);
        if 0 < start < end && path.subrange(start, end) == "."@ {
            component_end(path, start)
        } else {
            end
        }
    }
}

/// The last component of `path`, unless it is `.` or `..`.
pub open spec fn file_name_of(path: Seq<char>) -> Option<Seq<char>> {
    let end = component_end(path, path.len() as int);
    let name = path.subrange(piece_start(path, end), end);
    if end == 0 || name == "."@ || name == ".."@ {
        None
    } else {
        Some(name)
    }
}

/// `path` without its last component.
pub open spec fn parent_of(path: Seq<char>) -> Option<Seq<char>> {
    let end = component_end(path, path.len() as int);
    let before = component_end(path, piece_start(path, end));
    if end == 0 {
        None
    } else if before > 0 {
        Some(path.take(before))
    } else if is_absolute_of(path) {
        Some("/"@)
    } else {
        Some(Seq::empty())
    }
}

/// A piece between slashes that counts as a component wherever it stands.
pub open spec fn counts(piece: Seq<char>) -> bool {
    piece.len() > 0 && piece != "."@
}

/// Those of `pieces` that count as components.
pub open spec fn counting(pieces: Seq<Seq<char>>) -> Seq<Seq<char>>
    decreases pieces.len(),
{
    if pieces.len() == 0 {
        Seq::empty()
    } else if counts(pieces.last()) {
        counting(pieces.drop_last()).push(pieces.last())
    } else {
        counting(pieces.drop_last())
    }
}

/// The components of `path`, with `/` for the root and `.` for a leading dot.
pub open spec fn components_of(path: Seq<char>) -> Seq<Seq<char>> {
    let pieces = split_of(path, '/');
    (if is_absolute_of(path) {
        seq!["/"@]
    } else if pieces[0] == "."@ {
        seq!["."@]
    } else {
        Seq::empty()
    }) + counting(pieces)
}

/// `path` has a `..` component.
pub open spec fn climbs(path: Seq<char>) -> bool {
    split_of(path, '/').contains(".."@)
}

/// The components of `base` are the first ones of `path`.
pub open spec fn lies_under(path: Seq<char>, base: Seq<char>) -> bool {
    components_of(base).is_prefix_of(components_of(path))
}

/// `path` without its leading slashes.
pub open spec fn without_root(path: Seq<char>) -> Seq<char> {
    path.skip(crate::text::run_len(path, slash()) as int)
}

/// The class of slashes.
pub open spec fn slash() -> spec_fn(char) -> bool {
    |c: char| c == '/'
}

/// The part of a file name after its last dot, unless that dot is its first character.
pub open spec fn extension_of(name: Seq<char>) -> Option<Seq<char>> {
    let after = run_back(name, other_than('.')) as int;
    if after < name.len() - 1 {
        Some(name.skip(name.len() - after))
    } else {
        None
    }
}

pub fn is_absolute(path: &str) -> (r: bool)
    ensures
        r == is_absolute_of(path@),
{
    let v = to_chars(path);
    v.len() > 0 && v[0] == '/'
}

/// `base` with `rel` under it.
pub fn join(base: &str, rel: &str) -> (r: String)
    ensures
        r@ == joined(base@, rel@),
{
    let v = to_chars(base);
    if is_absolute(rel) || v.len() == 0 {
        rel.to_owned()
    } else if v[v.len() - 1] == '/' {
        crate::error::concat2(base, rel)
    } else {
        crate::error::concat3(base, "/", rel)
    }
}

fn start_of_piece(v: &Vec<char>, end: usize) -> (r: usize)
    requires
        end <= v@.len(),
    ensures
        r <= end,
        r == piece_start(v@, end as int),
{
    let mut i: usize = end;
    while i > 0 && v[i - 1] != '/'
        invariant
            i <= end <= v@.len(),
            forall|j: int| i <= j < end ==> v@[j] != '/',
        decreases i,
    {
        i = i - 1;
    }
    proof {
        lemma_run_back_is(v@.take(end as int), other_than('/'), (end - i) as nat);
    }
    i
}

fn end_of_component(v: &Vec<char>, end: usize) -> (r: usize)
    requires
        end <= v@.len(),
    ensures
        r <= end,
        r == component_end(v@, end as int),
{
    proof {
        reveal_strlit(".");
    }
    let mut e: usize = end;
    while e > 0
        invariant
            e <= end <= v@.len(),
            component_end(v@, end as int) == component_end(v@, e as int),
            "."@.len() == 1,
            "."@[0] == '.',
        decreases e,
    {
        if v[e - 1] == '/' {
            e = e - 1;
        } else {
            let start = start_of_piece(v, e);
            proof {
                crate::text::lemma_run_back(v@.take(e as int), other_than('/'));
                if start == e {
                    assert(v@.take(e as int)[e - 1] != '/');
                }
            }
            if start > 0 && e - start == 1 && v[start] == '.' {
                assert(v@.subrange(start as int, e as int) =~= "."@);
                e = start;
            } else {
                proof {
                    if 0 < start && v@.subrange(start as int, e as int) == "."@ {
                        assert(v@.subrange(start as int, e as int)[0] == v@[start as int]);
                    }
                }
                return e;
            }
        }
    }
    e
}

/// The last component of `path`, unless it is `.` or `..`.
pub fn file_name(path: &str) -> (r: Option<String>)
    ensures
        r.deep_view() == file_name_of(path@),
{
    let v = to_chars(path);
    let end = end_of_component(&v, v.len());
    let start = start_of_piece(&v, end);
    let name = slice(&v, start, end);
    if end == 0 || same(name.as_str(), ".") || same(name.as_str(), "..") {
        None
    } else {
        Some(name)
    }
}

/// `path` without its last component.
pub fn parent(path: &str) -> (r: Option<String>)
    ensures
        r.deep_view() == parent_of(path@),
{
    let v = to_chars(path);
    let end = end_of_component(&v, v.len());
    if end == 0 {
        return None;
    }
    let start = start_of_piece(&v, end);
    let before = end_of_component(&v, start);
    if before > 0 {
        assert(v@.subrange(0, before as int) =~= v@.take(before as int));
        Some(slice(&v, 0, before))
    } else if v[0] == '/' {
        Some(String::from_str("/"))
    } else {
        Some(String::new())
    }
}

/// The components of `path`.
pub fn components(path: &str) -> (r: Vec<String>)
    ensures
        r.deep_view() == components_of(path@),
{
    proof {
        reveal_strlit(".");
    }
    let pieces = split(path, '/');
    let mut r: Vec<String> = Vec::new();
    assert(r.deep_view() =~= Seq::<Seq<char>>::empty());
    assert(pieces.deep_view().len() > 0);
    assert(pieces.deep_view()[0] == pieces@[0]@);
    if is_absolute(path) {
        r.push(String::from_str("/"));
        assert(r.deep_view() =~= seq!["/"@]);
    } else if same(pieces[0].as_str(), ".") {
        r.push(String::from_str("."));
        assert(r.deep_view() =~= seq!["."@]);
    }
    let ghost lead = r.deep_view();
    let mut i: usize = 0;
    while i < pieces.len()
        invariant
            i <= pieces@.len(),
            r.deep_view() =~= lead + counting(pieces.deep_view().take(i as int)),
        decreases pieces.len() - i,
    {
        let ghost done = pieces.deep_view().take(i as int);
        let ghost more = pieces.deep_view().take(i + 1);
        assert(more.drop_last() =~= done);
        assert(more.last() == pieces@[i as int]@);
        let ghost before = r.deep_view();
        if !pieces[i].as_str().is_empty() && !same(pieces[i].as_str(), ".") {
            r.push(pieces[i].clone());
            assert(r.deep_view() =~= before.push(pieces@[i as int]@));
        }
        i = i + 1;
    }
    assert(pieces.deep_view().take(i as int) =~= pieces.deep_view());
    r
}

/// Whether `path` has a `..` component.
pub fn has_parent_dir(path: &str) -> (r: bool)
    ensures
        r == climbs(path@),
{
    let pieces = split(path, '/');
    let mut i: usize = 0;
    while i < pieces.len()
        invariant
            i <= pieces@.len(),
            pieces.deep_view() == split_of(path@, '/'),
            forall|j: int| 0 <= j < i ==> pieces@[j]@ != ".."@,
        decreases pieces.len() - i,
    {
        if same(pieces[i].as_str(), "..") {
            assert(pieces.deep_view()[i as int] == ".."@);
            return true;
        }
        i = i + 1;
    }
    assert forall|j: int| 0 <= j < pieces.deep_view().len() implies pieces.deep_view()[j] != ".."@ by {
        assert(pieces.deep_view()[j] == pieces@[j]@);
    }
    false
}

fn prefix_of(a: &Vec<String>, b: &Vec<String>) -> (r: bool)
    ensures
        r == a.deep_view().is_prefix_of(b.deep_view()),
{
    if a.len() > b.len() {
        return false;
    }
    let mut i: usize = 0;
    while i < a.len()
        invariant
            i <= a@.len() <= b@.len(),
            forall|j: int| 0 <= j < i ==> a@[j]@ == b@[j]@,
        decreases a.len() - i,
    {
        if !same(a[i].as_str(), b[i].as_str()) {
            assert(a.deep_view()[i as int] != b.deep_view().subrange(0, a@.len() as int)[i as int]);
            return false;
        }
        i = i + 1;
    }
    assert(a.deep_view() =~= b.deep_view().subrange(0, a@.len() as int));
    true
}

/// Whether the components of `base` are the first ones of `path`.
pub fn is_under(path: &str, base: &str) -> (r: bool)
    ensures
        r == lies_under(path@, base@),
{
    let p = components(path);
    let b = components(base);
    prefix_of(&b, &p)
}

/// Whether the two paths have the same components.
pub fn same_path(a: &str, b: &str) -> (r: bool)
    ensures
        r == (components_of(a@) == components_of(b@)),
{
    let p = components(a);
    let q = components(b);
    let r = p.len() == q.len() && prefix_of(&p, &q);
    proof {
        if p@.len() == q@.len() {
            assert(q.deep_view().subrange(0, p@.len() as int) =~= q.deep_view());
        }
        assert(p.deep_view().len() == p@.len());
    }
    r
}

/// `path` without its leading slashes.
pub fn strip_root(path: &str) -> (r: String)
    ensures
        r@ == without_root(path@),
{
    let v = to_chars(path);
    let mut i: usize = 0;
    while i < v.len() && v[i] == '/'
        invariant
            i <= v@.len(),
            forall|j: int| 0 <= j < i ==> v@[j] == '/',
        decreases v.len() - i,
    {
        i = i + 1;
    }
    proof {
        crate::text::lemma_run_len_is(v@, slash(), i as nat);
    }
    assert(v@.subrange(i as int, v@.len() as int) =~= v@.skip(i as int));
    slice(&v, i, v.len())
}

/// The extension of a file name.
pub fn extension(name: &str) -> (r: Option<String>)
    ensures
        r.deep_view() == extension_of(name@),
{
    let v = to_chars(name);
    let mut i: usize = v.len();
    while i > 0 && v[i - 1] != '.'
        invariant
            i <= v@.len(),
            forall|j: int| i <= j < v@.len() ==> v@[j] != '.',
        decreases i,
    {
        i = i - 1;
    }
    proof {
        lemma_run_back_is(v@, other_than('.'), (v@.len() - i) as nat);
    }
    if i > 1 {
        assert(v@.subrange(i as int, v@.len() as int) =~= v@.skip(i as int));
        Some(slice(&v, i, v.len()))
    } else {
        None
    }
}

} // verus!
