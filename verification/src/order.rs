//! The order of names
//!
//! Names are ordered character by character. A name comes before the names that it is the
//! beginning of.

use vstd::prelude::*;
use vstd::string::*;

use crate::text::to_chars;

verus! {

/// `a` does not come after `b`.
pub open spec fn in_order(a: Seq<char>, b: Seq<char>) -> bool
    decreases a.len(),
{
    if a.len() == 0 {
        true
    } else if b.len() == 0 {
        false
    } else if a[0] == b[0] {
        in_order(a.drop_first(), b.drop_first())
    } else {
        a[0] < b[0]
    }
}

/// Each name is followed by names that do not come before it.
pub open spec fn ordered(names: Seq<Seq<char>>) -> bool {
    forall|i: int, j: int| 0 <= i <= j < names.len() ==> in_order(#[trigger] names[i], #[trigger] names[j])
}

/// `names`, which are ordered, with `name` behind the last one that does not come after it.
pub open spec fn placed(names: Seq<Seq<char>>, name: Seq<char>) -> Seq<Seq<char>>
    decreases names.len(),
{
    if names.len() == 0 || in_order(names.last(), name) {
        names.push(name)
    } else {
        placed(names.drop_last(), name).push(names.last())
    }
}

/// The names in order.
pub open spec fn ordering_of(names: Seq<Seq<char>>) -> Seq<Seq<char>>
    decreases names.len(),
{
    if names.len() == 0 {
        names
    } else {
        placed(ordering_of(names.drop_last()), names.last())
    }
}

/// Whether `a` does not come after `b`.
pub fn is_in_order(a: &str, b: &str) -> (r: bool)
    ensures
        r == in_order(a@, b@),
{
    let x = to_chars(a);
    let y = to_chars(b);
    let mut i: usize = 0;
    assert(x@.skip(0) =~= a@);
    assert(y@.skip(0) =~= b@);
    while i < x.len() && i < y.len() && x[i] == y[i]
        invariant
            i <= x@.len(),
            i <= y@.len(),
            in_order(x@.skip(i as int), y@.skip(i as int)) == in_order(a@, b@),
        decreases x.len() - i,
    {
        assert(x@.skip(i as int).drop_first() =~= x@.skip(i + 1));
        assert(y@.skip(i as int).drop_first() =~= y@.skip(i + 1));
        i = i + 1;
    }
    if i >= x.len() {
        true
    } else if i >= y.len() {
        false
    } else {
        x[i] < y[i]
    }
}

fn place(names: &mut Vec<String>, name: String)
    ensures
        final(names).deep_view() == placed(old(names).deep_view(), name@),
{
    let ghost all = names.deep_view();
    let mut p: usize = names.len();
    assert(all.take(p as int) =~= all);
    assert(all.skip(p as int) =~= Seq::<Seq<char>>::empty());
    assert(placed(all, name@) =~= placed(all.take(p as int), name@) + all.skip(p as int));
    while p > 0 && !is_in_order(names[p - 1].as_str(), name.as_str())
        invariant
            p <= names@.len(),
            all == names.deep_view(),
            placed(all, name@) == placed(all.take(p as int), name@) + all.skip(p as int),
        decreases p,
    {
        let ghost front = all.take(p as int);
        assert(all[p - 1] == names@[p - 1]@);
        assert(front.last() == all[p - 1]);
        assert(front.drop_last() =~= all.take(p - 1));
        assert(placed(front, name@) + all.skip(p as int) =~= placed(all.take(p - 1), name@) + all.skip(p - 1));
        p = p - 1;
    }
    if p > 0 {
        assert(all[p - 1] == names@[p - 1]@);
        assert(all.take(p as int).last() == all[p - 1]);
    }
    assert(placed(all.take(p as int), name@) == all.take(p as int).push(name@));
    names.insert(p, name);
    assert(names.deep_view() =~= all.take(p as int).push(name@) + all.skip(p as int));
}

/// The names in order.
pub fn sort_names(names: &Vec<String>) -> (r: Vec<String>)
    ensures
        r.deep_view() == ordering_of(names.deep_view()),
{
    let ghost all = names.deep_view();
    let mut r: Vec<String> = Vec::new();
    assert(r.deep_view() =~= all.take(0));
    let mut i: usize = 0;
    while i < names.len()
        invariant
            i <= names@.len(),
            all == names.deep_view(),
            r.deep_view() == ordering_of(all.take(i as int)),
        decreases names.len() - i,
    {
        assert(all.take(i + 1).drop_last() =~= all.take(i as int));
        assert(all.take(i + 1).last() == names@[i as int]@);
        place(&mut r, names[i].clone());
        i = i + 1;
    }
    assert(all.take(i as int) =~= all);
    r
}

/// The order is total and transitive.
pub proof fn lemma_total_order(a: Seq<char>, b: Seq<char>, c: Seq<char>)
    ensures
        in_order(a, b) || in_order(b, a),
        in_order(a, b) && in_order(b, c) ==> in_order(a, c),
        in_order(a, b) && in_order(b, a) ==> a == b,
    decreases a.len() + b.len() + c.len(),
{
    if a.len() > 0 && b.len() > 0 && c.len() > 0 {
        lemma_total_order(a.drop_first(), b.drop_first(), c.drop_first());
    } else if a.len() > 0 && b.len() > 0 {
        lemma_total_order(a.drop_first(), b.drop_first(), c);
    }
    if in_order(a, b) && in_order(b, a) {
        if a.len() == 0 {
            assert(a =~= b);
        } else {
            assert(a =~= seq![a[0]] + a.drop_first());
            assert(b =~= seq![b[0]] + b.drop_first());
        }
    }
}

proof fn lemma_placed(names: Seq<Seq<char>>, name: Seq<char>)
    requires
        ordered(names),
    ensures
        ordered(placed(names, name)),
        placed(names, name).to_multiset() == names.to_multiset().insert(name),
        forall|i: int|
            0 <= i < placed(names, name).len() ==> #[trigger] placed(names, name)[i] == name || names.contains(
                placed(names, name)[i],
            ),
    decreases names.len(),
{
    broadcast use vstd::seq_lib::group_to_multiset_ensures;

    let r = placed(names, name);
    if names.len() == 0 || in_order(names.last(), name) {
        assert forall|i: int, j: int| 0 <= i <= j < r.len() implies in_order(
            #[trigger] r[i],
            #[trigger] r[j],
        ) by {
            if i == j {
                lemma_total_order(r[i], r[i], r[i]);
            } else if j == names.len() {
                assert(in_order(names[i], names[names.len() - 1]));
                lemma_total_order(names[i], names.last(), name);
            } else {
                assert(in_order(names[i], names[j]));
            }
        }
        assert forall|i: int| 0 <= i < r.len() implies #[trigger] r[i] == name || names.contains(r[i]) by {
            if i < names.len() {
                assert(names[i] == r[i]);
            }
        }
    } else {
        let front = names.drop_last();
        assert forall|i: int, j: int| 0 <= i <= j < front.len() implies in_order(
            #[trigger] front[i],
            #[trigger] front[j],
        ) by {
            assert(in_order(names[i], names[j]));
        }
        lemma_placed(front, name);
        let p = placed(front, name);
        lemma_total_order(names.last(), name, name);
        assert forall|i: int| 0 <= i < p.len() implies in_order(#[trigger] p[i], names.last()) by {
            if p[i] != name {
                let k = choose|k: int| 0 <= k < front.len() && front[k] == p[i];
                assert(in_order(names[k], names[names.len() - 1]));
            }
        }
        assert forall|i: int, j: int| 0 <= i <= j < r.len() implies in_order(
            #[trigger] r[i],
            #[trigger] r[j],
        ) by {
            if j == p.len() {
                if i == j {
                    lemma_total_order(r[i], r[i], r[i]);
                } else {
                    assert(r[i] == p[i]);
                }
            } else {
                assert(in_order(p[i], p[j]));
            }
        }
        assert(names =~= front.push(names.last()));
        assert(r.to_multiset() =~= names.to_multiset().insert(name));
        assert forall|i: int| 0 <= i < r.len() implies #[trigger] r[i] == name || names.contains(r[i]) by {
            if i < p.len() {
                assert(r[i] == p[i]);
                if p[i] != name {
                    let k = choose|k: int| 0 <= k < front.len() && front[k] == p[i];
                    assert(names[k] == r[i]);
                }
            } else {
                assert(names[names.len() - 1] == r[i]);
            }
        }
    }
}

/// Ordering names keeps each as often as it occurs and puts none before one that it comes
/// after.
pub proof fn law_ordering(names: Seq<Seq<char>>)
    ensures
        ordered(ordering_of(names)),
        ordering_of(names).to_multiset() == names.to_multiset(),
    decreases names.len(),
{
    broadcast use vstd::seq_lib::group_to_multiset_ensures;

    if names.len() > 0 {
        let front = names.drop_last();
        law_ordering(front);
        lemma_placed(ordering_of(front), names.last());
        assert(names =~= front.push(names.last()));
    }
}

} // verus!
