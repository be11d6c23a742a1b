//! Which links are made in the root filesystem

use vstd::prelude::*;

use crate::json::{member_from, JsonView};
use crate::laws::overlay::only_if;
use crate::laws::reset::{lemma_and_asks, lemma_once_more};
use crate::laws::{achieves, answered, answered_at, law_joined, lemma_achieves_further, lemma_achieves_nothing, under};
use crate::path::parent_of;
use crate::runtime::fs_link::{
    config_in, link_created, link_in, links_created, links_in, parent_made, way_cleared, LinkView,
};
use crate::system::{ReplyView, RequestView, Transcript};
use crate::text::split_of;

verus! {

/// A path that stays below the directory it is taken from.
pub open spec fn stays_below(path: Seq<char>) -> bool {
    !(path.len() > 0 && path[0] == '/') && !split_of(path, '/').contains(".."@)
}

/// `list` makes the directory of a link where it is missing, clears its way where something is
/// there, and makes the link.
pub open spec fn makes_link(list: Seq<RequestView>, rootfs: Seq<char>, entry: LinkView) -> bool {
    let path = under(rootfs, entry.link);
    &&& stays_below(entry.link)
    &&& exists|made: bool, removed: bool|
        list == #[trigger] only_if(made, RequestView::CreateDir(parent_of(path)->0)) + #[trigger] only_if(
            removed,
            RequestView::RemoveFile(path),
        ) + only_if(true, RequestView::Symlink { target: entry.target, link: path }) && (made ==> parent_of(
            path,
        ) is Some)
}

/// `list` makes all of these links, in their order.
pub open spec fn makes_links(list: Seq<RequestView>, rootfs: Seq<char>, links: Seq<LinkView>) -> bool {
    exists|parts: Seq<Seq<RequestView>>|
        parts.len() == links.len() && list == #[trigger] in_a_row(parts) && forall|i: int|
            0 <= i < links.len() ==> makes_link(#[trigger] parts[i], rootfs, links[i])
}

/// The lists, one after the other.
pub open spec fn in_a_row(parts: Seq<Seq<RequestView>>) -> Seq<RequestView>
    decreases parts.len(),
{
    if parts.len() == 0 {
        Seq::empty()
    } else {
        in_a_row(parts.drop_last()) + parts.last()
    }
}

/// What is removed to make way for a link is a link itself, or is there and no directory.
pub open spec fn in_the_way(t: Transcript, end: Transcript, path: Seq<char>) -> bool {
    ||| answered(t, end, RequestView::IsSymlink(path), ReplyView::Flag(true))
    ||| answered(t, end, RequestView::Exists(path), ReplyView::Flag(true)) && exists|reply: ReplyView|
        reply != ReplyView::Flag(true) && #[trigger] answered(t, end, RequestView::IsDir(path), reply)
}

proof fn lemma_parent(t: Transcript, path: Seq<char>)
    ensures
        ({
            let (end, r) = parent_made(t, path);
            r is Ok ==> exists|made: bool|
                #[trigger] achieves(t, end, only_if(made, RequestView::CreateDir(parent_of(path)->0))) && (made
                    ==> parent_of(path) is Some)
        }),
{
    let (end, r) = parent_made(t, path);
    let none = Seq::<RequestView>::empty();
    lemma_achieves_nothing(t);
    if r is Ok {
        let request = RequestView::CreateDir(parent_of(path)->0);
        if parent_of(path) is None {
            assert(achieves(t, end, only_if(false, request)));
        } else {
            let ask = RequestView::Exists(parent_of(path)->0);
            lemma_and_asks(t, t, ask, none);
            if t.rest[0] == ReplyView::Flag(true) {
                assert(achieves(t, end, only_if(false, request)));
            } else {
                lemma_once_more(t, t.ask(ask), request, none);
                assert(none.push(request) =~= seq![request]);
                assert(achieves(t, end, only_if(true, request)));
            }
        }
    }
}

proof fn lemma_way(t: Transcript, path: Seq<char>)
    ensures
        ({
            let (end, r) = way_cleared(t, path);
            r is Ok ==> exists|removed: bool|
                #[trigger] achieves(t, end, only_if(removed, RequestView::RemoveFile(path))) && (removed ==> in_the_way(
                    t,
                    end,
                    path,
                ))
        }),
{
    let (end, r) = way_cleared(t, path);
    let none = Seq::<RequestView>::empty();
    let request = RequestView::RemoveFile(path);
    let t1 = t.ask(RequestView::Exists(path));
    let t2 = t1.ask(RequestView::IsSymlink(path));
    let t3 = t2.ask(RequestView::IsDir(path));
    lemma_achieves_nothing(t);
    if r is Ok {
        lemma_and_asks(t, t, RequestView::Exists(path), none);
        lemma_and_asks(t, t1, RequestView::IsSymlink(path), none);
        assert(t1.rest[0] == t.rest[1]);
        assert(none.push(request) =~= seq![request]);
        if t.rest[1] == ReplyView::Flag(true) {
            lemma_once_more(t, t2, request, none);
            assert(answered_at(t, end, 1, RequestView::IsSymlink(path), ReplyView::Flag(true)));
            assert(achieves(t, end, only_if(true, request)));
        } else if t.rest[0] != ReplyView::Flag(true) {
            assert(achieves(t, end, only_if(false, request)));
        } else {
            assert(t2.rest[0] == t.rest[2]);
            lemma_and_asks(t, t2, RequestView::IsDir(path), none);
            lemma_once_more(t, t3, request, none);
            assert(answered_at(t, end, 0, RequestView::Exists(path), ReplyView::Flag(true)));
            assert(answered_at(t, end, 2, RequestView::IsDir(path), t.rest[2]));
            assert(answered(t, end, RequestView::IsDir(path), t.rest[2]));
            assert(achieves(t, end, only_if(true, request)));
        }
    }
}

/// A link is made below the root filesystem, with the target that is asked for, or not at all; a
/// path that leads out of it is refused before anything is done.
pub proof fn law_link(t: Transcript, rootfs: Seq<char>, entry: LinkView)
    ensures
        ({
            let (end, r) = link_created(t, rootfs, entry);
            &&& !stays_below(entry.link) ==> end == t && r is Err
            &&& r is Ok ==> exists|list: Seq<RequestView>| #[trigger] achieves(t, end, list) && makes_link(list, rootfs, entry)
        }),
{
    let (end, r) = link_created(t, rootfs, entry);
    let path = under(rootfs, entry.link);
    if r is Ok {
        law_joined(rootfs, entry.link);
        let t1 = parent_made(t, path).0;
        let t2 = way_cleared(t1, path).0;
        lemma_parent(t, path);
        lemma_way(t1, path);
        let made = choose|made: bool| #[trigger] achieves(
            t,
            t1,
            only_if(made, RequestView::CreateDir(parent_of(path)->0)),
        ) && (made ==> parent_of(path) is Some);
        let removed = choose|removed: bool| #[trigger] achieves(
            t1,
            t2,
            only_if(removed, RequestView::RemoveFile(path)),
        ) && (removed ==> in_the_way(t1, t2, path));
        let link = RequestView::Symlink { target: entry.target, link: path };
        let a = only_if(made, RequestView::CreateDir(parent_of(path)->0));
        let b = only_if(removed, RequestView::RemoveFile(path));
        lemma_achieves_further(t, t1, t2, a, b);
        lemma_once_more(t, t2, link, a + b);
        assert((a + b).push(link) =~= a + b + only_if(true, link));
        assert(makes_link(a + b + only_if(true, link), rootfs, entry));
    }
}

proof fn lemma_links(
    t0: Transcript,
    t: Transcript,
    before: Seq<RequestView>,
    rootfs: Seq<char>,
    links: Seq<LinkView>,
    i: int,
)
    requires
        0 <= i <= links.len(),
        achieves(t0, t, before),
        makes_links(before, rootfs, links.take(i)),
    ensures
        links_created(t, rootfs, links, i).1 is Ok ==> exists|list: Seq<RequestView>|
            #[trigger] achieves(t0, links_created(t, rootfs, links, i).0, list) && makes_links(list, rootfs, links),
    decreases links.len() - i,
{
    if i >= links.len() {
        assert(links.take(i) =~= links);
        assert(achieves(t0, links_created(t, rootfs, links, i).0, before));
    } else {
        let (t1, r) = link_created(t, rootfs, links[i]);
        law_link(t, rootfs, links[i]);
        if r is Ok {
            let list = choose|list: Seq<RequestView>| #[trigger] achieves(t, t1, list) && makes_link(list, rootfs, links[i]);
            lemma_achieves_further(t0, t, t1, before, list);
            let parts = choose|parts: Seq<Seq<RequestView>>|
                parts.len() == i && before == #[trigger] in_a_row(parts) && forall|k: int|
                    0 <= k < i ==> makes_link(#[trigger] parts[k], rootfs, links.take(i)[k]);
            let more = parts.push(list);
            assert(more.drop_last() =~= parts);
            assert(in_a_row(more) == before + list);
            assert forall|k: int| 0 <= k < i + 1 implies makes_link(#[trigger] more[k], rootfs, links.take(i + 1)[k]) by {
                if k < i {
                    assert(more[k] == parts[k]);
                    assert(links.take(i)[k] == links.take(i + 1)[k]);
                }
            }
            assert(makes_links(before + list, rootfs, links.take(i + 1)));
            lemma_links(t0, t1, before + list, rootfs, links, i + 1);
        }
    }
}

/// Every link of the configuration is made, one after the other.
pub proof fn law_links(t: Transcript, rootfs: Seq<char>, links: Seq<LinkView>)
    ensures
        links_created(t, rootfs, links, 0).1 is Ok ==> exists|list: Seq<RequestView>|
            #[trigger] achieves(t, links_created(t, rootfs, links, 0).0, list) && makes_links(list, rootfs, links),
{
    lemma_achieves_nothing(t);
    assert(in_a_row(Seq::empty()) == Seq::<RequestView>::empty());
    assert(makes_links(Seq::empty(), rootfs, links.take(0)));
    lemma_links(t, t, Seq::empty(), rootfs, links, 0);
}

/// The JSON of a link.
pub open spec fn link_json(entry: LinkView) -> JsonView {
    JsonView::Object(seq![("target"@, JsonView::Text(entry.target)), ("link"@, JsonView::Text(entry.link))])
}

/// The JSON of a configuration.
pub open spec fn links_json(links: Seq<LinkView>) -> JsonView {
    JsonView::Object(seq![("links"@, JsonView::List(links.map_values(|l: LinkView| link_json(l))))])
}

/// A link reads as it is written: its target under the name target, its place under link.
pub proof fn law_link_reads_back(links: Seq<LinkView>)
    ensures
        config_in(links_json(links)) == Ok::<Seq<LinkView>, Seq<char>>(links),
    decreases links.len(),
{
    reveal_strlit("target");
    reveal_strlit("link");
    reveal_strlit("links");
    assert("target"@.len() != "link"@.len());
    let items = links.map_values(|l: LinkView| link_json(l));
    lemma_link_list(links);
    let json = links_json(links);
    assert(json.member("links"@) == Some(JsonView::List(items)));
}

proof fn lemma_link_list(links: Seq<LinkView>)
    ensures
        links_in(links.map_values(|l: LinkView| link_json(l))) == Ok::<Seq<LinkView>, Seq<char>>(links),
    decreases links.len(),
{
    let items = links.map_values(|l: LinkView| link_json(l));
    if links.len() == 0 {
        assert(items.len() == 0);
        assert(links =~= Seq::empty());
    } else {
        let front = links.drop_last();
        lemma_link_list(front);
        assert(items.drop_last() =~= front.map_values(|l: LinkView| link_json(l)));
        assert(items.last() == link_json(links.last()));
        let json = link_json(links.last());
        reveal_with_fuel(member_from, 3);
        reveal_strlit("target");
        reveal_strlit("link");
        assert("target"@.len() != "link"@.len());
        assert(json.member("target"@) == Some(JsonView::Text(links.last().target)));
        assert(json.member("link"@) == Some(JsonView::Text(links.last().link)));
        assert(link_in(json) == Ok::<LinkView, Seq<char>>(links.last()));
        assert(front.push(links.last()) =~= links);
    }
}

} // verus!
