//! What is laid over the root filesystem

use vstd::prelude::*;

use crate::filesystem::overlayfs::{
    bound, data_overlaid, dir_ensured, dirs_ensured, emptiness, etc_overlaid, home_overlaid, overlaid,
    raw_rootfs_mounted, upper_seeded,
};
use crate::laws::{
    achieves, answered, answered_at, asked_in, asks_only, follows, group_achieves, group_asks, lemma_achieves_further,
    lemma_achieves_next, lemma_achieves_nothing, lemma_answered_further, lemma_asks_nothing, lemma_follows_further,
    lemma_places, lemma_programs, quiet, under, unflagged, went_well,
};
use crate::system::{MountFlags, ReplyView, RequestView, Transcript};

verus! {

/// The request that is made where `due`.
pub open spec fn only_if(due: bool, request: RequestView) -> Seq<RequestView> {
    if due {
        seq![request]
    } else {
        Seq::empty()
    }
}

/// The request that lays `upper` over `lower`, seen at `lower`.
pub open spec fn overlay_at(lower: Seq<char>, upper: Seq<char>, work: Seq<char>) -> RequestView {
    RequestView::Mount {
        source: Some("overlay"@),
        target: lower,
        fstype: Some("overlay"@),
        flags: MountFlags { no_atime: true, no_dir_atime: true, ..unflagged() },
        data: Some(
            "lowerdir="@ + lower + ",upperdir="@ + upper + ",workdir="@ + work + ",index=off,uuid=off"@,
        ),
    }
}

/// The request that shows `source` at `target` too.
pub open spec fn bind_of(source: Seq<char>, target: Seq<char>) -> RequestView {
    RequestView::Mount {
        source: Some(source),
        target,
        fstype: None,
        flags: MountFlags { bind: true, ..unflagged() },
        data: None,
    }
}

/// The request that keeps later mounts out of what is shown at `target`.
pub open spec fn private_at(target: Seq<char>) -> RequestView {
    RequestView::Mount {
        source: None,
        target,
        fstype: None,
        flags: MountFlags { private: true, rec: true, ..unflagged() },
        data: None,
    }
}

/// The directory was missing and is to be made, or it was there.
pub open spec fn dir_ready(t: Transcript, end: Transcript, dir: Seq<char>, made: bool) -> bool {
    if made {
        exists|reply: ReplyView|
            reply != ReplyView::Flag(true) && #[trigger] answered(t, end, RequestView::Exists(dir), reply)
    } else {
        answered(t, end, RequestView::Exists(dir), ReplyView::Flag(true))
    }
}

proof fn lemma_dir(t: Transcript, dir: Seq<char>)
    ensures
        ({
            let (end, r) = dir_ensured(t, dir);
            r is Ok ==> exists|made: bool| #[trigger] achieves(t, end, only_if(made, RequestView::CreateDir(dir)))
                && dir_ready(t, end, dir, made)
        }),
{
    broadcast use group_achieves;

    let (end, r) = dir_ensured(t, dir);
    let none = Seq::<RequestView>::empty();
    assert(achieves(t, t, none));
    let t1 = t.ask(RequestView::Exists(dir));
    if r is Ok {
        assert(achieves(t, t1, none));
        assert(answered_at(t, end, 0, RequestView::Exists(dir), t.rest[0]));
        if t.rest[0] == ReplyView::Flag(true) {
            assert(achieves(t, end, only_if(false, RequestView::CreateDir(dir))));
        } else {
            assert(answered(t, end, RequestView::Exists(dir), t.rest[0]));
            assert(none.push(RequestView::CreateDir(dir)) =~= seq![RequestView::CreateDir(dir)]);
            assert(achieves(t, end, only_if(true, RequestView::CreateDir(dir))));
        }
    }
}

proof fn lemma_dirs(t: Transcript, first: Seq<char>, second: Seq<char>)
    ensures
        ({
            let (end, r) = dirs_ensured(t, first, second);
            r is Ok ==> exists|one: bool, two: bool|
                #[trigger] achieves(
                    t,
                    end,
                    only_if(one, RequestView::CreateDir(first)) + only_if(two, RequestView::CreateDir(second)),
                ) && dir_ready(t, end, first, one) && dir_ready(t, end, second, two)
        }),
{
    let (end, r) = dirs_ensured(t, first, second);
    lemma_dir(t, first);
    let t1 = dir_ensured(t, first).0;
    lemma_dir(t1, second);
    if r is Ok {
        let one = choose|made: bool| #[trigger] achieves(t, t1, only_if(made, RequestView::CreateDir(first)))
                && dir_ready(t, t1, first, made);
        let two = choose|made: bool| #[trigger] achieves(t1, end, only_if(made, RequestView::CreateDir(second)))
                && dir_ready(t1, end, second, made);
        lemma_achieves_further(
            t,
            t1,
            end,
            only_if(one, RequestView::CreateDir(first)),
            only_if(two, RequestView::CreateDir(second)),
        );
        lemma_ready_further(t, t1, end, first, one);
        lemma_ready_further(t, t1, end, second, two);
    }
}

proof fn lemma_ready_further(t: Transcript, u: Transcript, v: Transcript, dir: Seq<char>, made: bool)
    requires
        exists|a: Seq<RequestView>| achieves(t, u, a),
        exists|b: Seq<RequestView>| achieves(u, v, b),
    ensures
        dir_ready(t, u, dir, made) || dir_ready(u, v, dir, made) ==> dir_ready(t, v, dir, made),
{
    reveal(achieves);
    if dir_ready(t, u, dir, made) {
        let reply = if made {
            choose|reply: ReplyView|
                reply != ReplyView::Flag(true) && #[trigger] answered(t, u, RequestView::Exists(dir), reply)
        } else {
            ReplyView::Flag(true)
        };
        lemma_answered_further(t, u, v, RequestView::Exists(dir), reply);
    } else if dir_ready(u, v, dir, made) {
        let reply = if made {
            choose|reply: ReplyView|
                reply != ReplyView::Flag(true) && #[trigger] answered(u, v, RequestView::Exists(dir), reply)
        } else {
            ReplyView::Flag(true)
        };
        lemma_answered_further(t, u, v, RequestView::Exists(dir), reply);
    }
}

proof fn lemma_mount(t: Transcript, lower: Seq<char>, upper: Seq<char>, work: Seq<char>)
    ensures
        overlaid(t, lower, upper, work, lower).1 is Ok ==> achieves(
            t,
            overlaid(t, lower, upper, work, lower).0,
            seq![overlay_at(lower, upper, work)],
        ),
        overlaid(t, lower, upper, work, lower).0 == t.ask(overlay_at(lower, upper, work)),
{
    broadcast use group_achieves;

    reveal_strlit("overlay");
    let none = Seq::<RequestView>::empty();
    assert(achieves(t, t, none));
    assert("lowerdir="@ + lower + ",upperdir="@ + upper + (",workdir="@ + work + ",index=off,uuid=off"@) =~= "lowerdir="@
        + lower + ",upperdir="@ + upper + ",workdir="@ + work + ",index=off,uuid=off"@);
    assert(none.push(overlay_at(lower, upper, work)) =~= seq![overlay_at(lower, upper, work)]);
}

/// The request that copies the contents of one directory into another.
pub open spec fn copy_into(source: Seq<char>, target: Seq<char>) -> RequestView {
    RequestView::Run { program: "/bin/cp"@, args: seq!["-a"@, source + "/."@, target] }
}

/// The answer of a directory that holds nothing.
pub open spec fn nothing_there() -> ReplyView {
    ReplyView::Names { names: Seq::empty(), failed: None }
}

/// Where a directory is missing or empty, the contents of the other are copied into it if that is
/// there; nothing is ever copied over what it holds.
pub open spec fn seeds(t: Transcript, end: Transcript, upper: Seq<char>, factory: Seq<char>, seeded: bool) -> bool {
    if seeded {
        &&& answered(t, end, RequestView::Exists(factory), ReplyView::Flag(true))
        &&& answered(t, end, RequestView::ListDir(upper), nothing_there()) || exists|reply: ReplyView|
            reply != ReplyView::Flag(true) && #[trigger] answered(t, end, RequestView::Exists(upper), reply)
    } else {
        ||| exists|reply: ReplyView|
            reply != nothing_there() && #[trigger] answered(t, end, RequestView::ListDir(upper), reply)
        ||| exists|reply: ReplyView|
            reply != ReplyView::Flag(true) && #[trigger] answered(t, end, RequestView::Exists(factory), reply)
    }
}

proof fn lemma_seeded(t: Transcript, upper: Seq<char>, factory: Seq<char>)
    ensures
        ({
            let (end, r) = upper_seeded(t, upper, factory);
            r is Ok ==> exists|seeded: bool|
                #[trigger] achieves(t, end, only_if(seeded, copy_into(factory, upper))) && seeds(
                    t,
                    end,
                    upper,
                    factory,
                    seeded,
                )
        }),
{
    broadcast use group_achieves;

    let (end, r) = upper_seeded(t, upper, factory);
    let none = Seq::<RequestView>::empty();
    assert(achieves(t, t, none));
    if r is Ok {
        lemma_programs();
        let t1 = emptiness(t, upper).0;
        let bare = emptiness(t, upper).1->Ok_0;
        let n = asked_in(t, t1).len() as int;
        assert(achieves(t, t1, none));
        assert(answered_at(t, end, 0, RequestView::Exists(upper), t.rest[0]));
        if t.rest[0] == ReplyView::Flag(true) {
            assert(answered_at(t, end, 1, RequestView::ListDir(upper), t.rest[1]));
        }
        if !bare {
            assert(answered(t, end, RequestView::ListDir(upper), t.rest[1]));
            assert(t.rest[1] != nothing_there());
            assert(achieves(t, end, only_if(false, copy_into(factory, upper))));
        } else {
            if t.rest[0] == ReplyView::Flag(true) {
                let names = t.rest[1]->names;
                assert(names =~= Seq::empty());
                assert(answered(t, end, RequestView::ListDir(upper), nothing_there()));
            } else {
                assert(answered(t, end, RequestView::Exists(upper), t.rest[0]));
            }
            let t2 = t1.ask(RequestView::Exists(factory));
            assert(t1.rest[0] == t.rest[n]);
            assert(answered_at(t, end, n, RequestView::Exists(factory), t.rest[n]));
            assert(achieves(t, t2, none));
            if t.rest[n] == ReplyView::Flag(true) {
                assert(none.push(copy_into(factory, upper)) =~= seq![copy_into(factory, upper)]);
                assert(achieves(t, end, only_if(true, copy_into(factory, upper))));
            } else {
                assert(answered(t, end, RequestView::Exists(factory), t.rest[n]));
                assert(achieves(t, end, only_if(false, copy_into(factory, upper))));
            }
        }
    }
}

/// The overlay of etc: its upper and its work directory on the etc partition are there or made,
/// an upper directory that holds nothing is filled from the factory partition, and etc of the
/// root filesystem is overlaid in place. Nothing else is done, and only a mount that was granted
/// is tracked.
pub proof fn law_etc_overlay(t: Transcript, mounts: Seq<Seq<char>>, rootfs: Seq<char>)
    ensures
        ({
            let (end, tracked_mounts, r) = etc_overlaid(t, mounts, rootfs);
            let etc = under(rootfs, "etc"@);
            let upper = under(under(rootfs, "mnt/etc"@), "upper"@);
            let work = under(under(rootfs, "mnt/etc"@), "work"@);
            let factory = under(under(rootfs, "mnt/factory"@), "etc"@);
            &&& r is Ok ==> tracked_mounts == mounts.push(etc)
            &&& !(r is Ok) ==> tracked_mounts == mounts
            &&& r is Ok ==> exists|one: bool, two: bool, seeded: bool|
                #[trigger] achieves(
                    t,
                    end,
                    only_if(one, RequestView::CreateDir(upper)) + only_if(two, RequestView::CreateDir(work)) + only_if(
                        seeded,
                        copy_into(factory, upper),
                    ) + only_if(true, overlay_at(etc, upper, work)),
                ) && dir_ready(t, end, upper, one) && dir_ready(t, end, work, two) && seeds(
                    t,
                    end,
                    upper,
                    factory,
                    seeded,
                )
            &&& asks_only(t, end, lays(etc, upper, work, factory))
        }),
{
    reveal(etc_overlaid);
    let (end, tracked_mounts, r) = etc_overlaid(t, mounts, rootfs);
    let etc = under(rootfs, "etc"@);
    let upper = under(under(rootfs, "mnt/etc"@), "upper"@);
    let work = under(under(rootfs, "mnt/etc"@), "work"@);
    let factory = under(under(rootfs, "mnt/factory"@), "etc"@);
    lemma_places(rootfs);
    lemma_places(under(rootfs, "mnt/etc"@));
    lemma_places(under(rootfs, "mnt/factory"@));
    let (t1, r1) = dirs_ensured(t, upper, work);
    let (t2, r2) = upper_seeded(t1, upper, factory);
    let (t3, r3) = overlaid(t2, etc, upper, work, etc);
    lemma_dirs(t, upper, work);
    lemma_dirs_ask(t, upper, work, lays(etc, upper, work, factory));
    lemma_seeded(t1, upper, factory);
    lemma_seeded_asks(t1, etc, upper, work, factory);
    lemma_mount(t2, etc, upper, work);
    assert(asks_only(t, end, lays(etc, upper, work, factory))) by {
        broadcast use group_asks;

    }
    if r is Ok {
        assert(r1 is Ok && r2 is Ok && r3 is Ok);
        let (one, two) = choose|one: bool, two: bool|
            #[trigger] achieves(
                t,
                t1,
                only_if(one, RequestView::CreateDir(upper)) + only_if(two, RequestView::CreateDir(work)),
            ) && dir_ready(t, t1, upper, one) && dir_ready(t, t1, work, two);
        let seeded = choose|seeded: bool|
            #[trigger] achieves(t1, t2, only_if(seeded, copy_into(factory, upper))) && seeds(
                t1,
                t2,
                upper,
                factory,
                seeded,
            );
        let a = only_if(one, RequestView::CreateDir(upper)) + only_if(two, RequestView::CreateDir(work));
        let b = only_if(seeded, copy_into(factory, upper));
        let c = only_if(true, overlay_at(etc, upper, work));
        lemma_achieves_further(t1, t2, end, b, c);
        lemma_achieves_further(t, t1, t2, a, b);
        lemma_achieves_further(t, t2, end, a + b, c);
        lemma_ready_further(t, t1, end, upper, one);
        lemma_ready_further(t, t1, end, work, two);
        lemma_seeds_further(t, t1, t2, end, upper, factory, seeded);
    }
}

/// The requests that lay a directory over another: of the mounts, none but that of the overlay.
pub open spec fn lays(lower: Seq<char>, upper: Seq<char>, work: Seq<char>, factory: Seq<char>) -> spec_fn(
    RequestView,
) -> bool {
    |q: RequestView|
        match q {
            RequestView::Exists(_) => true,
            RequestView::ListDir(_) => true,
            RequestView::CreateDir(dir) => dir == upper || dir == work,
            RequestView::Run { .. } => q == copy_into(factory, upper),
            RequestView::Mount { .. } => q == overlay_at(lower, upper, work),
            _ => false,
        }
}

proof fn lemma_dirs_ask(t: Transcript, first: Seq<char>, second: Seq<char>, p: spec_fn(RequestView) -> bool)
    requires
        p(RequestView::Exists(first)),
        p(RequestView::Exists(second)),
        p(RequestView::CreateDir(first)),
        p(RequestView::CreateDir(second)),
    ensures
        asks_only(t, dirs_ensured(t, first, second).0, p),
        asks_only(t, dir_ensured(t, first).0, p),
{
    broadcast use group_asks;

    lemma_asks_nothing(t, p);
}

proof fn lemma_seeded_asks(t: Transcript, lower: Seq<char>, upper: Seq<char>, work: Seq<char>, factory: Seq<char>)
    ensures
        asks_only(t, upper_seeded(t, upper, factory).0, lays(lower, upper, work, factory)),
{
    broadcast use group_asks;

    lemma_asks_nothing(t, lays(lower, upper, work, factory));
}

proof fn lemma_seeds_further(
    t: Transcript,
    t1: Transcript,
    t2: Transcript,
    end: Transcript,
    upper: Seq<char>,
    factory: Seq<char>,
    seeded: bool,
)
    requires
        exists|a: Seq<RequestView>| achieves(t, t1, a),
        exists|b: Seq<RequestView>| achieves(t1, t2, b),
        exists|c: Seq<RequestView>| achieves(t2, end, c),
        seeds(t1, t2, upper, factory, seeded),
    ensures
        seeds(t, end, upper, factory, seeded),
{
    reveal(achieves);
    assert(follows(t, t1) && follows(t1, t2) && follows(t2, end));
    assert(follows(t1, end)) by {
        broadcast use lemma_follows_further;

    }
    assert forall|q: RequestView, reply: ReplyView| #[trigger] answered(t1, t2, q, reply) implies answered(
        t,
        end,
        q,
        reply,
    ) by {
        lemma_answered_further(t1, t2, end, q, reply);
        lemma_answered_further(t, t1, end, q, reply);
    }
}

/// `list` makes the two directories where they are missing, and shows the first at the second.
pub open spec fn binds(list: Seq<RequestView>, source: Seq<char>, target: Seq<char>) -> bool {
    exists|one: bool, two: bool|
        list == #[trigger] only_if(one, RequestView::CreateDir(source)) + #[trigger] only_if(
            two,
            RequestView::CreateDir(target),
        ) + only_if(true, bind_of(source, target))
}

/// `list` makes a directory and its two parts where they are missing, and lays the upper part over
/// `target`.
pub open spec fn lays_over(list: Seq<RequestView>, dir: Seq<char>, target: Seq<char>) -> bool {
    exists|zero: bool, one: bool, two: bool|
        list == #[trigger] only_if(zero, RequestView::CreateDir(dir)) + #[trigger] only_if(
            one,
            RequestView::CreateDir(under(dir, "upper"@)),
        ) + #[trigger] only_if(two, RequestView::CreateDir(under(dir, "work"@))) + only_if(
            true,
            overlay_at(target, under(dir, "upper"@), under(dir, "work"@)),
        )
}

/// A directory of the data partition is shown at its place: both directories are there or made,
/// and the place is tracked if and only if the mount was granted.
pub proof fn law_bind(t: Transcript, mounts: Seq<Seq<char>>, source: Seq<char>, target: Seq<char>)
    requires
        source.len() > 0,
    ensures
        ({
            let (end, tracked_mounts, r) = bound(t, mounts, source, target);
            &&& r is Ok ==> tracked_mounts == mounts.push(target)
            &&& !(r is Ok) ==> tracked_mounts == mounts
            &&& r is Ok ==> exists|one: bool, two: bool|
                #[trigger] achieves(
                    t,
                    end,
                    only_if(one, RequestView::CreateDir(source)) + only_if(two, RequestView::CreateDir(target))
                        + only_if(true, bind_of(source, target)),
                ) && dir_ready(t, end, source, one) && dir_ready(t, end, target, two)
            &&& asks_only(t, end, shows(source, target))
        }),
{
    let (end, tracked_mounts, r) = bound(t, mounts, source, target);
    let t1 = dirs_ensured(t, source, target).0;
    lemma_dirs_ask(t, source, target, shows(source, target));
    assert(asks_only(t, end, shows(source, target))) by {
        broadcast use group_asks;

    }
    lemma_dirs(t, source, target);
    if r is Ok {
        let (one, two) = choose|one: bool, two: bool|
            #[trigger] achieves(
                t,
                t1,
                only_if(one, RequestView::CreateDir(source)) + only_if(two, RequestView::CreateDir(target)),
            ) && dir_ready(t, t1, source, one) && dir_ready(t, t1, target, two);
        let a = only_if(one, RequestView::CreateDir(source)) + only_if(two, RequestView::CreateDir(target));
        let b = only_if(true, bind_of(source, target));
        lemma_one(t1, bind_of(source, target));
        lemma_achieves_further(t, t1, end, a, b);
        lemma_ready_further(t, t1, end, source, one);
        lemma_ready_further(t, t1, end, target, two);
    }
}

/// The requests that show one directory at another.
pub open spec fn shows(source: Seq<char>, target: Seq<char>) -> spec_fn(RequestView) -> bool {
    |q: RequestView|
        match q {
            RequestView::Exists(_) => true,
            RequestView::CreateDir(dir) => dir == source || dir == target,
            RequestView::Mount { .. } => q == bind_of(source, target),
            _ => false,
        }
}

proof fn lemma_one(t: Transcript, request: RequestView)
    requires
        t.next() is Some,
        went_well(request, t.next()->0),
        !quiet(request),
    ensures
        achieves(t, t.ask(request), only_if(true, request)),
{
    let none = Seq::<RequestView>::empty();
    lemma_achieves_nothing(t);
    lemma_achieves_next(t, t, request, none);
    assert(none.push(request) =~= seq![request]);
}

proof fn lemma_home(t: Transcript, mounts: Seq<Seq<char>>, rootfs: Seq<char>, data: Seq<char>)
    ensures
        ({
            let (end, tracked_mounts, r) = home_overlaid(t, mounts, rootfs, data);
            let home = under(rootfs, "home"@);
            &&& r is Ok ==> tracked_mounts == mounts.push(home)
            &&& !(r is Ok) ==> tracked_mounts == mounts
            &&& r is Ok ==> exists|list: Seq<RequestView>|
                #[trigger] achieves(t, end, list) && lays_over(list, under(data, "home"@), home)
        }),
{
    let (end, tracked_mounts, r) = home_overlaid(t, mounts, rootfs, data);
    let home = under(rootfs, "home"@);
    let dir = under(data, "home"@);
    let upper = under(dir, "upper"@);
    let work = under(dir, "work"@);
    lemma_places(rootfs);
    lemma_places(data);
    lemma_places(dir);
    let t1 = dir_ensured(t, dir).0;
    let t2 = dirs_ensured(t1, upper, work).0;
    lemma_dir(t, dir);
    lemma_dirs(t1, upper, work);
    lemma_mount(t2, home, upper, work);
    if r is Ok {
        let zero = choose|made: bool| #[trigger] achieves(t, t1, only_if(made, RequestView::CreateDir(dir)))
                && dir_ready(t, t1, dir, made);
        let (one, two) = choose|one: bool, two: bool|
            #[trigger] achieves(
                t1,
                t2,
                only_if(one, RequestView::CreateDir(upper)) + only_if(two, RequestView::CreateDir(work)),
            ) && dir_ready(t1, t2, upper, one) && dir_ready(t1, t2, work, two);
        let a = only_if(zero, RequestView::CreateDir(dir));
        let b = only_if(one, RequestView::CreateDir(upper));
        let c = only_if(two, RequestView::CreateDir(work));
        let d = only_if(true, overlay_at(home, upper, work));
        lemma_achieves_further(t, t1, t2, a, b + c);
        lemma_achieves_further(t, t2, end, a + (b + c), d);
        assert(a + (b + c) + d =~= a + b + c + d);
        assert(lays_over(a + b + c + d, dir, home));
    }
}

proof fn lemma_binds(t: Transcript, mounts: Seq<Seq<char>>, source: Seq<char>, target: Seq<char>)
    requires
        source.len() > 0,
    ensures
        bound(t, mounts, source, target).2 is Ok ==> exists|list: Seq<RequestView>|
            #[trigger] achieves(t, bound(t, mounts, source, target).0, list) && binds(list, source, target),
{
    let (end, tracked_mounts, r) = bound(t, mounts, source, target);
    law_bind(t, mounts, source, target);
    if r is Ok {
        let (one, two) = choose|one: bool, two: bool|
            #[trigger] achieves(
                t,
                end,
                only_if(one, RequestView::CreateDir(source)) + only_if(two, RequestView::CreateDir(target))
                        + only_if(true, bind_of(source, target)),
            ) && dir_ready(t, end, source, one) && dir_ready(t, end, target, two);
        let list = only_if(one, RequestView::CreateDir(source)) + only_if(two, RequestView::CreateDir(target))
                        + only_if(true, bind_of(source, target));
        assert(binds(list, source, target));
    }
}

/// The layers of the data partition, in this order: home is overlaid, var/lib and local are shown
/// at var/lib and usr/local, and var/log at var/log where logs are to persist. Each of them is
/// tracked.
pub proof fn law_data_layers(t: Transcript, mounts: Seq<Seq<char>>, rootfs: Seq<char>, persistent: bool)
    ensures
        ({
            let (end, tracked_mounts, r) = data_overlaid(t, mounts, rootfs, persistent);
            let data = under(rootfs, "mnt/data"@);
            &&& r is Ok ==> tracked_mounts == mounts + seq![
                under(rootfs, "home"@),
                under(rootfs, "var/lib"@),
                under(rootfs, "usr/local"@),
            ] + if persistent {
                seq![under(rootfs, "var/log"@)]
            } else {
                Seq::empty()
            }
            &&& r is Ok ==> exists|
                a: Seq<RequestView>,
                b: Seq<RequestView>,
                c: Seq<RequestView>,
                d: Seq<RequestView>,
            |
                #[trigger] achieves(t, end, a + b + c + d) && lays_over(a, under(data, "home"@), under(rootfs, "home"@))
                    && binds(b, under(data, "var/lib"@), under(rootfs, "var/lib"@)) && binds(
                    c,
                    under(data, "local"@),
                    under(rootfs, "usr/local"@),
                ) && if persistent {
                    binds(d, under(data, "var/log"@), under(rootfs, "var/log"@))
                } else {
                    d.len() == 0
                }
        }),
{
    reveal(data_overlaid);
    let (end, tracked_mounts, r) = data_overlaid(t, mounts, rootfs, persistent);
    let data = under(rootfs, "mnt/data"@);
    lemma_places(rootfs);
    lemma_places(data);
    reveal_strlit("var/lib");
    reveal_strlit("var/log");
    reveal_strlit("local");
    lemma_home(t, mounts, rootfs, data);
    let (t1, m1, r1) = home_overlaid(t, mounts, rootfs, data);
    lemma_binds(t1, m1, under(data, "var/lib"@), under(rootfs, "var/lib"@));
    let (t2, m2, r2) = bound(t1, m1, under(data, "var/lib"@), under(rootfs, "var/lib"@));
    lemma_binds(t2, m2, under(data, "local"@), under(rootfs, "usr/local"@));
    let (t3, m3, r3) = bound(t2, m2, under(data, "local"@), under(rootfs, "usr/local"@));
    lemma_binds(t3, m3, under(data, "var/log"@), under(rootfs, "var/log"@));
    if r is Ok {
        assert(tracked_mounts =~= mounts + seq![
            under(rootfs, "home"@),
            under(rootfs, "var/lib"@),
            under(rootfs, "usr/local"@),
        ] + if persistent {
            seq![under(rootfs, "var/log"@)]
        } else {
            Seq::empty()
        });
        let a = choose|list: Seq<RequestView>|
            #[trigger] achieves(t, t1, list) && lays_over(list, under(data, "home"@), under(rootfs, "home"@));
        let b = choose|list: Seq<RequestView>|
            #[trigger] achieves(t1, t2, list) && binds(list, under(data, "var/lib"@), under(rootfs, "var/lib"@));
        let c = choose|list: Seq<RequestView>|
            #[trigger] achieves(t2, t3, list) && binds(list, under(data, "local"@), under(rootfs, "usr/local"@));
        lemma_achieves_further(t, t1, t2, a, b);
        lemma_achieves_further(t, t2, t3, a + b, c);
        if persistent {
            let d = choose|list: Seq<RequestView>|
                #[trigger] achieves(t3, end, list) && binds(list, under(data, "var/log"@), under(rootfs, "var/log"@));
            lemma_achieves_further(t, t3, end, a + b + c, d);
        } else {
            let d = Seq::<RequestView>::empty();
            assert(a + b + c + d =~= a + b + c);
            assert(achieves(t, end, a + b + c + d));
        }
    }
}

/// `list` makes the upper and the work directory of etc where they are missing, fills the upper
/// one from the factory partition or not, and lays it over etc.
pub open spec fn lays_etc(list: Seq<RequestView>, rootfs: Seq<char>) -> bool {
    let etc = under(rootfs, "etc"@);
    let upper = under(under(rootfs, "mnt/etc"@), "upper"@);
    let work = under(under(rootfs, "mnt/etc"@), "work"@);
    exists|one: bool, two: bool, seeded: bool|
        list == #[trigger] only_if(one, RequestView::CreateDir(upper)) + #[trigger] only_if(
            two,
            RequestView::CreateDir(work),
        ) + #[trigger] only_if(seeded, copy_into(under(under(rootfs, "mnt/factory"@), "etc"@), upper)) + only_if(
            true,
            overlay_at(etc, upper, work),
        )
}

/// `list` lays the layers of the data partition over the root filesystem.
pub open spec fn lays_data(list: Seq<RequestView>, rootfs: Seq<char>, persistent: bool) -> bool {
    let data = under(rootfs, "mnt/data"@);
    exists|a: Seq<RequestView>, b: Seq<RequestView>, c: Seq<RequestView>, d: Seq<RequestView>|
        list == a + b + c + d && #[trigger] lays_over(a, under(data, "home"@), under(rootfs, "home"@))
            && #[trigger] binds(b, under(data, "var/lib"@), under(rootfs, "var/lib"@)) && #[trigger] binds(
            c,
            under(data, "local"@),
            under(rootfs, "usr/local"@),
        ) && #[trigger] binds_logs(d, rootfs, persistent)
}

/// `list` shows var/log of the data partition where logs are to persist, and is empty elsewhere.
pub open spec fn binds_logs(list: Seq<RequestView>, rootfs: Seq<char>, persistent: bool) -> bool {
    if persistent {
        binds(list, under(under(rootfs, "mnt/data"@), "var/log"@), under(rootfs, "var/log"@))
    } else {
        list.len() == 0
    }
}

/// The layers over the root filesystem, one after the other.
pub proof fn lemma_layers(t: Transcript, mounts: Seq<Seq<char>>, rootfs: Seq<char>, persistent: bool)
    ensures
        ({
            let (t1, m1, r1) = etc_overlaid(t, mounts, rootfs);
            let (t2, m2, r2) = data_overlaid(t1, m1, rootfs, persistent);
            r1 is Ok && r2 is Ok ==> exists|a: Seq<RequestView>, b: Seq<RequestView>|
                #[trigger] achieves(t, t2, a + b) && lays_etc(a, rootfs) && lays_data(b, rootfs, persistent)
        }),
{
    let (t1, m1, r1) = etc_overlaid(t, mounts, rootfs);
    let (t2, m2, r2) = data_overlaid(t1, m1, rootfs, persistent);
    law_etc_overlay(t, mounts, rootfs);
    law_data_layers(t1, m1, rootfs, persistent);
    if r1 is Ok && r2 is Ok {
        let etc = under(rootfs, "etc"@);
        let upper = under(under(rootfs, "mnt/etc"@), "upper"@);
        let work = under(under(rootfs, "mnt/etc"@), "work"@);
        let factory = under(under(rootfs, "mnt/factory"@), "etc"@);
        let data = under(rootfs, "mnt/data"@);
        let (one, two, seeded) = choose|one: bool, two: bool, seeded: bool|
            #[trigger] achieves(
                t,
                t1,
                only_if(one, RequestView::CreateDir(upper)) + only_if(two, RequestView::CreateDir(work)) + only_if(
                    seeded,
                    copy_into(factory, upper),
                ) + only_if(true, overlay_at(etc, upper, work)),
            ) && dir_ready(t, t1, upper, one) && dir_ready(t, t1, work, two) && seeds(t, t1, upper, factory, seeded);
        let first = only_if(one, RequestView::CreateDir(upper)) + only_if(two, RequestView::CreateDir(work)) + only_if(
            seeded,
            copy_into(factory, upper),
        ) + only_if(true, overlay_at(etc, upper, work));
        let (a, b, c, d) = choose|
            a: Seq<RequestView>,
            b: Seq<RequestView>,
            c: Seq<RequestView>,
            d: Seq<RequestView>,
        |
            #[trigger] achieves(t1, t2, a + b + c + d) && lays_over(a, under(data, "home"@), under(rootfs, "home"@))
                && binds(b, under(data, "var/lib"@), under(rootfs, "var/lib"@)) && binds(
                c,
                under(data, "local"@),
                under(rootfs, "usr/local"@),
            ) && if persistent {
                binds(d, under(data, "var/log"@), under(rootfs, "var/log"@))
            } else {
                d.len() == 0
            };
        assert(lays_etc(first, rootfs));
        assert(binds_logs(d, rootfs, persistent));
        assert(lays_data(a + b + c + d, rootfs, persistent));
        lemma_achieves_further(t, t1, t2, first, a + b + c + d);
    }
}

/// The root filesystem as it is under the layers is shown at mnt/rootCurrentPrivate, and nothing
/// that is mounted later appears there.
pub proof fn law_raw_rootfs(t: Transcript, rootfs: Seq<char>)
    requires
        rootfs.len() > 0,
    ensures
        ({
            let (end, r) = raw_rootfs_mounted(t, rootfs);
            let raw = under(rootfs, "mnt/rootCurrentPrivate"@);
            r is Ok ==> exists|made: bool|
                #[trigger] achieves(
                    t,
                    end,
                    only_if(made, RequestView::CreateDir(raw)) + only_if(true, bind_of(rootfs, raw)) + only_if(
                        true,
                        private_at(raw),
                    ),
                )
        }),
{
    broadcast use group_achieves;

    let (end, r) = raw_rootfs_mounted(t, rootfs);
    let raw = under(rootfs, "mnt/rootCurrentPrivate"@);
    lemma_places(rootfs);
    lemma_dir(t, raw);
    let t1 = dir_ensured(t, raw).0;
    if r is Ok {
        let made = choose|made: bool| #[trigger] achieves(t, t1, only_if(made, RequestView::CreateDir(raw))) && dir_ready(
            t,
            t1,
            raw,
            made,
        );
        let private = private_at(raw);
        let before = only_if(made, RequestView::CreateDir(raw));
        let t2 = t1.ask(bind_of(rootfs, raw));
        assert(achieves(t, t2, before.push(bind_of(rootfs, raw))));
        assert(end == t2.ask(private));
        assert(achieves(t, end, before.push(bind_of(rootfs, raw)).push(private)));
        assert(before.push(bind_of(rootfs, raw)).push(private) =~= before + only_if(true, bind_of(rootfs, raw)) + only_if(
            true,
            private,
        ));
    }
}

} // verus!
