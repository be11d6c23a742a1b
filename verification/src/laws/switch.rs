//! Handing the device over to the init of its root filesystem

use vstd::prelude::*;

use crate::error::{io_step, InitOutcome};
use crate::laws::{
    asked_in, asks_only, group_asks, law_joined, lemma_asks_nothing, lemma_under_unrooted, under, unflagged, unrooted,
};
use crate::path::{climbs, joined};
use crate::replay::extends;
use crate::replay::runtime::replay_switched;
use crate::runtime::switch_root::{
    absolute, critical_mounts, critical_moved, fallback_found, handed_to_init, init_found, init_or_default, init_paths,
    mount_moved, mount_points_made, moved_over, or_undone, rollback_warning, rolled_back, root_moved, switched,
};
use crate::system::{warned, MountFlags, ReplyView, RequestView, Stop, Transcript};
use crate::text::{lemma_run_len, other_than, split_of, split_once_of};

verus! {

/// A request that moves a mount.
pub open spec fn moves(source: Seq<char>, target: Seq<char>) -> RequestView {
    RequestView::Mount {
        source: Some(source),
        target,
        fstype: None,
        flags: MountFlags { relocate: true, ..unflagged() },
        data: None,
    }
}

/// How a root filesystem becomes `/`: places for the four mounts of the kernel are made in it,
/// the mounts are moved there, then the filesystem itself is moved over `/` from within, and the
/// process changes its root and its directory to it.
pub open spec fn takeover(root: Seq<char>) -> Seq<RequestView> {
    seq![
        RequestView::CreateDir(under(root, "dev"@)),
        RequestView::CreateDir(under(root, "proc"@)),
        RequestView::CreateDir(under(root, "sys"@)),
        RequestView::CreateDir(under(root, "run"@)),
        moves("/dev"@, under(root, "dev"@)),
        moves("/proc"@, under(root, "proc"@)),
        moves("/sys"@, under(root, "sys"@)),
        moves("/run"@, under(root, "run"@)),
        RequestView::ChangeDir(root),
        moves("."@, "/"@),
        RequestView::ChangeRoot("."@),
        RequestView::ChangeDir("/"@),
    ]
}

/// A request that does not replace the process.
pub open spec fn stays() -> spec_fn(RequestView) -> bool {
    |r: RequestView| !(r is Exec) && !(r is ExecWith)
}

proof fn lemma_names(root: Seq<char>)
    ensures
        joined(root, "dev"@) == under(root, "dev"@),
        joined(root, "proc"@) == under(root, "proc"@),
        joined(root, "sys"@) == under(root, "sys"@),
        joined(root, "run"@) == under(root, "run"@),
        "/"@ + "dev"@ == "/dev"@,
        "/"@ + "proc"@ == "/proc"@,
        "/"@ + "sys"@ == "/sys"@,
        "/"@ + "run"@ == "/run"@,
{
    reveal_strlit("/");
    reveal_strlit("dev");
    reveal_strlit("proc");
    reveal_strlit("sys");
    reveal_strlit("run");
    reveal_strlit("/dev");
    reveal_strlit("/proc");
    reveal_strlit("/sys");
    reveal_strlit("/run");
    law_joined(root, "dev"@);
    law_joined(root, "proc"@);
    law_joined(root, "sys"@);
    law_joined(root, "run"@);
    assert("/"@ + "dev"@ =~= "/dev"@);
    assert("/"@ + "proc"@ =~= "/proc"@);
    assert("/"@ + "sys"@ =~= "/sys"@);
    assert("/"@ + "run"@ =~= "/run"@);
}

/// The run asked exactly these requests, and none of them was refused.
spec fn granted(t: Transcript, end: Transcript, requests: Seq<RequestView>) -> bool {
    &&& t.rest.len() >= requests.len()
    &&& end.asked == t.asked + requests
    &&& end.rest == t.rest.skip(requests.len() as int)
    &&& forall|i: int| 0 <= i < requests.len() ==> !(#[trigger] t.rest[i] is Failed)
}

proof fn lemma_granted(t: Transcript, u: Transcript, v: Transcript, a: Seq<RequestView>, b: Seq<RequestView>)
    requires
        granted(t, u, a),
        granted(u, v, b),
    ensures
        granted(t, v, a + b),
{
    assert(t.asked + a + b =~= t.asked + (a + b));
    assert(t.rest.skip(a.len() as int).skip(b.len() as int) =~= t.rest.skip((a + b).len() as int));
    assert forall|i: int| 0 <= i < (a + b).len() implies !(#[trigger] t.rest[i] is Failed) by {
        if i >= a.len() {
            assert(u.rest[i - a.len()] == t.rest[i]);
        }
    }
}

proof fn lemma_places(t: Transcript, root: Seq<char>)
    ensures
        ({
            let (end, r) = mount_points_made(t, root, 0);
            &&& asks_only(t, end, stays())
            &&& r is Ok ==> granted(t, end, takeover(root).take(4))
        }),
{
    broadcast use group_asks;

    lemma_asks_nothing(t, stays());
    lemma_names(root);
    reveal_with_fuel(mount_points_made, 5);
    let t1 = t.ask(takeover(root)[0]);
    let t2 = t1.ask(takeover(root)[1]);
    let t3 = t2.ask(takeover(root)[2]);
    let t4 = t3.ask(takeover(root)[3]);
    if mount_points_made(t, root, 0).1 is Ok {
        assert(t1.rest =~= t.rest.skip(1));
        assert(t2.rest =~= t.rest.skip(2));
        assert(t3.rest =~= t.rest.skip(3));
        assert(t4.rest =~= t.rest.skip(4));
        assert(t4.asked =~= t.asked + takeover(root).take(4));
    }
}

proof fn lemma_back(t: Transcript, root: Seq<char>, k: int)
    ensures
        asks_only(t, rolled_back(t, root, k).0, stays()),
    decreases k,
{
    broadcast use group_asks;

    lemma_asks_nothing(t, stays());
    if k > 0 {
        let name = critical_mounts()[k - 1];
        let (t1, r) = mount_moved(t, joined(root, name), "/"@ + name);
        lemma_back(t1, root, k - 1);
        match r {
            Err(Stop::Failed(e)) => {
                let t2 = warned(t1, rollback_warning(name, e)).0;
                lemma_back(t2, root, k - 1);
            },
            _ => {},
        }
    }
}

proof fn lemma_undone(step: (Transcript, InitOutcome<()>), root: Seq<char>, k: int)
    ensures
        asks_only(step.0, or_undone(step, root, k).0, stays()),
        or_undone(step, root, k).1 is Ok <==> step.1 is Ok,
        step.1 is Ok ==> or_undone(step, root, k).0 == step.0,
{
    broadcast use group_asks;

    lemma_asks_nothing(step.0, stays());
    lemma_back(step.0, root, k);
}

proof fn lemma_moved(t: Transcript, root: Seq<char>)
    ensures
        ({
            let (end, r) = critical_moved(t, root, 0);
            &&& asks_only(t, end, stays())
            &&& r is Ok ==> granted(t, end, takeover(root).subrange(4, 8))
        }),
{
    broadcast use group_asks;

    lemma_asks_nothing(t, stays());
    lemma_names(root);
    reveal_with_fuel(critical_moved, 5);
    let s = takeover(root);
    let m0 = mount_moved(t, "/dev"@, under(root, "dev"@));
    lemma_undone(m0, root, 0);
    assert(m0.0 == t.ask(s[4]));
    let m1 = mount_moved(m0.0, "/proc"@, under(root, "proc"@));
    lemma_undone(m1, root, 1);
    let m2 = mount_moved(m1.0, "/sys"@, under(root, "sys"@));
    lemma_undone(m2, root, 2);
    let m3 = mount_moved(m2.0, "/run"@, under(root, "run"@));
    lemma_undone(m3, root, 3);
    if critical_moved(t, root, 0).1 is Ok {
        assert(m0.0.rest =~= t.rest.skip(1));
        assert(m1.0.rest =~= t.rest.skip(2));
        assert(m2.0.rest =~= t.rest.skip(3));
        assert(m3.0.rest =~= t.rest.skip(4));
        assert(m3.0.asked =~= t.asked + s.subrange(4, 8));
    }
}

proof fn lemma_over(t: Transcript, root: Seq<char>)
    ensures
        ({
            let (end, r) = root_moved(t, root);
            &&& asks_only(t, end, stays())
            &&& r is Ok ==> granted(t, end, takeover(root).subrange(8, 10))
        }),
{
    broadcast use group_asks;

    lemma_asks_nothing(t, stays());
    let s = takeover(root);
    let a = io_step(t, s[8], "Failed to chdir to new root: "@);
    lemma_undone(a, root, 4);
    let b = io_step(a.0, s[9], "Failed to MS_MOVE new root to /: "@);
    lemma_undone(b, root, 4);
    if root_moved(t, root).1 is Ok {
        assert(a.0.rest =~= t.rest.skip(1));
        assert(b.0.rest =~= t.rest.skip(2));
        assert(b.0.asked =~= t.asked + s.subrange(8, 10));
    }
}

/// A run replaces the process by `path` only as its last request, right after the takeover.
spec fn hands_over(t: Transcript, end: Transcript, root: Seq<char>, path: Seq<char>, from: int) -> bool {
    ||| asks_only(t, end, stays())
    ||| exists|u: Transcript|
        granted(t, u, takeover(root).skip(from)) && #[trigger] u.ask(RequestView::Exec(path)) == end
}

proof fn lemma_handed(t: Transcript, root: Seq<char>, path: Seq<char>)
    ensures
        hands_over(t, handed_to_init(t, path).0, root, path, 10),
{
    broadcast use group_asks;

    lemma_asks_nothing(t, stays());
    let s = takeover(root);
    let t1 = t.ask(s[10]);
    let t2 = t1.ask(s[11]);
    if !asks_only(t, handed_to_init(t, path).0, stays()) {
        assert(t.rest.len() >= 2);
        assert(t1.rest =~= t.rest.skip(1));
        assert(t2.rest =~= t.rest.skip(2));
        assert(t2.asked =~= t.asked + s.skip(10));
        assert(granted(t, t2, s.skip(10)));
        assert(t2.ask(RequestView::Exec(path)) == handed_to_init(t, path).0);
    }
}

proof fn lemma_moved_over(t: Transcript, root: Seq<char>, path: Seq<char>)
    ensures
        hands_over(t, moved_over(t, root, path).0, root, path, 0),
{
    broadcast use group_asks;

    lemma_asks_nothing(t, stays());
    let s = takeover(root);
    let end = moved_over(t, root, path).0;
    lemma_places(t, root);
    let (t1, r1) = mount_points_made(t, root, 0);
    lemma_moved(t1, root);
    let (t2, r2) = critical_moved(t1, root, 0);
    lemma_over(t2, root);
    let (t3, r3) = root_moved(t2, root);
    lemma_handed(t3, root, path);
    if r1 is Ok && r2 is Ok && r3 is Ok && !asks_only(t3, end, stays()) {
        let u = choose|u: Transcript|
            granted(t3, u, s.skip(10)) && #[trigger] u.ask(RequestView::Exec(path)) == end;
        lemma_granted(t, t1, t2, s.take(4), s.subrange(4, 8));
        lemma_granted(t, t2, t3, s.take(4) + s.subrange(4, 8), s.subrange(8, 10));
        lemma_granted(t, t3, u, s.take(4) + s.subrange(4, 8) + s.subrange(8, 10), s.skip(10));
        assert(s.take(4) + s.subrange(4, 8) + s.subrange(8, 10) + s.skip(10) =~= s.skip(0));
        assert(u.ask(RequestView::Exec(path)) == end);
    }
}

/// Where an init is looked for that was not found where it was asked for.
pub open spec fn usual_inits() -> Seq<Seq<char>> {
    seq!["/sbin/init"@, "/usr/sbin/init"@, "/lib/systemd/systemd"@, "/usr/lib/systemd/systemd"@]
}

/// The init that is asked for, as an absolute path.
pub open spec fn wanted_init(init: Option<Seq<char>>) -> Seq<char> {
    match init {
        None => "/sbin/init"@,
        Some(path) => if path.len() > 0 && path[0] == '/' {
            path
        } else {
            seq!['/'] + path
        },
    }
}

/// In a search from `t`, the path at position `i` was asked for inside the root filesystem, and
/// found where `found`.
pub open spec fn tried_at(t: Transcript, end: Transcript, i: int, root: Seq<char>, path: Seq<char>, found: bool) -> bool {
    &&& 0 <= i < asked_in(t, end).len()
    &&& i < t.rest.len()
    &&& asked_in(t, end)[i] == RequestView::IsExecutable(under(root, unrooted(path)))
    &&& (t.rest[i] == ReplyView::Flag(true)) == found
}

proof fn lemma_fallback(t: Transcript, root: Seq<char>, requested: Seq<char>, i: int)
    requires
        0 <= i <= 4,
    ensures
        ({
            let (end, r) = fallback_found(t, root, requested, i);
            &&& asks_only(t, end, stays())
            &&& r matches Ok(path) ==> exists|k: int|
                #![trigger usual_inits()[k]]
                {
                    &&& i <= k < 4
                    &&& path == usual_inits()[k]
                    &&& end.asked.len() == t.asked.len() + (k - i + 1)
                    &&& end.rest == t.rest.skip(k - i + 1)
                    &&& t.rest.len() > k - i
                    &&& tried_at(t, end, k - i, root, path, true)
                    &&& forall|j: int|
                        i <= j < k ==> tried_at(t, end, j - i, root, #[trigger] usual_inits()[j], false)
                }
        }),
    decreases 4 - i,
{
    broadcast use group_asks;

    lemma_asks_nothing(t, stays());
    if i < 4 {
        assert(usual_inits()[i] == init_paths()[i]);
        let path = usual_inits()[i];
        lemma_under_unrooted(root, path);
        let t1 = t.ask(RequestView::IsExecutable(under(root, unrooted(path))));
        let (end, r) = fallback_found(t, root, requested, i);
        if t.rest.len() > 0 {
            assert(t1.rest =~= t.rest.skip(1));
            if t.rest[0] == ReplyView::Flag(true) {
                assert(tried_at(t, end, 0, root, path, true));
                assert(path == usual_inits()[i]);
            } else {
                lemma_fallback(t1, root, requested, i + 1);
                if r is Ok {
                    let k = choose|k: int|
                        #![trigger usual_inits()[k]]
                        {
                            &&& i + 1 <= k < 4
                            &&& r->Ok_0 == usual_inits()[k]
                            &&& end.asked.len() == t1.asked.len() + (k - i)
                            &&& end.rest == t1.rest.skip(k - i)
                            &&& t1.rest.len() > k - i - 1
                            &&& tried_at(t1, end, k - i - 1, root, r->Ok_0, true)
                            &&& forall|j: int|
                                i + 1 <= j < k ==> tried_at(
                                    t1,
                                    end,
                                    j - i - 1,
                                    root,
                                    #[trigger] usual_inits()[j],
                                    false,
                                )
                        };
                    assert(t1.rest.skip(k - i) =~= t.rest.skip(k - i + 1));
                    assert(end.asked[t.asked.len() as int] == t1.asked[t.asked.len() as int]) by {
                        reveal(asks_only);
                    }
                    assert forall|j: int| 0 <= j < k - i implies t1.rest[j] == t.rest[j + 1] by {}
                    assert forall|j: int| 0 <= j < k - i implies #[trigger] asked_in(t1, end)[j] == asked_in(
                        t,
                        end,
                    )[j + 1] by {}
                    assert(tried_at(t, end, k - i, root, r->Ok_0, true)) by {
                        assert(asked_in(t1, end)[k - i - 1] == asked_in(t, end)[k - i]);
                    }
                    assert forall|j: int| i <= j < k implies tried_at(
                        t,
                        end,
                        j - i,
                        root,
                        #[trigger] usual_inits()[j],
                        false,
                    ) by {
                        if j > i {
                            assert(tried_at(t1, end, j - i - 1, root, usual_inits()[j], false));
                            assert(asked_in(t1, end)[j - i - 1] == asked_in(t, end)[j - i]);
                        }
                    }
                }
            }
        }
    }
}

/// How the path of an init was found: `tries` questions were asked, all but the last one answered
/// in the negative.
pub open spec fn found_init(
    t: Transcript,
    end: Transcript,
    root: Seq<char>,
    wanted: Seq<char>,
    path: Seq<char>,
    tries: int,
) -> bool {
    &&& 1 <= tries <= 5
    &&& tries <= t.rest.len()
    &&& tried_at(t, end, tries - 1, root, path, true)
    &&& tries == 1 ==> path == wanted
    &&& tries > 1 ==> path == usual_inits()[tries - 2] && tried_at(t, end, 0, root, wanted, false)
    &&& forall|j: int| 0 <= j < tries - 2 ==> tried_at(t, end, j + 1, root, #[trigger] usual_inits()[j], false)
}

proof fn lemma_search(t: Transcript, root: Seq<char>, init: Option<Seq<char>>)
    ensures
        ({
            let (end, r) = init_found(t, root, init_or_default(init));
            let tries = end.asked.len() - t.asked.len();
            &&& asks_only(t, end, stays())
            &&& r matches Ok(path) ==> {
                &&& found_init(t, end, root, wanted_init(init), path, tries)
                &&& end.rest == t.rest.skip(tries)
            }
        }),
{
    broadcast use group_asks;

    lemma_asks_nothing(t, stays());
    reveal_strlit("/");
    reveal_strlit("/sbin/init");
    let wanted = wanted_init(init);
    let requested = init_or_default(init);
    assert("/"@ + requested =~= seq!['/'] + requested);
    assert(absolute(requested) == wanted);
    lemma_under_unrooted(root, wanted);
    let t1 = t.ask(RequestView::IsExecutable(under(root, unrooted(wanted))));
    let (end, r) = init_found(t, root, requested);
    if r is Ok {
        assert(t1.rest =~= t.rest.skip(1));
        if t.rest[0] == ReplyView::Flag(true) {
            assert(tried_at(t, end, 0, root, wanted, true));
        } else {
            lemma_fallback(t1, root, wanted, 0);
            let path = r->Ok_0;
            let k = choose|k: int|
                #![trigger usual_inits()[k]]
                {
                    &&& 0 <= k < 4
                    &&& path == usual_inits()[k]
                    &&& end.asked.len() == t1.asked.len() + (k - 0 + 1)
                    &&& end.rest == t1.rest.skip(k - 0 + 1)
                    &&& t1.rest.len() > k - 0
                    &&& tried_at(t1, end, k - 0, root, path, true)
                    &&& forall|j: int|
                        0 <= j < k ==> tried_at(t1, end, j - 0, root, #[trigger] usual_inits()[j], false)
                };
            assert(t1.rest.skip(k + 1) =~= t.rest.skip(k + 2));
            assert(end.asked[t.asked.len() as int] == t1.asked[t.asked.len() as int]) by {
                reveal(asks_only);
            }
            assert(tried_at(t, end, 0, root, wanted, false));
            assert(asked_in(t1, end)[k] == asked_in(t, end)[k + 1]);
            assert(t1.rest[k] == t.rest[k + 1]);
            assert forall|j: int| 0 <= j < k implies tried_at(
                t,
                end,
                j + 1,
                root,
                #[trigger] usual_inits()[j],
                false,
            ) by {
                assert(tried_at(t1, end, j - 0, root, usual_inits()[j], false));
                assert(asked_in(t1, end)[j] == asked_in(t, end)[j + 1]);
                assert(t1.rest[j] == t.rest[j + 1]);
            }
        }
    } else if t.rest.len() > 0 {
        lemma_fallback(t1, root, wanted, 0);
    }
}

/// What is true where the request at position `i` of a switch replaces the process.
pub open spec fn replaces_properly(t: Transcript, end: Transcript, root: Seq<char>, init: Option<Seq<char>>, i: int) -> bool {
    let asked = asked_in(t, end);
    &&& i == asked.len() - 1
    &&& i >= 14
    &&& t.rest.len() >= i
    &&& asked[0] == RequestView::Exists(root)
    &&& t.rest[0] == ReplyView::Flag(true)
    &&& asked.subrange(i - 12, i) == takeover(root)
    &&& forall|j: int| i - 12 <= j < i ==> !(#[trigger] t.rest[j] is Failed)
    &&& asked[i] matches RequestView::Exec(path) && found_init(
        t.ask(RequestView::Exists(root)),
        end,
        root,
        wanted_init(init),
        path,
        i - 13,
    )
}

proof fn lemma_replaces(
    t: Transcript,
    t2: Transcript,
    u: Transcript,
    end: Transcript,
    root: Seq<char>,
    init: Option<Seq<char>>,
    path: Seq<char>,
    i: int,
)
    requires
        t.rest.len() > 0,
        t.rest[0] == ReplyView::Flag(true),
        asks_only(t, t2, stays()),
        ({
            let t1 = t.ask(RequestView::Exists(root));
            let tries = t2.asked.len() - t1.asked.len();
            &&& asks_only(t1, t2, stays())
            &&& found_init(t1, t2, root, wanted_init(init), path, tries)
            &&& t2.rest == t1.rest.skip(tries)
        }),
        granted(t2, u, takeover(root)),
        end == u.ask(RequestView::Exec(path)),
        0 <= i < asked_in(t, end).len(),
        asked_in(t, end)[i] is Exec || asked_in(t, end)[i] is ExecWith,
    ensures
        replaces_properly(t, end, root, init, i),
{
    reveal(asks_only);
    let t1 = t.ask(RequestView::Exists(root));
    let asked = asked_in(t, end);
    let tries = t2.asked.len() - t1.asked.len();
    assert(end.asked.len() == t2.asked.len() + 13);
    assert forall|j: int| t2.asked.len() <= j < end.asked.len() - 1 implies stays()(#[trigger] end.asked[j]) by {
        assert(end.asked[j] == takeover(root)[j - t2.asked.len()]);
    }
    if t.asked.len() + i < t2.asked.len() {
        assert(end.asked[t.asked.len() + i] == t2.asked[t.asked.len() + i]);
        assert(stays()(t2.asked[t.asked.len() + i]));
    } else if i < asked.len() - 1 {
        assert(stays()(end.asked[t.asked.len() + i]));
    }
    assert(i == tries + 13);
    assert(asked.subrange(i - 12, i) =~= takeover(root));
    assert(t1.rest =~= t.rest.skip(1));
    assert forall|j: int| i - 12 <= j < i implies !(#[trigger] t.rest[j] is Failed) by {
        assert(t.rest[j] == t2.rest[j - (tries + 1)]);
    }
    assert(t2.asked[t.asked.len() as int] == t1.asked[t.asked.len() as int]);
    assert(end.asked[t.asked.len() as int] == t2.asked[t.asked.len() as int]);
    assert forall|j: int| 0 <= j < tries implies #[trigger] asked_in(t1, end)[j] == asked_in(t1, t2)[j] by {}
    assert(tried_at(t1, end, tries - 1, root, path, true)) by {
        assert(asked_in(t1, end)[tries - 1] == asked_in(t1, t2)[tries - 1]);
    }
    if tries > 1 {
        assert(asked_in(t1, end)[0] == asked_in(t1, t2)[0]);
        assert forall|j: int| 0 <= j < tries - 2 implies tried_at(
            t1,
            end,
            j + 1,
            root,
            #[trigger] usual_inits()[j],
            false,
        ) by {
            assert(tried_at(t1, t2, j + 1, root, usual_inits()[j], false));
            assert(asked_in(t1, end)[j + 1] == asked_in(t1, t2)[j + 1]);
        }
    }
}

/// The process is replaced only by an init that was found executable inside the new root
/// filesystem: the one that is asked for, or the first of the usual ones where that is none. It
/// is the last request, and the twelve requests before it are the takeover of the root
/// filesystem, in this order and none of them refused.
pub proof fn law_init_runs_in_new_root(t: Transcript, root: Seq<char>, init: Option<Seq<char>>)
    ensures
        ({
            let end = switched(t, root, init).0;
            forall|i: int|
                0 <= i < asked_in(t, end).len() && ((#[trigger] asked_in(t, end)[i]) is Exec || asked_in(
                    t,
                    end,
                )[i] is ExecWith) ==> replaces_properly(t, end, root, init, i)
        }),
{
    broadcast use group_asks;

    lemma_asks_nothing(t, stays());
    let t1 = t.ask(RequestView::Exists(root));
    let (end, r) = switched(t, root, init);
    replay_switched(t, root, init);
    reveal(extends);
    lemma_search(t1, root, init);
    let (t2, found) = init_found(t1, root, init_or_default(init));
    if found is Ok {
        lemma_moved_over(t2, root, found->Ok_0);
    }
    assert forall|i: int|
        0 <= i < asked_in(t, end).len() && ((#[trigger] asked_in(t, end)[i]) is Exec || asked_in(t, end)[i] is ExecWith)
        implies replaces_properly(t, end, root, init, i) by {
        assert(!stays()(end.asked[t.asked.len() + i]));
        assert(!asks_only(t, end, stays())) by {
            reveal(asks_only);
        }
        assert(found is Ok);
        let path = found->Ok_0;
        let u = choose|u: Transcript|
            granted(t2, u, takeover(root).skip(0)) && #[trigger] u.ask(RequestView::Exec(path)) == end;
        assert(takeover(root).skip(0) =~= takeover(root));
        lemma_replaces(t, t2, u, end, root, init, path, i);
    }
}

/// Where the root filesystem is there, the init that is asked for is found in it and nothing is
/// refused, the process is replaced by that init.
pub proof fn law_switch_reaches_init(t: Transcript, root: Seq<char>, init: Option<Seq<char>>)
    requires
        init matches Some(path) ==> !climbs(path),
        t.rest.len() >= 14,
        t.rest[0] == ReplyView::Flag(true),
        t.rest[1] == ReplyView::Flag(true),
        forall|i: int| 2 <= i < 14 ==> !(#[trigger] t.rest[i] is Failed),
    ensures
        switched(t, root, init).0.asked.len() == t.asked.len() + 15,
        switched(t, root, init).0.asked.last() == RequestView::Exec(wanted_init(init)),
{
    reveal_strlit("/sbin/init");
    reveal_strlit("/");
    reveal_with_fuel(mount_points_made, 5);
    reveal_with_fuel(critical_moved, 5);
    let requested = init_or_default(init);
    assert("/"@ + requested =~= seq!['/'] + requested);
    assert(absolute(requested) == wanted_init(init));
    lemma_default_stays();
    let t1 = t.ask(RequestView::Exists(root));
    assert(t1.rest =~= t.rest.skip(1));
    let t2 = init_found(t1, root, requested).0;
    assert(t2.rest =~= t.rest.skip(2));
    let t3 = mount_points_made(t2, root, 0).0;
    assert(t3.rest =~= t.rest.skip(6));
    let t4 = critical_moved(t3, root, 0).0;
    assert(t4.rest =~= t.rest.skip(10));
    let t5 = root_moved(t4, root).0;
    assert(t5.rest =~= t.rest.skip(12));
}

proof fn lemma_default_stays()
    ensures
        !climbs("/sbin/init"@),
{
    reveal_strlit("/sbin/init");
    if climbs("/sbin/init"@) {
        lemma_climb_has_dot("/sbin/init"@);
    }
}

proof fn lemma_climb_has_dot(s: Seq<char>)
    requires
        climbs(s),
    ensures
        exists|i: int| 0 <= i < s.len() && #[trigger] s[i] == '.',
    decreases s.len(),
{
    reveal_strlit("..");
    lemma_run_len(s, other_than('/'));
    let k = choose|k: int| 0 <= k < split_of(s, '/').len() && split_of(s, '/')[k] == ".."@;
    match split_once_of(s, '/') {
        Some((head, tail)) => {
            if k == 0 {
                assert(head == ".."@);
                assert(head[0] == '.');
                assert(s[0] == head[0]);
            } else {
                assert(split_of(tail, '/')[k - 1] == ".."@);
                lemma_climb_has_dot(tail);
                let j = choose|j: int| 0 <= j < tail.len() && #[trigger] tail[j] == '.';
                assert(s[s.len() - tail.len() + j] == '.');
            }
        },
        None => {
            assert(s[0] == '.');
        },
    }
}

} // verus!
