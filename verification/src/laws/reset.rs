//! What a factory reset keeps and what it wipes

use vstd::prelude::*;

use crate::error::FilesystemError;
use crate::filesystem::mount::{all_unmounted, FsErrorView, FsType};
use crate::filesystem::overlayfs::etc_overlaid;
use crate::json::JsonView;
use crate::laws::mounts::{check_of, law_checked_before_mounted, mount_of, place_of};
use crate::laws::overlay::{law_data_layers, law_etc_overlay, lays_data, lays_etc, lemma_layers};
use crate::laws::{
    achieves, asked_in, asks_only, exited_well, follows, lemma_achieves_further, lemma_achieves_next,
    lemma_achieves_nothing, lemma_asked_further, lemma_asks_further, lemma_asks_next, lemma_asks_nothing,
    lemma_follows_ask, lemma_follows_further, lemma_follows_itself, lemma_places, lemma_programs, lemma_under_unrooted,
    quiet, under, unflagged, unrooted, went_well,
};
use crate::mode::factory_reset::backup_restore::{
    all_backed_up, backed_up_from, backup_of, live_path, path_backed_up, path_restored, restore_dir, restored_from,
};
use crate::mode::factory_reset::reformat::reformatted;
use crate::mode::factory_reset::config::{
    application_added, applications_added, applications_collected, file_read, key_added, keys_added, needs_file,
    preserve_list,
};
use crate::mode::factory_reset::retry::{formatted, reformatted_and_mounted, with_failures, ReportView};
use crate::mode::factory_reset::{
    backed_up_all, destroyed, mounted_or_cleaned_up, one_mounted, partitions_mounted, prepared, reset_done,
    reset_mounted, restored_and_unmounted, RealReformatOps, ResetState,
};
use crate::partition::layout::{LayoutView, PartitionName};
use crate::path::{extension_of, joined, parent_of, without_root};
use crate::runtime::status::{FactoryResetStatusCode, OdsView};
use crate::system::{IoErrorView, MountFlags, ReplyView, RequestView, Stop, Transcript};

verus! {

/// The file or directory of the device that `path` names.
pub open spec fn original(rootfs: Seq<char>, path: Seq<char>) -> Seq<char> {
    under(rootfs, unrooted(path))
}

/// Where the copy of it lies in the backup.
pub open spec fn kept(rootfs: Seq<char>, path: Seq<char>, backup: Seq<char>) -> Seq<char> {
    under(under(backup, unrooted(rootfs)), unrooted(path))
}

/// The directory it lies in.
pub open spec fn home_of(rootfs: Seq<char>, path: Seq<char>) -> Seq<char> {
    match parent_of(original(rootfs, path)) {
        Some(dir) => dir,
        None => rootfs,
    }
}

/// A call of a program.
pub open spec fn call(program: Seq<char>, args: Seq<Seq<char>>) -> RequestView {
    RequestView::Run { program, args }
}

/// What copies one file or directory into the backup, with the directories above it.
pub open spec fn backup_steps(rootfs: Seq<char>, path: Seq<char>, backup: Seq<char>) -> Seq<RequestView> {
    seq![
        call("/bin/cp"@, seq!["--parents"@, "-a"@, original(rootfs, path), backup]),
        call("/bin/sync"@, Seq::empty()),
    ]
}

/// What brings it back to the directory it lay in.
pub open spec fn restore_steps(rootfs: Seq<char>, path: Seq<char>, backup: Seq<char>) -> Seq<RequestView> {
    seq![
        RequestView::CreateDir(home_of(rootfs, path)),
        call("/bin/cp"@, seq!["-a"@, kept(rootfs, path, backup), home_of(rootfs, path)]),
        call("/bin/sync"@, Seq::empty()),
    ]
}

/// The same of all of them, one after the other.
pub open spec fn all_backup_steps(rootfs: Seq<char>, paths: Seq<Seq<char>>, backup: Seq<char>) -> Seq<RequestView>
    decreases paths.len(),
{
    if paths.len() == 0 {
        Seq::empty()
    } else {
        all_backup_steps(rootfs, paths.drop_last(), backup) + backup_steps(rootfs, paths.last(), backup)
    }
}

pub open spec fn all_restore_steps(rootfs: Seq<char>, paths: Seq<Seq<char>>, backup: Seq<char>) -> Seq<RequestView>
    decreases paths.len(),
{
    if paths.len() == 0 {
        Seq::empty()
    } else {
        all_restore_steps(rootfs, paths.drop_last(), backup) + restore_steps(rootfs, paths.last(), backup)
    }
}

/// What unmounts `mounts`, the last one first.
pub open spec fn taken_down(mounts: Seq<Seq<char>>) -> Seq<RequestView>
    decreases mounts.len(),
{
    if mounts.len() == 0 {
        Seq::empty()
    } else {
        seq![RequestView::Unmount(mounts.last())] + taken_down(mounts.drop_last())
    }
}

proof fn lemma_paths(rootfs: Seq<char>, path: Seq<char>, backup: Seq<char>)
    ensures
        live_path(rootfs, path) == original(rootfs, path),
        backup_of(rootfs, path, backup) == kept(rootfs, path, backup),
        restore_dir(rootfs, path) == home_of(rootfs, path),
{
    lemma_under_unrooted(rootfs, path);
    lemma_under_unrooted(backup, rootfs);
    lemma_under_unrooted(under(backup, unrooted(rootfs)), path);
}

/// A run that does one thing more.
pub proof fn lemma_once_more(t: Transcript, u: Transcript, request: RequestView, list: Seq<RequestView>)
    requires
        achieves(t, u, list),
        u.next() is Some,
        !quiet(request),
        went_well(request, u.next()->0),
    ensures
        achieves(t, u.ask(request), list.push(request)),
{
    lemma_achieves_next(t, u, request, list);
}

/// A run that asks one thing more.
pub proof fn lemma_and_asks(t: Transcript, u: Transcript, request: RequestView, list: Seq<RequestView>)
    requires
        achieves(t, u, list),
        u.next() is Some,
        quiet(request),
    ensures
        achieves(t, u.ask(request), list),
{
    lemma_achieves_next(t, u, request, list);
}

/// What is there is copied into the backup, and only that.
pub proof fn law_one_backup(t: Transcript, rootfs: Seq<char>, path: Seq<char>, backup: Seq<char>)
    ensures
        ({
            let (end, r) = path_backed_up(t, rootfs, path, backup);
            let there = t.rest.len() > 0 && t.rest[0] == ReplyView::Flag(true);
            &&& asked_in(t, end)[0] == RequestView::Exists(original(rootfs, path))
            &&& r matches Ok(made) ==> made == there
            &&& r matches Ok(made) ==> achieves(
                t,
                end,
                if there {
                    backup_steps(rootfs, path, backup)
                } else {
                    Seq::empty()
                },
            )
        }),
{
    let (end, r) = path_backed_up(t, rootfs, path, backup);
    let none = Seq::<RequestView>::empty();
    let ask = RequestView::Exists(original(rootfs, path));
    let steps = backup_steps(rootfs, path, backup);
    lemma_paths(rootfs, path, backup);
    lemma_achieves_nothing(t);
    let t1 = t.ask(ask);
    let t2 = t1.ask(steps[0]);
    lemma_programs();
    if r is Ok {
        lemma_and_asks(t, t, ask, none);
        if t.rest[0] == ReplyView::Flag(true) {
            lemma_once_more(t, t1, steps[0], none);
            lemma_once_more(t, t2, steps[1], none.push(steps[0]));
            assert(none.push(steps[0]).push(steps[1]) =~= steps);
        }
    }
}

/// One file or directory is brought back where its copy is there.
proof fn lemma_one_restored(t: Transcript, rootfs: Seq<char>, path: Seq<char>, backup: Seq<char>)
    ensures
        ({
            let (end, r) = path_restored(t, rootfs, path, backup);
            let there = t.rest.len() > 0 && t.rest[0] == ReplyView::Flag(true);
            &&& r is Ok ==> achieves(
                t,
                end,
                if there {
                    restore_steps(rootfs, path, backup)
                } else {
                    Seq::empty()
                },
            )
        }),
{
    let (end, r) = path_restored(t, rootfs, path, backup);
    let none = Seq::<RequestView>::empty();
    let ask = RequestView::Exists(kept(rootfs, path, backup));
    let steps = restore_steps(rootfs, path, backup);
    lemma_paths(rootfs, path, backup);
    lemma_achieves_nothing(t);
    let t1 = t.ask(ask);
    let t2 = t1.ask(steps[0]);
    let t3 = t2.ask(steps[1]);
    lemma_programs();
    if r is Ok {
        lemma_and_asks(t, t, ask, none);
        if t.rest[0] == ReplyView::Flag(true) {
            lemma_once_more(t, t1, steps[0], none);
            lemma_once_more(t, t2, steps[1], none.push(steps[0]));
            lemma_once_more(t, t3, steps[2], none.push(steps[0]).push(steps[1]));
            assert(none.push(steps[0]).push(steps[1]).push(steps[2]) =~= steps);
        }
    }
}

/// The manifest of the backup is the list of those paths that are there, in the order of the
/// list, and each of them was copied.
proof fn lemma_backups(
    t0: Transcript,
    t: Transcript,
    before: Seq<RequestView>,
    rootfs: Seq<char>,
    paths: Seq<Seq<char>>,
    backup: Seq<char>,
    done: Seq<Seq<char>>,
    i: int,
)
    requires
        0 <= i <= paths.len(),
        achieves(t0, t, before + all_backup_steps(rootfs, done, backup)),
    ensures
        backed_up_from(t, rootfs, paths, backup, done, i).1 matches Ok(manifest) ==> achieves(
            t0,
            backed_up_from(t, rootfs, paths, backup, done, i).0,
            before + all_backup_steps(rootfs, manifest, backup),
        ),
    decreases paths.len() - i,
{
    if i < paths.len() {
        let (t1, r) = path_backed_up(t, rootfs, paths[i], backup);
        law_one_backup(t, rootfs, paths[i], backup);
        let list = before + all_backup_steps(rootfs, done, backup);
        match r {
            Ok(true) => {
                let more = done.push(paths[i]);
                let steps = backup_steps(rootfs, paths[i], backup);
                assert(more.drop_last() =~= done);
                assert(all_backup_steps(rootfs, more, backup) == all_backup_steps(rootfs, done, backup) + steps);
                lemma_achieves_further(t0, t, t1, list, steps);
                assert(list + steps =~= before + all_backup_steps(rootfs, more, backup));
                lemma_backups(t0, t1, before, rootfs, paths, backup, more, i + 1);
            },
            Ok(false) => {
                lemma_achieves_further(t0, t, t1, list, Seq::empty());
                assert(list + Seq::<RequestView>::empty() =~= list);
                lemma_backups(t0, t1, before, rootfs, paths, backup, done, i + 1);
            },
            Err(_) => {},
        }
    }
}

/// A backup makes its directory and copies each path of the manifest into it, in order, writing
/// the disks back after each copy.
pub proof fn law_backup(t: Transcript, rootfs: Seq<char>, paths: Seq<Seq<char>>, backup: Seq<char>)
    ensures
        all_backed_up(t, rootfs, paths, backup).1 matches Ok(manifest) ==> achieves(
            t,
            all_backed_up(t, rootfs, paths, backup).0,
            seq![RequestView::CreateDir(backup)] + all_backup_steps(rootfs, manifest, backup),
        ),
{
    let made = RequestView::CreateDir(backup);
    let none = Seq::<RequestView>::empty();
    lemma_achieves_nothing(t);
    if all_backed_up(t, rootfs, paths, backup).1 is Ok {
        lemma_once_more(t, t, made, none);
        assert(none.push(made) =~= seq![made]);
        assert(seq![made] + all_backup_steps(rootfs, Seq::empty(), backup) =~= seq![made]);
        lemma_backups(t, t.ask(made), seq![made], rootfs, paths, backup, Seq::empty(), 0);
    }
}

/// At position `k` of a run, the copy of a path is looked for, and brought back where it is
/// there: its directory is made, it is copied into it, and the disks are written back.
pub open spec fn handled_at(
    t: Transcript,
    end: Transcript,
    k: int,
    rootfs: Seq<char>,
    path: Seq<char>,
    backup: Seq<char>,
) -> bool {
    let asked = asked_in(t, end);
    let steps = restore_steps(rootfs, path, backup);
    &&& 0 <= k < asked.len() && k < t.rest.len()
    &&& asked[k] == RequestView::Exists(kept(rootfs, path, backup))
    &&& t.rest[k] == ReplyView::Flag(true) ==> {
        &&& k + 1 < asked.len() && k + 1 < t.rest.len()
        &&& asked[k + 1] == RequestView::Exists(kept(rootfs, path, backup))
        &&& t.rest[k + 1] == ReplyView::Flag(true) ==> {
            &&& k + 2 < asked.len() && k + 2 < t.rest.len()
            &&& asked[k + 2] == steps[0]
            &&& !(t.rest[k + 2] is Failed) ==> {
                &&& k + 3 < asked.len() && k + 3 < t.rest.len()
                &&& asked[k + 3] == steps[1]
                &&& exited_well(t.rest[k + 3]) ==> k + 4 < asked.len() && asked[k + 4] == steps[2]
            }
        }
    }
}

/// The same at some position.
pub open spec fn handled(t: Transcript, end: Transcript, rootfs: Seq<char>, path: Seq<char>, backup: Seq<char>) -> bool {
    exists|k: int| handled_at(t, end, k, rootfs, path, backup)
}

/// At position `k` of a run, the copy of a path was found, and where it was still there, all that
/// brings it back went well.
pub open spec fn brought_back_at(
    t: Transcript,
    end: Transcript,
    k: int,
    rootfs: Seq<char>,
    path: Seq<char>,
    backup: Seq<char>,
) -> bool {
    &&& handled_at(t, end, k, rootfs, path, backup)
    &&& t.rest[k] == ReplyView::Flag(true)
    &&& t.rest[k + 1] == ReplyView::Flag(true) ==> k + 4 < t.rest.len() && !(t.rest[k + 2] is Failed) && exited_well(
        t.rest[k + 3],
    ) && exited_well(t.rest[k + 4])
}

/// The same at some position.
pub open spec fn brought_back(
    t: Transcript,
    end: Transcript,
    rootfs: Seq<char>,
    path: Seq<char>,
    backup: Seq<char>,
) -> bool {
    exists|k: int| brought_back_at(t, end, k, rootfs, path, backup)
}

/// Something was missing, refused, or failed.
pub open spec fn fell_short(t: Transcript, end: Transcript) -> bool {
    exists|k: int| fell_short_at(t, end, k)
}

pub open spec fn fell_short_at(t: Transcript, end: Transcript, k: int) -> bool {
    &&& 0 <= k < asked_in(t, end).len() && k < t.rest.len()
    &&& match asked_in(t, end)[k] {
        RequestView::Exists(_) => t.rest[k] != ReplyView::Flag(true),
        q => !went_well(q, t.rest[k]),
    }
}

proof fn lemma_handled_further(
    t: Transcript,
    u: Transcript,
    v: Transcript,
    rootfs: Seq<char>,
    path: Seq<char>,
    backup: Seq<char>,
)
    requires
        follows(t, u),
        follows(u, v),
    ensures
        handled(t, u, rootfs, path, backup) || handled(u, v, rootfs, path, backup) ==> handled(
            t,
            v,
            rootfs,
            path,
            backup,
        ),
        brought_back(t, u, rootfs, path, backup) || brought_back(u, v, rootfs, path, backup) ==> brought_back(
            t,
            v,
            rootfs,
            path,
            backup,
        ),
{
    lemma_asked_further(t, u, v);
    let n = asked_in(t, u).len() as int;
    assert forall|k: int| #[trigger] handled_at(t, u, k, rootfs, path, backup) implies handled_at(
        t,
        v,
        k,
        rootfs,
        path,
        backup,
    ) by {}
    assert forall|k: int| #[trigger] handled_at(u, v, k, rootfs, path, backup) implies handled_at(
        t,
        v,
        n + k,
        rootfs,
        path,
        backup,
    ) by {
        assert(u.rest.len() > k ==> t.rest[n + k] == u.rest[k]);
        assert(u.rest.len() > k + 1 ==> t.rest[n + k + 1] == u.rest[k + 1]);
        assert(u.rest.len() > k + 2 ==> t.rest[n + k + 2] == u.rest[k + 2]);
        assert(u.rest.len() > k + 3 ==> t.rest[n + k + 3] == u.rest[k + 3]);
        assert(k + 1 < asked_in(u, v).len() ==> asked_in(t, v)[n + (k + 1)] == asked_in(u, v)[k + 1]);
        assert(k + 2 < asked_in(u, v).len() ==> asked_in(t, v)[n + (k + 2)] == asked_in(u, v)[k + 2]);
        assert(k + 3 < asked_in(u, v).len() ==> asked_in(t, v)[n + (k + 3)] == asked_in(u, v)[k + 3]);
        assert(k + 4 < asked_in(u, v).len() ==> asked_in(t, v)[n + (k + 4)] == asked_in(u, v)[k + 4]);
    }
    if brought_back(t, u, rootfs, path, backup) {
        let k = choose|k: int| brought_back_at(t, u, k, rootfs, path, backup);
        assert(brought_back_at(t, v, k, rootfs, path, backup));
    }
    if brought_back(u, v, rootfs, path, backup) {
        let k = choose|k: int| brought_back_at(u, v, k, rootfs, path, backup);
        assert(u.rest.len() > k + 1 ==> t.rest[n + k + 1] == u.rest[k + 1]);
        assert(u.rest.len() > k + 4 ==> t.rest[n + k + 4] == u.rest[k + 4]);
        assert(u.rest.len() > k + 2 ==> t.rest[n + k + 2] == u.rest[k + 2]);
        assert(u.rest.len() > k + 3 ==> t.rest[n + k + 3] == u.rest[k + 3]);
        assert(brought_back_at(t, v, n + k, rootfs, path, backup));
    }
}

proof fn lemma_short_further(t: Transcript, u: Transcript, v: Transcript)
    requires
        follows(t, u),
        follows(u, v),
    ensures
        fell_short(t, u) || fell_short(u, v) ==> fell_short(t, v),
{
    lemma_asked_further(t, u, v);
    let n = asked_in(t, u).len() as int;
    if fell_short(t, u) {
        let k = choose|k: int| fell_short_at(t, u, k);
        assert(fell_short_at(t, v, k));
    } else if fell_short(u, v) {
        let k = choose|k: int| fell_short_at(u, v, k);
        assert(asked_in(t, v)[n + k] == asked_in(u, v)[k]);
        assert(t.rest[n + k] == u.rest[k]);
        assert(fell_short_at(t, v, n + k));
    }
}

/// One path of a restore.
proof fn lemma_one_of_all(t: Transcript, rootfs: Seq<char>, path: Seq<char>, backup: Seq<char>)
    ensures
        ({
            let t1 = t.ask(RequestView::Exists(kept(rootfs, path, backup)));
            let (t2, r) = path_restored(t1, rootfs, path, backup);
            &&& t.next() is Some && t.next()->0 != ReplyView::Flag(true) ==> {
                &&& handled(t, t1, rootfs, path, backup)
                &&& fell_short(t, t1)
                &&& follows(t, t1)
            }
            &&& t.next() == Some(ReplyView::Flag(true)) && !(r matches Err(Stop::Pending)) ==> {
                &&& handled(t, t2, rootfs, path, backup)
                &&& follows(t, t2)
                &&& r is Err ==> fell_short(t, t2)
                &&& r is Ok ==> brought_back(t, t2, rootfs, path, backup)
                &&& !fell_short(t, t2) ==> r is Ok && achieves(t, t2, restore_steps(rootfs, path, backup))
            }
        }),
{
    let ask = RequestView::Exists(kept(rootfs, path, backup));
    let none = Seq::<RequestView>::empty();
    let steps = restore_steps(rootfs, path, backup);
    let t1 = t.ask(ask);
    let (t2, r) = path_restored(t1, rootfs, path, backup);
    lemma_paths(rootfs, path, backup);
    lemma_follows_ask(t, ask);
    lemma_achieves_nothing(t);
    lemma_programs();
    if t.next() is Some {
        if t.next()->0 != ReplyView::Flag(true) {
            assert(handled_at(t, t1, 0, rootfs, path, backup));
            assert(fell_short_at(t, t1, 0));
        } else if !(r matches Err(Stop::Pending)) {
            lemma_and_asks(t, t, ask, none);
            lemma_one_restored(t1, rootfs, path, backup);
            let a = t1.ask(ask);
            let b = a.ask(steps[0]);
            let c = b.ask(steps[1]);
            let d = c.ask(steps[2]);
            lemma_follows_ask(t1, ask);
            lemma_follows_ask(a, steps[0]);
            lemma_follows_ask(b, steps[1]);
            lemma_follows_ask(c, steps[2]);
            lemma_follows_further(t, t1, a);
            lemma_follows_further(t, a, b);
            lemma_follows_further(t, b, c);
            lemma_follows_further(t, c, d);
            assert(t2 == a || t2 == b || t2 == c || t2 == d);
            assert(t1.rest.len() > 0 && t1.rest[0] == t.rest[1]);
            if t.rest[1] != ReplyView::Flag(true) {
                assert(t2 == a);
                assert(fell_short_at(t, t2, 1));
            } else {
                assert(a.rest.len() > 0 && a.rest[0] == t.rest[2]);
                if t.rest[2] is Failed {
                    assert(t2 == b);
                    assert(fell_short_at(t, t2, 2));
                } else {
                    assert(b.rest.len() > 0 && b.rest[0] == t.rest[3]);
                    if !exited_well(t.rest[3]) {
                        assert(t2 == c);
                        assert(fell_short_at(t, t2, 3));
                    } else {
                        assert(t2 == d);
                        assert(c.rest.len() > 0 && c.rest[0] == t.rest[4]);
                        if !exited_well(t.rest[4]) {
                            assert(fell_short_at(t, t2, 4));
                        } else {
                            assert(r is Ok);
                            lemma_achieves_further(t, t1, t2, none, steps);
                            assert(none + steps =~= steps);
                        }
                    }
                }
            }
            assert(handled_at(t, t2, 0, rootfs, path, backup));
            if r is Ok {
                assert(brought_back_at(t, t2, 0, rootfs, path, backup));
            }
        }
    }
}

proof fn lemma_all_restored(
    t0: Transcript,
    t: Transcript,
    rootfs: Seq<char>,
    paths: Seq<Seq<char>>,
    backup: Seq<char>,
    context: Seq<Seq<char>>,
    last: Option<Seq<char>>,
    i: int,
)
    requires
        0 <= i <= paths.len(),
        follows(t0, t),
        forall|j: int| 0 <= j < i ==> handled(t0, t, rootfs, #[trigger] paths[j], backup),
        last is None ==> forall|j: int| 0 <= j < i ==> brought_back(t0, t, rootfs, #[trigger] paths[j], backup),
        last is Some ==> fell_short(t0, t),
        !fell_short(t0, t) ==> achieves(t0, t, all_restore_steps(rootfs, paths.take(i), backup)),
    ensures
        ({
            let (end, r) = restored_from(t, rootfs, paths, backup, context, last, i);
            r matches Ok(result) ==> {
                &&& follows(t0, end)
                &&& forall|j: int| 0 <= j < paths.len() ==> handled(t0, end, rootfs, #[trigger] paths[j], backup)
                &&& result is Success ==> forall|j: int|
                    0 <= j < paths.len() ==> brought_back(t0, end, rootfs, #[trigger] paths[j], backup)
                &&& !(result is Success) ==> fell_short(t0, end)
                &&& !fell_short(t0, end) ==> achieves(t0, end, all_restore_steps(rootfs, paths, backup))
            }
        }),
    decreases paths.len() - i,
{
    if i >= paths.len() {
        assert(paths.take(i) =~= paths);
    } else {
        let path = paths[i];
        let ask = RequestView::Exists(kept(rootfs, path, backup));
        let t1 = t.ask(ask);
        lemma_paths(rootfs, path, backup);
        lemma_one_of_all(t, rootfs, path, backup);
        let (end, r) = restored_from(t, rootfs, paths, backup, context, last, i);
        if r is Ok {
            let (t2, one) = path_restored(t1, rootfs, path, backup);
            let there = t.next() == Some(ReplyView::Flag(true));
            let u = if there {
                t2
            } else {
                t1
            };
            assert(follows(t, u));
            lemma_follows_further(t0, t, u);
            lemma_short_further(t0, t, u);
            assert forall|j: int| 0 <= j < i + 1 implies handled(t0, u, rootfs, #[trigger] paths[j], backup) by {
                lemma_handled_further(t0, t, u, rootfs, paths[j], backup);
            }
            if last is None && there && one is Ok {
                assert forall|j: int| 0 <= j < i + 1 implies brought_back(t0, u, rootfs, #[trigger] paths[j], backup) by {
                    lemma_handled_further(t0, t, u, rootfs, paths[j], backup);
                }
            }
            if !fell_short(t0, u) {
                let before = all_restore_steps(rootfs, paths.take(i), backup);
                let steps = restore_steps(rootfs, path, backup);
                lemma_achieves_further(t0, t, u, before, steps);
                assert(paths.take(i + 1).drop_last() =~= paths.take(i));
                assert(paths.take(i + 1).last() == path);
            }
            if !there {
                lemma_all_restored(
                    t0,
                    u,
                    rootfs,
                    paths,
                    backup,
                    context.push(without_root(path) + ":missing-backup"@),
                    Some("backup missing for "@ + path),
                    i + 1,
                );
            } else {
                match one {
                    Ok(_) => lemma_all_restored(t0, u, rootfs, paths, backup, context, last, i + 1),
                    Err(Stop::Failed(e)) => lemma_all_restored(
                        t0,
                        u,
                        rootfs,
                        paths,
                        backup,
                        context.push(without_root(path) + ":restore"@),
                        Some(e.text()),
                        i + 1,
                    ),
                    Err(Stop::Pending) => {},
                }
            }
        }
    }
}

/// Every path of the manifest is looked for in the backup and brought back where its copy is
/// there. The restore is a success only if every one was found and, while it was still there,
/// copied back; where nothing falls short it is one, and it does nothing else.
pub proof fn law_restore(t: Transcript, rootfs: Seq<char>, manifest: Seq<Seq<char>>, backup: Seq<char>)
    ensures
        ({
            let (end, r) = restored_from(t, rootfs, manifest, backup, Seq::empty(), None, 0);
            r matches Ok(result) ==> {
                &&& follows(t, end)
                &&& forall|j: int| 0 <= j < manifest.len() ==> handled(t, end, rootfs, #[trigger] manifest[j], backup)
                &&& result is Success ==> forall|j: int|
                    0 <= j < manifest.len() ==> brought_back(t, end, rootfs, #[trigger] manifest[j], backup)
                &&& !(result is Success) ==> fell_short(t, end)
                &&& !fell_short(t, end) ==> achieves(t, end, all_restore_steps(rootfs, manifest, backup))
            }
        }),
{
    lemma_follows_itself(t);
    lemma_achieves_nothing(t);
    assert(manifest.take(0) =~= Seq::empty());
    assert(asked_in(t, t).len() == 0);
    lemma_all_restored(t, t, rootfs, manifest, backup, Seq::empty(), None, 0);
}

/// Every mount that is tracked is taken down, the last one first.
pub proof fn law_unmount(t: Transcript, mounts: Seq<Seq<char>>, first: Option<FsErrorView>)
    ensures
        all_unmounted(t, mounts, first).2 is Ok ==> first is None && achieves(
            t,
            all_unmounted(t, mounts, first).0,
            taken_down(mounts),
        ),
        asks_only(t, all_unmounted(t, mounts, first).0, |q: RequestView| q is Unmount),
    decreases mounts.len(),
{
    let p = |q: RequestView| q is Unmount;
    lemma_asks_nothing(t, p);
    lemma_achieves_nothing(t);
    if mounts.len() > 0 {
        let request = RequestView::Unmount(mounts.last());
        let none = Seq::<RequestView>::empty();
        let t1 = t.ask(request);
        lemma_asks_next(t, t, request, p);
        if t.next() is Some {
            let later = match t.next()->0 {
                ReplyView::Failed(e) => if first is Some {
                    first
                } else {
                    Some(
                        FilesystemError::UnmountFailed { target: mounts.last(), reason: e.text() },
                    )
                },
                _ => first,
            };
            law_unmount(t1, mounts.drop_last(), later);
            lemma_asks_further(t, t1, all_unmounted(t1, mounts.drop_last(), later).0, p);
            if all_unmounted(t, mounts, first).2 is Ok {
                lemma_once_more(t, t, request, none);
                assert(none.push(request) =~= seq![request]);
                lemma_achieves_further(
                    t,
                    t1,
                    all_unmounted(t, mounts, first).0,
                    seq![request],
                    taken_down(mounts.drop_last()),
                );
            }
        }
    }
}

/// What is restored is restored before anything is unmounted, and a reset is reported as a
/// success only if all of the manifest was brought back and no partition had to be formatted
/// twice; where nothing falls short it is one.
pub proof fn law_restore_and_unmount(
    t: Transcript,
    mounts: Seq<Seq<char>>,
    rootfs: Seq<char>,
    report: ReportView,
    manifest: Seq<Seq<char>>,
    backup: Seq<char>,
    preserve: Seq<Seq<char>>,
)
    ensures
        ({
            let (end, left, r) = restored_and_unmounted(t, mounts, rootfs, report, manifest, backup, preserve);
            r matches Ok((status, signal)) ==> {
                &&& signal is None
                &&& status.paths == preserve
                &&& status.data_wiped
                &&& exists|mid: Transcript|
                    restores(t, mid, rootfs, manifest, backup, status.status == FactoryResetStatusCode::Success)
                        && #[trigger] achieves(mid, end, taken_down(mounts)) && (!fell_short(t, mid) ==> (status.status
                        == FactoryResetStatusCode::Success <==> report.retried.len() == 0
                        && report.reformat_failed.len() == 0))
                &&& status.status == FactoryResetStatusCode::Success ==> report.retried.len() == 0
                    && report.reformat_failed.len() == 0
            }
        }),
{
    let (end, left, r) = restored_and_unmounted(t, mounts, rootfs, report, manifest, backup, preserve);
    let (mid, restore) = restored_from(t, rootfs, manifest, backup, Seq::empty(), None, 0);
    law_restore(t, rootfs, manifest, backup);
    law_unmount(mid, mounts, None);
    if r is Ok {
        assert(restore is Ok);
        let status = r->Ok_0.0;
        assert(restores(t, mid, rootfs, manifest, backup, status.status == FactoryResetStatusCode::Success));
        assert(achieves(mid, end, taken_down(mounts)));
    }
}

/// All of the manifest was looked for and brought back where it was there; where `all`, nothing
/// was missing and every copy went well.
pub open spec fn restores(
    t: Transcript,
    end: Transcript,
    rootfs: Seq<char>,
    manifest: Seq<Seq<char>>,
    backup: Seq<char>,
    all: bool,
) -> bool {
    &&& follows(t, end)
    &&& forall|j: int| 0 <= j < manifest.len() ==> handled(t, end, rootfs, #[trigger] manifest[j], backup)
    &&& all ==> forall|j: int| 0 <= j < manifest.len() ==> brought_back(t, end, rootfs, #[trigger] manifest[j], backup)
}

/// What makes a fresh filesystem.
pub open spec fn format_steps(device: Seq<char>, label: Seq<char>) -> Seq<RequestView> {
    seq![
        call("/sbin/mkfs.ext4"@, seq!["-F"@, "-q"@, device]),
        call("/sbin/tune2fs"@, seq![device, "-c"@, "-1"@, "-i"@, "0"@, "-L"@, label]),
    ]
}

/// A partition is formatted with ext4 and gets its label; periodic checks are switched off.
pub proof fn law_reformat(t: Transcript, device: Seq<char>, label: Seq<char>)
    ensures
        ({
            let (end, r) = reformatted(t, device, label);
            &&& r is Ok ==> achieves(t, end, format_steps(device, label))
            &&& asks_only(
                t,
                end,
                |q: RequestView| q == format_steps(device, label)[0] || q == format_steps(device, label)[1],
            )
            &&& r is Ok <==> t.rest.len() >= 2 && exited_well(t.rest[0]) && exited_well(t.rest[1])
        }),
{
    let (end, r) = reformatted(t, device, label);
    let p = |q: RequestView| q == format_steps(device, label)[0] || q == format_steps(device, label)[1];
    let steps = format_steps(device, label);
    let none = Seq::<RequestView>::empty();
    lemma_programs();
    lemma_achieves_nothing(t);
    lemma_asks_nothing(t, p);
    let t1 = t.ask(steps[0]);
    lemma_asks_next(t, t, steps[0], p);
    lemma_asks_next(t, t1, steps[1], p);
    if r is Ok {
        lemma_once_more(t, t, steps[0], none);
        lemma_once_more(t, t1, steps[1], none.push(steps[0]));
        assert(none.push(steps[0]).push(steps[1]) =~= steps);
    }
}

/// The partitions that a reset works on: factory, not to be written to, etc and data.
pub open spec fn partition_steps(layout: LayoutView, rootfs: Seq<char>, name: PartitionName) -> Seq<RequestView> {
    match layout.at(name) {
        Some(device) => seq![
            check_of("ext4"@, device),
            mount_of(
                device,
                under(rootfs, place_of(name)),
                "ext4"@,
                if name == PartitionName::Factory {
                    MountFlags { rd_only: true, ..unflagged() }
                } else {
                    unflagged()
                },
            ),
        ],
        None => Seq::empty(),
    }
}

pub open spec fn partition_places(layout: LayoutView, rootfs: Seq<char>, name: PartitionName) -> Seq<Seq<char>> {
    if layout.at(name) is Some {
        seq![under(rootfs, place_of(name))]
    } else {
        Seq::empty()
    }
}

/// What is mounted during a reset, in this order.
pub open spec fn reset_places(layout: LayoutView, rootfs: Seq<char>, persistent: bool) -> Seq<Seq<char>> {
    partition_places(layout, rootfs, PartitionName::Factory) + partition_places(layout, rootfs, PartitionName::Etc)
        + partition_places(layout, rootfs, PartitionName::Data) + seq![
        under(rootfs, "etc"@),
        under(rootfs, "home"@),
        under(rootfs, "var/lib"@),
        under(rootfs, "usr/local"@),
    ] + if persistent {
        seq![under(rootfs, "var/log"@)]
    } else {
        Seq::empty()
    }
}

/// `list` mounts what a reset works on: the partitions, and the layers over the root filesystem,
/// through which the preserved paths are seen.
pub open spec fn mounts_for_reset(list: Seq<RequestView>, layout: LayoutView, rootfs: Seq<char>, persistent: bool) -> bool {
    exists|a: Seq<RequestView>, b: Seq<RequestView>|
        list == partition_steps(layout, rootfs, PartitionName::Factory) + partition_steps(
            layout,
            rootfs,
            PartitionName::Etc,
        ) + partition_steps(layout, rootfs, PartitionName::Data) + (a + b) && #[trigger] lays_etc(a, rootfs)
            && #[trigger] lays_data(b, rootfs, persistent)
}

proof fn lemma_partition(
    t: Transcript,
    o: OdsView,
    mounts: Seq<Seq<char>>,
    layout: LayoutView,
    rootfs: Seq<char>,
    name: PartitionName,
)
    requires
        name == PartitionName::Factory || name == PartitionName::Etc || name == PartitionName::Data,
    ensures
        ({
            let (end, after, left, r) = one_mounted(
                t,
                o,
                mounts,
                layout,
                rootfs,
                name,
                place_of(name),
                if name == PartitionName::Factory {
                    MountFlags { rd_only: true, ..unflagged() }
                } else {
                    unflagged()
                },
            );
            r is Ok ==> achieves(t, end, partition_steps(layout, rootfs, name)) && left == mounts + partition_places(
                layout,
                rootfs,
                name,
            )
        }),
{
    lemma_places(rootfs);
    lemma_achieves_nothing(t);
    assert(joined(rootfs, place_of(name)) == under(rootfs, place_of(name)));
    let flags = if name == PartitionName::Factory {
        MountFlags { rd_only: true, ..unflagged() }
    } else {
        unflagged()
    };
    if layout.at(name) is Some {
        let device = layout.at(name)->0;
        let target = under(rootfs, place_of(name));
        law_checked_before_mounted(t, o, device, name, FsType::Ext4, target, flags);
        assert(partition_steps(layout, rootfs, name) =~= seq![
            check_of(FsType::Ext4.text(), device),
            mount_of(device, target, FsType::Ext4.text(), flags),
        ]);
        assert(mounts + partition_places(layout, rootfs, name) =~= mounts.push(target));
    } else {
        assert(mounts + partition_places(layout, rootfs, name) =~= mounts);
        assert(partition_steps(layout, rootfs, name) =~= Seq::empty());
    }
}

proof fn lemma_partitions(
    t: Transcript,
    o: OdsView,
    mounts: Seq<Seq<char>>,
    layout: LayoutView,
    rootfs: Seq<char>,
)
    ensures
        ({
            let (end, after, left, r) = partitions_mounted(t, o, mounts, layout, rootfs);
            r is Ok ==> achieves(
                t,
                end,
                partition_steps(layout, rootfs, PartitionName::Factory) + partition_steps(
                    layout,
                    rootfs,
                    PartitionName::Etc,
                ) + partition_steps(layout, rootfs, PartitionName::Data),
            ) && left == mounts + partition_places(layout, rootfs, PartitionName::Factory) + partition_places(
                layout,
                rootfs,
                PartitionName::Etc,
            ) + partition_places(layout, rootfs, PartitionName::Data)
        }),
{
    reveal(partitions_mounted);
    let (end, after, left, r) = partitions_mounted(t, o, mounts, layout, rootfs);
    let (pa, pb, pc) = (PartitionName::Factory, PartitionName::Etc, PartitionName::Data);
    let (t1, o1, m1, r1) = one_mounted(
        t,
        o,
        mounts,
        layout,
        rootfs,
        pa,
        "mnt/factory"@,
        MountFlags { rd_only: true, ..unflagged() },
    );
    let (t2, o2, m2, r2) = one_mounted(t1, o1, m1, layout, rootfs, pb, "mnt/etc"@, unflagged());
    let (t3, o3, m3, r3) = one_mounted(t2, o2, m2, layout, rootfs, pc, "mnt/data"@, unflagged());
    lemma_partition(t, o, mounts, layout, rootfs, pa);
    lemma_partition(t1, o1, m1, layout, rootfs, pb);
    lemma_partition(t2, o2, m2, layout, rootfs, pc);
    if r is Ok {
        assert(r1 is Ok && r2 is Ok && r3 is Ok);
        let sa = partition_steps(layout, rootfs, pa);
        let sb = partition_steps(layout, rootfs, pb);
        let sc = partition_steps(layout, rootfs, pc);
        lemma_achieves_further(t, t1, t2, sa, sb);
        lemma_achieves_further(t, t2, t3, sa + sb, sc);
    }
}

/// A reset works on the partitions factory, etc and data and the layers over the root filesystem;
/// what it mounted is what it will unmount.
pub proof fn law_reset_mounts(
    t: Transcript,
    o: OdsView,
    mounts: Seq<Seq<char>>,
    layout: LayoutView,
    rootfs: Seq<char>,
    persistent: bool,
)
    ensures
        ({
            let (end, after, left, r) = reset_mounted(t, o, mounts, layout, rootfs, persistent);
            r is Ok ==> left == mounts + reset_places(layout, rootfs, persistent) && exists|list: Seq<RequestView>|
                #[trigger] achieves(t, end, list) && mounts_for_reset(list, layout, rootfs, persistent)
        }),
{
    let (end, after, left, r) = reset_mounted(t, o, mounts, layout, rootfs, persistent);
    let (t3, o3, m3, r3) = partitions_mounted(t, o, mounts, layout, rootfs);
    lemma_partitions(t, o, mounts, layout, rootfs);
    law_etc_overlay(t3, m3, rootfs);
    let (t4, m4, r4) = etc_overlaid(t3, m3, rootfs);
    law_data_layers(t4, m4, rootfs, persistent);
    lemma_layers(t3, m3, rootfs, persistent);
    if r is Ok {
        let sa = partition_steps(layout, rootfs, PartitionName::Factory);
        let sb = partition_steps(layout, rootfs, PartitionName::Etc);
        let sc = partition_steps(layout, rootfs, PartitionName::Data);
        let (a, b) = choose|a: Seq<RequestView>, b: Seq<RequestView>|
            #[trigger] achieves(t3, end, a + b) && lays_etc(a, rootfs) && lays_data(b, rootfs, persistent);
        lemma_achieves_further(t, t3, end, sa + sb + sc, a + b);
        assert(mounts_for_reset(sa + sb + sc + (a + b), layout, rootfs, persistent));
        assert(left =~= mounts + reset_places(layout, rootfs, persistent));
    }
}

/// What a partition is formatted with on the first attempt.
proof fn lemma_formatted(s: ResetState, partition: PartitionName, device: Seq<char>, label: Seq<char>)
    ensures
        ({
            let (s1, failures) = formatted::<RealReformatOps>(s, partition, device, label);
            &&& failures == Some(0int) ==> achieves(s.t, s1.t, format_steps(device, label))
            &&& s1 == ResetState { t: s1.t, ..s }
        }),
{
    law_reformat(s.t, device, label);
}

/// The paths to preserve are found by reading alone.
proof fn lemma_applications(
    t0: Transcript,
    t: Transcript,
    list: Seq<Seq<char>>,
    dir: Seq<char>,
    names: Seq<Seq<char>>,
    failed: Option<IoErrorView>,
    i: int,
)
    requires
        achieves(t0, t, Seq::empty()),
    ensures
        applications_added(t, list, dir, names, failed, i).1 is Ok ==> achieves(
            t0,
            applications_added(t, list, dir, names, failed, i).0,
            Seq::empty(),
        ),
    decreases names.len() - i,
{
    if 0 <= i < names.len() {
        if extension_of(names[i]) != Some("json"@) {
            lemma_applications(t0, t, list, dir, names, failed, i + 1);
        } else {
            let path = joined(dir, names[i]);
            let read = RequestView::ReadText(path);
            if t.next() is Some {
                lemma_and_asks(t0, t, read, Seq::empty());
                if t.next()->0 is Text {
                    let content = t.next()->0->Text_0;
                    if application_added(list, path, content) is Ok {
                        let more = application_added(list, path, content)->Ok_0;
                        lemma_applications(t0, t.ask(read), more, dir, names, failed, i + 1);
                    }
                }
            }
        }
    }
}

proof fn lemma_keys(
    t0: Transcript,
    t: Transcript,
    list: Seq<Seq<char>>,
    config: Option<JsonView>,
    rootfs: Seq<char>,
    keys: Seq<Seq<char>>,
    i: int,
)
    requires
        achieves(t0, t, Seq::empty()),
    ensures
        keys_added(t, list, config, rootfs, keys, i).1 is Ok ==> achieves(
            t0,
            keys_added(t, list, config, rootfs, keys, i).0,
            Seq::empty(),
        ),
    decreases keys.len() - i,
{
    if 0 <= i < keys.len() {
        if keys[i] == "applications"@ {
            let dir = joined(rootfs, "etc/omnect/factory-reset.d"@);
            let ask = RequestView::Exists(dir);
            let t1 = t.ask(ask);
            let look = RequestView::ListDir(dir);
            if t.next() is Some {
                lemma_and_asks(t0, t, ask, Seq::empty());
                if t.next()->0 == ReplyView::Flag(true) && t1.next() is Some {
                    lemma_and_asks(t0, t1, look, Seq::empty());
                    if let ReplyView::Names { names, failed } = t1.next()->0 {
                        lemma_applications(t0, t1.ask(look), list, dir, names, failed, 0);
                    }
                }
            }
            let (t2, r) = applications_collected(t, list, rootfs);
            if r is Ok {
                lemma_keys(t0, t2, r->Ok_0, config, rootfs, keys, i + 1);
            }
        } else if config is Some {
            let file = joined(rootfs, "etc/omnect/factory-reset.json"@);
            match key_added(list, config->0, file, keys[i]) {
                Ok(more) => lemma_keys(t0, t, more, config, rootfs, keys, i + 1),
                Err(_) => {},
            }
        }
    }
}

proof fn lemma_preserve_list(t: Transcript, keys: Seq<Seq<char>>, rootfs: Seq<char>)
    ensures
        preserve_list(t, keys, rootfs).1 is Ok ==> achieves(t, preserve_list(t, keys, rootfs).0, Seq::empty()),
{
    let first = seq!["/etc/omnect/factory-reset.d/"@];
    lemma_achieves_nothing(t);
    if needs_file(keys) {
        let (t1, r) = file_read(t, rootfs);
        if r is Ok {
            lemma_and_asks(
                t,
                t,
                RequestView::ReadText(joined(rootfs, "etc/omnect/factory-reset.json"@)),
                Seq::empty(),
            );
            lemma_keys(t, t1, first, Some(r->Ok_0), rootfs, keys, 0);
        }
    } else {
        lemma_keys(t, t, first, None, rootfs, keys, 0);
    }
}

/// The directory of the backup.
pub open spec fn backup_dir() -> Seq<char> {
    "/tmp/factory_reset/backup"@
}

/// What comes before anything is wiped: everything is mounted, the manifest is copied, and
/// everything is unmounted again.
pub open spec fn saves(
    list: Seq<RequestView>,
    layout: LayoutView,
    rootfs: Seq<char>,
    persistent: bool,
    manifest: Seq<Seq<char>>,
) -> bool {
    exists|mounting: Seq<RequestView>|
        list == mounting + (seq![RequestView::CreateDir(backup_dir())] + all_backup_steps(
            rootfs,
            manifest,
            backup_dir(),
        )) + taken_down(reset_places(layout, rootfs, persistent)) && #[trigger] mounts_for_reset(
            mounting,
            layout,
            rootfs,
            persistent,
        )
}

/// Nothing is wiped before the manifest was copied into the backup and all was unmounted.
pub proof fn law_saved_before_wiped(
    t: Transcript,
    o: OdsView,
    layout: LayoutView,
    rootfs: Seq<char>,
    persistent: bool,
    keys: Seq<Seq<char>>,
)
    ensures
        ({
            let (end, after, left, r) = prepared(t, o, layout, rootfs, persistent, keys);
            r matches Ok((preserve, manifest)) ==> left == Seq::<Seq<char>>::empty() && exists|list: Seq<RequestView>|
                #[trigger] achieves(t, end, list) && saves(list, layout, rootfs, persistent, manifest)
        }),
{
    reveal(prepared);
    reveal(mounted_or_cleaned_up);
    reveal(backed_up_all);
    let (end, after, left, r) = prepared(t, o, layout, rootfs, persistent, keys);
    let none = Seq::<Seq<char>>::empty();
    let (t1, o1, m1, r1) = reset_mounted(t, o, none, layout, rootfs, persistent);
    law_reset_mounts(t, o, none, layout, rootfs, persistent);
    let (t2, r2) = preserve_list(t1, keys, rootfs);
    lemma_preserve_list(t1, keys, rootfs);
    if r is Ok {
        let (preserve, manifest) = r->Ok_0;
        let (t3, r3) = all_backed_up(t2, rootfs, preserve, backup_dir());
        law_backup(t2, rootfs, preserve, backup_dir());
        law_unmount(t3, m1, None);
        let mounting = choose|list: Seq<RequestView>|
            #[trigger] achieves(t, t1, list) && mounts_for_reset(list, layout, rootfs, persistent);
        let copying = seq![RequestView::CreateDir(backup_dir())] + all_backup_steps(rootfs, manifest, backup_dir());
        lemma_achieves_further(t, t1, t2, mounting, Seq::empty());
        assert(mounting + Seq::<RequestView>::empty() =~= mounting);
        lemma_achieves_further(t, t2, t3, mounting, copying);
        assert(m1 =~= reset_places(layout, rootfs, persistent));
        lemma_achieves_further(t, t3, end, mounting + copying, taken_down(m1));
        assert(saves(mounting + copying + taken_down(m1), layout, rootfs, persistent, manifest));
        lemma_all_down(t3, m1, None);
    }
}

proof fn lemma_all_down(t: Transcript, mounts: Seq<Seq<char>>, first: Option<FsErrorView>)
    ensures
        all_unmounted(t, mounts, first).2 is Ok ==> all_unmounted(t, mounts, first).1.len() == 0,
    decreases mounts.len(),
{
    if mounts.len() > 0 && t.next() is Some {
        let later = match t.next()->0 {
            ReplyView::Failed(e) => if first is Some {
                first
            } else {
                Some(FilesystemError::UnmountFailed { target: mounts.last(), reason: e.text() })
            },
            _ => first,
        };
        lemma_all_down(t.ask(RequestView::Unmount(mounts.last())), mounts.drop_last(), later);
    }
}

/// A reset that is reported as a success did all of this, in this order: it mounted everything,
/// copied the manifest into the backup, unmounted everything, formatted data and etc, mounted
/// everything again, brought the manifest back, and unmounted everything.
pub proof fn law_successful_reset(
    t: Transcript,
    o: OdsView,
    layout: LayoutView,
    rootfs: Seq<char>,
    persistent: bool,
    keys: Seq<Seq<char>>,
)
    ensures
        ({
            let (end, after, r) = reset_done(t, o, layout, rootfs, persistent, keys);
            r matches Ok((report, signal)) && report.status == FactoryResetStatusCode::Success ==> exists|
                manifest: Seq<Seq<char>>,
                saving: Seq<RequestView>,
                mounting: Seq<RequestView>,
                middle: Transcript,
                restored: Transcript,
            |
                {
                    &&& #[trigger] saves(saving, layout, rootfs, persistent, manifest)
                    &&& #[trigger] mounts_for_reset(mounting, layout, rootfs, persistent)
                    &&& layout.at(PartitionName::Data) is Some && layout.at(PartitionName::Etc) is Some
                    &&& achieves(
                        t,
                        middle,
                        saving + format_steps(layout.at(PartitionName::Data)->0, "data"@) + format_steps(
                            layout.at(PartitionName::Etc)->0,
                            "etc"@,
                        ) + mounting,
                    )
                    &&& #[trigger] restores(middle, restored, rootfs, manifest, backup_dir(), true)
                    &&& achieves(restored, end, taken_down(reset_places(layout, rootfs, persistent)))
                }
        }),
{
    let (end, after, r) = reset_done(t, o, layout, rootfs, persistent, keys);
    let (t1, o1, m1, r1) = prepared(t, o, layout, rootfs, persistent, keys);
    law_saved_before_wiped(t, o, layout, rootfs, persistent, keys);
    if r matches Ok((report, signal)) && report.status == FactoryResetStatusCode::Success {
        let (preserve, manifest) = r1->Ok_0;
        let data_dev = layout.at(PartitionName::Data)->0;
        let etc_dev = layout.at(PartitionName::Etc)->0;
        let s = ResetState { layout, rootfs, persistent_var_log: persistent, ods: o1, mounts: m1, t: t1 };
        let saving = choose|list: Seq<RequestView>|
            #[trigger] achieves(t, t1, list) && saves(list, layout, rootfs, persistent, manifest);
        let (t2, o2, m2, r2) = destroyed(s, data_dev, etc_dev, manifest, backup_dir(), preserve);
        lemma_destroyed(s, data_dev, etc_dev, manifest, backup_dir(), preserve);
        let (mounting, middle, restored) = choose|mounting: Seq<RequestView>, middle: Transcript, restored: Transcript|
            {
                &&& #[trigger] mounts_for_reset(mounting, layout, rootfs, persistent)
                &&& achieves(t1, middle, format_steps(data_dev, "data"@) + format_steps(etc_dev, "etc"@) + mounting)
                &&& #[trigger] restores(middle, restored, rootfs, manifest, backup_dir(), true)
                &&& achieves(restored, t2, taken_down(reset_places(layout, rootfs, persistent)))
            };
        let wiping = format_steps(data_dev, "data"@) + format_steps(etc_dev, "etc"@) + mounting;
        lemma_achieves_further(t, t1, middle, saving, wiping);
        assert(saving + wiping =~= saving + format_steps(data_dev, "data"@) + format_steps(etc_dev, "etc"@) + mounting);
    }
}

proof fn lemma_destroyed(
    s: ResetState,
    data_dev: Seq<char>,
    etc_dev: Seq<char>,
    manifest: Seq<Seq<char>>,
    backup: Seq<char>,
    preserve: Seq<Seq<char>>,
)
    requires
        s.mounts == Seq::<Seq<char>>::empty(),
    ensures
        ({
            let (end, after, left, r) = destroyed(s, data_dev, etc_dev, manifest, backup, preserve);
            r matches Ok((report, signal)) && report.status == FactoryResetStatusCode::Success ==> exists|
                mounting: Seq<RequestView>,
                middle: Transcript,
                restored: Transcript,
            |
                {
                    &&& #[trigger] mounts_for_reset(mounting, s.layout, s.rootfs, s.persistent_var_log)
                    &&& achieves(s.t, middle, format_steps(data_dev, "data"@) + format_steps(etc_dev, "etc"@) + mounting)
                    &&& #[trigger] restores(middle, restored, s.rootfs, manifest, backup, true)
                    &&& achieves(
                        restored,
                        end,
                        taken_down(reset_places(s.layout, s.rootfs, s.persistent_var_log)),
                    )
                }
        }),
{
    let (end, after, left, r) = destroyed(s, data_dev, etc_dev, manifest, backup, preserve);
    if r matches Ok((status, signal)) && status.status == FactoryResetStatusCode::Success {
        let (s1, data) = formatted::<RealReformatOps>(s, PartitionName::Data, data_dev, "data"@);
        let (s2, etc) = formatted::<RealReformatOps>(s1, PartitionName::Etc, etc_dev, "etc"@);
        let (s3, whole) = reformatted_and_mounted::<RealReformatOps>(s, s.rootfs, data_dev, etc_dev);
        let report = whole->Ok_0;
        lemma_formatted(s, PartitionName::Data, data_dev, "data"@);
        lemma_formatted(s1, PartitionName::Etc, etc_dev, "etc"@);
        assert(whole is Ok && report.exhausted is None);
        law_restore_and_unmount(s3.t, s3.mounts, s.rootfs, report, manifest, backup, preserve);
        assert(report.retried.len() == 0);
        lemma_no_retry(data->0, etc->0);
        lemma_failures(s, PartitionName::Data, data_dev, "data"@);
        lemma_failures(s1, PartitionName::Etc, etc_dev, "etc"@);
        assert(data == Some(0int) && etc == Some(0int));
        reveal(mounted_or_cleaned_up);
        law_reset_mounts(s2.t, s2.ods, s2.mounts, s.layout, s.rootfs, s.persistent_var_log);
        let mounting = choose|list: Seq<RequestView>|
            #[trigger] achieves(s2.t, s3.t, list) && mounts_for_reset(list, s.layout, s.rootfs, s.persistent_var_log);
        let wipe_data = format_steps(data_dev, "data"@);
        let wipe_etc = format_steps(etc_dev, "etc"@);
        lemma_achieves_further(s.t, s1.t, s2.t, wipe_data, wipe_etc);
        lemma_achieves_further(s.t, s2.t, s3.t, wipe_data + wipe_etc, mounting);
        let restored = choose|mid: Transcript|
            restores(s3.t, mid, s.rootfs, manifest, backup, true) && #[trigger] achieves(mid, end, taken_down(s3.mounts));
        assert(s3.mounts =~= reset_places(s.layout, s.rootfs, s.persistent_var_log));
        assert(restores(s3.t, restored, s.rootfs, manifest, backup, true));
    }
}

proof fn lemma_no_retry(data: int, etc: int)
    ensures
        with_failures(1, data, etc).len() == 0 ==> data < 1 && etc < 1,
{
}

proof fn lemma_failures(s: ResetState, partition: PartitionName, device: Seq<char>, label: Seq<char>)
    ensures
        formatted::<RealReformatOps>(s, partition, device, label).1 matches Some(n) ==> 0 <= n <= 2,
{
}

} // verus!
