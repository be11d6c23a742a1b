//! Backup and restore of the preserved paths

use vstd::prelude::*;
use vstd::string::*;

use crate::error::{concat2, concat4, FactoryResetError, InitErrorView, InitOutcome, InitramfsError, IoError};
use crate::filesystem::overlayfs::CP_CMD;
use crate::path::{join, joined, parent, parent_of, strip_root, without_root};
use crate::system::{done_of, flag_of, outcome, output_of, ReplyView, Request, Session, Stop, Transcript};
use crate::text::{join_of, list3, list4, push_text};

verus! {

pub const SYNC_CMD: &'static str = "/bin/sync";

/// Shared join separator for the retry note and restore partial-failure context.
pub const CONTEXT_SEPARATOR: &'static str = ";";

/// Result of a restore pass over the full preserve list.
pub enum RestoreResult<S = String> {
    Success,
    PartialFailure { context: S, error: S },
}

/// The result of a restore pass by view.
pub type RestoreView = RestoreResult<Seq<char>>;

impl View for RestoreResult {
    type V = RestoreView;

    open spec fn view(&self) -> RestoreView {
        match *self {
            RestoreResult::Success => RestoreResult::Success,
            RestoreResult::PartialFailure { context, error } => RestoreResult::PartialFailure {
                context: context@,
                error: error@,
            },
        }
    }
}

/// The error of a sync.
pub open spec fn sync_error(message: Seq<char>) -> InitErrorView {
    InitramfsError::FactoryReset(FactoryResetError::Io(IoError::<Seq<char>>::other_of(message)))
}

/// Runs sync.
pub open spec fn sync_ran(t: Transcript) -> (Transcript, InitOutcome<()>) {
    (
        t.ask(Request::Run { program: SYNC_CMD@, args: Seq::empty() }),
        match t.next() {
            None => Err(Stop::Pending),
            Some(reply) => match output_of(reply) {
                Err(e) => Err(Stop::Failed(sync_error("sync failed: "@ + e.text()))),
                Ok(out) => if out.succeeded() {
                    Ok(())
                } else {
                    Err(Stop::Failed(sync_error("sync exited with "@ + out.status)))
                },
            },
        },
    )
}

fn run_sync(sys: &mut Session) -> (r: Result<(), Stop<InitramfsError>>)
    ensures
        (final(sys)@, outcome(r)) == sync_ran(old(sys)@),
{
    let none: Vec<String> = Vec::new();
    assert(none.deep_view() =~= Seq::<Seq<char>>::empty());
    match sys.run(Request::Run { program: String::from_str(SYNC_CMD), args: none }) {
        None => Err(Stop::Pending),
        Some(Err(e)) => Err(
            Stop::Failed(
                InitramfsError::FactoryReset(
                    FactoryResetError::Io(IoError::other(concat2("sync failed: ", e.to_string().as_str()))),
                ),
            ),
        ),
        Some(Ok(out)) => {
            if out.success() {
                Ok(())
            } else {
                Err(
                    Stop::Failed(
                        InitramfsError::FactoryReset(
                            FactoryResetError::Io(
                                IoError::other(concat2("sync exited with ", out.status.as_str())),
                            ),
                        ),
                    ),
                )
            }
        },
    }
}

/// Why a run of cp did not succeed, if it did not.
pub open spec fn cp_fault(reply: ReplyView) -> Option<Seq<char>> {
    match output_of(reply) {
        Err(e) => Some("Failed to run cp: "@ + e.text()),
        Ok(out) => if out.succeeded() {
            None
        } else {
            Some("cp failed ("@ + out.status + "): "@ + out.stderr)
        },
    }
}

/// Runs cp. `Some(Some(..))` says why it failed, `None` that an answer is missing.
fn run_cp(args: Vec<String>, sys: &mut Session) -> (r: Option<Option<String>>)
    ensures
        final(sys)@ == old(sys)@.ask(Request::Run { program: CP_CMD@, args: args.deep_view() }),
        match r {
            None => old(sys)@.next() is None,
            Some(fault) => old(sys)@.next() is Some && fault.deep_view() == cp_fault(old(sys)@.next()->0),
        },
{
    match sys.run(Request::Run { program: String::from_str(CP_CMD), args }) {
        None => None,
        Some(Err(e)) => Some(Some(concat2("Failed to run cp: ", e.to_string().as_str()))),
        Some(Ok(out)) => {
            if out.success() {
                Some(None)
            } else {
                Some(Some(concat4("cp failed (", out.status.as_str(), "): ", out.stderr.as_str())))
            }
        },
    }
}

/// Where a preserved path is in the rootfs.
pub open spec fn live_path(rootfs: Seq<char>, path: Seq<char>) -> Seq<char> {
    joined(rootfs, without_root(path))
}

/// Where a preserved path is in the backup.
pub open spec fn backup_of(rootfs: Seq<char>, path: Seq<char>, backup_dir: Seq<char>) -> Seq<char> {
    joined(joined(backup_dir, without_root(rootfs)), without_root(path))
}

/// Copies a path to the backup, if it is there.
pub open spec fn path_backed_up(t: Transcript, rootfs: Seq<char>, path: Seq<char>, backup_dir: Seq<char>) -> (
    Transcript,
    InitOutcome<bool>,
) {
    let src = live_path(rootfs, path);
    let t1 = t.ask(Request::Exists(src));
    match t.next() {
        None => (t1, Err(Stop::Pending)),
        Some(there) => if !flag_of(there) {
            (t1, Ok(false))
        } else {
            let t2 = t1.ask(
                Request::Run { program: CP_CMD@, args: seq!["--parents"@, "-a"@, src, backup_dir] },
            );
            match t1.next() {
                None => (t2, Err(Stop::Pending)),
                Some(reply) => match cp_fault(reply) {
                    Some(reason) => (
                        t2,
                        Err(
                            Stop::Failed(
                                InitramfsError::FactoryReset(FactoryResetError::BackupFailed { path, reason }),
                            ),
                        ),
                    ),
                    None => match sync_ran(t2) {
                        (t3, Err(e)) => (t3, Err(e)),
                        (t3, Ok(_)) => (t3, Ok(true)),
                    },
                },
            }
        },
    }
}

pub fn backup_path(rootfs: &str, path: &str, backup_dir: &str, sys: &mut Session) -> (r: Result<
    bool,
    Stop<InitramfsError>,
>)
    ensures
        (final(sys)@, outcome(r)) == path_backed_up(old(sys)@, rootfs@, path@, backup_dir@),
{
    let src = join(rootfs, strip_root(path).as_str());
    match sys.query(Request::Exists(src.clone())) {
        None => {
            return Err(Stop::Pending);
        },
        Some(false) => {
            return Ok(false);
        },
        Some(true) => {},
    }
    match run_cp(list4("--parents", "-a", src.as_str(), backup_dir), sys) {
        None => {
            return Err(Stop::Pending);
        },
        Some(Some(reason)) => {
            return Err(
                Stop::Failed(
                    InitramfsError::FactoryReset(
                        FactoryResetError::BackupFailed { path: path.to_owned(), reason },
                    ),
                ),
            );
        },
        Some(None) => {},
    }
    match run_sync(sys) {
        Err(e) => Err(e),
        Ok(()) => Ok(true),
    }
}

/// Copies the paths from position `i` on to the backup; `done` are those copied so far.
pub open spec fn backed_up_from(
    t: Transcript,
    rootfs: Seq<char>,
    paths: Seq<Seq<char>>,
    backup_dir: Seq<char>,
    done: Seq<Seq<char>>,
    i: int,
) -> (Transcript, InitOutcome<Seq<Seq<char>>>)
    decreases paths.len() - i,
{
    if i < 0 || i >= paths.len() {
        (t, Ok(done))
    } else {
        match path_backed_up(t, rootfs, paths[i], backup_dir) {
            (t1, Err(e)) => (t1, Err(e)),
            (t1, Ok(true)) => backed_up_from(t1, rootfs, paths, backup_dir, done.push(paths[i]), i + 1),
            (t1, Ok(false)) => backed_up_from(t1, rootfs, paths, backup_dir, done, i + 1),
        }
    }
}

/// Copies all paths that are there to the backup.
pub open spec fn all_backed_up(t: Transcript, rootfs: Seq<char>, paths: Seq<Seq<char>>, backup_dir: Seq<char>) -> (
    Transcript,
    InitOutcome<Seq<Seq<char>>>,
) {
    let t1 = t.ask(Request::CreateDir(backup_dir));
    match t.next() {
        None => (t1, Err(Stop::Pending)),
        Some(reply) => match done_of(reply) {
            Err(e) => (t1, Err(Stop::Failed(InitramfsError::Io(e)))),
            Ok(_) => backed_up_from(t1, rootfs, paths, backup_dir, Seq::empty(), 0),
        },
    }
}

/// How a step ended that returns a list of texts, by view.
pub open spec fn list_outcome(r: Result<Vec<String>, Stop<InitramfsError>>) -> InitOutcome<Seq<Seq<char>>> {
    match r {
        Ok(list) => Ok(list.deep_view()),
        Err(e) => Err(e@),
    }
}

/// Backup all preserve-list paths from rootfs into backup_dir. Returns the
/// subset of paths actually backed up (those whose source existed) — the
/// manifest `restore_all` uses to detect a backup lost before restore.
pub fn backup_all(rootfs: &str, preserve_list: &Vec<String>, backup_dir: &str, sys: &mut Session) -> (r: Result<
    Vec<String>,
    Stop<InitramfsError>,
>)
    ensures
        (final(sys)@, list_outcome(r)) == all_backed_up(
            old(sys)@,
            rootfs@,
            preserve_list.deep_view(),
            backup_dir@,
        ),
{
    match sys.perform(Request::CreateDir(backup_dir.to_owned())) {
        None => {
            return Err(Stop::Pending);
        },
        Some(Err(e)) => {
            return Err(Stop::Failed(InitramfsError::Io(e)));
        },
        Some(Ok(())) => {},
    }
    let ghost paths = preserve_list.deep_view();
    let mut backed_up: Vec<String> = Vec::new();
    assert(backed_up.deep_view() =~= Seq::<Seq<char>>::empty());
    let mut i: usize = 0;
    while i < preserve_list.len()
        invariant
            i <= preserve_list@.len(),
            paths == preserve_list.deep_view(),
            backed_up_from(sys@, rootfs@, paths, backup_dir@, backed_up.deep_view(), i as int) == all_backed_up(
                old(sys)@,
                rootfs@,
                paths,
                backup_dir@,
            ),
        decreases preserve_list.len() - i,
    {
        let path = preserve_list[i].as_str();
        assert(paths[i as int] == path@);
        match backup_path(rootfs, path, backup_dir, sys) {
            Err(e) => {
                return Err(e);
            },
            Ok(true) => {
                push_text(&mut backed_up, path);
            },
            Ok(false) => {},
        }
        i = i + 1;
    }
    Ok(backed_up)
}

/// The directory that a path is restored to.
pub open spec fn restore_dir(rootfs: Seq<char>, path: Seq<char>) -> Seq<char> {
    match parent_of(live_path(rootfs, path)) {
        Some(dir) => dir,
        None => rootfs,
    }
}

/// The error of a path that cannot be restored.
pub open spec fn restore_error(path: Seq<char>, reason: Seq<char>) -> InitErrorView {
    InitramfsError::FactoryReset(FactoryResetError::RestoreFailed { path, reason })
}

/// Copies a path back from the backup, if it is there.
pub open spec fn path_restored(t: Transcript, rootfs: Seq<char>, path: Seq<char>, backup_dir: Seq<char>) -> (
    Transcript,
    InitOutcome<()>,
) {
    let src = backup_of(rootfs, path, backup_dir);
    let dir = restore_dir(rootfs, path);
    let t1 = t.ask(Request::Exists(src));
    match t.next() {
        None => (t1, Err(Stop::Pending)),
        Some(there) => if !flag_of(there) {
            (t1, Ok(()))
        } else {
            let t2 = t1.ask(Request::CreateDir(dir));
            match t1.next() {
                None => (t2, Err(Stop::Pending)),
                Some(reply) => match done_of(reply) {
                    Err(e) => (
                        t2,
                        Err(
                            Stop::Failed(
                                restore_error(path, "Failed to create directory "@ + dir + ": "@ + e.text()),
                            ),
                        ),
                    ),
                    Ok(_) => {
                        let t3 = t2.ask(Request::Run { program: CP_CMD@, args: seq!["-a"@, src, dir] });
                        match t2.next() {
                            None => (t3, Err(Stop::Pending)),
                            Some(reply) => match cp_fault(reply) {
                                Some(reason) => (t3, Err(Stop::Failed(restore_error(path, reason)))),
                                None => sync_ran(t3),
                            },
                        }
                    },
                },
            }
        },
    }
}

fn restore_failed(path: &str, reason: String) -> (e: InitramfsError)
    ensures
        e@ == restore_error(path@, reason@),
{
    InitramfsError::FactoryReset(FactoryResetError::RestoreFailed { path: path.to_owned(), reason })
}

pub fn restore_path(rootfs: &str, path: &str, backup_dir: &str, sys: &mut Session) -> (r: Result<
    (),
    Stop<InitramfsError>,
>)
    ensures
        (final(sys)@, outcome(r)) == path_restored(old(sys)@, rootfs@, path@, backup_dir@),
{
    let path_stripped = strip_root(path);
    let backup_src = join(join(backup_dir, strip_root(rootfs).as_str()).as_str(), path_stripped.as_str());
    match sys.query(Request::Exists(backup_src.clone())) {
        None => {
            return Err(Stop::Pending);
        },
        Some(false) => {
            return Ok(());
        },
        Some(true) => {},
    }
    let dest_full = join(rootfs, path_stripped.as_str());
    let dest_dir = match parent(dest_full.as_str()) {
        Some(dir) => dir,
        None => rootfs.to_owned(),
    };
    match sys.perform(Request::CreateDir(dest_dir.clone())) {
        None => {
            return Err(Stop::Pending);
        },
        Some(Err(e)) => {
            let reason = concat4("Failed to create directory ", dest_dir.as_str(), ": ", e.to_string().as_str());
            return Err(Stop::Failed(restore_failed(path, reason)));
        },
        Some(Ok(())) => {},
    }
    match run_cp(list3("-a", backup_src.as_str(), dest_dir.as_str()), sys) {
        None => {
            return Err(Stop::Pending);
        },
        Some(Some(reason)) => {
            return Err(Stop::Failed(restore_failed(path, reason)));
        },
        Some(None) => {},
    }
    run_sync(sys)
}

/// What a restore pass comes to, by what failed and by the last error.
pub open spec fn restore_result(context: Seq<Seq<char>>, last: Option<Seq<char>>) -> RestoreView {
    match last {
        Some(error) => RestoreResult::PartialFailure { context: join_of(context, CONTEXT_SEPARATOR@), error },
        None => RestoreResult::Success,
    }
}

/// Restores the paths from position `i` on; `context` and `last` are what failed so far and
/// the last error.
pub open spec fn restored_from(
    t: Transcript,
    rootfs: Seq<char>,
    paths: Seq<Seq<char>>,
    backup_dir: Seq<char>,
    context: Seq<Seq<char>>,
    last: Option<Seq<char>>,
    i: int,
) -> (Transcript, InitOutcome<RestoreView>)
    decreases paths.len() - i,
{
    if i < 0 || i >= paths.len() {
        (t, Ok(restore_result(context, last)))
    } else {
        let path = paths[i];
        let t1 = t.ask(Request::Exists(backup_of(rootfs, path, backup_dir)));
        match t.next() {
            None => (t1, Err(Stop::Pending)),
            Some(there) => if !flag_of(there) {
                restored_from(
                    t1,
                    rootfs,
                    paths,
                    backup_dir,
                    context.push(without_root(path) + ":missing-backup"@),
                    Some("backup missing for "@ + path),
                    i + 1,
                )
            } else {
                match path_restored(t1, rootfs, path, backup_dir) {
                    (t2, Err(Stop::Pending)) => (t2, Err(Stop::Pending)),
                    (t2, Err(Stop::Failed(e))) => restored_from(
                        t2,
                        rootfs,
                        paths,
                        backup_dir,
                        context.push(without_root(path) + ":restore"@),
                        Some(e.text()),
                        i + 1,
                    ),
                    (t2, Ok(_)) => restored_from(t2, rootfs, paths, backup_dir, context, last, i + 1),
                }
            },
        }
    }
}

/// Restore all backed-up paths from backup_dir back into rootfs.
///
/// `backed_up` is the manifest returned by `backup_all`. A manifest entry whose
/// backup is missing at restore time is reported as `PartialFailure` (the
/// backup was lost between backup and restore), not silently skipped — unlike
/// a path that was never in the manifest because it never existed on the
/// device, which is not a failure.
///
/// Partial restore failures are accumulated and returned as `RestoreResult::PartialFailure`
/// rather than aborting mid-restore. This ensures as many paths as possible are restored
/// even when individual files cannot be copied.
pub fn restore_all(rootfs: &str, backed_up: &Vec<String>, backup_dir: &str, sys: &mut Session) -> (r: Result<
    RestoreResult,
    Stop<InitramfsError>,
>)
    ensures
        (final(sys)@, outcome(r)) == restored_from(
            old(sys)@,
            rootfs@,
            backed_up.deep_view(),
            backup_dir@,
            Seq::empty(),
            None,
            0,
        ),
{
    let ghost paths = backed_up.deep_view();
    let mut error_context: Vec<String> = Vec::new();
    let mut last_error: Option<String> = None;
    assert(error_context.deep_view() =~= Seq::<Seq<char>>::empty());
    let mut i: usize = 0;
    while i < backed_up.len()
        invariant
            i <= backed_up@.len(),
            paths == backed_up.deep_view(),
            restored_from(
                sys@,
                rootfs@,
                paths,
                backup_dir@,
                error_context.deep_view(),
                last_error.deep_view(),
                i as int,
            ) == restored_from(old(sys)@, rootfs@, paths, backup_dir@, Seq::empty(), None, 0),
        decreases backed_up.len() - i,
    {
        let path = backed_up[i].as_str();
        assert(paths[i as int] == path@);
        let stripped = strip_root(path);
        let backup_src = join(join(backup_dir, strip_root(rootfs).as_str()).as_str(), stripped.as_str());
        match sys.query(Request::Exists(backup_src)) {
            None => {
                return Err(Stop::Pending);
            },
            Some(false) => {
                push_text(&mut error_context, concat2(stripped.as_str(), ":missing-backup").as_str());
                last_error = Some(concat2("backup missing for ", path));
            },
            Some(true) => match restore_path(rootfs, path, backup_dir, sys) {
                Err(Stop::Pending) => {
                    return Err(Stop::Pending);
                },
                Err(Stop::Failed(e)) => {
                    push_text(&mut error_context, concat2(stripped.as_str(), ":restore").as_str());
                    last_error = Some(e.to_string());
                },
                Ok(()) => {},
            },
        }
        i = i + 1;
    }
    match last_error {
        Some(error) => Ok(
            RestoreResult::PartialFailure {
                context: crate::text::join(&error_context, CONTEXT_SEPARATOR),
                error,
            },
        ),
        None => Ok(RestoreResult::Success),
    }
}

/// A restore pass never fails as a whole: it ends with a result once all answers are there.
pub proof fn law_restore_never_aborts(
    t: Transcript,
    rootfs: Seq<char>,
    paths: Seq<Seq<char>>,
    backup_dir: Seq<char>,
    context: Seq<Seq<char>>,
    last: Option<Seq<char>>,
    i: int,
)
    ensures
        restored_from(t, rootfs, paths, backup_dir, context, last, i).1 matches Err(e) ==> e is Pending,
    decreases paths.len() - i,
{
    if 0 <= i < paths.len() {
        let path = paths[i];
        let t1 = t.ask(Request::Exists(backup_of(rootfs, path, backup_dir)));
        law_restore_never_aborts(
            t1,
            rootfs,
            paths,
            backup_dir,
            context.push(without_root(path) + ":missing-backup"@),
            Some("backup missing for "@ + path),
            i + 1,
        );
        match path_restored(t1, rootfs, path, backup_dir) {
            (t2, Err(Stop::Failed(e))) => {
                law_restore_never_aborts(
                    t2,
                    rootfs,
                    paths,
                    backup_dir,
                    context.push(without_root(path) + ":restore"@),
                    Some(e.text()),
                    i + 1,
                );
            },
            (t2, _) => {
                law_restore_never_aborts(t2, rootfs, paths, backup_dir, context, last, i + 1);
            },
        }
    }
}

/// The manifest of a backup names only paths that were to be preserved.
pub proof fn law_manifest_within_list(
    t: Transcript,
    rootfs: Seq<char>,
    paths: Seq<Seq<char>>,
    backup_dir: Seq<char>,
    done: Seq<Seq<char>>,
    i: int,
)
    requires
        0 <= i <= paths.len(),
        forall|k: int| 0 <= k < done.len() ==> paths.take(i).contains(#[trigger] done[k]),
    ensures
        backed_up_from(t, rootfs, paths, backup_dir, done, i).1 matches Ok(manifest) ==> forall|k: int|
            0 <= k < manifest.len() ==> paths.contains(#[trigger] manifest[k]),
    decreases paths.len() - i,
{
    if i < paths.len() {
        let more = done.push(paths[i]);
        assert forall|k: int| 0 <= k < more.len() implies paths.take(i + 1).contains(#[trigger] more[k]) by {
            if k < done.len() {
                let j = choose|j: int| 0 <= j < i && paths.take(i)[j] == done[k];
                assert(paths.take(i + 1)[j] == more[k]);
            } else {
                assert(paths.take(i + 1)[i] == more[k]);
            }
        }
        assert forall|k: int| 0 <= k < done.len() implies paths.take(i + 1).contains(#[trigger] done[k]) by {
            assert(more[k] == done[k]);
        }
        let r = path_backed_up(t, rootfs, paths[i], backup_dir);
        law_manifest_within_list(r.0, rootfs, paths, backup_dir, more, i + 1);
        law_manifest_within_list(r.0, rootfs, paths, backup_dir, done, i + 1);
    } else {
        assert(paths.take(i) =~= paths);
    }
}

} // verus!
