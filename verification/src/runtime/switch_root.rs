//! Switch root to final rootfs and exec init
//!
//! Implements the switch_root operation using MS_MOVE + chroot to transition
//! from initramfs to the real rootfs. pivot_root(2) is not used because ramfs
//! does not support it (returns EINVAL).

use vstd::prelude::*;
use vstd::string::*;

use crate::error::{
    concat2, concat4, io_failed, io_step, perform_io, InitErrorView, InitOutcome, InitramfsError, IoError, IoErrorKind,
};
use crate::path::{climbs, has_parent_dir, is_absolute, is_absolute_of, join, joined, strip_root, without_root};
use crate::system::{
    flag_of, outcome, unexpected_answer, warned, IoErrorView, MountFlag, MountFlags, Reply, ReplyView, Request,
    RequestView, Session, Stop, Transcript,
};

verus! {

/// Default init path
pub const DEFAULT_INIT: &'static str = "/sbin/init";

/// The inits that are tried where the requested one is missing, and how they are listed in
/// an error.
pub open spec fn init_paths() -> Seq<Seq<char>> {
    seq!["/sbin/init"@, "/usr/sbin/init"@, "/lib/systemd/systemd"@, "/usr/lib/systemd/systemd"@]
}

pub const INIT_PATHS_LISTED: &'static str =
    "[\"/sbin/init\", \"/usr/sbin/init\", \"/lib/systemd/systemd\", \"/usr/lib/systemd/systemd\"]";

fn init_path_at(i: usize) -> (r: &'static str)
    requires
        i < 4,
    ensures
        r@ == init_paths()[i as int],
{
    match i {
        0 => "/sbin/init",
        1 => "/usr/sbin/init",
        2 => "/lib/systemd/systemd",
        _ => "/usr/lib/systemd/systemd",
    }
}

/// Where a path of the new root is for now.
pub open spec fn in_root(root: Seq<char>, path: Seq<char>) -> Seq<char> {
    joined(root, without_root(path))
}

/// A path as an absolute one, so that no search path is consulted.
pub open spec fn absolute(path: Seq<char>) -> Seq<char> {
    if is_absolute_of(path) {
        path
    } else {
        "/"@ + path
    }
}

/// The error when no init is there.
pub open spec fn no_init(root: Seq<char>, requested: Seq<char>) -> InitErrorView {
    InitramfsError::Io(
        IoError {
            kind: IoErrorKind::NotFound,
            message: "Init binary not found in "@ + root + ". Tried: "@ + requested + (", "@ + INIT_PATHS_LISTED@),
        },
    )
}

/// The error of a requested init that climbs.
pub open spec fn climbing_init(requested: Seq<char>) -> InitErrorView {
    InitramfsError::Io(
        IoError { kind: IoErrorKind::InvalidInput, message: "init path must not contain '..': "@ + requested },
    )
}

/// Looks for the inits from position `i` on.
pub open spec fn fallback_found(t: Transcript, root: Seq<char>, requested: Seq<char>, i: int) -> (
    Transcript,
    InitOutcome<Seq<char>>,
)
    decreases 4 - i,
{
    if i < 0 || i >= 4 {
        (t, Err(Stop::Failed(no_init(root, requested))))
    } else {
        let t1 = t.ask(Request::IsExecutable(in_root(root, init_paths()[i])));
        match t.next() {
            None => (t1, Err(Stop::Pending)),
            Some(there) => if flag_of(there) {
                (t1, Ok(init_paths()[i]))
            } else {
                fallback_found(t1, root, requested, i + 1)
            },
        }
    }
}

/// Looks for the requested init, then for the others.
pub open spec fn init_found(t: Transcript, root: Seq<char>, requested: Seq<char>) -> (
    Transcript,
    InitOutcome<Seq<char>>,
) {
    if climbs(requested) {
        (t, Err(Stop::Failed(climbing_init(requested))))
    } else {
        let path = absolute(requested);
        let t1 = t.ask(Request::IsExecutable(in_root(root, path)));
        match t.next() {
            None => (t1, Err(Stop::Pending)),
            Some(there) => if flag_of(there) {
                (t1, Ok(path))
            } else {
                fallback_found(t1, root, path, 0)
            },
        }
    }
}

/// Find the init binary in the new root.
///
/// Always returns an absolute path string (starts with `/`) so that
/// exec on PID 1 does not fall back to PATH lookup.
pub fn find_init(new_root: &str, requested_init: &str, sys: &mut Session) -> (r: Result<String, Stop<InitramfsError>>)
    ensures
        (final(sys)@, outcome(r)) == init_found(old(sys)@, new_root@, requested_init@),
{
    // Reject paths containing ".." to prevent escaping new_root before chroot.
    if has_parent_dir(requested_init) {
        return Err(
            Stop::Failed(
                InitramfsError::Io(
                    IoError {
                        kind: IoErrorKind::InvalidInput,
                        message: concat2("init path must not contain '..': ", requested_init),
                    },
                ),
            ),
        );
    }
    // Ensure the caller-supplied path is absolute to avoid PATH lookup on exec.
    let requested = if is_absolute(requested_init) {
        requested_init.to_owned()
    } else {
        concat2("/", requested_init)
    };
    let requested_path = join(new_root, strip_root(requested.as_str()).as_str());
    match sys.query(Request::IsExecutable(requested_path)) {
        None => {
            return Err(Stop::Pending);
        },
        Some(true) => {
            return Ok(requested);
        },
        Some(false) => {},
    }
    let mut i: usize = 0;
    while i < 4
        invariant
            i <= 4,
            fallback_found(sys@, new_root@, requested@, i as int) == init_found(
                old(sys)@,
                new_root@,
                requested_init@,
            ),
        decreases 4 - i,
    {
        let init_path = init_path_at(i);
        let full_path = join(new_root, strip_root(init_path).as_str());
        match sys.query(Request::IsExecutable(full_path)) {
            None => {
                return Err(Stop::Pending);
            },
            Some(true) => {
                return Ok(init_path.to_owned());
            },
            Some(false) => {},
        }
        i = i + 1;
    }
    Err(
        Stop::Failed(
            InitramfsError::Io(
                IoError {
                    kind: IoErrorKind::NotFound,
                    message: concat2(
                        concat4("Init binary not found in ", new_root, ". Tried: ", requested.as_str()).as_str(),
                        concat2(", ", INIT_PATHS_LISTED).as_str(),
                    ),
                },
            ),
        ),
    )
}

/// The mounts that move to the new root, in the order they move in. /run is among them so that
/// ODS can read its runtime state after the switch.
pub open spec fn critical_mounts() -> Seq<Seq<char>> {
    seq!["dev"@, "proc"@, "sys"@, "run"@]
}

fn critical_mount_at(i: usize) -> (r: &'static str)
    requires
        i < 4,
    ensures
        r@ == critical_mounts()[i as int],
{
    match i {
        0 => "dev",
        1 => "proc",
        2 => "sys",
        _ => "run",
    }
}

/// The request that moves a mount.
pub open spec fn move_request(source: Seq<char>, target: Seq<char>) -> RequestView {
    Request::Mount {
        source: Some(source),
        target,
        fstype: None,
        flags: MountFlags::none().plus(MountFlag::Move),
        data: None,
    }
}

/// Moves a mount.
pub open spec fn mount_moved(t: Transcript, source: Seq<char>, target: Seq<char>) -> (Transcript, InitOutcome<()>) {
    io_step(t, move_request(source, target), "Failed to move "@ + source + " → "@ + target + ": "@)
}

fn move_mount(source: &str, target: &str, sys: &mut Session) -> (r: Result<(), Stop<InitramfsError>>)
    ensures
        (final(sys)@, outcome(r)) == mount_moved(old(sys)@, source@, target@),
{
    let context = concat2(concat4("Failed to move ", source, " → ", target).as_str(), ": ");
    perform_io(
        Request::Mount {
            source: Some(source.to_owned()),
            target: target.to_owned(),
            fstype: None,
            flags: MountFlags::empty().with(MountFlag::Move),
            data: None,
        },
        context.as_str(),
        sys,
    )
}

/// The warning about a mount that could not be moved back.
pub open spec fn rollback_warning(name: Seq<char>, e: InitErrorView) -> Seq<char> {
    "Failed to restore /"@ + name + " to initramfs during rollback: "@ + e.text()
}

/// Moves the first `k` mounts back, the last one first. A failure is warned about and does not
/// matter otherwise; `None` means that an answer is missing.
pub open spec fn rolled_back(t: Transcript, root: Seq<char>, k: int) -> (Transcript, Option<()>)
    decreases k,
{
    if k <= 0 {
        (t, Some(()))
    } else {
        let name = critical_mounts()[k - 1];
        match mount_moved(t, joined(root, name), "/"@ + name) {
            (t1, Ok(_)) => rolled_back(t1, root, k - 1),
            (t1, Err(Stop::Pending)) => (t1, None),
            (t1, Err(Stop::Failed(e))) => match warned(t1, rollback_warning(name, e)) {
                (t2, None) => (t2, None),
                (t2, Some(_)) => rolled_back(t2, root, k - 1),
            },
        }
    }
}

/// Attempt to restore already-moved critical mounts back to the initramfs.
///
/// Called on any failure before MS_MOVE succeeds — at that point `/` is still
/// the initramfs root, so moving from `new_root/{name}` back to `/{name}`
/// restores the debug/emergency shell environment. Best-effort: individual
/// failures are logged and do not abort.
fn rollback_critical_mounts(moved: usize, new_root: &str, sys: &mut Session) -> (r: Option<()>)
    requires
        moved <= 4,
    ensures
        (final(sys)@, r) == rolled_back(old(sys)@, new_root@, moved as int),
{
    let mut k: usize = moved;
    while k > 0
        invariant
            k <= 4,
            rolled_back(sys@, new_root@, k as int) == rolled_back(old(sys)@, new_root@, moved as int),
        decreases k,
    {
        let name = critical_mount_at(k - 1);
        match move_mount(join(new_root, name).as_str(), concat2("/", name).as_str(), sys) {
            Ok(()) => {},
            Err(Stop::Pending) => {
                return None;
            },
            Err(Stop::Failed(e)) => {
                let warning = concat4(
                    "Failed to restore /",
                    name,
                    " to initramfs during rollback: ",
                    e.to_string().as_str(),
                );
                if sys.warn(warning.as_str()).is_none() {
                    return None;
                }
            },
        }
        k = k - 1;
    }
    Some(())
}

/// An error after the first `k` mounts were moved back.
pub open spec fn undone(t: Transcript, root: Seq<char>, k: int, e: InitErrorView) -> (Transcript, InitOutcome<()>) {
    match rolled_back(t, root, k) {
        (t1, None) => (t1, Err(Stop::Pending)),
        (t1, Some(_)) => (t1, Err(Stop::Failed(e))),
    }
}

/// What a step comes to when its failure moves the first `k` mounts back.
pub open spec fn or_undone(step: (Transcript, InitOutcome<()>), root: Seq<char>, k: int) -> (
    Transcript,
    InitOutcome<()>,
) {
    match step {
        (t, Err(Stop::Failed(e))) => undone(t, root, k, e),
        other => other,
    }
}

fn undo_on_failure(step: Result<(), Stop<InitramfsError>>, moved: usize, new_root: &str, sys: &mut Session) -> (r: Result<
    (),
    Stop<InitramfsError>,
>)
    requires
        moved <= 4,
    ensures
        (final(sys)@, outcome(r)) == or_undone((old(sys)@, outcome(step)), new_root@, moved as int),
{
    match step {
        Err(Stop::Failed(e)) => match rollback_critical_mounts(moved, new_root, sys) {
            None => Err(Stop::Pending),
            Some(()) => Err(Stop::Failed(e)),
        },
        other => other,
    }
}

/// Creates the mount points for the critical mounts from position `i` on.
pub open spec fn mount_points_made(t: Transcript, root: Seq<char>, i: int) -> (Transcript, InitOutcome<()>)
    decreases 4 - i,
{
    if i < 0 || i >= 4 {
        (t, Ok(()))
    } else {
        let name = critical_mounts()[i];
        match io_step(
            t,
            Request::CreateDir(joined(root, name)),
            "Failed to create mountpoint "@ + root + "/"@ + name + ": "@,
        ) {
            (t1, Err(e)) => (t1, Err(e)),
            (t1, Ok(_)) => mount_points_made(t1, root, i + 1),
        }
    }
}

fn make_mount_points(new_root: &str, sys: &mut Session) -> (r: Result<(), Stop<InitramfsError>>)
    ensures
        (final(sys)@, outcome(r)) == mount_points_made(old(sys)@, new_root@, 0),
{
    let mut i: usize = 0;
    while i < 4
        invariant
            i <= 4,
            mount_points_made(sys@, new_root@, i as int) == mount_points_made(old(sys)@, new_root@, 0),
        decreases 4 - i,
    {
        let name = critical_mount_at(i);
        let context = concat2(concat4("Failed to create mountpoint ", new_root, "/", name).as_str(), ": ");
        match perform_io(Request::CreateDir(join(new_root, name)), context.as_str(), sys) {
            Err(e) => {
                return Err(e);
            },
            Ok(()) => {},
        }
        i = i + 1;
    }
    Ok(())
}

/// Moves the critical mounts from position `i` on. Where one cannot be moved, those before it
/// are moved back.
pub open spec fn critical_moved(t: Transcript, root: Seq<char>, i: int) -> (Transcript, InitOutcome<()>)
    decreases 4 - i,
{
    if i < 0 || i >= 4 {
        (t, Ok(()))
    } else {
        let name = critical_mounts()[i];
        match or_undone(mount_moved(t, "/"@ + name, joined(root, name)), root, i) {
            (t1, Err(e)) => (t1, Err(e)),
            (t1, Ok(_)) => critical_moved(t1, root, i + 1),
        }
    }
}

fn move_critical_mounts(new_root: &str, sys: &mut Session) -> (r: Result<(), Stop<InitramfsError>>)
    ensures
        (final(sys)@, outcome(r)) == critical_moved(old(sys)@, new_root@, 0),
{
    let mut i: usize = 0;
    while i < 4
        invariant
            i <= 4,
            critical_moved(sys@, new_root@, i as int) == critical_moved(old(sys)@, new_root@, 0),
        decreases 4 - i,
    {
        let name = critical_mount_at(i);
        let step = move_mount(concat2("/", name).as_str(), join(new_root, name).as_str(), sys);
        match undo_on_failure(step, i, new_root, sys) {
            Err(e) => {
                return Err(e);
            },
            Ok(()) => {},
        }
        i = i + 1;
    }
    Ok(())
}

/// What the answer to an exec says went wrong.
pub open spec fn exec_failure(reply: ReplyView) -> IoErrorView {
    match reply {
        Reply::Failed(e) => e,
        _ => unexpected_answer(),
    }
}

/// Replaces the process by the init of the new root, which is mounted at / by now.
pub open spec fn handed_to_init(t: Transcript, init: Seq<char>) -> (Transcript, InitOutcome<()>) {
    match io_step(t, Request::ChangeRoot("."@), "Failed to chroot: "@) {
        (t1, Err(e)) => (t1, Err(e)),
        (t1, Ok(_)) => match io_step(t1, Request::ChangeDir("/"@), "Failed to chdir to /: "@) {
            (t2, Err(e)) => (t2, Err(e)),
            (t2, Ok(_)) => (
                t2.ask(Request::Exec(init)),
                match t2.next() {
                    None => Err(Stop::Pending),
                    Some(reply) => Err(
                        Stop::Failed(io_failed("Failed to exec init: "@ + exec_failure(reply).text())),
                    ),
                },
            ),
        },
    }
}

fn hand_to_init(init: String, sys: &mut Session) -> (r: Result<(), Stop<InitramfsError>>)
    ensures
        (final(sys)@, outcome(r)) == handed_to_init(old(sys)@, init@),
{
    match perform_io(Request::ChangeRoot(String::from_str(".")), "Failed to chroot: ", sys) {
        Err(e) => {
            return Err(e);
        },
        Ok(()) => {},
    }
    match perform_io(Request::ChangeDir(String::from_str("/")), "Failed to chdir to /: ", sys) {
        Err(e) => {
            return Err(e);
        },
        Ok(()) => {},
    }
    // exec replaces the current process - there is no answer on success
    let e = match sys.ask(Request::Exec(init)) {
        None => {
            return Err(Stop::Pending);
        },
        Some(Reply::Failed(e)) => e,
        Some(_) => IoError { kind: IoErrorKind::InvalidData, message: String::from_str("unexpected answer") },
    };
    Err(
        Stop::Failed(
            InitramfsError::Io(IoError::other(concat2("Failed to exec init: ", e.to_string().as_str()))),
        ),
    )
}

/// Makes the new root the root, with the critical mounts moved there already.
pub open spec fn root_moved(t: Transcript, root: Seq<char>) -> (Transcript, InitOutcome<()>) {
    match or_undone(io_step(t, Request::ChangeDir(root), "Failed to chdir to new root: "@), root, 4) {
        (t1, Err(e)) => (t1, Err(e)),
        (t1, Ok(_)) => or_undone(
            io_step(t1, move_request("."@, "/"@), "Failed to MS_MOVE new root to /: "@),
            root,
            4,
        ),
    }
}

fn move_root(new_root: &str, sys: &mut Session) -> (r: Result<(), Stop<InitramfsError>>)
    ensures
        (final(sys)@, outcome(r)) == root_moved(old(sys)@, new_root@),
{
    let step = perform_io(Request::ChangeDir(new_root.to_owned()), "Failed to chdir to new root: ", sys);
    match undo_on_failure(step, 4, new_root, sys) {
        Err(e) => {
            return Err(e);
        },
        Ok(()) => {},
    }
    // MS_MOVE re-mounts the new root at /. This is the correct approach for
    // initramfs: ramfs does not support pivot_root (EINVAL). busybox and
    // systemd use the same MS_MOVE + chroot pattern.
    //
    // On failure: restore all moved mounts so the debug/emergency shell still
    // has access to /dev, /proc, /sys, /run on the initramfs.
    let step = perform_io(
        Request::Mount {
            source: Some(String::from_str(".")),
            target: String::from_str("/"),
            fstype: None,
            flags: MountFlags::empty().with(MountFlag::Move),
            data: None,
        },
        "Failed to MS_MOVE new root to /: ",
        sys,
    );
    undo_on_failure(step, 4, new_root, sys)
}

/// Moves the system over to the new root, whose init was found, and runs the init.
pub open spec fn moved_over(t: Transcript, root: Seq<char>, init: Seq<char>) -> (Transcript, InitOutcome<()>) {
    match mount_points_made(t, root, 0) {
        (t1, Err(e)) => (t1, Err(e)),
        (t1, Ok(_)) => match critical_moved(t1, root, 0) {
            (t2, Err(e)) => (t2, Err(e)),
            (t2, Ok(_)) => match root_moved(t2, root) {
                (t3, Err(e)) => (t3, Err(e)),
                (t3, Ok(_)) => handed_to_init(t3, init),
            },
        },
    }
}

/// The error when there is no new root.
pub open spec fn no_new_root(root: Seq<char>) -> InitErrorView {
    InitramfsError::Io(IoError { kind: IoErrorKind::NotFound, message: "New root does not exist: "@ + root })
}

/// The init that is asked for, by default the usual one.
pub open spec fn init_or_default(init: Option<Seq<char>>) -> Seq<char> {
    match init {
        Some(path) => path,
        None => DEFAULT_INIT@,
    }
}

/// Switches to the new root.
pub open spec fn switched(t: Transcript, root: Seq<char>, init: Option<Seq<char>>) -> (Transcript, InitOutcome<()>) {
    let t1 = t.ask(Request::Exists(root));
    match t.next() {
        None => (t1, Err(Stop::Pending)),
        Some(there) => if !flag_of(there) {
            (t1, Err(Stop::Failed(no_new_root(root))))
        } else {
            match init_found(t1, root, init_or_default(init)) {
                (t2, Err(Stop::Pending)) => (t2, Err(Stop::Pending)),
                (t2, Err(Stop::Failed(e))) => (t2, Err(Stop::Failed(e))),
                (t2, Ok(path)) => moved_over(t2, root, path),
            }
        },
    }
}

/// Switch root to the new rootfs and exec init
///
/// Never returns `Ok`: on success the process is replaced.
pub fn switch_root(new_root: &str, init: Option<&str>, sys: &mut Session) -> (r: Result<(), Stop<InitramfsError>>)
    ensures
        (final(sys)@, outcome(r)) == switched(old(sys)@, new_root@, crate::bootloader::opt_text(init)),
{
    let init_path = match init {
        Some(path) => path,
        None => DEFAULT_INIT,
    };
    match sys.query(Request::Exists(new_root.to_owned())) {
        None => {
            return Err(Stop::Pending);
        },
        Some(false) => {
            return Err(
                Stop::Failed(
                    InitramfsError::Io(
                        IoError {
                            kind: IoErrorKind::NotFound,
                            message: concat2("New root does not exist: ", new_root),
                        },
                    ),
                ),
            );
        },
        Some(true) => {},
    }
    // Verify the init binary exists BEFORE moving any mounts. If init is
    // missing we want to fail while /dev, /proc, /sys, /run are still on
    // the initramfs so the debug shell / fatal-error path still works.
    let init_full_path = match find_init(new_root, init_path, sys) {
        Err(e) => {
            return Err(e);
        },
        Ok(path) => path,
    };
    // Ensure target mountpoint directories exist under new_root.
    // MS_MOVE fails with ENOENT if the target directory is missing.
    match make_mount_points(new_root, sys) {
        Err(e) => {
            return Err(e);
        },
        Ok(()) => {},
    }
    // Move critical mounts to new root before switching. Any failure until the
    // new root is in place is rolled back, preserving the debug/emergency shell
    // environment on the initramfs.
    match move_critical_mounts(new_root, sys) {
        Err(e) => {
            return Err(e);
        },
        Ok(()) => {},
    }
    match move_root(new_root, sys) {
        Err(e) => {
            return Err(e);
        },
        Ok(()) => {},
    }
    hand_to_init(init_full_path, sys)
}

/// The switch does not return where it succeeds.
pub proof fn law_switch_never_returns_ok(t: Transcript, root: Seq<char>, init: Option<Seq<char>>)
    ensures
        switched(t, root, init).1 is Err,
{
}

/// The inits that are tried last are absolute.
proof fn lemma_fallback_absolute(t: Transcript, root: Seq<char>, requested: Seq<char>, i: int)
    requires
        0 <= i <= 4,
    ensures
        fallback_found(t, root, requested, i).1 matches Ok(path) ==> is_absolute_of(path),
    decreases 4 - i,
{
    reveal_strlit("/sbin/init");
    reveal_strlit("/usr/sbin/init");
    reveal_strlit("/lib/systemd/systemd");
    reveal_strlit("/usr/lib/systemd/systemd");
    if i < 4 {
        lemma_fallback_absolute(t.ask(Request::IsExecutable(in_root(root, init_paths()[i]))), root, requested, i + 1);
    }
}

/// Whatever init is asked for, the one that is found is an absolute path.
pub proof fn law_init_is_absolute(t: Transcript, root: Seq<char>, requested: Seq<char>)
    ensures
        init_found(t, root, requested).1 matches Ok(path) ==> is_absolute_of(path),
{
    reveal_strlit("/");
    let path = absolute(requested);
    lemma_fallback_absolute(t.ask(Request::IsExecutable(in_root(root, path))), root, path, 0);
}

/// Where no init is found, nothing was mounted, moved or changed: only the questions of the
/// search were asked.
pub proof fn law_init_found_before_mounts_move(t: Transcript, root: Seq<char>, init: Option<Seq<char>>)
    requires
        t.next() matches Some(there) && flag_of(there),
        init_found(t.ask(Request::Exists(root)), root, init_or_default(init)).1 is Err,
    ensures
        switched(t, root, init).0 == init_found(t.ask(Request::Exists(root)), root, init_or_default(init)).0,
        forall|i: int|
            t.asked.len() < i < switched(t, root, init).0.asked.len() ==> (
            #[trigger] switched(t, root, init).0.asked[i]) is IsExecutable,
{
    let t1 = t.ask(Request::Exists(root));
    let path = absolute(init_or_default(init));
    lemma_search_asks(t1.ask(Request::IsExecutable(in_root(root, path))), root, path, 0, t1.asked.len() as int);
}

/// The search for an init asks about files only.
proof fn lemma_search_asks(t: Transcript, root: Seq<char>, requested: Seq<char>, i: int, from: int)
    requires
        0 <= i <= 4,
        0 <= from <= t.asked.len(),
        forall|k: int| from <= k < t.asked.len() ==> (#[trigger] t.asked[k]) is IsExecutable,
    ensures
        forall|k: int|
            from <= k < fallback_found(t, root, requested, i).0.asked.len() ==> (#[trigger] fallback_found(
                t,
                root,
                requested,
                i,
            ).0.asked[k]) is IsExecutable,
    decreases 4 - i,
{
    if i < 4 {
        let t1 = t.ask(Request::IsExecutable(in_root(root, init_paths()[i])));
        assert forall|k: int| from <= k < t1.asked.len() implies (#[trigger] t1.asked[k]) is IsExecutable by {
            if k < t.asked.len() {
                assert(t1.asked[k] == t.asked[k]);
            }
        }
        lemma_search_asks(t1, root, requested, i + 1, from);
    }
}

/// The requests that move the first `k` mounts back, in order.
pub open spec fn moves_back(root: Seq<char>, k: int) -> Seq<RequestView> {
    Seq::new(
        k as nat,
        |j: int| move_request(joined(root, critical_mounts()[k - 1 - j]), "/"@ + critical_mounts()[k - 1 - j]),
    )
}

/// The requests but for the warnings among them.
pub open spec fn unwarned(asked: Seq<RequestView>) -> Seq<RequestView>
    decreases asked.len(),
{
    if asked.len() == 0 {
        asked
    } else if asked.last() is Warn {
        unwarned(asked.drop_last())
    } else {
        unwarned(asked.drop_last()).push(asked.last())
    }
}

/// A rollback moves every mount that was moved back to where it came from, in the reverse
/// order, whether or not one of the moves fails; for each move that fails there is one answer
/// more, to the warning about it.
pub proof fn law_rollback_reverses_moves(t: Transcript, root: Seq<char>, k: int)
    requires
        0 <= k <= 4,
        t.rest.len() >= 2 * k,
    ensures
        rolled_back(t, root, k).1 is Some,
        unwarned(rolled_back(t, root, k).0.asked) == unwarned(t.asked) + moves_back(root, k),
    decreases k,
{
    if k > 0 {
        let name = critical_mounts()[k - 1];
        let (t1, r) = mount_moved(t, joined(root, name), "/"@ + name);
        let t2 = warned(t1, rollback_warning(name, r->Err_0->Failed_0)).0;
        assert(t1.asked.drop_last() =~= t.asked);
        assert(t2.asked.drop_last() =~= t1.asked);
        law_rollback_reverses_moves(t1, root, k - 1);
        law_rollback_reverses_moves(t2, root, k - 1);
        assert(unwarned(t1.asked) + moves_back(root, k - 1) =~= unwarned(t.asked) + moves_back(root, k));
    } else {
        assert(unwarned(t.asked) + moves_back(root, k) =~= unwarned(t.asked));
    }
}

} // verus!
