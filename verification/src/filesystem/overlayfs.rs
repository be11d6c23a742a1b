//! Overlayfs setup for etc and home directories
//!
//! This module handles:
//! - Setting up overlayfs for /etc (factory defaults + persistent upper)
//! - Setting up overlayfs for /home (factory defaults + data upper)
//! - Bind mounts for /var/lib and /usr/local
//! - Initial copy of factory etc to upper layer

use vstd::prelude::*;
use vstd::string::*;

use crate::error::{concat2, concat3, concat4, FilesystemError};
use crate::filesystem::mount::{
    bind_at, bound_private, mount, mount_bind, mount_bind_private, mount_point, mounted, FsErrorView, FsOutcome, FsType,
    MountOptions, MountOptionsView, MountPoint,
};
use crate::filesystem::{mount_points, paths};
use crate::path::{join, joined};
use crate::system::{
    done_of, flag_of, names_of, outcome, output_of, MountFlag, MountFlags, ReplyView, Request, RequestView, Session,
    Stop, Transcript,
};
use crate::text::list3;

verus! {

/// cp command for copying directory contents (preserves attributes via -a)
pub const CP_CMD: &'static str = "/bin/cp";

/// The kernel ignores the mount source for overlayfs, but the mount syscall
/// requires a non-empty string. Using the literal "overlay" is conventional
/// and matches what the `mount` command would produce.
pub const OVERLAY_MOUNT_SOURCE: &'static str = "overlay";

/// Directory names for overlay layers
pub const UPPER: &'static str = "upper";

pub const WORK: &'static str = "work";

/// The error of an overlay at `target`.
pub open spec fn overlay_failed(target: Seq<char>, reason: Seq<char>) -> FsErrorView {
    FilesystemError::OverlayFailed { target, reason }
}

/// Makes sure that there is a directory at `path`.
pub open spec fn dir_ensured(t: Transcript, path: Seq<char>) -> (Transcript, FsOutcome<()>) {
    let t1 = t.ask(Request::Exists(path));
    match t.next() {
        None => (t1, Err(Stop::Pending)),
        Some(there) => if flag_of(there) {
            (t1, Ok(()))
        } else {
            (
                t1.ask(Request::CreateDir(path)),
                match t1.next() {
                    None => Err(Stop::Pending),
                    Some(reply) => match done_of(reply) {
                        Ok(_) => Ok(()),
                        Err(e) => Err(
                            Stop::Failed(overlay_failed(path, "Failed to create directory: "@ + e.text())),
                        ),
                    },
                },
            )
        },
    }
}

/// Ensure a directory exists, creating it if necessary
pub fn ensure_dir(path: &str, sys: &mut Session) -> (r: Result<(), Stop<FilesystemError>>)
    ensures
        (final(sys)@, outcome(r)) == dir_ensured(old(sys)@, path@),
{
    match sys.query(Request::Exists(path.to_owned())) {
        None => Err(Stop::Pending),
        Some(true) => Ok(()),
        Some(false) => match sys.perform(Request::CreateDir(path.to_owned())) {
            None => Err(Stop::Pending),
            Some(Ok(())) => Ok(()),
            Some(Err(e)) => Err(
                Stop::Failed(
                    FilesystemError::OverlayFailed {
                        target: path.to_owned(),
                        reason: concat2("Failed to create directory: ", e.to_string().as_str()),
                    },
                ),
            ),
        },
    }
}

/// Makes sure that two directories are there.
pub open spec fn dirs_ensured(t: Transcript, first: Seq<char>, second: Seq<char>) -> (Transcript, FsOutcome<()>) {
    match dir_ensured(t, first) {
        (t1, Err(e)) => (t1, Err(e)),
        (t1, Ok(_)) => dir_ensured(t1, second),
    }
}

/// Ensure overlay directories (upper and work) exist
pub fn ensure_overlay_dirs(upper: &str, work: &str, sys: &mut Session) -> (r: Result<(), Stop<FilesystemError>>)
    ensures
        (final(sys)@, outcome(r)) == dirs_ensured(old(sys)@, upper@, work@),
{
    match ensure_dir(upper, sys) {
        Err(e) => Err(e),
        Ok(()) => ensure_dir(work, sys),
    }
}

/// Whether there is nothing in the directory at `path`, or no directory.
pub open spec fn emptiness(t: Transcript, path: Seq<char>) -> (Transcript, FsOutcome<bool>) {
    let t1 = t.ask(Request::Exists(path));
    match t.next() {
        None => (t1, Err(Stop::Pending)),
        Some(there) => if !flag_of(there) {
            (t1, Ok(true))
        } else {
            (
                t1.ask(Request::ListDir(path)),
                match t1.next() {
                    None => Err(Stop::Pending),
                    Some(reply) => match names_of(reply) {
                        Ok((names, failed)) => Ok(names.len() == 0 && failed is None),
                        Err(e) => Err(
                            Stop::Failed(overlay_failed(path, "Failed to read directory: "@ + e.text())),
                        ),
                    },
                },
            )
        },
    }
}

/// Check if a directory is empty
pub fn is_directory_empty(path: &str, sys: &mut Session) -> (r: Result<bool, Stop<FilesystemError>>)
    ensures
        (final(sys)@, outcome(r)) == emptiness(old(sys)@, path@),
{
    match sys.query(Request::Exists(path.to_owned())) {
        None => Err(Stop::Pending),
        Some(false) => Ok(true),
        Some(true) => match sys.list(Request::ListDir(path.to_owned())) {
            None => Err(Stop::Pending),
            Some(Ok((names, failed))) => Ok(names.len() == 0 && failed.is_none()),
            Some(Err(e)) => Err(
                Stop::Failed(
                    FilesystemError::OverlayFailed {
                        target: path.to_owned(),
                        reason: concat2("Failed to read directory: ", e.to_string().as_str()),
                    },
                ),
            ),
        },
    }
}

/// The request that copies what is in `src` to `dst`.
pub open spec fn copy_request(src: Seq<char>, dst: Seq<char>) -> RequestView {
    Request::Run { program: CP_CMD@, args: seq!["-a"@, src + "/."@, dst] }
}

/// What a run of cp says about a copy to `dst`.
pub open spec fn copy_verdict(dst: Seq<char>, reply: ReplyView) -> Result<(), FsErrorView> {
    match output_of(reply) {
        Err(e) => Err(overlay_failed(dst, "Failed to execute cp: "@ + e.text())),
        Ok(out) => if out.succeeded() {
            Ok(())
        } else {
            Err(overlay_failed(dst, "cp failed: "@ + out.stderr))
        },
    }
}

/// Copies what is in `src` to `dst`, if `src` is there.
pub open spec fn contents_copied(t: Transcript, src: Seq<char>, dst: Seq<char>) -> (Transcript, FsOutcome<()>) {
    let t1 = t.ask(Request::Exists(src));
    match t.next() {
        None => (t1, Err(Stop::Pending)),
        Some(there) => if !flag_of(there) {
            (t1, Ok(()))
        } else {
            (
                t1.ask(copy_request(src, dst)),
                match t1.next() {
                    None => Err(Stop::Pending),
                    Some(reply) => match copy_verdict(dst, reply) {
                        Ok(_) => Ok(()),
                        Err(e) => Err(Stop::Failed(e)),
                    },
                },
            )
        },
    }
}

/// Copy contents of one directory to another
///
/// Uses `cp -a` for proper attribute preservation.
pub fn copy_directory_contents(src: &str, dst: &str, sys: &mut Session) -> (r: Result<(), Stop<FilesystemError>>)
    ensures
        (final(sys)@, outcome(r)) == contents_copied(old(sys)@, src@, dst@),
{
    match sys.query(Request::Exists(src.to_owned())) {
        None => {
            return Err(Stop::Pending);
        },
        Some(false) => {
            return Ok(());
        },
        Some(true) => {},
    }
    // Use cp -a to preserve all attributes
    let args = list3("-a", concat2(src, "/.").as_str(), dst);
    match sys.run(Request::Run { program: String::from_str(CP_CMD), args }) {
        None => Err(Stop::Pending),
        Some(Err(e)) => Err(
            Stop::Failed(
                FilesystemError::OverlayFailed {
                    target: dst.to_owned(),
                    reason: concat2("Failed to execute cp: ", e.to_string().as_str()),
                },
            ),
        ),
        Some(Ok(out)) => {
            if out.success() {
                Ok(())
            } else {
                Err(
                    Stop::Failed(
                        FilesystemError::OverlayFailed {
                            target: dst.to_owned(),
                            reason: concat2("cp failed: ", out.stderr.as_str()),
                        },
                    ),
                )
            }
        },
    }
}

/// The options of an overlay.
pub open spec fn overlay_data(lower: Seq<char>, upper: Seq<char>, work: Seq<char>) -> Seq<char> {
    "lowerdir="@ + lower + ",upperdir="@ + upper + (",workdir="@ + work + ",index=off,uuid=off"@)
}

/// How an overlay is mounted.
pub open spec fn overlay_options(data: Seq<char>) -> MountOptionsView {
    MountOptions {
        fstype: Some(FsType::Overlay),
        flags: MountFlags::none().plus(MountFlag::NoAtime).plus(MountFlag::NoDirAtime),
        data: Some(data),
    }
}

/// Mounts an overlay.
pub open spec fn overlaid(t: Transcript, lower: Seq<char>, upper: Seq<char>, work: Seq<char>, target: Seq<char>) -> (
    Transcript,
    FsOutcome<()>,
) {
    let data = overlay_data(lower, upper, work);
    match mounted(t, mount_point(OVERLAY_MOUNT_SOURCE@, target, overlay_options(data))) {
        (t1, Err(Stop::Failed(e))) => (
            t1,
            Err(Stop::Failed(overlay_failed(target, e.text() + ": options="@ + data))),
        ),
        other => other,
    }
}

/// Mount an overlayfs
pub fn mount_overlay(lower: &str, upper: &str, work: &str, target: &str, sys: &mut Session) -> (r: Result<
    (),
    Stop<FilesystemError>,
>)
    ensures
        (final(sys)@, outcome(r)) == overlaid(old(sys)@, lower@, upper@, work@, target@),
{
    let options = concat2(
        concat4("lowerdir=", lower, ",upperdir=", upper).as_str(),
        concat3(",workdir=", work, ",index=off,uuid=off").as_str(),
    );
    let mount_opts = MountOptions {
        fstype: Some(FsType::Overlay),
        flags: MountFlags::empty().with(MountFlag::NoAtime).with(MountFlag::NoDirAtime),
        data: Some(options.clone()),
    };
    match mount(MountPoint::new(OVERLAY_MOUNT_SOURCE, target, mount_opts), sys) {
        Ok(()) => Ok(()),
        Err(Stop::Pending) => Err(Stop::Pending),
        Err(Stop::Failed(e)) => Err(
            Stop::Failed(
                FilesystemError::OverlayFailed {
                    target: target.to_owned(),
                    reason: concat3(e.to_string().as_str(), ": options=", options.as_str()),
                },
            ),
        ),
    }
}

/// Fills an empty upper layer with the factory defaults.
pub open spec fn upper_seeded(t: Transcript, upper: Seq<char>, factory: Seq<char>) -> (Transcript, FsOutcome<()>) {
    match emptiness(t, upper) {
        (t1, Err(e)) => (t1, Err(e)),
        (t1, Ok(true)) => contents_copied(t1, factory, upper),
        (t1, Ok(false)) => (t1, Ok(())),
    }
}

/// Sets up the overlay for etc, and adds it to `mounts` once it is mounted.
#[verifier::opaque]
pub open spec fn etc_overlaid(t: Transcript, mounts: Seq<Seq<char>>, rootfs: Seq<char>) -> (
    Transcript,
    Seq<Seq<char>>,
    FsOutcome<()>,
) {
    let etc_mount = joined(rootfs, mount_points::ETC_PARTITION@);
    let upper = joined(etc_mount, UPPER@);
    let work = joined(etc_mount, WORK@);
    let target = joined(rootfs, paths::ETC@);
    let factory = joined(joined(rootfs, mount_points::FACTORY_PARTITION@), paths::ETC@);
    match dirs_ensured(t, upper, work) {
        (t1, Err(e)) => (t1, mounts, Err(e)),
        (t1, Ok(_)) => match upper_seeded(t1, upper, factory) {
            (t2, Err(e)) => (t2, mounts, Err(e)),
            (t2, Ok(_)) => match overlaid(t2, target, upper, work, target) {
                (t3, Err(e)) => (t3, mounts, Err(e)),
                (t3, Ok(_)) => (t3, mounts.push(target), Ok(())),
            },
        },
    }
}

fn track(mounts: &mut Vec<String>, target: String)
    ensures
        final(mounts).deep_view() == old(mounts).deep_view().push(target@),
{
    mounts.push(target);
    assert(mounts.deep_view() =~= old(mounts).deep_view().push(target@));
}

/// Like `setup_etc_overlay`, and tracks the mount in `mounts` for later cleanup via
/// `unmount_tracked`.
pub fn setup_etc_overlay_tracked(rootfs_dir: &str, mounts: &mut Vec<String>, sys: &mut Session) -> (r: Result<
    (),
    Stop<FilesystemError>,
>)
    ensures
        (final(sys)@, final(mounts).deep_view(), outcome(r)) == etc_overlaid(
            old(sys)@,
            old(mounts).deep_view(),
            rootfs_dir@,
        ),
{
    reveal(etc_overlaid);
    let etc_mount = join(rootfs_dir, mount_points::ETC_PARTITION);
    let factory_mount = join(rootfs_dir, mount_points::FACTORY_PARTITION);
    // Overlay directories
    let upper_dir = join(etc_mount.as_str(), UPPER);
    let work_dir = join(etc_mount.as_str(), WORK);
    let target = join(rootfs_dir, paths::ETC);
    // Factory etc is only used for first-boot initialization
    let factory_etc = join(factory_mount.as_str(), paths::ETC);
    // Ensure directories exist
    match ensure_overlay_dirs(upper_dir.as_str(), work_dir.as_str(), sys) {
        Err(e) => {
            return Err(e);
        },
        Ok(()) => {},
    }
    // Check if this is first boot (upper is empty).
    match is_directory_empty(upper_dir.as_str(), sys) {
        Err(e) => {
            return Err(e);
        },
        Ok(true) => match copy_directory_contents(factory_etc.as_str(), upper_dir.as_str(), sys) {
            Err(e) => {
                return Err(e);
            },
            Ok(()) => {},
        },
        Ok(false) => {},
    }
    // Mount the overlay
    match mount_overlay(target.as_str(), upper_dir.as_str(), work_dir.as_str(), target.as_str(), sys) {
        Err(e) => Err(e),
        Ok(()) => {
            track(mounts, target);
            Ok(())
        },
    }
}

/// Setup the etc partition with overlayfs
///
/// Creates an overlay where:
/// - Lower layer: rootfs/etc (read-only from current OS)
/// - Upper layer: mnt/etc/upper (persistent changes)
/// - Work dir: mnt/etc/work
/// - Target: rootfs/etc
pub fn setup_etc_overlay(rootfs_dir: &str, sys: &mut Session) -> (r: Result<(), Stop<FilesystemError>>)
    ensures
        ({
            let s = etc_overlaid(old(sys)@, Seq::empty(), rootfs_dir@);
            (final(sys)@, outcome(r)) == (s.0, s.2)
        }),
{
    let mut mounts: Vec<String> = Vec::new();
    assert(mounts.deep_view() =~= Seq::<Seq<char>>::empty());
    setup_etc_overlay_tracked(rootfs_dir, &mut mounts, sys)
}

/// Sets up the overlay for home, and adds it to `mounts` once it is mounted.
pub open spec fn home_overlaid(t: Transcript, mounts: Seq<Seq<char>>, rootfs: Seq<char>, data: Seq<char>) -> (
    Transcript,
    Seq<Seq<char>>,
    FsOutcome<()>,
) {
    let home = joined(data, paths::HOME@);
    let upper = joined(home, UPPER@);
    let work = joined(home, WORK@);
    let target = joined(rootfs, paths::HOME@);
    match dir_ensured(t, home) {
        (t1, Err(e)) => (t1, mounts, Err(e)),
        (t1, Ok(_)) => match dirs_ensured(t1, upper, work) {
            (t2, Err(e)) => (t2, mounts, Err(e)),
            (t2, Ok(_)) => match overlaid(t2, target, upper, work, target) {
                (t3, Err(e)) => (t3, mounts, Err(e)),
                (t3, Ok(_)) => (t3, mounts.push(target), Ok(())),
            },
        },
    }
}

/// Setup home directory overlay
fn setup_home_overlay(rootfs: &str, data_mount: &str, mounts: &mut Vec<String>, sys: &mut Session) -> (r: Result<
    (),
    Stop<FilesystemError>,
>)
    ensures
        (final(sys)@, final(mounts).deep_view(), outcome(r)) == home_overlaid(
            old(sys)@,
            old(mounts).deep_view(),
            rootfs@,
            data_mount@,
        ),
{
    let home_data = join(data_mount, paths::HOME);
    let upper_dir = join(home_data.as_str(), UPPER);
    let work_dir = join(home_data.as_str(), WORK);
    let target = join(rootfs, paths::HOME);
    // Ensure directories exist
    match ensure_dir(home_data.as_str(), sys) {
        Err(e) => {
            return Err(e);
        },
        Ok(()) => {},
    }
    match ensure_overlay_dirs(upper_dir.as_str(), work_dir.as_str(), sys) {
        Err(e) => {
            return Err(e);
        },
        Ok(()) => {},
    }
    // Mount the overlay with rootfs/home as lower layer
    match mount_overlay(target.as_str(), upper_dir.as_str(), work_dir.as_str(), target.as_str(), sys) {
        Err(e) => Err(e),
        Ok(()) => {
            track(mounts, target);
            Ok(())
        },
    }
}

/// Binds `source` to `target`, and adds it to `mounts` once it is mounted.
pub open spec fn bound(t: Transcript, mounts: Seq<Seq<char>>, source: Seq<char>, target: Seq<char>) -> (
    Transcript,
    Seq<Seq<char>>,
    FsOutcome<()>,
) {
    match dirs_ensured(t, source, target) {
        (t1, Err(e)) => (t1, mounts, Err(e)),
        (t1, Ok(_)) => match mounted(t1, bind_at(source, target)) {
            (t2, Err(e)) => (t2, mounts, Err(e)),
            (t2, Ok(_)) => (t2, mounts.push(target), Ok(())),
        },
    }
}

/// Bind mount source -> target, creating both dirs if needed.
fn bind_mount(source: &str, target: String, mounts: &mut Vec<String>, sys: &mut Session) -> (r: Result<
    (),
    Stop<FilesystemError>,
>)
    ensures
        (final(sys)@, final(mounts).deep_view(), outcome(r)) == bound(
            old(sys)@,
            old(mounts).deep_view(),
            source@,
            target@,
        ),
{
    match ensure_overlay_dirs(source, target.as_str(), sys) {
        Err(e) => {
            return Err(e);
        },
        Ok(()) => {},
    }
    match mount_bind(source, target.as_str(), sys) {
        Err(e) => Err(e),
        Ok(()) => {
            track(mounts, target);
            Ok(())
        },
    }
}

/// Sets up the overlay for home and the bind mounts of the data partition.
#[verifier::opaque]
pub open spec fn data_overlaid(t: Transcript, mounts: Seq<Seq<char>>, rootfs: Seq<char>, persistent_var_log: bool) -> (
    Transcript,
    Seq<Seq<char>>,
    FsOutcome<()>,
) {
    let data = joined(rootfs, mount_points::DATA_PARTITION@);
    match home_overlaid(t, mounts, rootfs, data) {
        (t1, m1, Err(e)) => (t1, m1, Err(e)),
        (t1, m1, Ok(_)) => match bound(t1, m1, joined(data, paths::VAR_LIB@), joined(rootfs, paths::VAR_LIB@)) {
            (t2, m2, Err(e)) => (t2, m2, Err(e)),
            (t2, m2, Ok(_)) => match bound(
                t2,
                m2,
                joined(data, paths::DATA_LOCAL_DIR@),
                joined(rootfs, paths::USR_LOCAL@),
            ) {
                (t3, m3, Err(e)) => (t3, m3, Err(e)),
                (t3, m3, Ok(_)) => if persistent_var_log {
                    bound(t3, m3, joined(data, paths::VAR_LOG@), joined(rootfs, paths::VAR_LOG@))
                } else {
                    (t3, m3, Ok(()))
                },
            },
        },
    }
}

/// Like `setup_data_overlay`, and tracks the mounts in `mounts` for later cleanup via
/// `unmount_tracked`.
pub fn setup_data_overlay_tracked(
    rootfs_dir: &str,
    persistent_var_log: bool,
    mounts: &mut Vec<String>,
    sys: &mut Session,
) -> (r: Result<(), Stop<FilesystemError>>)
    ensures
        (final(sys)@, final(mounts).deep_view(), outcome(r)) == data_overlaid(
            old(sys)@,
            old(mounts).deep_view(),
            rootfs_dir@,
            persistent_var_log,
        ),
{
    reveal(data_overlaid);
    let data_mount = join(rootfs_dir, mount_points::DATA_PARTITION);
    let data_mount = data_mount.as_str();
    match setup_home_overlay(rootfs_dir, data_mount, mounts, sys) {
        Err(e) => {
            return Err(e);
        },
        Ok(()) => {},
    }
    match bind_mount(
        join(data_mount, paths::VAR_LIB).as_str(),
        join(rootfs_dir, paths::VAR_LIB),
        mounts,
        sys,
    ) {
        Err(e) => {
            return Err(e);
        },
        Ok(()) => {},
    }
    // data partition uses a "local" subdir instead of "usr/local"
    match bind_mount(
        join(data_mount, paths::DATA_LOCAL_DIR).as_str(),
        join(rootfs_dir, paths::USR_LOCAL),
        mounts,
        sys,
    ) {
        Err(e) => {
            return Err(e);
        },
        Ok(()) => {},
    }
    if persistent_var_log {
        return bind_mount(
            join(data_mount, paths::VAR_LOG).as_str(),
            join(rootfs_dir, paths::VAR_LOG),
            mounts,
            sys,
        );
    }
    Ok(())
}

/// Setup the data partition with home overlayfs and bind mounts
///
/// Creates:
/// - Overlay for /home (rootfs/home lower, data/home/upper upper)
/// - Bind mount: data/var/lib -> rootfs/var/lib
/// - Bind mount: data/local -> rootfs/usr/local
/// - Conditional: data/var/log -> rootfs/var/log (images with a persistent /var/log)
pub fn setup_data_overlay(rootfs_dir: &str, persistent_var_log: bool, sys: &mut Session) -> (r: Result<
    (),
    Stop<FilesystemError>,
>)
    ensures
        ({
            let s = data_overlaid(old(sys)@, Seq::empty(), rootfs_dir@, persistent_var_log);
            (final(sys)@, outcome(r)) == (s.0, s.2)
        }),
{
    let mut mounts: Vec<String> = Vec::new();
    assert(mounts.deep_view() =~= Seq::<Seq<char>>::empty());
    setup_data_overlay_tracked(rootfs_dir, persistent_var_log, &mut mounts, sys)
}

/// Makes the raw rootfs visible at its own mount point.
pub open spec fn raw_rootfs_mounted(t: Transcript, rootfs: Seq<char>) -> (Transcript, FsOutcome<()>) {
    let raw = joined(rootfs, mount_points::ROOT_CURRENT_PRIVATE@);
    match dir_ensured(t, raw) {
        (t1, Err(e)) => (t1, Err(e)),
        (t1, Ok(_)) => bound_private(t1, rootfs, raw),
    }
}

/// Setup raw rootfs bind mount (must be called BEFORE overlays)
///
/// Creates a private bind mount at /mnt/rootCurrentPrivate that provides
/// access to the raw rootfs without overlay modifications.
pub fn setup_raw_rootfs_mount(rootfs_dir: &str, sys: &mut Session) -> (r: Result<(), Stop<FilesystemError>>)
    ensures
        (final(sys)@, outcome(r)) == raw_rootfs_mounted(old(sys)@, rootfs_dir@),
{
    let raw_mount = join(rootfs_dir, mount_points::ROOT_CURRENT_PRIVATE);
    match ensure_dir(raw_mount.as_str(), sys) {
        Err(e) => Err(e),
        // Private bind mount isolates propagation so overlay mounts on top
        // don't bleed into this raw view of rootfs.
        Ok(()) => mount_bind_private(rootfs_dir, raw_mount.as_str(), sys),
    }
}

/// What was tracked before an overlay is set up stays tracked, in its place.
pub proof fn law_tracking_only_adds(t: Transcript, mounts: Seq<Seq<char>>, rootfs: Seq<char>, persistent_var_log: bool)
    ensures
        mounts.is_prefix_of(etc_overlaid(t, mounts, rootfs).1),
        mounts.is_prefix_of(data_overlaid(t, mounts, rootfs, persistent_var_log).1),
{
    reveal(etc_overlaid);
    reveal(data_overlaid);
}

} // verus!
