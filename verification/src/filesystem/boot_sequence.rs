//! Boot-sequence mount and fsck orchestration
//!
//! These functions coordinate partition mounting and fsck result persistence
//! during initramfs startup.

use vstd::prelude::*;
use vstd::string::*;

use crate::bootloader::mock::MockView;
use crate::bootloader::{tolerate, tolerated, BootEnv, MockBootEnv};
use crate::error::{
    concat2, concat3, concat4, io_step, or_pending, perform_io, step_of, FilesystemError, InitErrorView, InitOutcome,
    InitramfsError, IoError, PartitionError,
};
use crate::filesystem::fsck::{check_filesystem_lenient, checked_leniently};
use crate::filesystem::mount::{
    is_path_mounted, mount, mount_checked, mount_point, mount_tmpfs, mounted, options_of, tmpfs_at, FsOutcome, FsType,
    MountOptions, MountOptionsView, MountPoint,
};
use crate::filesystem::{mount_points, FsckExitCode};
use crate::partition::layout::LayoutView;
use crate::partition::{PartitionLayout, PartitionName};
use crate::path::{join, joined};
use crate::runtime::status::{distinct_partitions, law_recording, FsckStatus, FsckView, OdsStatus, OdsView};
use crate::system::{done_of, outcome, warned, IoErrorView, MountFlag, MountFlags, Request, Session, Stop, Transcript};

verus! {

/// Subdirectory within the data partition where fsck logs are written.
pub const FSCK_LOG_SUBDIR: &'static str = "var/log/fsck";

/// How a filesystem operation ended, as the outcome of a boot procedure.
pub open spec fn fs_lifted<T>(r: FsOutcome<T>) -> InitOutcome<T> {
    match r {
        Ok(x) => Ok(x),
        Err(Stop::Pending) => Err(Stop::Pending),
        Err(Stop::Failed(e)) => Err(Stop::Failed(InitramfsError::Filesystem(e))),
    }
}

/// How a filesystem operation ended, as the outcome of a boot procedure.
pub fn lift_fs<T>(r: Result<T, Stop<FilesystemError>>) -> (s: Result<T, Stop<InitramfsError>>)
    ensures
        match r {
            Ok(x) => s == Ok::<T, Stop<InitramfsError>>(x),
            Err(Stop::Pending) => s == Err::<T, Stop<InitramfsError>>(Stop::Pending),
            Err(Stop::Failed(e)) => s == Err::<T, Stop<InitramfsError>>(
                Stop::Failed(InitramfsError::Filesystem(e)),
            ),
        },
{
    match r {
        Ok(x) => Ok(x),
        Err(Stop::Pending) => Err(Stop::Pending),
        Err(Stop::Failed(e)) => Err(Stop::Failed(InitramfsError::Filesystem(e))),
    }
}

/// Checks a partition and records the result, also where it asks for a reboot.
pub open spec fn checked_and_recorded(t: Transcript, o: OdsView, dev: Seq<char>, name: PartitionName, fstype: FsType) -> (
    Transcript,
    OdsView,
    FsOutcome<()>,
) {
    match checked_leniently(t, dev, fstype) {
        (t1, Ok(r)) => (t1, o.recording(name, r.exit_code, r.output), Ok(())),
        (t1, Err(Stop::Failed(FilesystemError::FsckRequiresReboot { device, code, output }))) => (
            t1,
            o.recording(name, code, output),
            Err(Stop::Failed(FilesystemError::FsckRequiresReboot { device, code, output })),
        ),
        (t1, Err(e)) => (t1, o, Err(e)),
    }
}

/// Run fsck on a partition and record the result (including output) in `ods_status`.
///
/// Records the result even when fsck reports errors (exit ≥ 4) and does not fail
/// the boot: proceeding despite fsck errors is preferable to an unrecoverable
/// brick on an embedded device without physical access. The full fsck result is
/// persisted via `OdsStatus` (→ boot env + `/data/var/log/fsck/<partition>.log`)
/// so ODS can act on it at runtime — independent of `OdsStatus.degraded_boot`,
/// which is reserved for the env-unavailable condition.
///
/// Intercepts `FsckRequiresReboot` to save the output before propagating, ensuring
/// it is available for persistence even when mounting is aborted early.
pub fn fsck_and_record(dev: &str, name: PartitionName, ods_status: &mut OdsStatus, fstype: FsType, sys: &mut Session) -> (r:
    Result<(), Stop<FilesystemError>>)
    ensures
        (final(sys)@, final(ods_status)@, outcome(r)) == checked_and_recorded(
            old(sys)@,
            old(ods_status)@,
            dev@,
            name,
            fstype,
        ),
{
    match check_filesystem_lenient(dev, fstype, sys) {
        Ok(r) => {
            ods_status.record_fsck_result(name, r.exit_code, r.output);
            Ok(())
        },
        Err(Stop::Failed(FilesystemError::FsckRequiresReboot { device, code, output })) => {
            ods_status.record_fsck_result(name, code, output.clone());
            Err(Stop::Failed(FilesystemError::FsckRequiresReboot { device, code, output }))
        },
        Err(e) => Err(e),
    }
}

/// Checks a partition, then mounts it.
pub open spec fn checked_and_mounted(
    t: Transcript,
    o: OdsView,
    dev: Seq<char>,
    name: PartitionName,
    fstype: FsType,
    target: Seq<char>,
    options: MountOptionsView,
) -> (Transcript, OdsView, InitOutcome<()>) {
    match checked_and_recorded(t, o, dev, name, fstype) {
        (t1, o1, Err(e)) => (t1, o1, fs_lifted(Err::<(), _>(e))),
        (t1, o1, Ok(_)) => {
            let r = mounted(t1, mount_point(dev, target, options));
            (r.0, o1, fs_lifted(r.1))
        },
    }
}

fn check_and_mount(
    dev: &str,
    name: PartitionName,
    fstype: FsType,
    target: &str,
    options: MountOptions,
    ods_status: &mut OdsStatus,
    sys: &mut Session,
) -> (r: Result<(), Stop<InitramfsError>>)
    ensures
        (final(sys)@, final(ods_status)@, outcome(r)) == checked_and_mounted(
            old(sys)@,
            old(ods_status)@,
            dev@,
            name,
            fstype,
            target@,
            options@,
        ),
{
    match fsck_and_record(dev, name, ods_status, fstype, sys) {
        Err(e) => {
            return lift_fs(Err(e));
        },
        Ok(()) => {},
    }
    lift_fs(mount(MountPoint::new(dev, target, options), sys))
}

/// How the read-only partitions are mounted.
pub open spec fn readonly_options() -> MountOptionsView {
    options_of(Some(FsType::Ext4), MountFlags::none().plus(MountFlag::RdOnly)).plus(MountFlag::NoAtime).plus(
        MountFlag::NoDirAtime,
    )
}

/// How the writable partitions are mounted.
pub open spec fn writable_options() -> MountOptionsView {
    options_of(Some(FsType::Ext4), MountFlags::none()).plus(MountFlag::NoAtime).plus(MountFlag::NoDirAtime)
}

/// How the boot partition is mounted.
pub open spec fn boot_options() -> MountOptionsView {
    options_of(Some(FsType::Vfat), MountFlags::none())
}

/// The error of a layout without a current root.
pub open spec fn no_root() -> InitErrorView {
    InitramfsError::Partition(
        PartitionError::DeviceDetection("rootCurrent not found in partition map; cannot mount rootfs"@),
    )
}

/// The error of a boot partition that is mounted already.
pub open spec fn boot_already_mounted(dev: Seq<char>, target: Seq<char>) -> InitErrorView {
    InitramfsError::Filesystem(
        FilesystemError::MountFailed {
            src_path: dev,
            target,
            reason: "boot partition already mounted at start of mount_core_partitions"@,
        },
    )
}

/// Mounts the boot partition, if the layout has one.
pub open spec fn boot_mounted(t: Transcript, o: OdsView, layout: LayoutView, rootfs: Seq<char>) -> (
    Transcript,
    OdsView,
    InitOutcome<()>,
) {
    match layout.at(PartitionName::Boot) {
        None => (t, o, Ok(())),
        Some(dev) => {
            let target = joined(rootfs, mount_points::BOOT@);
            match mount_checked(t, target) {
                (t1, Err(e)) => (t1, o, fs_lifted(Err::<(), _>(e))),
                (t1, Ok(true)) => (t1, o, Err(Stop::Failed(boot_already_mounted(dev, target)))),
                (t1, Ok(false)) => checked_and_mounted(
                    t1,
                    o,
                    dev,
                    PartitionName::Boot,
                    FsType::Vfat,
                    target,
                    boot_options(),
                ),
            }
        },
    }
}

/// Mounts the current root and the boot partition.
pub open spec fn core_mounted(t: Transcript, o: OdsView, layout: LayoutView, rootfs: Seq<char>) -> (
    Transcript,
    OdsView,
    InitOutcome<()>,
) {
    match layout.at(PartitionName::RootCurrent) {
        None => (t, o, Err(Stop::Failed(no_root()))),
        Some(root) => match io_step(
            t,
            Request::CreateDir(rootfs),
            "Failed to create rootfs mount point "@ + rootfs + ": "@,
        ) {
            (t1, Err(e)) => (t1, o, Err(e)),
            (t1, Ok(_)) => match mounted(t1, mount_point(root, rootfs, readonly_options())) {
                (t2, Err(e)) => (t2, o, fs_lifted(Err::<(), _>(e))),
                (t2, Ok(_)) => boot_mounted(t2, o, layout, rootfs),
            },
        },
    }
}

/// Mount the core partitions required before the bootloader environment can be opened.
///
/// Mounts rootCurrent (read-only) and boot (read-write). Must be called before
/// `open_boot_env()` — the boot partition must be present when the bootloader
/// environment is opened. `mount_remaining_partitions` must be called afterward
/// to complete the full partition mount sequence.
///
/// # Errors
///
/// Returns `FilesystemError::FsckRequiresReboot` if the boot partition fsck
/// determines a clean reboot is needed before the filesystem can be safely used.
/// In that case `ods_status` already holds the fsck diagnostic (recorded by
/// `fsck_and_record`). The caller must persist `ods_status` to the bootloader
/// environment before propagating this error, or the diagnostic is lost on
/// the subsequent reboot.
pub fn mount_core_partitions(layout: &PartitionLayout, rootfs: &str, ods_status: &mut OdsStatus, sys: &mut Session) -> (r:
    Result<(), Stop<InitramfsError>>)
    ensures
        (final(sys)@, final(ods_status)@, outcome(r)) == core_mounted(
            old(sys)@,
            old(ods_status)@,
            layout@,
            rootfs@,
        ),
{
    let root_dev = match layout.get(PartitionName::RootCurrent) {
        None => {
            return Err(
                Stop::Failed(
                    InitramfsError::Partition(
                        PartitionError::DeviceDetection(
                            String::from_str("rootCurrent not found in partition map; cannot mount rootfs"),
                        ),
                    ),
                ),
            );
        },
        Some(dev) => dev,
    };
    // The mount target must exist before mount(2) is called. The directory is
    // not baked into the initramfs image — create it here on every boot.
    match perform_io(
        Request::CreateDir(rootfs.to_owned()),
        concat3("Failed to create rootfs mount point ", rootfs, ": ").as_str(),
        sys,
    ) {
        Err(e) => {
            return Err(e);
        },
        Ok(()) => {},
    }
    // rootCurrent is mounted directly without fsck: the kernel's own ext4 journal
    // replay is the correct recovery mechanism. Running fsck -y before mount can
    // interfere with journal replay and cause EUCLEAN on a filesystem that the kernel
    // could have mounted cleanly.
    match mount(
        MountPoint::new(root_dev.as_str(), rootfs, MountOptions::ext4_readonly().noatime().nodiratime()),
        sys,
    ) {
        Err(e) => {
            return lift_fs(Err(e));
        },
        Ok(()) => {},
    }
    // vfat is mounted read-write without noatime/nodiratime: GRUB needs to write
    // grubenv on the boot partition; atime writes are acceptable on vfat.
    match layout.get(PartitionName::Boot) {
        None => Ok(()),
        Some(boot_dev) => {
            let boot_mount = join(rootfs, mount_points::BOOT);
            match is_path_mounted(boot_mount.as_str(), sys) {
                Err(e) => lift_fs(Err(e)),
                // Boot already mounted at this stage is a logic error: mount_core_partitions
                // is called exactly once per boot. If boot is already present something has
                // gone wrong in the boot sequence.
                Ok(true) => Err(
                    Stop::Failed(
                        InitramfsError::Filesystem(
                            FilesystemError::MountFailed {
                                src_path: boot_dev.clone(),
                                target: boot_mount,
                                reason: String::from_str(
                                    "boot partition already mounted at start of mount_core_partitions",
                                ),
                            },
                        ),
                    ),
                ),
                Ok(false) => check_and_mount(
                    boot_dev.as_str(),
                    PartitionName::Boot,
                    FsType::Vfat,
                    boot_mount.as_str(),
                    MountOptions::vfat(),
                    ods_status,
                    sys,
                ),
            }
        },
    }
}

/// Describes one partition mount for `mount_tracked_partition`.
pub struct PartitionMountSpec<'a> {
    pub partition: PartitionName,
    pub mount_point: &'a str,
    pub options: MountOptions,
    pub fstype: FsType,
}

/// Mounts a partition, if the layout has it, and adds its mount point to `mounts`.
pub open spec fn mounted_and_tracked(
    t: Transcript,
    o: OdsView,
    mounts: Seq<Seq<char>>,
    layout: LayoutView,
    rootfs: Seq<char>,
    name: PartitionName,
    point: Seq<char>,
    options: MountOptionsView,
    fstype: FsType,
) -> (Transcript, OdsView, Seq<Seq<char>>, InitOutcome<()>) {
    match layout.at(name) {
        None => (t, o, mounts, Ok(())),
        Some(dev) => match checked_and_mounted(t, o, dev, name, fstype, joined(rootfs, point), options) {
            (t1, o1, Err(e)) => (t1, o1, mounts, Err(e)),
            (t1, o1, Ok(_)) => (t1, o1, mounts.push(joined(rootfs, point)), Ok(())),
        },
    }
}

/// Mount `spec.partition` at `rootfs/spec.mount_point`, if present in
/// `layout`: run fsck, mount it, and track the mount path in `mounts` for
/// later cleanup via `unmount_tracked`.
///
/// A no-op when the partition is absent from the layout.
pub fn mount_tracked_partition(
    layout: &PartitionLayout,
    spec: PartitionMountSpec,
    rootfs: &str,
    ods_status: &mut OdsStatus,
    mounts: &mut Vec<String>,
    sys: &mut Session,
) -> (r: Result<(), Stop<InitramfsError>>)
    ensures
        (final(sys)@, final(ods_status)@, final(mounts).deep_view(), outcome(r)) == mounted_and_tracked(
            old(sys)@,
            old(ods_status)@,
            old(mounts).deep_view(),
            layout@,
            rootfs@,
            spec.partition,
            spec.mount_point@,
            spec.options@,
            spec.fstype,
        ),
{
    let dev = match layout.get(spec.partition) {
        None => {
            return Ok(());
        },
        Some(dev) => dev,
    };
    let mount_path = join(rootfs, spec.mount_point);
    match check_and_mount(
        dev.as_str(),
        spec.partition,
        spec.fstype,
        mount_path.as_str(),
        spec.options,
        ods_status,
        sys,
    ) {
        Err(e) => Err(e),
        Ok(()) => {
            let ghost before = mounts.deep_view();
            mounts.push(mount_path);
            assert(mounts.deep_view() =~= before.push(mount_path@));
            Ok(())
        },
    }
}

/// The warning about a partition that is mounted already.
pub open spec fn leak_warning(name: PartitionName, target: Seq<char>) -> Seq<char> {
    name.text() + " already mounted at "@ + target + "; skipping (unexpected — likely a leaked mount)"@
}

/// Mounts a partition, if the layout has it and it is not mounted yet; where it is, that is
/// warned about.
#[verifier::opaque]
pub open spec fn mounted_unless_there(
    t: Transcript,
    o: OdsView,
    layout: LayoutView,
    rootfs: Seq<char>,
    name: PartitionName,
    point: Seq<char>,
    options: MountOptionsView,
) -> (Transcript, OdsView, InitOutcome<()>) {
    match layout.at(name) {
        None => (t, o, Ok(())),
        Some(dev) => match mount_checked(t, joined(rootfs, point)) {
            (t1, Err(e)) => (t1, o, fs_lifted(Err::<(), _>(e))),
            (t1, Ok(true)) => {
                let (t2, r) = warned(t1, leak_warning(name, joined(rootfs, point)));
                (t2, o, step_of(r))
            },
            (t1, Ok(false)) => checked_and_mounted(
                t1,
                o,
                dev,
                name,
                FsType::Ext4,
                joined(rootfs, point),
                options,
            ),
        },
    }
}

fn mount_unless_there(
    layout: &PartitionLayout,
    rootfs: &str,
    name: PartitionName,
    point: &str,
    options: MountOptions,
    ods_status: &mut OdsStatus,
    sys: &mut Session,
) -> (r: Result<(), Stop<InitramfsError>>)
    ensures
        (final(sys)@, final(ods_status)@, outcome(r)) == mounted_unless_there(
            old(sys)@,
            old(ods_status)@,
            layout@,
            rootfs@,
            name,
            point@,
            options@,
        ),
{
    proof {
        reveal(mounted_unless_there);
    }
    let dev = match layout.get(name) {
        None => {
            return Ok(());
        },
        Some(dev) => dev,
    };
    let target = join(rootfs, point);
    match is_path_mounted(target.as_str(), sys) {
        Err(e) => lift_fs(Err(e)),
        Ok(true) => {
            let warning = concat4(
                name.as_str(),
                " already mounted at ",
                target.as_str(),
                "; skipping (unexpected — likely a leaked mount)",
            );
            or_pending(sys.warn(warning.as_str()))
        },
        Ok(false) => check_and_mount(dev.as_str(), name, FsType::Ext4, target.as_str(), options, ods_status, sys),
    }
}

/// The partitions that are mounted after the core ones, with their mount points and
/// whether they can be written to.
pub open spec fn remaining() -> Seq<(PartitionName, Seq<char>, bool)> {
    seq![
        (PartitionName::Factory, mount_points::FACTORY_PARTITION@, false),
        (PartitionName::Cert, mount_points::CERT_PARTITION@, true),
        (PartitionName::Etc, mount_points::ETC_PARTITION@, true),
        (PartitionName::Data, mount_points::DATA_PARTITION@, true),
    ]
}

/// Mounts the remaining partitions from position `i` on.
pub open spec fn rest_mounted(t: Transcript, o: OdsView, layout: LayoutView, rootfs: Seq<char>, i: int) -> (
    Transcript,
    OdsView,
    InitOutcome<()>,
)
    decreases 4 - i,
{
    if i < 0 || i >= 4 {
        (t, o, Ok(()))
    } else {
        let (name, point, writable) = remaining()[i];
        match mounted_unless_there(
            t,
            o,
            layout,
            rootfs,
            name,
            point,
            if writable {
                writable_options()
            } else {
                readonly_options()
            },
        ) {
            (t1, o1, Err(e)) => (t1, o1, Err(e)),
            (t1, o1, Ok(_)) => rest_mounted(t1, o1, layout, rootfs, i + 1),
        }
    }
}

/// Mounts the remaining partitions, then the volatile directory.
pub open spec fn remaining_mounted(t: Transcript, o: OdsView, layout: LayoutView, rootfs: Seq<char>) -> (
    Transcript,
    OdsView,
    InitOutcome<()>,
) {
    match rest_mounted(t, o, layout, rootfs, 0) {
        (t1, o1, Err(e)) => (t1, o1, Err(e)),
        (t1, o1, Ok(_)) => {
            let r = mounted(t1, tmpfs_at(joined(rootfs, mount_points::VAR_VOLATILE@), MountFlags::none(), None));
            (r.0, o1, fs_lifted(r.1))
        },
    }
}

/// Mount the remaining partitions after the boot env is opened.
///
/// Mounts factory, cert, etc, data, and var/volatile. Must be called after
/// `mount_core_partitions` and after `open_boot_env`. Each mount is skipped
/// if already mounted, guarding against a leaked mount (e.g.
/// from an aborted factory reset) turning into a fatal `MountFailed`.
pub fn mount_remaining_partitions(layout: &PartitionLayout, rootfs: &str, ods_status: &mut OdsStatus, sys: &mut Session) -> (r:
    Result<(), Stop<InitramfsError>>)
    ensures
        (final(sys)@, final(ods_status)@, outcome(r)) == remaining_mounted(
            old(sys)@,
            old(ods_status)@,
            layout@,
            rootfs@,
        ),
{
    proof {
        reveal_with_fuel(rest_mounted, 5);
    }
    match mount_unless_there(
        layout,
        rootfs,
        PartitionName::Factory,
        mount_points::FACTORY_PARTITION,
        MountOptions::ext4_readonly().noatime().nodiratime(),
        ods_status,
        sys,
    ) {
        Err(e) => {
            return Err(e);
        },
        Ok(()) => {},
    }
    // Mount cert partition read-write — initramfs creates ca/ and priv/ subdirs on first boot
    match mount_unless_there(
        layout,
        rootfs,
        PartitionName::Cert,
        mount_points::CERT_PARTITION,
        MountOptions::ext4_readwrite().noatime().nodiratime(),
        ods_status,
        sys,
    ) {
        Err(e) => {
            return Err(e);
        },
        Ok(()) => {},
    }
    // Mount etc partition (for overlay upper)
    match mount_unless_there(
        layout,
        rootfs,
        PartitionName::Etc,
        mount_points::ETC_PARTITION,
        MountOptions::ext4_readwrite().noatime().nodiratime(),
        ods_status,
        sys,
    ) {
        Err(e) => {
            return Err(e);
        },
        Ok(()) => {},
    }
    match mount_unless_there(
        layout,
        rootfs,
        PartitionName::Data,
        mount_points::DATA_PARTITION,
        MountOptions::ext4_readwrite().noatime().nodiratime(),
        ods_status,
        sys,
    ) {
        Err(e) => {
            return Err(e);
        },
        Ok(()) => {},
    }
    // /var/volatile provides a writable mount for volatile data under the read-only rootfs.
    //
    // The initramfs /run tmpfs (mounted by mount_essential_filesystems) is moved
    // into the new root by switch_root using MS_MOVE, so /run is left alone here:
    // mounting a second tmpfs at /rootfs/run would cause EBUSY and lose any files
    // written there (e.g. ODS runtime state).
    let var_volatile = join(rootfs, mount_points::VAR_VOLATILE);
    lift_fs(mount_tmpfs(var_volatile.as_str(), MountFlags::empty(), None, sys))
}

/// The log file of a partition.
pub open spec fn fsck_log_of(log_dir: Seq<char>, partition: PartitionName) -> Seq<char> {
    joined(log_dir, partition.text() + ".log"@)
}

/// Writes the log of a partition.
pub open spec fn log_written(t: Transcript, log_dir: Seq<char>, partition: PartitionName, output: Seq<char>) -> (
    Transcript,
    Result<Seq<char>, Stop<IoErrorView>>,
) {
    let path = fsck_log_of(log_dir, partition);
    (
        t.ask(Request::WriteDurable { path, dir: log_dir, text: output }),
        match t.next() {
            None => Err(Stop::Pending),
            Some(reply) => match done_of(reply) {
                Ok(_) => Ok(path),
                Err(e) => Err(Stop::Failed(e)),
            },
        },
    )
}

/// Write one partition's fsck log and make it durable, directory entry included.
///
/// The `FsckRequiresReboot` path continues with `reboot(2)`, which does not sync,
/// so this is flushed here rather than left to whatever happens to sync next.
pub fn write_fsck_log(log_dir: &str, partition: PartitionName, output: &str, sys: &mut Session) -> (r: Result<
    String,
    Stop<IoError>,
>)
    ensures
        (final(sys)@, outcome(r)) == log_written(old(sys)@, log_dir@, partition, output@),
{
    let log_path = join(log_dir, concat2(partition.as_str(), ".log").as_str());
    match sys.perform(
        Request::WriteDurable { path: log_path.clone(), dir: log_dir.to_owned(), text: output.to_owned() },
    ) {
        None => Err(Stop::Pending),
        Some(Ok(())) => Ok(log_path),
        Some(Err(e)) => Err(Stop::Failed(e)),
    }
}

/// Where the fsck logs go.
pub open spec fn fsck_log_dir(rootfs: Seq<char>) -> Seq<char> {
    joined(joined(rootfs, mount_points::DATA_PARTITION@), FSCK_LOG_SUBDIR@)
}

/// Logs one fsck result on the data partition, if that is mounted and there is something
/// to log. `None` means that an answer is missing; a failure is warned about.
#[verifier::opaque]
pub open spec fn logged(t: Transcript, log_dir: Seq<char>, data_mounted: bool, name: PartitionName, output: Seq<char>) -> (
    Transcript,
    Option<()>,
) {
    if output.len() == 0 {
        (t, Some(()))
    } else if !data_mounted {
        warned(t, "Data partition not mounted; skipping fsck log write for "@ + name.text())
    } else {
        let t1 = t.ask(Request::CreateDir(log_dir));
        match t.next() {
            None => (t1, None),
            Some(reply) => match done_of(reply) {
                Err(e) => warned(t1, "Failed to create fsck log dir "@ + log_dir + ": "@ + e.text()),
                Ok(_) => match log_written(t1, log_dir, name, output) {
                    (t2, Ok(_)) => (t2, Some(())),
                    (t2, Err(Stop::Pending)) => (t2, None),
                    (t2, Err(Stop::Failed(e))) => warned(
                        t2,
                        "Failed to write fsck log for "@ + name.text() + ": "@ + e.text(),
                    ),
                },
            },
        }
    }
}

fn log_fsck(log_dir: &str, data_mounted: bool, name: PartitionName, output: &str, sys: &mut Session) -> (r: Option<()>)
    ensures
        (final(sys)@, r) == logged(old(sys)@, log_dir@, data_mounted, name, output@),
{
    reveal(logged);
    if output.is_empty() {
        return Some(());
    }
    if !data_mounted {
        return sys.warn(
            concat2("Data partition not mounted; skipping fsck log write for ", name.as_str()).as_str(),
        );
    }
    match sys.perform(Request::CreateDir(log_dir.to_owned())) {
        None => None,
        Some(Err(e)) => sys.warn(
            concat4("Failed to create fsck log dir ", log_dir, ": ", e.to_string().as_str()).as_str(),
        ),
        Some(Ok(())) => match write_fsck_log(log_dir, name, output, sys) {
            Ok(_) => Some(()),
            Err(Stop::Pending) => None,
            Err(Stop::Failed(e)) => sys.warn(
                concat4("Failed to write fsck log for ", name.as_str(), ": ", e.to_string().as_str()).as_str(),
            ),
        },
    }
}

/// What is said before the error of a fsck record that could not be saved.
pub open spec fn unsaved_warning(name: PartitionName) -> Seq<char> {
    "Failed to save fsck status for "@ + name.text() + " to bootloader env: "@
}

/// Saves a fsck record in the environment, if there is one. `None` means that an answer is
/// missing; a failure is warned about.
pub open spec fn saved_in<B: BootEnv>(
    t: Transcript,
    s: Option<B::State>,
    name: PartitionName,
    code: FsckExitCode,
    output: Seq<char>,
) -> (Transcript, Option<B::State>, Option<()>) {
    match s {
        Some(s0) => {
            let (t1, s1, r) = B::saves(t, s0, name, code, output);
            let (t2, done) = tolerated(t1, r, unsaved_warning(name), ""@);
            (t2, Some(s1), done)
        },
        None => (t, None, Some(())),
    }
}

/// Persists the fsck results from position `i` on: those that are not clean are saved in
/// the environment and logged on the data partition.
pub open spec fn persisted_from<B: BootEnv>(
    t: Transcript,
    s: Option<B::State>,
    fsck: Seq<(PartitionName, FsckView)>,
    log_dir: Seq<char>,
    data_mounted: bool,
    i: int,
) -> (Transcript, Option<B::State>, Option<()>)
    decreases fsck.len() - i,
{
    if i < 0 || i >= fsck.len() {
        (t, s, Some(()))
    } else {
        let (name, result) = fsck[i];
        if result.code == 0 {
            persisted_from::<B>(t, s, fsck, log_dir, data_mounted, i + 1)
        } else {
            match saved_in::<B>(t, s, name, FsckExitCode(result.code), result.output) {
                (t1, s1, None) => (t1, s1, None),
                (t1, s1, Some(_)) => match logged(t1, log_dir, data_mounted, name, result.output) {
                    (t2, None) => (t2, s1, None),
                    (t2, Some(_)) => persisted_from::<B>(t2, s1, fsck, log_dir, data_mounted, i + 1),
                },
            }
        }
    }
}

/// Persists the fsck results.
pub open spec fn persisted<B: BootEnv>(t: Transcript, s: Option<B::State>, o: OdsView, rootfs: Seq<char>) -> (
    Transcript,
    Option<B::State>,
    Option<()>,
) {
    match mount_checked(t, joined(rootfs, mount_points::DATA_PARTITION@)) {
        (t1, Err(Stop::Pending)) => (t1, s, None),
        (t1, Err(Stop::Failed(_))) => persisted_from::<B>(t1, s, o.fsck, fsck_log_dir(rootfs), false, 0),
        (t1, Ok(data_mounted)) => persisted_from::<B>(t1, s, o.fsck, fsck_log_dir(rootfs), data_mounted, 0),
    }
}

/// Persist fsck results after all partitions are mounted.
///
/// For each partition with a non-zero fsck exit code:
/// - Stores the exit code and full output in the bootloader
///   environment (grubenv / uboot-env), so the record survives a reboot that
///   happens before the ODS status JSON is written. `drain_fsck_env` consumes it.
///   Skipped when `bootloader` is `None` (degraded boot — env unavailable).
/// - Writes the full output to `/data/var/log/fsck/<partition>.log` (written
///   to /rootfs/mnt/data/var/log/fsck/; visible as `/data/var/log/fsck/`
///   after switch_root) so ODS and operators can inspect it after boot.
///   Written regardless of boot env availability when the data partition is mounted.
///
/// No failure is fatal, each is warned about. Returns `None` if an answer is missing.
pub fn persist_fsck_results<B: BootEnv>(
    ods_status: &OdsStatus,
    bootloader: Option<&mut B>,
    rootfs_dir: &str,
    sys: &mut Session,
) -> (r: Option<()>)
    ensures
        match bootloader {
            Some(b) => (final(sys)@, Some(final(b).state()), r) == persisted::<B>(
                old(sys)@,
                Some(b.state()),
                ods_status@,
                rootfs_dir@,
            ),
            None => (final(sys)@, None::<B::State>, r) == persisted::<B>(
                old(sys)@,
                None,
                ods_status@,
                rootfs_dir@,
            ),
        },
{
    // BootEnv save (grubenv or env file) is the primary persistence mechanism
    // and works as long as the boot partition is mounted — which is true even on
    // the FsckRequiresReboot path (boot is mounted before fsck runs).
    //
    // The data partition log is best-effort: it is only mounted when
    // mount_remaining_partitions() succeeds fully, so it may not be available here.
    let data = join(rootfs_dir, mount_points::DATA_PARTITION);
    let log_dir = join(data.as_str(), FSCK_LOG_SUBDIR);
    let data_mounted = match is_path_mounted(data.as_str(), sys) {
        Err(Stop::Pending) => {
            return None;
        },
        Err(Stop::Failed(_)) => false,
        Ok(b) => b,
    };
    let mut bootloader = bootloader;
    let ghost some = bootloader is Some;
    let ghost fin = *final(bootloader->0);
    let ghost s0 = if some {
        Some(bootloader->0.state())
    } else {
        None
    };
    let ghost fsck = ods_status@.fsck;
    let ghost whole = persisted_from::<B>(sys@, s0, fsck, log_dir@, data_mounted, 0);
    let n = ods_status.fsck.len();
    let mut i: usize = 0;
    let mut stalled = false;
    while i < n && !stalled
        invariant
            i <= n,
            n == fsck.len(),
            fsck == ods_status@.fsck,
            n == ods_status.fsck.entries().len(),
            some == (bootloader is Some),
            some ==> *final(bootloader->0) == fin,
            ({
                let s = if some {
                    Some(bootloader->0.state())
                } else {
                    None
                };
                if stalled {
                    (sys@, s, None::<()>) == whole
                } else {
                    persisted_from::<B>(sys@, s, fsck, log_dir@, data_mounted, i as int) == whole
                }
            }),
        decreases n - i,
    {
        let partition = *ods_status.fsck.key_at(i);
        let fsck_status = ods_status.fsck.value_at(i);
        assert(fsck[i as int] == (partition, fsck_status@));
        // `record_fsck_result` already drops clean results, but `OdsStatus::fsck` is a
        // public map — this guard is what stops a direct insert from putting a clean
        // record into the fixed-size env block.
        let exit_code = FsckExitCode(fsck_status.code);
        if !exit_code.is_clean() {
            let saved = match &mut bootloader {
                Some(bl) => {
                    let r = bl.save_fsck_status(partition, exit_code, fsck_status.output.as_str(), sys);
                    let before = concat3("Failed to save fsck status for ", partition.as_str(), " to bootloader env: ");
                    tolerate(r, before.as_str(), "", sys)
                },
                None => Some(()),
            };
            let done = match saved {
                None => None,
                Some(()) => log_fsck(
                    log_dir.as_str(),
                    data_mounted,
                    partition,
                    fsck_status.output.as_str(),
                    sys,
                ),
            };
            stalled = done.is_none();
        }
        i = i + 1;
    }
    if stalled {
        None
    } else {
        Some(())
    }
}

/// What is said of a fsck record that could not be read, before the error.
pub open spec fn unread_warning(partition: PartitionName) -> Seq<char> {
    "Failed to read fsck record for "@ + partition.text() + " from boot env: "@
}

/// What is said of a fsck record that could not be cleared, before the error.
pub open spec fn uncleared_warning(partition: PartitionName) -> Seq<char> {
    "Failed to clear fsck record for "@ + partition.text() + " in boot env: "@
}

/// Moves the fsck record of a partition from the environment to the status. `None` means
/// that an answer is missing; a failure is warned about.
pub open spec fn drained_one<B: BootEnv>(t: Transcript, o: OdsView, s: B::State, partition: PartitionName) -> (
    Transcript,
    OdsView,
    B::State,
    Option<()>,
) {
    match B::recalls(t, s, partition) {
        (t1, s1, Err(Stop::Pending)) => (t1, o, s1, None),
        (t1, s1, Ok(Some((code, output)))) => {
            let (t2, s2, r) = B::clears(t1, s1, partition);
            let (t3, done) = tolerated(t2, r, uncleared_warning(partition), ""@);
            (t3, o.recording(partition, code, output), s2, done)
        },
        (t1, s1, Ok(None)) => (t1, o, s1, Some(())),
        (t1, s1, Err(Stop::Failed(e))) => {
            let (t2, done) = warned(t1, unread_warning(partition) + e.text());
            (t2, o, s1, done)
        },
    }
}

/// Every partition that fsck is run on before it is mounted.
pub open spec fn fsck_partitions() -> Seq<PartitionName> {
    seq![PartitionName::Boot, PartitionName::Factory, PartitionName::Cert, PartitionName::Etc, PartitionName::Data]
}

/// Moves the fsck records from the environment to the status, from position `i` on.
pub open spec fn drained_from<B: BootEnv>(t: Transcript, o: OdsView, s: B::State, i: int) -> (
    Transcript,
    OdsView,
    B::State,
    Option<()>,
)
    decreases 5 - i,
{
    if i < 0 || i >= 5 {
        (t, o, s, Some(()))
    } else {
        match drained_one::<B>(t, o, s, fsck_partitions()[i]) {
            (t1, o1, s1, None) => (t1, o1, s1, None),
            (t1, o1, s1, Some(_)) => drained_from::<B>(t1, o1, s1, i + 1),
        }
    }
}

/// Moves the fsck records from the environment, if there is one, to the status.
pub open spec fn drained<B: BootEnv>(t: Transcript, o: OdsView, s: Option<B::State>) -> (
    Transcript,
    OdsView,
    Option<B::State>,
    Option<()>,
) {
    match s {
        Some(s0) => {
            let (t1, o1, s1, r) = drained_from::<B>(t, o, s0, 0);
            (t1, o1, Some(s1), r)
        },
        None => (t, o, None, Some(())),
    }
}

fn drain_one<B: BootEnv>(ods_status: &mut OdsStatus, bl: &mut B, partition: PartitionName, sys: &mut Session) -> (r:
    Option<()>)
    ensures
        (final(sys)@, final(ods_status)@, final(bl).state(), r) == drained_one::<B>(
            old(sys)@,
            old(ods_status)@,
            old(bl).state(),
            partition,
        ),
{
    match bl.get_fsck_status(partition, sys) {
        Err(Stop::Pending) => None,
        Ok(Some(record)) => {
            ods_status.record_fsck_result(partition, record.exit_code, record.output);
            let r = bl.clear_fsck_status(partition, sys);
            let before = concat3("Failed to clear fsck record for ", partition.as_str(), " in boot env: ");
            tolerate(r, before.as_str(), "", sys)
        },
        Ok(None) => Some(()),
        Err(Stop::Failed(e)) => sys.warn(
            concat4(
                "Failed to read fsck record for ",
                partition.as_str(),
                " from boot env: ",
                e.to_string().as_str(),
            ).as_str(),
        ),
    }
}

/// Move fsck records from the boot env into `ods_status` and clear them there.
///
/// The boot env carries a record across a reboot: a boot that aborts between
/// fsck and the ODS status write leaves it there, and this brings it into the
/// JSON on the boot that follows.
///
/// Call after `persist_fsck_results` and before the ODS status JSON is written.
/// A no-op in degraded boot, where `ods_status` still holds this boot's records.
/// No failure is fatal, each is warned about. Returns `None` if an answer is missing.
pub fn drain_fsck_env<B: BootEnv>(ods_status: &mut OdsStatus, bootloader: Option<&mut B>, sys: &mut Session) -> (r: Option<
    (),
>)
    ensures
        match bootloader {
            Some(b) => (final(sys)@, final(ods_status)@, Some(final(b).state()), r) == drained::<B>(
                old(sys)@,
                old(ods_status)@,
                Some(b.state()),
            ),
            None => (final(sys)@, final(ods_status)@, None::<B::State>, r) == drained::<B>(
                old(sys)@,
                old(ods_status)@,
                None,
            ),
        },
{
    let bl = match bootloader {
        None => {
            return Some(());
        },
        Some(bl) => bl,
    };
    proof {
        reveal_with_fuel(drained_from, 6);
    }
    if drain_one(ods_status, bl, PartitionName::Boot, sys).is_none() {
        return None;
    }
    if drain_one(ods_status, bl, PartitionName::Factory, sys).is_none() {
        return None;
    }
    if drain_one(ods_status, bl, PartitionName::Cert, sys).is_none() {
        return None;
    }
    if drain_one(ods_status, bl, PartitionName::Etc, sys).is_none() {
        return None;
    }
    drain_one(ods_status, bl, PartitionName::Data, sys)
}

/// A fsck that asks for a reboot is in the status by the time the error is returned, and
/// the partition is not mounted.
pub proof fn law_reboot_recorded_before_it_is_reported(
    t: Transcript,
    o: OdsView,
    dev: Seq<char>,
    name: PartitionName,
    fstype: FsType,
    target: Seq<char>,
    options: MountOptionsView,
)
    requires
        distinct_partitions(o.fsck),
        checked_and_recorded(t, o, dev, name, fstype).2 matches Err(Stop::Failed(e)) && e is FsckRequiresReboot,
    ensures
        checked_and_recorded(t, o, dev, name, fstype).2 matches Err(
            Stop::Failed(FilesystemError::FsckRequiresReboot { device, code, output }),
        ) && checked_and_recorded(t, o, dev, name, fstype).1.fsck.contains(
            (name, FsckStatus { code: code.0, output }),
        ),
        checked_and_mounted(t, o, dev, name, fstype, target, options).0 == checked_and_recorded(
            t,
            o,
            dev,
            name,
            fstype,
        ).0,
{
    match checked_and_recorded(t, o, dev, name, fstype).2 {
        Err(Stop::Failed(FilesystemError::FsckRequiresReboot { device, code, output })) => {
            assert(code.wants_reboot());
            let bits = code.0;
            assert(bits == 0i32 ==> bits & 2 == 0) by (bit_vector);
            law_recording(o, name, code, output);
        },
        _ => {},
    }
}

/// Every result in the status is of a partition whose record is drained.
pub open spec fn drainable(o: OdsView) -> bool {
    forall|i: int| 0 <= i < o.fsck.len() ==> fsck_partitions().contains((#[trigger] o.fsck[i]).0)
}

/// Recording the result of a partition whose record is drained.
proof fn lemma_recording_drainable(o: OdsView, partition: PartitionName, code: FsckExitCode, output: Seq<char>)
    requires
        drainable(o),
        fsck_partitions().contains(partition),
    ensures
        drainable(o.recording(partition, code, output)),
{
    let after = o.recording(partition, code, output);
    assert forall|i: int| 0 <= i < after.fsck.len() implies fsck_partitions().contains((#[trigger] after.fsck[i]).0) by {
        if i < o.fsck.len() {
            assert(fsck_partitions().contains(o.fsck[i].0));
        }
    }
}

/// Checking a partition whose record is drained.
proof fn lemma_checked_drainable(t: Transcript, o: OdsView, dev: Seq<char>, name: PartitionName, fstype: FsType)
    requires
        drainable(o),
        fsck_partitions().contains(name),
    ensures
        drainable(checked_and_recorded(t, o, dev, name, fstype).1),
{
    match checked_leniently(t, dev, fstype).1 {
        Ok(r) => lemma_recording_drainable(o, name, r.exit_code, r.output),
        Err(Stop::Failed(FilesystemError::FsckRequiresReboot { device, code, output })) => lemma_recording_drainable(
            o,
            name,
            code,
            output,
        ),
        _ => {},
    }
}

/// The remaining partitions from position `i` on.
proof fn lemma_rest_drainable(t: Transcript, o: OdsView, layout: LayoutView, rootfs: Seq<char>, i: int)
    requires
        drainable(o),
        0 <= i <= 4,
    ensures
        drainable(rest_mounted(t, o, layout, rootfs, i).1),
    decreases 4 - i,
{
    if i < 4 {
        reveal(mounted_unless_there);
        let (name, point, writable) = remaining()[i];
        assert(fsck_partitions()[i + 1] == name);
        let options = if writable {
            writable_options()
        } else {
            readonly_options()
        };
        let (t1, o1, r) = mounted_unless_there(t, o, layout, rootfs, name, point, options);
        match layout.at(name) {
            Some(dev) => {
                lemma_checked_drainable(mount_checked(t, joined(rootfs, point)).0, o, dev, name, FsType::Ext4);
            },
            None => {},
        }
        assert(drainable(o1));
        lemma_rest_drainable(t1, o1, layout, rootfs, i + 1);
    }
}

/// Every partition that the mounts check and record is one whose record is drained on the boot
/// that follows.
pub proof fn law_every_record_is_drained(t: Transcript, o: OdsView, layout: LayoutView, rootfs: Seq<char>)
    requires
        drainable(o),
    ensures
        drainable(core_mounted(t, o, layout, rootfs).1),
        drainable(remaining_mounted(t, o, layout, rootfs).1),
{
    assert(fsck_partitions()[0] == PartitionName::Boot);
    lemma_rest_drainable(t, o, layout, rootfs, 0);
    let t1 = io_step(
        t,
        Request::CreateDir(rootfs),
        "Failed to create rootfs mount point "@ + rootfs + ": "@,
    ).0;
    match (layout.at(PartitionName::RootCurrent), layout.at(PartitionName::Boot)) {
        (Some(root), Some(dev)) => {
            let t2 = mounted(t1, mount_point(root, rootfs, readonly_options())).0;
            let t3 = mount_checked(t2, joined(rootfs, mount_points::BOOT@)).0;
            lemma_checked_drainable(t3, o, dev, PartitionName::Boot, FsType::Vfat);
        },
        _ => {},
    }
}

/// Clean results reach neither the environment nor the logs.
pub proof fn law_clean_results_not_persisted<B: BootEnv>(
    t: Transcript,
    s: Option<B::State>,
    fsck: Seq<(PartitionName, FsckView)>,
    log_dir: Seq<char>,
    data_mounted: bool,
    i: int,
)
    requires
        0 <= i <= fsck.len(),
        forall|k: int| i <= k < fsck.len() ==> (#[trigger] fsck[k]).1.code == 0,
    ensures
        persisted_from::<B>(t, s, fsck, log_dir, data_mounted, i) == (t, s, Some(())),
    decreases fsck.len() - i,
{
    if i < fsck.len() {
        law_clean_results_not_persisted::<B>(t, s, fsck, log_dir, data_mounted, i + 1);
    }
}

/// Without an environment nothing is saved in one, whatever the results are.
pub proof fn law_degraded_saves_nothing<B: BootEnv>(
    t: Transcript,
    fsck: Seq<(PartitionName, FsckView)>,
    log_dir: Seq<char>,
    data_mounted: bool,
    i: int,
)
    ensures
        persisted_from::<B>(t, None, fsck, log_dir, data_mounted, i).1 is None,
    decreases fsck.len() - i,
{
    if 0 <= i < fsck.len() {
        let (name, result) = fsck[i];
        law_degraded_saves_nothing::<B>(t, fsck, log_dir, data_mounted, i + 1);
        law_degraded_saves_nothing::<B>(
            logged(t, log_dir, data_mounted, name, result.output).0,
            fsck,
            log_dir,
            data_mounted,
            i + 1,
        );
    }
}

/// What draining the environment of one partition's record keeps and changes.
proof fn lemma_drained_one(t: Transcript, o: OdsView, m: MockView, p: PartitionName)
    requires
        distinct_partitions(o.fsck),
    ensures
        ({
            let (t1, o1, m1, done) = drained_one::<MockBootEnv>(t, o, m, p);
            &&& done is Some
            &&& t1 == t
            &&& distinct_partitions(o1.fsck)
            &&& m1.fsck == m.fsck.remove(p)
            &&& (m.fsck.dom().contains(p) && m.fsck[p].0.0 != 0 ==> o1.fsck.contains(
                (p, FsckStatus { code: m.fsck[p].0.0, output: m.fsck[p].1 }),
            ))
            &&& forall|e: (PartitionName, FsckView)|
                e.0 != p || !m.fsck.dom().contains(p) ==> (#[trigger] o1.fsck.contains(e) <==> o.fsck.contains(e))
        }),
{
    if m.fsck.dom().contains(p) {
        law_recording(o, p, m.fsck[p].0, m.fsck[p].1);
    } else {
        assert(m.fsck.remove(p) =~= m.fsck);
    }
}

/// The partitions from position `i` on are drained, and `p` is one of them.
spec fn is_due(p: PartitionName, i: int) -> bool {
    exists|k: int| i <= k < 5 && #[trigger] fsck_partitions()[k] == p
}

/// What draining from position `i` on keeps and changes of one partition's record.
proof fn lemma_drained_from(t: Transcript, o: OdsView, m: MockView, i: int, p: PartitionName)
    requires
        distinct_partitions(o.fsck),
        0 <= i <= 5,
    ensures
        ({
            let (t1, o1, m1, done) = drained_from::<MockBootEnv>(t, o, m, i);
            &&& done is Some
            &&& (m1.fsck.dom().contains(p) ==> m.fsck.dom().contains(p) && !is_due(p, i))
            &&& (is_due(p, i) && m.fsck.dom().contains(p) && m.fsck[p].0.0 != 0 ==> o1.fsck.contains(
                (p, FsckStatus { code: m.fsck[p].0.0, output: m.fsck[p].1 }),
            ))
            &&& (!is_due(p, i) || !m.fsck.dom().contains(p) ==> forall|status: FsckView|
                #[trigger]
                o1.fsck.contains((p, status)) <==> o.fsck.contains((p, status)))
        }),
    decreases 5 - i,
{
    if i < 5 {
        let q = fsck_partitions()[i];
        let (t1, o1, m1, done) = drained_one::<MockBootEnv>(t, o, m, q);
        lemma_drained_one(t, o, m, q);
        lemma_drained_from(t1, o1, m1, i + 1, p);
        assert(is_due(p, i) <==> p == q || is_due(p, i + 1)) by {
            if is_due(p, i) {
                let k = choose|k: int| i <= k < 5 && #[trigger] fsck_partitions()[k] == p;
                if k > i {
                    assert(is_due(p, i + 1));
                }
            }
            if is_due(p, i + 1) {
                let k = choose|k: int| i + 1 <= k < 5 && #[trigger] fsck_partitions()[k] == p;
                assert(i <= k < 5 && fsck_partitions()[k] == p);
            }
        }
    }
}

/// Draining moves every record that is not clean from the environment to the status and
/// leaves none behind; results of this boot for other partitions stay.
pub proof fn law_drain_moves_records(t: Transcript, o: OdsView, m: MockView, p: PartitionName)
    requires
        distinct_partitions(o.fsck),
        fsck_partitions().contains(p),
    ensures
        ({
            let (t1, o1, m1, done) = drained_from::<MockBootEnv>(t, o, m, 0);
            &&& done is Some
            &&& !m1.fsck.dom().contains(p)
            &&& (m.fsck.dom().contains(p) && m.fsck[p].0.0 != 0 ==> o1.fsck.contains(
                (p, FsckStatus { code: m.fsck[p].0.0, output: m.fsck[p].1 }),
            ))
            &&& (!m.fsck.dom().contains(p) ==> forall|status: FsckView|
                #[trigger]
                o1.fsck.contains((p, status)) <==> o.fsck.contains((p, status)))
        }),
{
    let k = choose|k: int| 0 <= k < fsck_partitions().len() && fsck_partitions()[k] == p;
    assert(is_due(p, 0));
    lemma_drained_from(t, o, m, 0, p);
}

} // verus!
