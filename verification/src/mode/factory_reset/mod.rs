//! Factory reset
//!
//! Wipes the data and etc partitions but for what is to be preserved, and goes on with a normal
//! boot in any case.

pub mod backup_restore;
pub mod config;
pub mod reformat;
pub mod retry;
pub mod spared;
pub mod status;

use vstd::prelude::*;
use vstd::string::*;

use crate::bootloader::{failure_text, note, noted, tolerate, BootEnv, BootEnvKey, BootEnvState};
use crate::error::{concat4, FactoryResetError, InitErrorView, InitOutcome, InitramfsError};
use crate::filesystem::boot_sequence::{
    fs_lifted, lift_fs, mount_tracked_partition, mounted_and_tracked, PartitionMountSpec,
};
use crate::filesystem::mount::{all_unmounted, options_of, unmount_tracked, FsType, MountOptions};
use crate::filesystem::overlayfs::{
    data_overlaid, etc_overlaid, setup_data_overlay_tracked, setup_etc_overlay_tracked,
};
use crate::filesystem::mount_points;
use crate::mode::factory_reset::backup_restore::{all_backed_up, backup_all, restore_all, restored_from};
use crate::mode::factory_reset::config::{build_preserve_list, preserve_list, reset_lifted, FactoryResetConfig};
use crate::mode::factory_reset::reformat::{reformat_ext4, reformatted};
use crate::mode::factory_reset::retry::{
    failed_partition, formatted, reformat_and_mount_with_retry, reformatted_and_mounted, ReformatRetryOps,
    ReformatTargets, ReportView, ResetFailureSignal, SignalView, DATA_PARTITION_LABEL, ETC_PARTITION_LABEL,
};
use crate::mode::factory_reset::status::{
    aborted_report, aborted_status, destructive_failure_report, destructive_phase_failure_status, exhausted_outcome,
    exhausted_report, restored_report, restored_status,
};
use crate::mode::{normal, BootContext};
use crate::partition::layout::LayoutView;
use crate::partition::{PartitionLayout, PartitionName};
use crate::runtime::status::{FactoryResetStatus, FactoryResetStatusCode, FactoryResetView, OdsStatus, OdsView};
use crate::system::{opt_view, outcome, warned, MountFlag, MountFlags, Session, Stop, Transcript};

verus! {

pub const FACTORY_RESET_BACKUP_DIR: &'static str = "/tmp/factory_reset/backup";

/// What a finished reset comes to: the report, and the signal to persist.
pub type ResetOutcome = InitOutcome<(FactoryResetView, Option<SignalView>)>;

/// Mounts one partition for the reset.
pub open spec fn one_mounted(
    t: Transcript,
    o: OdsView,
    mounts: Seq<Seq<char>>,
    layout: LayoutView,
    rootfs: Seq<char>,
    name: PartitionName,
    point: Seq<char>,
    flags: MountFlags,
) -> (Transcript, OdsView, Seq<Seq<char>>, InitOutcome<()>) {
    mounted_and_tracked(
        t,
        o,
        mounts,
        layout,
        rootfs,
        name,
        point,
        options_of(Some(FsType::Ext4), flags),
        FsType::Ext4,
    )
}

/// Mounts the three partitions for the reset.
#[verifier::opaque]
pub open spec fn partitions_mounted(
    t: Transcript,
    o: OdsView,
    mounts: Seq<Seq<char>>,
    layout: LayoutView,
    rootfs: Seq<char>,
) -> (Transcript, OdsView, Seq<Seq<char>>, InitOutcome<()>) {
    match one_mounted(
        t,
        o,
        mounts,
        layout,
        rootfs,
        PartitionName::Factory,
        mount_points::FACTORY_PARTITION@,
        MountFlags::none().plus(MountFlag::RdOnly),
    ) {
        (t1, o1, m1, Err(e)) => (t1, o1, m1, Err(e)),
        (t1, o1, m1, Ok(_)) => match one_mounted(
            t1,
            o1,
            m1,
            layout,
            rootfs,
            PartitionName::Etc,
            mount_points::ETC_PARTITION@,
            MountFlags::none(),
        ) {
            (t2, o2, m2, Err(e)) => (t2, o2, m2, Err(e)),
            (t2, o2, m2, Ok(_)) => one_mounted(
                t2,
                o2,
                m2,
                layout,
                rootfs,
                PartitionName::Data,
                mount_points::DATA_PARTITION@,
                MountFlags::none(),
            ),
        },
    }
}

/// Mounts everything for the reset: the partitions, then the overlays.
pub open spec fn reset_mounted(
    t: Transcript,
    o: OdsView,
    mounts: Seq<Seq<char>>,
    layout: LayoutView,
    rootfs: Seq<char>,
    persistent_var_log: bool,
) -> (Transcript, OdsView, Seq<Seq<char>>, InitOutcome<()>) {
    match partitions_mounted(t, o, mounts, layout, rootfs) {
        (t1, o1, m1, Err(e)) => (t1, o1, m1, Err(e)),
        (t1, o1, m1, Ok(_)) => match etc_overlaid(t1, m1, rootfs) {
            (t2, m2, Err(e)) => (t2, o1, m2, fs_lifted(Err::<(), _>(e))),
            (t2, m2, Ok(_)) => {
                let r = data_overlaid(t2, m2, rootfs, persistent_var_log);
                (r.0, o1, r.1, fs_lifted(r.2))
            },
        },
    }
}

fn mount_partitions(
    layout: &PartitionLayout,
    rootfs: &str,
    ods_status: &mut OdsStatus,
    mounts: &mut Vec<String>,
    sys: &mut Session,
) -> (r: Result<(), Stop<InitramfsError>>)
    ensures
        (final(sys)@, final(ods_status)@, final(mounts).deep_view(), outcome(r)) == partitions_mounted(
            old(sys)@,
            old(ods_status)@,
            old(mounts).deep_view(),
            layout@,
            rootfs@,
        ),
{
    reveal(partitions_mounted);
    match mount_tracked_partition(
        layout,
        PartitionMountSpec {
            partition: PartitionName::Factory,
            mount_point: mount_points::FACTORY_PARTITION,
            options: MountOptions::ext4_readonly(),
            fstype: FsType::Ext4,
        },
        rootfs,
        ods_status,
        mounts,
        sys,
    ) {
        Err(e) => {
            return Err(e);
        },
        Ok(()) => {},
    }
    match mount_tracked_partition(
        layout,
        PartitionMountSpec {
            partition: PartitionName::Etc,
            mount_point: mount_points::ETC_PARTITION,
            options: MountOptions::ext4_readwrite(),
            fstype: FsType::Ext4,
        },
        rootfs,
        ods_status,
        mounts,
        sys,
    ) {
        Err(e) => {
            return Err(e);
        },
        Ok(()) => {},
    }
    mount_tracked_partition(
        layout,
        PartitionMountSpec {
            partition: PartitionName::Data,
            mount_point: mount_points::DATA_PARTITION,
            options: MountOptions::ext4_readwrite(),
            fstype: FsType::Ext4,
        },
        rootfs,
        ods_status,
        mounts,
        sys,
    )
}

/// Mount factory (ro, if present), etc (rw), data (rw) and set up overlays.
///
/// Tracks each mount in `mounts` so `unmount_tracked` can reverse them.
/// Used for both the pre-backup and post-reformat mounts — factory must be
/// present both times so `setup_etc_overlay_tracked` can always reseed an
/// empty etc upper dir from factory defaults.
pub fn factory_reset_mount(
    layout: &PartitionLayout,
    rootfs: &str,
    persistent_var_log: bool,
    ods_status: &mut OdsStatus,
    mounts: &mut Vec<String>,
    sys: &mut Session,
) -> (r: Result<(), Stop<InitramfsError>>)
    ensures
        (final(sys)@, final(ods_status)@, final(mounts).deep_view(), outcome(r)) == reset_mounted(
            old(sys)@,
            old(ods_status)@,
            old(mounts).deep_view(),
            layout@,
            rootfs@,
            persistent_var_log,
        ),
{
    match mount_partitions(layout, rootfs, ods_status, mounts, sys) {
        Err(e) => {
            return Err(e);
        },
        Ok(()) => {},
    }
    match setup_etc_overlay_tracked(rootfs, mounts, sys) {
        Err(e) => {
            return lift_fs(Err(e));
        },
        Ok(()) => {},
    }
    lift_fs(setup_data_overlay_tracked(rootfs, persistent_var_log, mounts, sys))
}

/// An error after everything that is tracked was unmounted, whether or not that succeeded.
pub open spec fn cleaned_up(t: Transcript, mounts: Seq<Seq<char>>, e: InitErrorView) -> (
    Transcript,
    Seq<Seq<char>>,
    Stop<InitErrorView>,
) {
    match all_unmounted(t, mounts, None) {
        (t1, m1, Err(Stop::Pending)) => (t1, m1, Stop::Pending),
        (t1, m1, _) => (t1, m1, Stop::Failed(e)),
    }
}

/// Unmounts everything that is tracked, whether or not that succeeds, and returns the error.
fn clean_up(mounts: &mut Vec<String>, e: InitramfsError, sys: &mut Session) -> (r: Stop<InitramfsError>)
    ensures
        (final(sys)@, final(mounts).deep_view(), r@) == cleaned_up(old(sys)@, old(mounts).deep_view(), e@),
{
    match unmount_tracked(mounts, sys) {
        Err(Stop::Pending) => Stop::Pending,
        _ => Stop::Failed(e),
    }
}

/// Mounts everything for the reset; on a failure nothing stays mounted.
#[verifier::opaque]
pub open spec fn mounted_or_cleaned_up(
    t: Transcript,
    o: OdsView,
    mounts: Seq<Seq<char>>,
    layout: LayoutView,
    rootfs: Seq<char>,
    persistent_var_log: bool,
) -> (Transcript, OdsView, Seq<Seq<char>>, InitOutcome<()>) {
    match reset_mounted(t, o, mounts, layout, rootfs, persistent_var_log) {
        (t1, o1, m1, Err(Stop::Failed(e))) => {
            let (t2, m2, stop) = cleaned_up(t1, m1, e);
            (t2, o1, m2, Err(stop))
        },
        other => other,
    }
}

fn mount_or_clean_up(
    layout: &PartitionLayout,
    rootfs: &str,
    persistent_var_log: bool,
    ods_status: &mut OdsStatus,
    mounts: &mut Vec<String>,
    sys: &mut Session,
) -> (r: Result<(), Stop<InitramfsError>>)
    ensures
        (final(sys)@, final(ods_status)@, final(mounts).deep_view(), outcome(r)) == mounted_or_cleaned_up(
            old(sys)@,
            old(ods_status)@,
            old(mounts).deep_view(),
            layout@,
            rootfs@,
            persistent_var_log,
        ),
{
    reveal(mounted_or_cleaned_up);
    match factory_reset_mount(layout, rootfs, persistent_var_log, ods_status, mounts, sys) {
        Err(Stop::Failed(e)) => Err(clean_up(mounts, e, sys)),
        other => other,
    }
}

/// The state that the reset works on.
pub struct ResetState {
    pub layout: LayoutView,
    pub rootfs: Seq<char>,
    pub persistent_var_log: bool,
    pub ods: OdsView,
    pub mounts: Seq<Seq<char>>,
    pub t: Transcript,
}

/// Real `ReformatRetryOps`: `mount_all` runs the full factory mount and, on
/// failure, unmounts what it managed so a failed reset leaves nothing half-mounted.
pub struct RealReformatOps<'a> {
    pub layout: &'a PartitionLayout,
    pub rootfs: &'a str,
    pub persistent_var_log: bool,
    pub ods_status: OdsStatus,
    pub mounts: Vec<String>,
    pub sys: Session,
}

impl<'a> ReformatRetryOps for RealReformatOps<'a> {
    type State = ResetState;

    open spec fn state(&self) -> ResetState {
        ResetState {
            layout: self.layout@,
            rootfs: self.rootfs@,
            persistent_var_log: self.persistent_var_log,
            ods: self.ods_status@,
            mounts: self.mounts.deep_view(),
            t: self.sys@,
        }
    }

    open spec fn reformats(s: ResetState, device: Seq<char>, label: Seq<char>) -> (InitOutcome<()>, ResetState) {
        let r = reformatted(s.t, device, label);
        (r.1, ResetState { t: r.0, ..s })
    }

    open spec fn warns(s: ResetState, message: Seq<char>) -> (Option<()>, ResetState) {
        let r = warned(s.t, message);
        (r.1, ResetState { t: r.0, ..s })
    }

    open spec fn mounts(s: ResetState) -> (InitOutcome<()>, ResetState) {
        let r = mounted_or_cleaned_up(s.t, s.ods, s.mounts, s.layout, s.rootfs, s.persistent_var_log);
        (r.3, ResetState { t: r.0, ods: r.1, mounts: r.2, ..s })
    }

    fn reformat(&mut self, device: &str, label: &str) -> (r: Result<(), Stop<InitramfsError>>) {
        reformat_ext4(device, label, &mut self.sys)
    }

    fn warn(&mut self, message: &str) -> (r: Option<()>) {
        self.sys.warn(message)
    }

    fn mount_all(&mut self) -> (r: Result<(), Stop<InitramfsError>>) {
        mount_or_clean_up(
            self.layout,
            self.rootfs,
            self.persistent_var_log,
            &mut self.ods_status,
            &mut self.mounts,
            &mut self.sys,
        )
    }
}

/// Restores what was preserved, and unmounts everything.
pub open spec fn restored_and_unmounted(
    t: Transcript,
    mounts: Seq<Seq<char>>,
    rootfs: Seq<char>,
    report: ReportView,
    backed_up: Seq<Seq<char>>,
    backup_dir: Seq<char>,
    preserve: Seq<Seq<char>>,
) -> (Transcript, Seq<Seq<char>>, ResetOutcome) {
    match restored_from(t, rootfs, backed_up, backup_dir, Seq::empty(), None, 0) {
        (t1, Err(Stop::Pending)) => (t1, mounts, Err(Stop::Pending)),
        (t1, Err(Stop::Failed(e))) => {
            let (t2, m2, stop) = cleaned_up(t1, mounts, e);
            (t2, m2, Err(stop))
        },
        (t1, Ok(restore)) => match all_unmounted(t1, mounts, None) {
            (t2, m2, Err(e)) => (t2, m2, fs_lifted(Err::<(FactoryResetView, Option<SignalView>), _>(e))),
            (t2, m2, Ok(_)) => (
                t2,
                m2,
                Ok((restored_report(report.retried, report.reformat_failed, restore, preserve), None)),
            ),
        },
    }
}

/// The warning about a partition that never became usable.
pub open spec fn exhausted_warning(signal: SignalView) -> Seq<char> {
    "factory reset: "@ + signal.partition.text() + " could not be prepared; preserved data lost: "@ + signal.reason
}

/// The destructive phase: reformats, mounts, and restores what was preserved.
pub open spec fn destroyed(
    s: ResetState,
    data_dev: Seq<char>,
    etc_dev: Seq<char>,
    backed_up: Seq<Seq<char>>,
    backup_dir: Seq<char>,
    preserve: Seq<Seq<char>>,
) -> (Transcript, OdsView, Seq<Seq<char>>, ResetOutcome) {
    match reformatted_and_mounted::<RealReformatOps>(s, s.rootfs, data_dev, etc_dev) {
        (s1, Err(e)) => (s1.t, s1.ods, s1.mounts, Err(e)),
        (s1, Ok(report)) => match report.exhausted {
            Some(signal) => match warned(s1.t, exhausted_warning(signal)) {
                (t2, None) => (t2, s1.ods, s1.mounts, Err(Stop::Pending)),
                (t2, Some(_)) => match all_unmounted(t2, s1.mounts, None) {
                    (t3, m3, Err(Stop::Pending)) => (t3, s1.ods, m3, Err(Stop::Pending)),
                    (t3, m3, _) => (
                        t3,
                        s1.ods,
                        m3,
                        Ok((exhausted_report(signal, report.retried, preserve), Some(signal))),
                    ),
                },
            },
            None => {
                let r = restored_and_unmounted(
                    s1.t,
                    s1.mounts,
                    s.rootfs,
                    report,
                    backed_up,
                    backup_dir,
                    preserve,
                );
                (r.0, s1.ods, r.1, r.2)
            },
        },
    }
}

/// How a reset ended, by view.
pub open spec fn reset_outcome(r: Result<(FactoryResetStatus, Option<ResetFailureSignal>), Stop<InitramfsError>>) -> ResetOutcome {
    match r {
        Ok(p) => Ok((p.0@, opt_view(p.1))),
        Err(e) => Err(e@),
    }
}

fn restore_and_unmount(
    rootfs: &str,
    mounts: &mut Vec<String>,
    targets: &ReformatTargets,
    report: &retry::RetryReport,
    sys: &mut Session,
) -> (r: Result<(FactoryResetStatus, Option<ResetFailureSignal>), Stop<InitramfsError>>)
    ensures
        (final(sys)@, final(mounts).deep_view(), reset_outcome(r)) == restored_and_unmounted(
            old(sys)@,
            old(mounts).deep_view(),
            rootfs@,
            report@,
            targets.backed_up.deep_view(),
            targets.backup_dir@,
            targets.preserve_list.deep_view(),
        ),
{
    let restore_result = match restore_all(rootfs, targets.backed_up, targets.backup_dir, sys) {
        Err(Stop::Pending) => {
            return Err(Stop::Pending);
        },
        Err(Stop::Failed(e)) => {
            return Err(clean_up(mounts, e, sys));
        },
        Ok(result) => result,
    };
    match unmount_tracked(mounts, sys) {
        Err(e) => lift_fs(Err(e)),
        Ok(()) => Ok(
            (
                restored_status(
                    &report.retried,
                    &report.reformat_failed,
                    restore_result,
                    targets.preserve_list,
                ),
                None,
            ),
        ),
    }
}

/// Reformat + restore — everything from here on is destructive: `data` and/or
/// `etc` may already be wiped and the tmpfs backup discarded. Callers must
/// treat any `Err` from this function as data-loss, not a safe no-op abort.
pub fn run_destructive_phase(
    layout: &PartitionLayout,
    rootfs: &str,
    persistent_var_log: bool,
    mounts: &mut Vec<String>,
    ods_status: &mut OdsStatus,
    targets: ReformatTargets,
    sys: &mut Session,
) -> (r: Result<(FactoryResetStatus, Option<ResetFailureSignal>), Stop<InitramfsError>>)
    ensures
        (final(sys)@, final(ods_status)@, final(mounts).deep_view(), reset_outcome(r)) == destroyed(
            ResetState {
                layout: layout@,
                rootfs: rootfs@,
                persistent_var_log,
                ods: old(ods_status)@,
                mounts: old(mounts).deep_view(),
                t: old(sys)@,
            },
            targets.data_dev@,
            targets.etc_dev@,
            targets.backed_up.deep_view(),
            targets.backup_dir@,
            targets.preserve_list.deep_view(),
        ),
{
    let mut own_ods = OdsStatus::new();
    let mut own_mounts: Vec<String> = Vec::new();
    let mut own_sys = Session::new(Vec::new());
    std::mem::swap(ods_status, &mut own_ods);
    std::mem::swap(mounts, &mut own_mounts);
    std::mem::swap(sys, &mut own_sys);
    let mut ops = RealReformatOps {
        layout,
        rootfs,
        persistent_var_log,
        ods_status: own_ods,
        mounts: own_mounts,
        sys: own_sys,
    };
    let result = reformat_and_mount_with_retry(rootfs, &targets, &mut ops);
    *ods_status = ops.ods_status;
    *mounts = ops.mounts;
    *sys = ops.sys;
    let report = match result {
        Err(e) => {
            return Err(e);
        },
        Ok(report) => report,
    };
    match report.exhausted {
        Some(signal) => {
            // The reformatted partition never became usable — restore cannot run.
            let warning = concat4(
                "factory reset: ",
                signal.partition.as_str(),
                " could not be prepared; preserved data lost: ",
                signal.reason.as_str(),
            );
            if sys.warn(warning.as_str()).is_none() {
                return Err(Stop::Pending);
            }
            match unmount_tracked(mounts, sys) {
                Err(Stop::Pending) => Err(Stop::Pending),
                _ => Ok(exhausted_outcome(signal, &report.retried, targets.preserve_list)),
            }
        },
        None => restore_and_unmount(rootfs, mounts, &targets, &report, sys),
    }
}

/// What is backed up before anything is wiped: the list of the paths to preserve, and those of
/// them that were there.
#[verifier::opaque]
pub open spec fn backed_up_all(t: Transcript, rootfs: Seq<char>, keys: Seq<Seq<char>>) -> (
    Transcript,
    InitOutcome<(Seq<Seq<char>>, Seq<Seq<char>>)>,
) {
    match preserve_list(t, keys, rootfs) {
        (t1, Err(e)) => (t1, reset_lifted(Err::<(Seq<Seq<char>>, Seq<Seq<char>>), _>(e))),
        (t1, Ok(list)) => match all_backed_up(t1, rootfs, list, FACTORY_RESET_BACKUP_DIR@) {
            (t2, Err(e)) => (t2, Err(e)),
            (t2, Ok(backed_up)) => (t2, Ok((list, backed_up))),
        },
    }
}

/// How the backup ended, by view.
pub open spec fn backup_outcome(r: Result<(Vec<String>, Vec<String>), Stop<InitramfsError>>) -> InitOutcome<
    (Seq<Seq<char>>, Seq<Seq<char>>),
> {
    match r {
        Ok(p) => Ok((p.0.deep_view(), p.1.deep_view())),
        Err(e) => Err(e@),
    }
}

fn back_up(config: &FactoryResetConfig, rootfs: &str, sys: &mut Session) -> (r: Result<
    (Vec<String>, Vec<String>),
    Stop<InitramfsError>,
>)
    ensures
        (final(sys)@, backup_outcome(r)) == backed_up_all(old(sys)@, rootfs@, config@.preserve),
{
    reveal(backed_up_all);
    let list = match build_preserve_list(config, rootfs, sys) {
        Err(e) => {
            return Err(e);
        },
        Ok(list) => list,
    };
    match backup_all(rootfs, &list, FACTORY_RESET_BACKUP_DIR, sys) {
        Err(e) => Err(e),
        Ok(backed_up) => Ok((list, backed_up)),
    }
}

/// Everything that comes before the destructive phase: mounts, backs up and unmounts.
#[verifier::opaque]
pub open spec fn prepared(
    t: Transcript,
    o: OdsView,
    layout: LayoutView,
    rootfs: Seq<char>,
    persistent_var_log: bool,
    keys: Seq<Seq<char>>,
) -> (Transcript, OdsView, Seq<Seq<char>>, InitOutcome<(Seq<Seq<char>>, Seq<Seq<char>>)>) {
    match mounted_or_cleaned_up(t, o, Seq::empty(), layout, rootfs, persistent_var_log) {
        (t1, o1, m1, Err(e)) => (t1, o1, m1, Err(e)),
        (t1, o1, m1, Ok(_)) => match backed_up_all(t1, rootfs, keys) {
            (t2, Err(Stop::Pending)) => (t2, o1, m1, Err(Stop::Pending)),
            (t2, Err(Stop::Failed(e))) => {
                let (t3, m3, stop) = cleaned_up(t2, m1, e);
                (t3, o1, m3, Err(stop))
            },
            (t2, Ok(saved)) => match all_unmounted(t2, m1, None) {
                (t3, m3, Err(e)) => (
                    t3,
                    o1,
                    m3,
                    fs_lifted(Err::<(Seq<Seq<char>>, Seq<Seq<char>>), _>(e)),
                ),
                (t3, m3, Ok(_)) => (t3, o1, m3, Ok(saved)),
            },
        },
    }
}

fn prepare(
    layout: &PartitionLayout,
    rootfs: &str,
    persistent_var_log: bool,
    config: &FactoryResetConfig,
    ods_status: &mut OdsStatus,
    mounts: &mut Vec<String>,
    sys: &mut Session,
) -> (r: Result<(Vec<String>, Vec<String>), Stop<InitramfsError>>)
    requires
        old(mounts).deep_view() == Seq::<Seq<char>>::empty(),
    ensures
        (final(sys)@, final(ods_status)@, final(mounts).deep_view(), backup_outcome(r)) == prepared(
            old(sys)@,
            old(ods_status)@,
            layout@,
            rootfs@,
            persistent_var_log,
            config@.preserve,
        ),
{
    reveal(prepared);
    match mount_or_clean_up(layout, rootfs, persistent_var_log, ods_status, mounts, sys) {
        Err(e) => {
            return Err(e);
        },
        Ok(()) => {},
    }
    let saved = match back_up(config, rootfs, sys) {
        Err(Stop::Pending) => {
            return Err(Stop::Pending);
        },
        Err(Stop::Failed(e)) => {
            return Err(clean_up(mounts, e, sys));
        },
        Ok(saved) => saved,
    };
    match unmount_tracked(mounts, sys) {
        Err(e) => lift_fs(Err(e)),
        Ok(()) => Ok(saved),
    }
}

/// The error about a partition that the layout does not name.
pub open spec fn no_partition(message: Seq<char>) -> InitErrorView {
    InitramfsError::FactoryReset(FactoryResetError::MountError(message))
}

/// Once the destructive phase has begun, a failure is reported and no longer an abort.
pub open spec fn reported(r: ResetOutcome, preserve: Seq<Seq<char>>) -> ResetOutcome {
    match r {
        Err(Stop::Failed(e)) => Ok((destructive_failure_report(e, preserve), None)),
        other => other,
    }
}

/// The whole reset. It fails only before the destructive phase.
pub open spec fn reset_done(
    t: Transcript,
    o: OdsView,
    layout: LayoutView,
    rootfs: Seq<char>,
    persistent_var_log: bool,
    keys: Seq<Seq<char>>,
) -> (Transcript, OdsView, ResetOutcome) {
    match prepared(t, o, layout, rootfs, persistent_var_log, keys) {
        (t1, o1, m1, Err(e)) => (t1, o1, Err(e)),
        (t1, o1, m1, Ok((preserve, backed_up))) => match (
            layout.at(PartitionName::Data),
            layout.at(PartitionName::Etc),
        ) {
            (None, _) => (t1, o1, Err(Stop::Failed(no_partition("data partition not found in layout"@)))),
            (_, None) => (t1, o1, Err(Stop::Failed(no_partition("etc partition not found in layout"@)))),
            (Some(data_dev), Some(etc_dev)) => {
                let r = destroyed(
                    ResetState { layout, rootfs, persistent_var_log, ods: o1, mounts: m1, t: t1 },
                    data_dev,
                    etc_dev,
                    backed_up,
                    FACTORY_RESET_BACKUP_DIR@,
                    preserve,
                );
                (r.0, r.1, reported(r.3, preserve))
            },
        },
    }
}

/// Inner reset sequence. Returns `Err` only for failures before the
/// destructive phase begins (mount, config, backup); failures at or after
/// the first `reformat_ext4` call are resolved to a status internally
/// instead, so they're never mistaken for a safe pre-reformat abort.
pub fn run_reset(
    layout: &PartitionLayout,
    rootfs: &str,
    persistent_var_log: bool,
    config: &FactoryResetConfig,
    ods_status: &mut OdsStatus,
    sys: &mut Session,
) -> (r: Result<(FactoryResetStatus, Option<ResetFailureSignal>), Stop<InitramfsError>>)
    ensures
        (final(sys)@, final(ods_status)@, reset_outcome(r)) == reset_done(
            old(sys)@,
            old(ods_status)@,
            layout@,
            rootfs@,
            persistent_var_log,
            config@.preserve,
        ),
{
    let mut mounts: Vec<String> = Vec::new();
    assert(mounts.deep_view() =~= Seq::<Seq<char>>::empty());
    let (preserve_list, backed_up) = match prepare(
        layout,
        rootfs,
        persistent_var_log,
        config,
        ods_status,
        &mut mounts,
        sys,
    ) {
        Err(e) => {
            return Err(e);
        },
        Ok(saved) => saved,
    };
    let data_dev = match layout.get(PartitionName::Data) {
        None => {
            return Err(
                Stop::Failed(
                    InitramfsError::FactoryReset(
                        FactoryResetError::MountError("data partition not found in layout".to_owned()),
                    ),
                ),
            );
        },
        Some(dev) => dev.as_str(),
    };
    let etc_dev = match layout.get(PartitionName::Etc) {
        None => {
            return Err(
                Stop::Failed(
                    InitramfsError::FactoryReset(
                        FactoryResetError::MountError("etc partition not found in layout".to_owned()),
                    ),
                ),
            );
        },
        Some(dev) => dev.as_str(),
    };
    match run_destructive_phase(
        layout,
        rootfs,
        persistent_var_log,
        &mut mounts,
        ods_status,
        ReformatTargets {
            data_dev,
            etc_dev,
            preserve_list: &preserve_list,
            backed_up: &backed_up,
            backup_dir: FACTORY_RESET_BACKUP_DIR,
        },
        sys,
    ) {
        Err(Stop::Failed(e)) => Ok((destructive_phase_failure_status(e, preserve_list), None)),
        other => other,
    }
}

/// The warning about a failure signal that has nowhere to go.
pub const SIGNAL_LOST: &'static str = "factory-reset failure signal exists but boot env is degraded; cannot persist it";

/// What is said before the error of a failure signal that could not be stored.
pub const SIGNAL_NOT_STORED: &'static str = "failed to persist factory-reset failure signal: ";

/// Stores the failure signal, where there is one and an environment; that it could not be stored
/// is warned about.
pub open spec fn signal_persisted<B: BootEnv>(t: Transcript, s: Option<B::State>, signal: Option<SignalView>) -> (
    Transcript,
    Option<B::State>,
    Option<()>,
) {
    match signal {
        Some(sig) => if s is None {
            let (t1, done) = warned(t, SIGNAL_LOST@);
            (t1, s, done)
        } else {
            noted::<B>(
                t,
                s,
                BootEnvKey::FactoryResetLastError,
                Some(failure_text(sig.partition, sig.reason)),
                SIGNAL_NOT_STORED@,
                ""@,
            )
        },
        None => (t, s, Some(())),
    }
}

/// Best-effort write of the unrecoverable-failure signal to the bootloader env,
/// so the outcome survives even if the following Normal boot halts before
/// `create_ods_runtime_files`. A degraded env is a no-op. Returns `None` if an answer is
/// missing.
pub fn persist_exhausted_signal<B: BootEnv>(
    signal: Option<&ResetFailureSignal>,
    boot_env: &mut BootEnvState<B>,
    sys: &mut Session,
) -> (r: Option<()>)
    ensures
        (final(sys)@, final(boot_env).state(), r) == signal_persisted::<B>(
            old(sys)@,
            old(boot_env).state(),
            match signal {
                Some(sig) => Some(sig@),
                None => None,
            },
        ),
        *old(boot_env) is Degraded ==> *final(boot_env) == *old(boot_env),
{
    match signal {
        None => Some(()),
        Some(sig) => match boot_env.available_mut() {
            None => sys.warn(SIGNAL_LOST),
            Some(bl) => {
                let r = bl.save_factory_reset_failure(sig.partition, sig.reason.as_str(), sys);
                tolerate(r, SIGNAL_NOT_STORED, "", sys)
            },
        },
    }
}

/// Clears the trigger, if there is an environment.
pub open spec fn trigger_cleared<B: BootEnv>(t: Transcript, s: Option<B::State>) -> (
    Transcript,
    Option<B::State>,
    Option<()>,
) {
    noted::<B>(
        t,
        s,
        BootEnvKey::FactoryReset,
        None,
        "Failed to clear factory-reset bootloader var: "@,
        "; proceeding anyway"@,
    )
}

/// The report and the signal of a reset; a reset that was aborted is reported and leaves no
/// signal.
pub open spec fn settled(r: ResetOutcome) -> Option<(FactoryResetView, Option<SignalView>)> {
    match r {
        Ok(p) => Some(p),
        Err(Stop::Pending) => None,
        Err(Stop::Failed(e)) => Some((aborted_report(e), None)),
    }
}

/// A boot with a factory reset: clears the trigger, resets, and goes on with a normal boot
/// whatever the reset came to.
pub open spec fn reset_booted<B: BootEnv>(
    t: Transcript,
    s: Option<B::State>,
    o: OdsView,
    layout: LayoutView,
    rootfs: Seq<char>,
    persistent_var_log: bool,
    init: Option<Seq<char>>,
    resize_data: bool,
    keys: Seq<Seq<char>>,
) -> (Transcript, Option<B::State>, OdsView, InitOutcome<()>) {
    match trigger_cleared::<B>(t, s) {
        (t1, s1, None) => (t1, s1, o, Err(Stop::Pending)),
        (t1, s1, Some(_)) => {
            let (t2, o2, r) = reset_done(t1, o, layout, rootfs, persistent_var_log, keys);
            match settled(r) {
                None => (t2, s1, o2, Err(Stop::Pending)),
                Some((report, signal)) => match signal_persisted::<B>(t2, s1, signal) {
                    (t3, s3, None) => (t3, s3, o2, Err(Stop::Pending)),
                    (t3, s3, Some(_)) => normal::booted::<B>(
                        t3,
                        s3,
                        OdsView { factory_reset: Some(report), ..o2 },
                        layout,
                        rootfs,
                        persistent_var_log,
                        init,
                        resize_data,
                    ),
                },
            }
        },
    }
}

/// Entry point for factory-reset mode.
///
/// Clears the trigger env var, runs the reset sequence, writes status to
/// `ods_status`, and always delegates to Normal boot — never blocks the device.
///
/// A failure to clear the trigger is not fatal. If it persists, so does the trigger, and the
/// reset repeats on every boot until the variable can be cleared.
pub fn run<B: BootEnv>(ctx: &mut BootContext<B>, config: &FactoryResetConfig, sys: &mut Session) -> (r: Result<
    (),
    Stop<InitramfsError>,
>)
    ensures
        final(ctx).same_frame(*old(ctx)),
        (final(sys)@, final(ctx).boot_env.state(), final(ctx).ods_status@, outcome(r)) == reset_booted::<B>(
            old(sys)@,
            old(ctx).boot_env.state(),
            old(ctx).ods_status@,
            old(ctx).layout@,
            old(ctx).rootfs@,
            old(ctx).config.overlay.persistent_var_log,
            old(ctx).wanted_init(),
            old(ctx).resize_data,
            config@.preserve,
        ),
{
    match note(
        ctx.boot_env.available_mut(),
        BootEnvKey::FactoryReset,
        None,
        "Failed to clear factory-reset bootloader var: ",
        "; proceeding anyway",
        sys,
    ) {
        None => {
            return Err(Stop::Pending);
        },
        Some(()) => {},
    }
    let (status, signal) = match run_reset(
        ctx.layout,
        ctx.rootfs,
        ctx.config.overlay.persistent_var_log,
        config,
        &mut ctx.ods_status,
        sys,
    ) {
        Ok(pair) => pair,
        Err(Stop::Pending) => {
            return Err(Stop::Pending);
        },
        Err(Stop::Failed(e)) => (aborted_status(&e), None),
    };
    match persist_exhausted_signal(signal.as_ref(), &mut ctx.boot_env, sys) {
        None => {
            return Err(Stop::Pending);
        },
        Some(()) => {},
    }
    ctx.ods_status.set_factory_reset(status);
    normal::run(ctx, sys)
}

/// A reset that is reported wiped its data exactly where it got past the backup; one that was
/// aborted before leaves the data alone and no signal.
pub proof fn law_wiped_after_backup_only(
    t: Transcript,
    o: OdsView,
    layout: LayoutView,
    rootfs: Seq<char>,
    persistent_var_log: bool,
    keys: Seq<Seq<char>>,
)
    ensures
        ({
            let before = prepared(t, o, layout, rootfs, persistent_var_log, keys);
            let begun = before.3 is Ok && layout.at(PartitionName::Data) is Some && layout.at(PartitionName::Etc) is Some;
            let (t1, o1, r) = reset_done(t, o, layout, rootfs, persistent_var_log, keys);
            &&& r is Ok ==> begun
            &&& begun ==> !(r matches Err(Stop::Failed(_)))
            &&& settled(r) matches Some((report, signal)) ==> {
                &&& report.data_wiped == begun
                &&& !begun ==> signal is None
                &&& before.3 matches Ok((preserve, backed_up)) ==> begun ==> report.paths == preserve
            }
            &&& !begun ==> t1 == before.0
        }),
{
    reveal(prepared);
}

/// A failure signal comes with the report of an error whose text is the reason of the signal.
pub proof fn law_signal_is_reported(
    t: Transcript,
    o: OdsView,
    layout: LayoutView,
    rootfs: Seq<char>,
    persistent_var_log: bool,
    keys: Seq<Seq<char>>,
)
    ensures
        settled(reset_done(t, o, layout, rootfs, persistent_var_log, keys).2) matches Some((report, Some(signal))) ==> {
            &&& report.status == FactoryResetStatusCode::Error
            &&& report.error == Some(signal.reason)
            &&& report.data_wiped
        },
{
}

/// How the reformats and the mount decide the report of the destructive phase, with `data`
/// and `etc` the number of failed attempts to reformat the two partitions:
/// - the mount succeeds: no signal; a success only without a failed attempt, at best a
///   warning where an attempt failed once, and an error where one partition failed twice;
/// - the mount fails on a reformatted partition: an error with a signal about it;
/// - the mount fails on anything else: an error without a signal.
pub proof fn law_reset_outcomes(
    s: ResetState,
    data_dev: Seq<char>,
    etc_dev: Seq<char>,
    backed_up: Seq<Seq<char>>,
    backup_dir: Seq<char>,
    preserve: Seq<Seq<char>>,
    data: int,
    etc: int,
)
    requires
        ({
            let (s1, d) = formatted::<RealReformatOps>(s, PartitionName::Data, data_dev, DATA_PARTITION_LABEL@);
            let (s2, e) = formatted::<RealReformatOps>(s1, PartitionName::Etc, etc_dev, ETC_PARTITION_LABEL@);
            d == Some(data) && e == Some(etc)
        }),
    ensures
        ({
            let s1 = formatted::<RealReformatOps>(s, PartitionName::Data, data_dev, DATA_PARTITION_LABEL@).0;
            let s2 = formatted::<RealReformatOps>(s1, PartitionName::Etc, etc_dev, ETC_PARTITION_LABEL@).0;
            let mounted = <RealReformatOps as ReformatRetryOps>::mounts(s2).0;
            let r = reported(destroyed(s, data_dev, etc_dev, backed_up, backup_dir, preserve).3, preserve);
            r matches Ok((report, signal)) ==> {
                &&& mounted is Ok ==> {
                    &&& signal is None
                    &&& report.status == FactoryResetStatusCode::Success ==> data == 0 && etc == 0
                    &&& report.status == FactoryResetStatusCode::Warning ==> data < 2 && etc < 2 && data + etc > 0
                    &&& data == 2 || etc == 2 ==> report.status == FactoryResetStatusCode::Error
                }
                &&& mounted matches Err(Stop::Failed(e)) ==> {
                    &&& report.status == FactoryResetStatusCode::Error
                    &&& report.error == Some(e.text())
                    &&& match failed_partition(e, s.rootfs, data_dev, etc_dev) {
                        Some(partition) => signal == Some(ResetFailureSignal { partition, reason: e.text() }),
                        None => signal is None,
                    }
                }
            }
        }),
{
}

/// The trigger is cleared before anything else is done. Whatever the reset then comes to, its
/// signal is stored and a normal boot follows with the report in the status.
pub proof fn law_reset_never_blocks_boot<B: BootEnv>(
    t: Transcript,
    s: Option<B::State>,
    o: OdsView,
    layout: LayoutView,
    rootfs: Seq<char>,
    persistent_var_log: bool,
    init: Option<Seq<char>>,
    resize_data: bool,
    keys: Seq<Seq<char>>,
)
    ensures
        ({
            let (t1, s1, cleared) = trigger_cleared::<B>(t, s);
            let (t2, o2, r) = reset_done(t1, o, layout, rootfs, persistent_var_log, keys);
            let whole = reset_booted::<B>(
                t,
                s,
                o,
                layout,
                rootfs,
                persistent_var_log,
                init,
                resize_data,
                keys,
            );
            &&& cleared is None ==> whole.0 == t1
            &&& cleared is Some ==> (settled(r) matches Some((report, signal)) ==> {
                let (t3, s3, stored) = signal_persisted::<B>(t2, s1, signal);
                stored is Some ==> whole == normal::booted::<B>(
                    t3,
                    s3,
                    OdsView { factory_reset: Some(report), ..o2 },
                    layout,
                    rootfs,
                    persistent_var_log,
                    init,
                    resize_data,
                )
            })
        }),
{
}

} // verus!
