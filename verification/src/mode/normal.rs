//! The normal boot path

use vstd::prelude::*;
use vstd::string::*;

use crate::bootloader::{note, noted, BootEnv, BootEnvKey, BootEnvState, FIRST_BOOT_DONE};
use crate::error::{InitOutcome, InitramfsError};
use crate::filesystem::boot_sequence::{
    drain_fsck_env, drained, fs_lifted, lift_fs, mount_remaining_partitions, persist_fsck_results, persisted,
    remaining_mounted,
};
use crate::filesystem::overlayfs::{
    data_overlaid, etc_overlaid, raw_rootfs_mounted, setup_data_overlay, setup_etc_overlay, setup_raw_rootfs_mount,
};
use crate::mode::BootContext;
use crate::partition::layout::LayoutView;
use crate::runtime::fs_link::{configured_links_created, create_fs_links};
use crate::runtime::omnect_device_service::{create_ods_runtime_files, created, ODS_RUNTIME_DIR};
use crate::runtime::status::{OdsStatus, OdsView};
use crate::runtime::switch_root::{switch_root, switched};
use crate::system::{outcome, Session, Stop, Transcript};

verus! {

/// A failed resize must not close the first-boot gate. An image that does not grow its data
/// partition has none.
pub fn resize_succeeded(resize_data: bool, ods_status: &OdsStatus) -> (r: bool)
    ensures
        r == (!resize_data || ods_status@.resize_data is None),
{
    !resize_data || ods_status.resize_data.is_none()
}

/// A failed extra-bootargs sync must not close the first-boot gate: withhold
/// the marker so `first_boot` stays true and the sync retries on the next boot.
/// `extra_bootargs` is `Some` only on failure (set only in that case).
pub fn extra_bootargs_applied_ok(ods_status: &OdsStatus) -> (r: bool)
    ensures
        r == (ods_status@.extra_bootargs is None),
{
    ods_status.extra_bootargs.is_none()
}

/// The first-boot marker is due: it is the first boot, and nothing that has to be retried
/// failed on it.
pub open spec fn marker_due(o: OdsView, resize_data: bool) -> bool {
    &&& o.first_boot
    &&& !resize_data || o.resize_data is None
    &&& o.extra_bootargs is None
}

/// Writes the first-boot marker, where it is due and there is an environment; a failure is
/// warned about. `None` means that an answer is missing.
pub open spec fn marker_written<B: BootEnv>(t: Transcript, s: Option<B::State>, due: bool) -> (
    Transcript,
    Option<B::State>,
    Option<()>,
) {
    if due {
        noted::<B>(
            t,
            s,
            BootEnvKey::FirstBootDone,
            Some(FIRST_BOOT_DONE@),
            "first-boot marker write failed: "@,
            "; will retry next boot"@,
        )
    } else {
        (t, s, Some(()))
    }
}

/// Writes the first-boot marker. A failure is no error: the next boot retries. Returns `None`
/// if an answer is missing.
pub fn write_first_boot_marker<B: BootEnv>(first_boot: bool, bootloader: &mut BootEnvState<B>, sys: &mut Session) -> (r:
    Option<()>)
    ensures
        (final(sys)@, final(bootloader).state(), r) == marker_written::<B>(
            old(sys)@,
            old(bootloader).state(),
            first_boot,
        ),
        *old(bootloader) is Degraded ==> *final(bootloader) == *old(bootloader),
{
    if !first_boot {
        return Some(());
    }
    note(
        bootloader.available_mut(),
        BootEnvKey::FirstBootDone,
        Some(FIRST_BOOT_DONE),
        "first-boot marker write failed: ",
        "; will retry next boot",
        sys,
    )
}

/// Mounts what lies over the root filesystem and creates the configured links.
pub open spec fn layers_set_up(t: Transcript, rootfs: Seq<char>, persistent_var_log: bool) -> (
    Transcript,
    InitOutcome<()>,
) {
    match raw_rootfs_mounted(t, rootfs) {
        (t1, Err(e)) => (t1, fs_lifted(Err::<(), _>(e))),
        (t1, Ok(_)) => match etc_overlaid(t1, Seq::empty(), rootfs) {
            (t2, _, Err(e)) => (t2, fs_lifted(Err::<(), _>(e))),
            (t2, _, Ok(_)) => match data_overlaid(t2, Seq::empty(), rootfs, persistent_var_log) {
                (t3, _, Err(e)) => (t3, fs_lifted(Err::<(), _>(e))),
                (t3, _, Ok(_)) => configured_links_created(t3, rootfs),
            },
        },
    }
}

fn set_up_layers(rootfs: &str, persistent_var_log: bool, sys: &mut Session) -> (r: Result<(), Stop<InitramfsError>>)
    ensures
        (final(sys)@, outcome(r)) == layers_set_up(old(sys)@, rootfs@, persistent_var_log),
{
    match setup_raw_rootfs_mount(rootfs, sys) {
        Err(e) => {
            return lift_fs(Err(e));
        },
        Ok(()) => {},
    }
    match setup_etc_overlay(rootfs, sys) {
        Err(e) => {
            return lift_fs(Err(e));
        },
        Ok(()) => {},
    }
    match setup_data_overlay(rootfs, persistent_var_log, sys) {
        Err(e) => {
            return lift_fs(Err(e));
        },
        Ok(()) => {},
    }
    create_fs_links(rootfs, sys)
}

/// Reports to ODS, marks the first boot as done where that is due, and hands over to the init
/// of the root filesystem.
pub open spec fn concluded<B: BootEnv>(
    t: Transcript,
    s: Option<B::State>,
    o: OdsView,
    rootfs: Seq<char>,
    init: Option<Seq<char>>,
    resize_data: bool,
) -> (Transcript, Option<B::State>, OdsView, InitOutcome<()>) {
    match drained::<B>(t, o, s) {
        (t1, o1, s1, None) => (t1, s1, o1, Err(Stop::Pending)),
        (t1, o1, s1, Some(_)) => match created::<B>(t1, s1, o1, rootfs, ODS_RUNTIME_DIR@) {
            (t2, s2, Err(e)) => (t2, s2, o1, Err(e)),
            (t2, s2, Ok(_)) => match marker_written::<B>(t2, s2, marker_due(o1, resize_data)) {
                (t3, s3, None) => (t3, s3, o1, Err(Stop::Pending)),
                (t3, s3, Some(_)) => {
                    let r = switched(t3, rootfs, init);
                    (r.0, s3, o1, r.1)
                },
            },
        },
    }
}

/// The normal boot path: mounts the partitions, persists what fsck found whether or not that
/// succeeded, and goes on only where it did.
pub open spec fn booted<B: BootEnv>(
    t: Transcript,
    s: Option<B::State>,
    o: OdsView,
    layout: LayoutView,
    rootfs: Seq<char>,
    persistent_var_log: bool,
    init: Option<Seq<char>>,
    resize_data: bool,
) -> (Transcript, Option<B::State>, OdsView, InitOutcome<()>) {
    match remaining_mounted(t, o, layout, rootfs) {
        (t1, o1, Err(Stop::Pending)) => (t1, s, o1, Err(Stop::Pending)),
        (t1, o1, mounted) => match persisted::<B>(t1, s, o1, rootfs) {
            (t2, s2, None) => (t2, s2, o1, Err(Stop::Pending)),
            (t2, s2, Some(_)) => match mounted {
                Err(e) => (t2, s2, o1, Err(e)),
                Ok(_) => match layers_set_up(t2, rootfs, persistent_var_log) {
                    (t3, Err(e)) => (t3, s2, o1, Err(e)),
                    (t3, Ok(_)) => concluded::<B>(t3, s2, o1, rootfs, init, resize_data),
                },
            },
        },
    }
}

fn conclude<B: BootEnv>(ctx: &mut BootContext<B>, sys: &mut Session) -> (r: Result<(), Stop<InitramfsError>>)
    ensures
        final(ctx).same_frame(*old(ctx)),
        (final(sys)@, final(ctx).boot_env.state(), final(ctx).ods_status@, outcome(r)) == concluded::<B>(
            old(sys)@,
            old(ctx).boot_env.state(),
            old(ctx).ods_status@,
            old(ctx).rootfs@,
            old(ctx).wanted_init(),
            old(ctx).resize_data,
        ),
{
    match drain_fsck_env(&mut ctx.ods_status, ctx.boot_env.available_mut(), sys) {
        None => {
            return Err(Stop::Pending);
        },
        Some(()) => {},
    }
    match create_ods_runtime_files(
        &ctx.ods_status,
        ctx.boot_env.available_mut(),
        ctx.rootfs,
        ODS_RUNTIME_DIR,
        sys,
    ) {
        Err(e) => {
            return Err(e);
        },
        Ok(()) => {},
    }
    // Single write point for the unified first-boot sentinel. Best-effort:
    // failure does not abort the boot — the next boot retries.
    // Suppress the write when resize or the extra-bootargs sync failed, so the
    // next boot retries them.
    let due = ctx.ods_status.first_boot && resize_succeeded(ctx.resize_data, &ctx.ods_status)
        && extra_bootargs_applied_ok(&ctx.ods_status);
    match write_first_boot_marker(due, &mut ctx.boot_env, sys) {
        None => {
            return Err(Stop::Pending);
        },
        Some(()) => {},
    }
    switch_root(ctx.rootfs, ctx.config.cmdline.get("init"), sys)
}

/// Run the normal boot path.
///
/// # Mode obligation: persist fsck results
///
/// This handler (and any future mode handler) is responsible for calling
/// `persist_fsck_results` after `mount_remaining_partitions`, capturing the
/// result before propagating any mount error. Skipping this call means fsck
/// diagnostics for data/factory/cert/etc are silently lost on a failed boot.
pub fn run<B: BootEnv>(ctx: &mut BootContext<B>, sys: &mut Session) -> (r: Result<(), Stop<InitramfsError>>)
    ensures
        final(ctx).same_frame(*old(ctx)),
        (final(sys)@, final(ctx).boot_env.state(), final(ctx).ods_status@, outcome(r)) == booted::<B>(
            old(sys)@,
            old(ctx).boot_env.state(),
            old(ctx).ods_status@,
            old(ctx).layout@,
            old(ctx).rootfs@,
            old(ctx).config.overlay.persistent_var_log,
            old(ctx).wanted_init(),
            old(ctx).resize_data,
        ),
{
    let mount_result = mount_remaining_partitions(ctx.layout, ctx.rootfs, &mut ctx.ods_status, sys);
    let failure: Option<InitramfsError> = match mount_result {
        Err(Stop::Pending) => {
            return Err(Stop::Pending);
        },
        Err(Stop::Failed(e)) => Some(e),
        Ok(()) => None,
    };
    // Write fsck diagnostics regardless of bootloader availability so on-disk
    // log files (/data/var/log/fsck/) are produced even in degraded mode.
    match persist_fsck_results(&ctx.ods_status, ctx.boot_env.available_mut(), ctx.rootfs, sys) {
        None => {
            return Err(Stop::Pending);
        },
        Some(()) => {},
    }
    match failure {
        Some(e) => {
            return Err(Stop::Failed(e));
        },
        None => {},
    }
    match set_up_layers(ctx.rootfs, ctx.config.overlay.persistent_var_log, sys) {
        Err(e) => {
            return Err(e);
        },
        Ok(()) => {},
    }
    conclude(ctx, sys)
}

/// A failed mount is reported only after the fsck results were persisted.
pub proof fn law_persist_before_mount_failure<B: BootEnv>(
    t: Transcript,
    s: Option<B::State>,
    o: OdsView,
    layout: LayoutView,
    rootfs: Seq<char>,
    persistent_var_log: bool,
    init: Option<Seq<char>>,
    resize_data: bool,
)
    requires
        remaining_mounted(t, o, layout, rootfs).2 matches Err(Stop::Failed(_)),
    ensures
        ({
            let (t1, o1, mounted) = remaining_mounted(t, o, layout, rootfs);
            let (t2, s2, done) = persisted::<B>(t1, s, o1, rootfs);
            let r = booted::<B>(t, s, o, layout, rootfs, persistent_var_log, init, resize_data);
            &&& r.0 == t2
            &&& r.1 == s2
            &&& r.2 == o1
            &&& done is Some ==> r.3 == mounted
        }),
{
}

/// The first-boot marker is not written where it is not the first boot, where the resize
/// failed or where the extra boot arguments could not be synced.
pub proof fn law_marker_withheld<B: BootEnv>(t: Transcript, s: Option<B::State>, o: OdsView, resize_data: bool)
    requires
        !o.first_boot || (resize_data && o.resize_data is Some) || o.extra_bootargs is Some,
    ensures
        marker_written::<B>(t, s, marker_due(o, resize_data)) == (t, s, Some(())),
{
}

} // verus!
