//! Init setup step: data partition auto-resize
//!
//! Runs on the first boot (when `OdsStatus.first_boot` is `true`), expanding
//! the data partition via `filesystem::resize_data`.
//!
//! On a degraded boot (boot env unavailable): runs resize regardless, since
//! the first-boot flag defaults to `false` and the degraded arm runs
//! unconditionally. Only reached on release-images; debug-images abort
//! before init setup executes.
//!
//! All `ResizeData` failure modes except `FsckRequiresReboot` are absorbed as
//! best-effort: `OdsStatus.resize_data` is populated and boot continues.
//! `FsckRequiresReboot` is propagated so the recovery policy
//! triggers a controlled reboot. Non-resize errors (e.g. a transient
//! `get_env` failure) are also propagated to preserve their recovery class.

use vstd::prelude::*;
use vstd::string::*;

use crate::bootloader::BootEnv;
use crate::error::{
    concat2, or_pending, result_view, step_of, FilesystemError, InitErrorView, InitOutcome, InitramfsError,
    ResizeDataError,
};
use crate::filesystem::resize_data::{resize_if_needed, resize_lifted, resized, ResizeErrorView};
use crate::init_setup::InitSetupCtx;
use crate::partition::layout::{LayoutView, PartitionTable};
use crate::runtime::status::{OdsStatus, OdsView, ResizeOutcome, ResizeStatus};
use crate::system::{outcome, warned, Session, Stop, Transcript};

verus! {

/// What a failure is reported as.
pub open spec fn reported_as(e: ResizeErrorView) -> ResizeOutcome {
    match e {
        ResizeDataError::Filesystem(FilesystemError::FsckFailed { .. }) => ResizeOutcome::SkippedFsck,
        ResizeDataError::InvalidDevicePath(_) => ResizeOutcome::InvalidLayout,
        ResizeDataError::ExtendedPartitionNotFound(_) => ResizeOutcome::InvalidLayout,
        ResizeDataError::NonUtf8Path(_) => ResizeOutcome::InvalidLayout,
        _ => ResizeOutcome::ToolError,
    }
}

pub fn outcome_for(e: &ResizeDataError) -> (r: ResizeOutcome)
    ensures
        r == reported_as(e@),
{
    match e {
        ResizeDataError::Filesystem(FilesystemError::FsckFailed { .. }) => ResizeOutcome::SkippedFsck,
        ResizeDataError::InvalidDevicePath(_) => ResizeOutcome::InvalidLayout,
        ResizeDataError::ExtendedPartitionNotFound(_) => ResizeOutcome::InvalidLayout,
        ResizeDataError::NonUtf8Path(_) => ResizeOutcome::InvalidLayout,
        ResizeDataError::CommandFailed { .. } => ResizeOutcome::ToolError,
        ResizeDataError::Io(_) => ResizeOutcome::ToolError,
        // Any other FilesystemError (e.g. MountFailed) is a tool-level failure;
        // FsckRequiresReboot never reaches here — propagated by handle_result.
        ResizeDataError::Filesystem(_) => ResizeOutcome::ToolError,
    }
}

/// Turns a failed resize into a report, unless it asks for a reboot.
pub open spec fn absorbed(o: OdsView, result: Result<(), InitErrorView>) -> (OdsView, Result<(), InitErrorView>) {
    match result {
        Err(InitramfsError::ResizeData(e)) => if e matches ResizeDataError::Filesystem(f) && f is FsckRequiresReboot {
            (o, result)
        } else {
            (
                OdsView {
                    resize_data: Some(ResizeStatus { outcome: reported_as(e), reason: e.text() }),
                    ..o
                },
                Ok(()),
            )
        },
        _ => (o, result),
    }
}

pub fn handle_result(result: Result<(), InitramfsError>, ods_status: &mut OdsStatus) -> (r: Result<(), InitramfsError>)
    ensures
        (final(ods_status)@, result_view(r)) == absorbed(old(ods_status)@, result_view(result)),
{
    match result {
        Ok(()) => Ok(()),
        // FsckRequiresReboot: a reboot to fix the partition is the correct remedy.
        Err(
            InitramfsError::ResizeData(
                ResizeDataError::Filesystem(FilesystemError::FsckRequiresReboot { device, code, output }),
            ),
        ) => Err(
            InitramfsError::ResizeData(
                ResizeDataError::Filesystem(FilesystemError::FsckRequiresReboot { device, code, output }),
            ),
        ),
        // Absorb only ResizeData errors — non-resize errors (e.g. Bootloader
        // from a transient get_env failure) propagate to preserve their
        // recovery class.
        Err(InitramfsError::ResizeData(inner)) => {
            let reason = inner.to_string();
            let outcome = outcome_for(&inner);
            ods_status.set_resize_status(ResizeStatus { outcome, reason });
            Ok(())
        },
        Err(e) => Err(e),
    }
}

/// Grows the data partition where it is due: on the first boot, and where nobody can tell
/// whether it is the first.
pub open spec fn attempted(t: Transcript, env_available: bool, o: OdsView, layout: LayoutView, table: PartitionTable) -> (
    Transcript,
    InitOutcome<()>,
) {
    if env_available && !o.first_boot {
        (t, Ok(()))
    } else {
        match resized(t, layout, table) {
            (t1, Ok(_)) => (t1, Ok(())),
            (t1, Err(e)) => (t1, resize_lifted(Err::<(), _>(e))),
        }
    }
}

/// The warning about a failed resize that was reported.
pub open spec fn skip_warning(o: OdsView) -> Seq<char> {
    "resize-data init setup skipped: "@ + match o.resize_data {
        Some(status) => status.reason,
        None => Seq::empty(),
    }
}

fn warn_of_skip(ods_status: &OdsStatus, sys: &mut Session) -> (r: Option<()>)
    ensures
        (final(sys)@, r) == warned(old(sys)@, skip_warning(ods_status@)),
{
    let reason = match &ods_status.resize_data {
        Some(status) => status.reason.clone(),
        None => String::new(),
    };
    assert(ods_status@.resize_data is None ==> reason@ =~= Seq::<char>::empty());
    sys.warn(concat2("resize-data init setup skipped: ", reason.as_str()).as_str())
}

/// The step: grows the data partition, and reports a failure and warns about it.
pub open spec fn stepped(t: Transcript, env_available: bool, o: OdsView, layout: LayoutView, table: PartitionTable) -> (
    Transcript,
    OdsView,
    InitOutcome<()>,
) {
    match attempted(t, env_available, o, layout, table) {
        (t1, Ok(_)) => (t1, o, Ok(())),
        (t1, Err(Stop::Pending)) => (t1, o, Err(Stop::Pending)),
        (t1, Err(Stop::Failed(e))) => match absorbed(o, Err(e)) {
            (o1, Ok(_)) => {
                let (t2, r) = warned(t1, skip_warning(o1));
                (t2, o1, step_of(r))
            },
            (o1, Err(e1)) => (t1, o1, Err(Stop::Failed(e1))),
        },
    }
}

fn attempt<B: BootEnv>(ctx: &InitSetupCtx<B>, sys: &mut Session) -> (r: Result<(), Stop<InitramfsError>>)
    ensures
        (final(sys)@, outcome(r)) == attempted(
            old(sys)@,
            ctx.boot_env is Available,
            ctx.ods_status@,
            ctx.layout@,
            ctx.table,
        ),
{
    // Use the already-computed flag rather than re-reading the boot env.
    // A redundant get_env call here could brick on a transient error
    // (Bootloader → Fatal) while compute_first_boot already rode through it.
    if !ctx.boot_env.is_degraded() && !ctx.ods_status.first_boot {
        return Ok(());
    }
    resize_if_needed(ctx.layout, ctx.table, None::<&mut B>, sys)
}

pub fn run<B: BootEnv>(ctx: &mut InitSetupCtx<B>, sys: &mut Session) -> (r: Result<(), Stop<InitramfsError>>)
    ensures
        final(ctx).same_frame(*old(ctx)),
        final(ctx).boot_env == old(ctx).boot_env,
        (final(sys)@, final(ctx).ods_status@, outcome(r)) == stepped(
            old(sys)@,
            old(ctx).boot_env is Available,
            old(ctx).ods_status@,
            old(ctx).layout@,
            old(ctx).table,
        ),
{
    match attempt(ctx, sys) {
        Ok(()) => Ok(()),
        Err(Stop::Pending) => Err(Stop::Pending),
        Err(Stop::Failed(e)) => match handle_result(Err(e), &mut ctx.ods_status) {
            Ok(()) => or_pending(warn_of_skip(&ctx.ods_status, sys)),
            Err(e) => Err(Stop::Failed(e)),
        },
    }
}

/// A failed resize never stops the boot unless it asks for a reboot, and is reported; other
/// errors are neither absorbed nor reported.
pub proof fn law_resize_failure_absorbed(o: OdsView, e: InitErrorView)
    ensures
        absorbed(o, Err(e)).1 is Ok <==> (e is ResizeData && !e.asks_for_reboot()),
        absorbed(o, Err(e)).1 is Ok ==> absorbed(o, Err(e)).0.resize_data is Some,
        absorbed(o, Err(e)).1 is Err ==> absorbed(o, Err(e)) == (o, Err::<(), _>(e)),
{
}

} // verus!
