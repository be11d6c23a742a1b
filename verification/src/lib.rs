//! omnect-os-init library
//!
//! This library holds the decisions of the omnect-os init process: what it asks of
//! the system, in which order, and what it makes of the answers. Each procedure works on a
//! [`system::Session`], which holds the answers that are there so far; where an answer is
//! missing, the procedure stops, and the caller performs the outstanding request and runs it
//! again.

pub mod bootloader;
pub mod bytes;
pub mod config;
pub mod e2fsck;
pub mod early_init;
pub mod error;
pub mod fields;
pub mod filesystem;
pub mod finish;
pub mod init_setup;
pub mod json;
pub mod laws;
pub mod logging;
pub mod map;
pub mod mode;
pub mod mount;
pub mod order;
pub mod partition;
pub mod path;
pub mod preflight;
pub mod recovery;
pub mod replay;
pub mod resizefs;
pub mod rootblk;
pub mod runtime;
pub mod system;
pub mod text;
pub mod util;

// Re-export main types for convenience
pub use crate::bootloader::session_env::open_boot_env;
pub use crate::bootloader::{classify_boot_env, BootEnv, BootEnvDecision, BootEnvState, MockBootEnv};
pub use crate::early_init::mount_essential_filesystems;
pub use crate::error::InitramfsError;
pub use crate::runtime::OdsStatus;

use vstd::prelude::*;
use vstd::string::*;

use crate::bootloader::session_env::{env_opened, BootloaderKind, SessionEnv};
use crate::bootloader::{flag_set, BootEnvErrorView, BootEnvKey, FIRST_BOOT_DONE};
use crate::config::{cmdline_loaded, Config};
use crate::error::{InitErrorView, InitOutcome, PartitionError};
use crate::filesystem::boot_sequence::{core_mounted, mount_core_partitions, persist_fsck_results, persisted};
use crate::init_setup::InitSetupCtx;
use crate::mode::factory_reset::reset_booted;
use crate::mode::normal::booted;
use crate::mode::{mode_detected, BootContext, BootMode, ModeView};
use crate::partition::device::detected;
use crate::partition::layout::{built_map, devices_for, LayoutView};
use crate::partition::symlinks::{all_linked, PartOutcome};
use crate::partition::{create_omnect_symlinks, detect_root_device, PartitionLayout, PartitionTable};
use crate::runtime::status::{DegradedBootStatus, OdsView};
use crate::system::{outcome, Session, Stop, Transcript};
use crate::text::same;

verus! {

/// Mount point for the real rootfs inside the initramfs.
pub const ROOTFS_DIR: &'static str = "/rootfs";

/// What an image is built with.
#[derive(Debug, Clone, Copy)]
pub struct ImageConfig {
    pub bootloader: BootloaderKind,
    pub table: PartitionTable,
    /// A release image boots on without a boot environment; a debug image does not.
    pub release: bool,
    /// Whether the image grows its data partition.
    pub resize_data: bool,
    /// Whether the image can be reset to factory defaults.
    pub factory_reset: bool,
    pub persistent_var_log: bool,
}

/// `true` if `omnect_validate_update` was set in the boot env at the time
/// it was read. Default `false` so a failure before the env is opened (or in
/// degraded mode) is reported as "no update in flight".
///
/// Single writer: [`run_init`] after `apply_boot_env_decision` succeeds.
#[derive(Debug, Clone, Copy)]
pub struct UpdatePending {
    pub value: bool,
}

impl Default for UpdatePending {
    fn default() -> (r: Self)
        ensures
            !r.value,
    {
        UpdatePending { value: false }
    }
}

pub fn set_update_pending(pending: &mut UpdatePending, value: bool)
    ensures
        final(pending).value == value,
{
    pending.value = value;
}

pub fn read_update_pending(pending: &UpdatePending) -> (r: bool)
    ensures
        r == pending.value,
{
    pending.value
}

/// Reads a variable, if there is an environment, and judges what was read. `None` means that
/// an answer is missing.
pub open spec fn judged<B: BootEnv>(
    t: Transcript,
    s: Option<B::State>,
    key: BootEnvKey,
    verdict: spec_fn(Option<Seq<char>>) -> bool,
) -> (Transcript, Option<B::State>, Option<bool>) {
    match s {
        Some(s0) => match B::reads(t, s0, key) {
            (t1, s1, Err(Stop::Pending)) => (t1, Some(s1), None),
            (t1, s1, Err(Stop::Failed(_))) => (t1, Some(s1), Some(false)),
            (t1, s1, Ok(v)) => (t1, Some(s1), Some(verdict(v))),
        },
        None => (t, None, Some(false)),
    }
}

/// Asks whether an update is in flight.
pub open spec fn pending_in<B: BootEnv>(t: Transcript, s: Option<B::State>) -> (
    Transcript,
    Option<B::State>,
    Option<bool>,
) {
    judged::<B>(t, s, BootEnvKey::ValidateUpdate, |v: Option<Seq<char>>| flag_set(v))
}

/// Derive the update-pending flag from a boot environment.
///
/// Returns `true` only when the env is available *and* `omnect_validate_update`
/// holds a non-empty value; all other cases (degraded env, read error, key
/// absent or empty) return `false` so failures before the env is opened are
/// treated as "no update in flight". `None` means that an answer is missing.
pub fn update_pending_from_env<B: BootEnv>(env: &mut BootEnvState<B>, sys: &mut Session) -> (r: Option<bool>)
    ensures
        (final(sys)@, final(env).state(), r) == pending_in::<B>(old(sys)@, old(env).state()),
        *old(env) is Degraded ==> *final(env) == *old(env),
{
    match env.available_mut() {
        Some(bl) => match bl.is_flag_set(BootEnvKey::ValidateUpdate, sys) {
            Ok(set) => Some(set),
            Err(Stop::Pending) => None,
            Err(Stop::Failed(_)) => Some(false),
        },
        None => Some(false),
    }
}

/// Asks whether this is the first boot.
pub open spec fn first_boot_in<B: BootEnv>(t: Transcript, s: Option<B::State>) -> (
    Transcript,
    Option<B::State>,
    Option<bool>,
) {
    judged::<B>(t, s, BootEnvKey::FirstBootDone, |v: Option<Seq<char>>| v != Some(FIRST_BOOT_DONE@))
}

/// Compute the first-boot flag from the opened boot env.
///
/// `true` unless the marker holds exactly `FIRST_BOOT_DONE`. Repeating the work it
/// gates is a no-op, skipping it can leave the device unresized, so a missing,
/// empty or unexpected value counts as a fresh first boot. A read error or a
/// degraded env yield `false`: under uncertainty, no first-boot side effects.
/// `None` means that an answer is missing.
pub fn compute_first_boot<B: BootEnv>(env: &mut BootEnvState<B>, sys: &mut Session) -> (r: Option<bool>)
    ensures
        (final(sys)@, final(env).state(), r) == first_boot_in::<B>(old(sys)@, old(env).state()),
        *old(env) is Degraded ==> *final(env) == *old(env),
{
    match env.available_mut() {
        Some(bl) => match bl.get_env(BootEnvKey::FirstBootDone, sys) {
            Ok(Some(v)) => Some(!same(v.as_str(), FIRST_BOOT_DONE)),
            Ok(None) => Some(true),
            Err(Stop::Pending) => None,
            Err(Stop::Failed(_)) => Some(false),
        },
        None => Some(false),
    }
}

/// Why init does not go on, with the boot environment as it was left.
pub struct Refused<B: BootEnv> {
    pub stop: Stop<InitramfsError>,
    pub env: Option<BootEnvState<B>>,
}

/// The status of a boot with this environment.
pub open spec fn noting_degraded<B: BootEnv>(o: OdsView, env: BootEnvState<B>) -> OdsView {
    match env {
        BootEnvState::Degraded(e) => OdsView {
            degraded_boot: Some(DegradedBootStatus { reason: e@.text() }),
            ..o
        },
        BootEnvState::Available(_) => o,
    }
}

/// Apply a boot env decision, enforcing the FsckRequiresReboot-wins invariant.
///
/// Persists fsck results to the bootloader environment *before* propagating
/// `core_result`, satisfying the contract documented in `mount_core_partitions`:
/// the diagnostic must be written before the error propagates, or it is lost
/// across the reboot. This is a no-op for degraded boot (`env.available_mut()`
/// returns `None`) and when `ods_status.fsck` is empty.
///
/// The records stay in `ods_status`. `drain_fsck_env` reads the env back into the
/// same map keys later in the boot, so nothing is duplicated, and a persist that
/// failed still reaches the ODS JSON.
pub fn apply_boot_env_decision<B: BootEnv>(
    decision: BootEnvDecision<B>,
    core_result: Result<(), InitramfsError>,
    ods_status: &mut OdsStatus,
    rootfs: &str,
    sys: &mut Session,
) -> (r: Result<BootEnvState<B>, Refused<B>>)
    ensures
        match decision {
            BootEnvDecision::Continue(env) => {
                let (t1, s1, done) = persisted::<B>(old(sys)@, env.state(), old(ods_status)@, rootfs@);
                &&& final(sys)@ == t1
                &&& match r {
                    Ok(after) => {
                        &&& done is Some && core_result is Ok
                        &&& after.state() == s1
                        &&& env is Degraded ==> after == env
                        &&& final(ods_status)@ == noting_degraded(old(ods_status)@, env)
                    },
                    Err(refused) => {
                        &&& refused.stop == match done {
                            None => Stop::Pending,
                            Some(_) => Stop::Failed(core_result->Err_0),
                        }
                        &&& done is Some ==> core_result is Err
                        &&& refused.env is Some && refused.env->0.state() == s1
                        &&& env is Degraded ==> refused.env == Some(env)
                        &&& final(ods_status)@ == old(ods_status)@
                    },
                }
            },
            BootEnvDecision::Abort(err) => {
                &&& final(sys)@ == old(sys)@
                &&& final(ods_status)@ == old(ods_status)@
                &&& r == Err::<BootEnvState<B>, Refused<B>>(
                    Refused {
                        stop: Stop::Failed(
                            match core_result {
                                Err(e) => e,
                                Ok(_) => err,
                            },
                        ),
                        env: None,
                    },
                )
            },
        },
{
    match decision {
        BootEnvDecision::Continue(env) => {
            let mut env = env;
            // Must precede the core result — otherwise a FsckRequiresReboot error
            // propagates before the diagnostic is written to the boot env.
            match persist_fsck_results(ods_status, env.available_mut(), rootfs, sys) {
                None => {
                    return Err(Refused { stop: Stop::Pending, env: Some(env) });
                },
                Some(()) => {},
            }
            match core_result {
                Err(e) => {
                    return Err(Refused { stop: Stop::Failed(e), env: Some(env) });
                },
                Ok(()) => {},
            }
            match &env {
                BootEnvState::Degraded(e) => {
                    ods_status.set_degraded_boot(e.to_string());
                },
                BootEnvState::Available(_) => {},
            }
            Ok(env)
        },
        BootEnvDecision::Abort(err) => match core_result {
            Err(e) => Err(Refused { stop: Stop::Failed(e), env: None }),
            Ok(()) => Err(Refused { stop: Stop::Failed(err), env: None }),
        },
    }
}

/// How a step of the partition management ended, as the outcome of a boot procedure.
pub open spec fn part_lifted<T>(r: PartOutcome<T>) -> InitOutcome<T> {
    match r {
        Ok(x) => Ok(x),
        Err(Stop::Pending) => Err(Stop::Pending),
        Err(Stop::Failed(e)) => Err(Stop::Failed(InitramfsError::Partition(e))),
    }
}

fn lift_part(stop: Stop<PartitionError>) -> (r: Stop<InitramfsError>)
    ensures
        r == match stop {
            Stop::Pending => Stop::Pending,
            Stop::Failed(e) => Stop::Failed(InitramfsError::Partition(e)),
        },
{
    match stop {
        Stop::Pending => Stop::Pending,
        Stop::Failed(e) => Stop::Failed(InitramfsError::Partition(e)),
    }
}

/// The kernel command line, and the layout of the disk that it names, whose device links are
/// there.
#[verifier::opaque]
pub open spec fn located(t: Transcript, table: PartitionTable) -> (
    Transcript,
    InitOutcome<(Map<Seq<char>, Seq<char>>, LayoutView)>,
) {
    match cmdline_loaded(t) {
        (t1, Err(e)) => (t1, Err(e)),
        (t1, Ok(cmdline)) => match detected(t1, "/proc/cmdline"@) {
            (t2, Err(e)) => (t2, part_lifted(Err::<(Map<Seq<char>, Seq<char>>, LayoutView), _>(e))),
            (t2, Ok(device)) => match built_map(device, table) {
                Err(e) => (t2, Err(Stop::Failed(InitramfsError::Partition(e)))),
                Ok(partitions) => {
                    let layout = LayoutView { partitions, device };
                    match all_linked(t2, device.base, devices_for(device, table), layout.current_root()) {
                        (t3, Err(e)) => (t3, part_lifted(Err::<(Map<Seq<char>, Seq<char>>, LayoutView), _>(e))),
                        (t3, Ok(_)) => (t3, Ok((cmdline, layout))),
                    }
                },
            },
        },
    }
}

fn locate(image: &ImageConfig, sys: &mut Session) -> (r: Result<(Config, PartitionLayout), Stop<InitramfsError>>)
    ensures
        final(sys)@ == located(old(sys)@, image.table).0,
        match r {
            Ok((config, layout)) => {
                &&& located(old(sys)@, image.table).1 == InitOutcome::Ok((config.cmdline@, layout@))
                &&& config.overlay.persistent_var_log == image.persistent_var_log
            },
            Err(e) => located(old(sys)@, image.table).1 == InitOutcome::<
                (Map<Seq<char>, Seq<char>>, LayoutView),
            >::Err(e@),
        },
{
    reveal(located);
    let config = match Config::load(image.persistent_var_log, sys) {
        Err(e) => {
            return Err(e);
        },
        Ok(config) => config,
    };
    let root_device = match detect_root_device(sys) {
        Err(e) => {
            return Err(lift_part(e));
        },
        Ok(device) => device,
    };
    let layout = match PartitionLayout::new(root_device, image.table) {
        Err(e) => {
            return Err(Stop::Failed(InitramfsError::Partition(e)));
        },
        Ok(layout) => layout,
    };
    match create_omnect_symlinks(&layout, sys) {
        Err(e) => Err(lift_part(e)),
        Ok(()) => Ok((config, layout)),
    }
}

/// Asks the boot environment for the mode. An image that cannot be reset does not ask.
#[verifier::opaque]
pub open spec fn mode_in<B: BootEnv>(t: Transcript, s: Option<B::State>, factory_reset: bool) -> (
    Transcript,
    Option<B::State>,
    InitOutcome<ModeView>,
) {
    if factory_reset {
        mode_detected::<B>(t, s)
    } else {
        (t, s, Ok(ModeView::Normal))
    }
}

fn detect_mode<B: BootEnv>(env: &mut BootEnvState<B>, factory_reset: bool, sys: &mut Session) -> (r: Result<
    BootMode,
    Stop<InitramfsError>,
>)
    ensures
        (final(sys)@, final(env).state(), outcome(r)) == mode_in::<B>(old(sys)@, old(env).state(), factory_reset),
        *old(env) is Degraded ==> *final(env) == *old(env),
{
    reveal(mode_in::<SessionEnv>);
    if factory_reset {
        BootMode::detect(env.available_mut(), sys)
    } else {
        Ok(BootMode::Normal)
    }
}

/// The init that a kernel command line asks for.
pub open spec fn init_of(cmdline: Map<Seq<char>, Seq<char>>) -> Option<Seq<char>> {
    if cmdline.dom().contains("init"@) {
        Some(cmdline["init"@])
    } else {
        None
    }
}

/// Runs the boot mode.
#[verifier::opaque]
pub open spec fn mode_run<B: BootEnv>(
    t: Transcript,
    s: Option<B::State>,
    o: OdsView,
    layout: LayoutView,
    cmdline: Map<Seq<char>, Seq<char>>,
    image: ImageConfig,
    mode: ModeView,
) -> (Transcript, Option<B::State>, OdsView, InitOutcome<()>) {
    match mode {
        ModeView::Normal => booted::<B>(
            t,
            s,
            o,
            layout,
            ROOTFS_DIR@,
            image.persistent_var_log,
            init_of(cmdline),
            image.resize_data,
        ),
        ModeView::FactoryReset(config) => reset_booted::<B>(
            t,
            s,
            o,
            layout,
            ROOTFS_DIR@,
            image.persistent_var_log,
            init_of(cmdline),
            image.resize_data,
            config.preserve,
        ),
    }
}

/// Everything that follows once it is decided how to go on without or with the boot
/// environment. The third part is whether an update is in flight, as far as that was asked.
pub open spec fn continued<B: BootEnv>(
    t: Transcript,
    s: Option<B::State>,
    o: OdsView,
    layout: LayoutView,
    cmdline: Map<Seq<char>, Seq<char>>,
    image: ImageConfig,
    pending: bool,
) -> (Transcript, Option<B::State>, bool, InitOutcome<()>) {
    match first_boot_in::<B>(t, s) {
        (t1, s1, None) => (t1, s1, pending, Err(Stop::Pending)),
        (t1, s1, Some(first_boot)) => match pending_in::<B>(t1, s1) {
            (t2, s2, None) => (t2, s2, pending, Err(Stop::Pending)),
            (t2, s2, Some(in_flight)) => match init_setup::set_up::<B>(
                t2,
                s2,
                OdsView { first_boot, ..o },
                ROOTFS_DIR@,
                in_flight,
                image.resize_data,
                layout,
                image.table,
            ) {
                (t3, s3, o3, Err(e)) => (t3, s3, in_flight, Err(e)),
                (t3, s3, o3, Ok(_)) => match mode_in::<B>(t3, s3, image.factory_reset) {
                    (t4, s4, Err(e)) => (t4, s4, in_flight, Err(e)),
                    (t4, s4, Ok(mode)) => {
                        let r = mode_run::<B>(t4, s4, o3, layout, cmdline, image, mode);
                        (r.0, r.1, in_flight, r.3)
                    },
                },
            },
        },
    }
}

fn run_mode<B: BootEnv>(ctx: &mut BootContext<B>, mode: BootMode, image: &ImageConfig, sys: &mut Session) -> (r: Result<
    (),
    Stop<InitramfsError>,
>)
    requires
        old(ctx).rootfs@ == ROOTFS_DIR@,
        old(ctx).config.overlay.persistent_var_log == image.persistent_var_log,
        old(ctx).resize_data == image.resize_data,
    ensures
        (final(sys)@, final(ctx).boot_env.state(), final(ctx).ods_status@, outcome(r)) == mode_run::<B>(
            old(sys)@,
            old(ctx).boot_env.state(),
            old(ctx).ods_status@,
            old(ctx).layout@,
            old(ctx).config.cmdline@,
            *image,
            mode@,
        ),
{
    reveal(mode_run::<SessionEnv>);
    match mode {
        BootMode::Normal => mode::normal::run(ctx, sys),
        BootMode::FactoryReset(config) => mode::factory_reset::run(ctx, &config, sys),
    }
}

fn continue_boot<B: BootEnv>(
    env: BootEnvState<B>,
    ods_status: OdsStatus,
    config: &Config,
    layout: &PartitionLayout,
    image: &ImageConfig,
    pending: &mut UpdatePending,
    sys: &mut Session,
) -> (r: Result<(), Stop<InitramfsError>>)
    requires
        config.overlay.persistent_var_log == image.persistent_var_log,
    ensures
        ({
            let (t, s, in_flight, end) = continued::<B>(
                old(sys)@,
                env.state(),
                ods_status@,
                layout@,
                config.cmdline@,
                *image,
                old(pending).value,
            );
            (final(sys)@, final(pending).value, outcome(r)) == (t, in_flight, end)
        }),
{
    let mut env = env;
    let mut ods_status = ods_status;
    ods_status.first_boot = match compute_first_boot(&mut env, sys) {
        None => {
            return Err(Stop::Pending);
        },
        Some(first_boot) => first_boot,
    };

    // Read omnect_validate_update once, before any subsequent fallible step.
    let update_pending = match update_pending_from_env(&mut env, sys) {
        None => {
            return Err(Stop::Pending);
        },
        Some(update_pending) => update_pending,
    };
    set_update_pending(pending, update_pending);

    let mut setup = InitSetupCtx {
        layout,
        table: image.table,
        boot_env: env,
        ods_status,
        rootfs: ROOTFS_DIR,
        update_pending: read_update_pending(pending),
        resize_data: image.resize_data,
    };
    match init_setup::run(&mut setup, sys) {
        Err(e) => {
            return Err(e);
        },
        Ok(()) => {},
    }
    let mut ctx = BootContext::new(
        config,
        layout,
        ROOTFS_DIR,
        setup.boot_env,
        setup.ods_status,
        image.resize_data,
    );
    match detect_mode(&mut ctx.boot_env, image.factory_reset, sys) {
        Err(e) => Err(e),
        Ok(mode) => run_mode(&mut ctx, mode, image, sys),
    }
}

/// What becomes of the boot once the core partitions were tried and the boot environment was
/// tried to open. The second part is whether an update is in flight, as far as that was asked.
pub open spec fn decided(
    t: Transcript,
    o: OdsView,
    core: Result<(), InitErrorView>,
    opened: Result<(), BootEnvErrorView>,
    layout: LayoutView,
    cmdline: Map<Seq<char>, Seq<char>>,
    image: ImageConfig,
    pending: bool,
) -> (Transcript, bool, InitOutcome<()>) {
    match opened {
        Err(e) if !image.release => (
            t,
            pending,
            Err(
                Stop::Failed(
                    match core {
                        Err(failure) => failure,
                        Ok(_) => InitramfsError::DegradedBoot(e),
                    },
                ),
            ),
        ),
        _ => match persisted::<SessionEnv>(t, env_state(opened, image), o, ROOTFS_DIR@) {
            (t1, s1, None) => (t1, pending, Err(Stop::Pending)),
            (t1, s1, Some(_)) => match core {
                Err(failure) => (t1, pending, Err(Stop::Failed(failure))),
                Ok(_) => {
                    let r = continued::<SessionEnv>(
                        t1,
                        s1,
                        match opened {
                            Ok(_) => o,
                            Err(e) => OdsView {
                                degraded_boot: Some(DegradedBootStatus { reason: e.text() }),
                                ..o
                            },
                        },
                        layout,
                        cmdline,
                        image,
                        pending,
                    );
                    (r.0, r.2, r.3)
                },
            },
        },
    }
}

/// The state of the boot environment, where it could be opened.
pub open spec fn env_state(opened: Result<(), BootEnvErrorView>, image: ImageConfig) -> Option<BootloaderKind> {
    match opened {
        Ok(_) => Some(image.bootloader),
        Err(_) => None,
    }
}

/// The whole init procedure. The second part is whether an update is in flight, as far as that
/// was asked.
pub open spec fn initialised(t: Transcript, image: ImageConfig, pending: bool) -> (Transcript, bool, InitOutcome<()>) {
    match located(t, image.table) {
        (t1, Err(e)) => (t1, pending, Err(e)),
        (t1, Ok((cmdline, layout))) => match core_mounted(t1, OdsView::empty(), layout, ROOTFS_DIR@) {
            (t2, o, Err(Stop::Pending)) => (t2, pending, Err(Stop::Pending)),
            (t2, o, core) => match env_opened(t2, image.bootloader) {
                (t3, Err(Stop::Pending)) => (t3, pending, Err(Stop::Pending)),
                (t3, opened) => decided(
                    t3,
                    o,
                    match core {
                        Err(Stop::Failed(e)) => Err(e),
                        _ => Ok(()),
                    },
                    match opened {
                        Err(Stop::Failed(e)) => Err(e),
                        _ => Ok(()),
                    },
                    layout,
                    cmdline,
                    image,
                    pending,
                ),
            },
        },
    }
}

fn decide_and_continue(
    open_result: crate::bootloader::Result<SessionEnv>,
    core_result: Result<(), InitramfsError>,
    ods_status: OdsStatus,
    config: &Config,
    layout: &PartitionLayout,
    image: &ImageConfig,
    pending: &mut UpdatePending,
    sys: &mut Session,
) -> (r: Result<(), Stop<InitramfsError>>)
    requires
        config.overlay.persistent_var_log == image.persistent_var_log,
        open_result matches Ok(env) ==> env.state() == image.bootloader,
    ensures
        (final(sys)@, final(pending).value, outcome(r)) == decided(
            old(sys)@,
            ods_status@,
            match core_result {
                Ok(_) => Ok(()),
                Err(e) => Err(e@),
            },
            match open_result {
                Ok(_) => Ok(()),
                Err(e) => Err(e@),
            },
            layout@,
            config.cmdline@,
            *image,
            old(pending).value,
        ),
{
    let mut ods_status = ods_status;
    let decision = classify_boot_env(open_result, image.release);
    match apply_boot_env_decision(decision, core_result, &mut ods_status, ROOTFS_DIR, sys) {
        Err(refused) => Err(refused.stop),
        Ok(env) => continue_boot(env, ods_status, config, layout, image, pending, sys),
    }
}

/// Runs the init procedure up to the hand-over to the init of the root filesystem.
pub fn run_init(image: &ImageConfig, pending: &mut UpdatePending, sys: &mut Session) -> (r: Result<
    (),
    Stop<InitramfsError>,
>)
    ensures
        (final(sys)@, final(pending).value, outcome(r)) == initialised(old(sys)@, *image, old(pending).value),
{
    let (config, layout) = match locate(image, sys) {
        Err(e) => {
            return Err(e);
        },
        Ok(found) => found,
    };
    let mut ods_status = OdsStatus::new();

    // Capture the result rather than propagating immediately: apply_boot_env_decision
    // must persist any fsck diagnostic held in ods_status before the error propagates.
    let core_result = match mount_core_partitions(&layout, ROOTFS_DIR, &mut ods_status, sys) {
        Err(Stop::Pending) => {
            return Err(Stop::Pending);
        },
        Err(Stop::Failed(e)) => Err(e),
        Ok(()) => Ok(()),
    };

    // Best-effort: open the bootloader environment. The image type determines how
    // to proceed when it is unavailable — see classify_boot_env.
    //
    // Note: if mount_core_partitions returned FsckRequiresReboot, the boot partition
    // may not be mounted (GRUB), causing open_boot_env() to fail.
    // apply_boot_env_decision always propagates core_result before DegradedBoot.
    let open_result = match open_boot_env(image.bootloader, sys) {
        Err(Stop::Pending) => {
            return Err(Stop::Pending);
        },
        Err(Stop::Failed(e)) => Err(e),
        Ok(env) => Ok(env),
    };
    decide_and_continue(open_result, core_result, ods_status, &config, &layout, image, pending, sys)
}

/// A failure of the core partitions is what the boot ends with, whatever became of the boot
/// environment, and the flag of an update in flight stays as it was.
pub proof fn law_core_failure_wins(
    t: Transcript,
    o: OdsView,
    failure: InitErrorView,
    opened: Result<(), BootEnvErrorView>,
    layout: LayoutView,
    cmdline: Map<Seq<char>, Seq<char>>,
    image: ImageConfig,
    pending: bool,
)
    ensures
        ({
            let (t1, in_flight, end) = decided(t, o, Err(failure), opened, layout, cmdline, image, pending);
            &&& end == InitOutcome::<()>::Err(Stop::Failed(failure)) || end == InitOutcome::<()>::Err(Stop::Pending)
            &&& in_flight == pending
        }),
{
}

/// What fsck found is persisted before a failure of the core partitions is reported, where the
/// boot goes on at all without or with the boot environment.
pub proof fn law_persist_before_core_failure(
    t: Transcript,
    o: OdsView,
    failure: InitErrorView,
    opened: Result<(), BootEnvErrorView>,
    layout: LayoutView,
    cmdline: Map<Seq<char>, Seq<char>>,
    image: ImageConfig,
    pending: bool,
)
    requires
        opened is Ok || image.release,
    ensures
        decided(t, o, Err(failure), opened, layout, cmdline, image, pending).0 == persisted::<SessionEnv>(
            t,
            env_state(opened, image),
            o,
            ROOTFS_DIR@,
        ).0,
{
}

/// Without a boot environment a release image boots on and says so in the status, a debug image
/// stops.
pub proof fn law_degraded_boot(
    t: Transcript,
    o: OdsView,
    e: BootEnvErrorView,
    layout: LayoutView,
    cmdline: Map<Seq<char>, Seq<char>>,
    image: ImageConfig,
    pending: bool,
)
    ensures
        ({
            let whole = decided(t, o, Ok(()), Err(e), layout, cmdline, image, pending);
            let (t1, s1, done) = persisted::<SessionEnv>(t, None, o, ROOTFS_DIR@);
            &&& !image.release ==> whole == (
                t,
                pending,
                InitOutcome::<()>::Err(Stop::Failed(InitramfsError::DegradedBoot(e))),
            )
            &&& image.release && done is Some ==> {
                let r = continued::<SessionEnv>(
                    t1,
                    s1,
                    OdsView { degraded_boot: Some(DegradedBootStatus { reason: e.text() }), ..o },
                    layout,
                    cmdline,
                    image,
                    pending,
                );
                whole == (r.0, r.2, r.3)
            }
        }),
{
}

/// Without a boot environment it is not the first boot and no update is in flight.
pub proof fn law_degraded_defaults<B: BootEnv>(t: Transcript)
    ensures
        first_boot_in::<B>(t, None) == (t, None::<B::State>, Some(false)),
        pending_in::<B>(t, None) == (t, None::<B::State>, Some(false)),
{
}

} // verus!
