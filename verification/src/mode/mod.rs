//! Boot modes

pub mod factory_reset;
pub mod first_boot;
pub mod normal;
pub mod resize_data;

use vstd::prelude::*;
use vstd::string::*;

use crate::bootloader::{BootEnv, BootEnvKey, BootEnvState, EnvRead};
use crate::config::Config;
use crate::error::{InitOutcome, InitramfsError};
use crate::mode::factory_reset::config::{trigger_of, FactoryResetConfig, ResetConfigView};
use crate::partition::PartitionLayout;
use crate::runtime::status::OdsStatus;
use crate::system::{outcome, Session, Stop, Transcript};

verus! {

/// Runtime context passed to the active boot-mode handler.
pub struct BootContext<'a, B: BootEnv> {
    pub config: &'a Config,
    pub layout: &'a PartitionLayout,
    pub rootfs: &'a str,
    pub boot_env: BootEnvState<B>,
    pub ods_status: OdsStatus,
    /// Whether the image grows its data partition.
    pub resize_data: bool,
}

impl<'a, B: BootEnv> BootContext<'a, B> {
    pub fn new(
        config: &'a Config,
        layout: &'a PartitionLayout,
        rootfs: &'a str,
        boot_env: BootEnvState<B>,
        ods_status: OdsStatus,
        resize_data: bool,
    ) -> (r: Self)
        ensures
            r == (BootContext { config, layout, rootfs, boot_env, ods_status, resize_data }),
    {
        BootContext { config, layout, rootfs, boot_env, ods_status, resize_data }
    }

    /// What no handler changes: everything but the status and the state of an open
    /// environment.
    pub open spec fn same_frame(self, earlier: Self) -> bool {
        &&& self.config == earlier.config
        &&& self.layout == earlier.layout
        &&& self.rootfs == earlier.rootfs
        &&& self.resize_data == earlier.resize_data
        &&& (earlier.boot_env is Degraded ==> self.boot_env == earlier.boot_env)
    }

    /// The init that the kernel command line asks for.
    pub open spec fn wanted_init(self) -> Option<Seq<char>> {
        if self.config.cmdline@.dom().contains("init"@) {
            Some(self.config.cmdline@["init"@])
        } else {
            None
        }
    }
}

/// The detected boot mode to execute.
pub enum BootMode {
    Normal,
    FactoryReset(FactoryResetConfig),
}

/// A boot mode by view.
pub enum ModeView {
    Normal,
    FactoryReset(ResetConfigView),
}

impl View for BootMode {
    type V = ModeView;

    open spec fn view(&self) -> ModeView {
        match *self {
            BootMode::Normal => ModeView::Normal,
            BootMode::FactoryReset(config) => ModeView::FactoryReset(config@),
        }
    }
}

/// The mode that the trigger variable asks for. Whatever is no valid trigger asks for a normal
/// boot.
pub open spec fn mode_for(answer: EnvRead) -> ModeView {
    match answer {
        Ok(Some(json)) => match trigger_of(json) {
            Ok(config) => ModeView::FactoryReset(config),
            Err(_) => ModeView::Normal,
        },
        _ => ModeView::Normal,
    }
}

/// The mode that a text of the trigger variable asks for.
pub fn mode_from_trigger(json: &str) -> (r: BootMode)
    ensures
        r@ == mode_for(Ok(Some(json@))),
{
    match FactoryResetConfig::parse(json) {
        Ok(config) => BootMode::FactoryReset(config),
        Err(_) => BootMode::Normal,
    }
}

/// Reads the trigger variable, if there is an environment, and decides on the mode.
pub open spec fn mode_detected<B: BootEnv>(t: Transcript, s: Option<B::State>) -> (
    Transcript,
    Option<B::State>,
    InitOutcome<ModeView>,
) {
    match s {
        None => (t, None, Ok(ModeView::Normal)),
        Some(s0) => match B::reads(t, s0, BootEnvKey::FactoryReset) {
            (t1, s1, Err(Stop::Pending)) => (t1, Some(s1), Err(Stop::Pending)),
            (t1, s1, answer) => (t1, Some(s1), Ok(mode_for(answer))),
        },
    }
}

impl BootMode {
    /// Detect the boot mode from the boot environment.
    ///
    /// When the `factory-reset` bootloader env key is set and contains valid
    /// JSON, returns `FactoryReset`. Falls back to `Normal` on any env-read
    /// or JSON parse error — never blocks boot.
    pub fn detect<B: BootEnv>(bl: Option<&mut B>, sys: &mut Session) -> (r: Result<BootMode, Stop<InitramfsError>>)
        ensures
            match bl {
                Some(b) => (final(sys)@, Some(final(b).state()), outcome(r)) == mode_detected::<B>(
                    old(sys)@,
                    Some(b.state()),
                ),
                None => (final(sys)@, None::<B::State>, outcome(r)) == mode_detected::<B>(old(sys)@, None),
            },
    {
        match bl {
            Some(b) => match b.get_env(BootEnvKey::FactoryReset, sys) {
                Ok(Some(json)) => Ok(mode_from_trigger(json.as_str())),
                Ok(None) => Ok(BootMode::Normal),
                Err(Stop::Pending) => Err(Stop::Pending),
                Err(Stop::Failed(_)) => Ok(BootMode::Normal),
            },
            None => Ok(BootMode::Normal),
        }
    }
}

/// Nothing but a pending answer keeps the mode from being detected, and a factory reset is
/// detected only where the variable was read and holds a valid trigger.
pub proof fn law_mode_never_blocks_boot<B: BootEnv>(t: Transcript, s: Option<B::State>)
    ensures
        !(mode_detected::<B>(t, s).2 matches Err(Stop::Failed(_))),
        mode_detected::<B>(t, s).2 matches Ok(ModeView::FactoryReset(config)) ==> s is Some && (B::reads(
            t,
            s->0,
            BootEnvKey::FactoryReset,
        ).2 matches Ok(Some(json)) && trigger_of(json) is Ok),
{
}

} // verus!
