//! The boot environment of the running system
//!
//! GRUB and U-Boot keep their variables behind command line tools. A [`SessionEnv`] is the
//! environment of the bootloader that the image is built for.

use vstd::prelude::*;

use crate::bootloader::grub::GrubBootEnv;
use crate::bootloader::uboot::UBootBootloader;
use crate::bootloader::{
    grub, uboot, BootEnv, BootEnvKey, EnvDone, EnvOutcome, EnvRead, EnvRecord, EnvResult, FsckRecord,
};
use crate::filesystem::FsckExitCode;
use crate::partition::PartitionName;
use crate::system::{Session, Stop, Transcript};

verus! {

/// The bootloader that an image is built for.
#[derive(Debug, Clone, Copy, PartialEq, Eq, Structural)]
pub enum BootloaderKind {
    /// x86-64 EFI targets (`grub-editenv`)
    Grub,
    /// ARM targets (`fw_printenv`/`fw_setenv`)
    UBoot,
}

/// The boot environment of the running system.
pub enum SessionEnv {
    Grub(GrubBootEnv),
    UBoot(UBootBootloader),
}

/// Opens the boot environment.
pub open spec fn env_opened(t: Transcript, kind: BootloaderKind) -> (Transcript, EnvOutcome<()>) {
    match kind {
        BootloaderKind::Grub => grub::opened(t),
        BootloaderKind::UBoot => (t, Ok(())),
    }
}

/// Create the appropriate boot environment implementation.
pub fn open_boot_env(kind: BootloaderKind, sys: &mut Session) -> (r: EnvResult<SessionEnv>)
    ensures
        final(sys)@ == env_opened(old(sys)@, kind).0,
        match r {
            Ok(env) => env_opened(old(sys)@, kind).1 is Ok && env.state() == kind,
            Err(e) => env_opened(old(sys)@, kind).1 == EnvOutcome::<()>::Err(e@),
        },
{
    match kind {
        BootloaderKind::Grub => match GrubBootEnv::new(sys) {
            Ok(env) => Ok(SessionEnv::Grub(env)),
            Err(e) => Err(e),
        },
        BootloaderKind::UBoot => match UBootBootloader::new() {
            Ok(env) => Ok(SessionEnv::UBoot(env)),
            Err(e) => Err(Stop::Failed(e)),
        },
    }
}

/// What a call of one of the bootloaders comes to.
pub open spec fn of_kind<T>(kind: BootloaderKind, r: (Transcript, T)) -> (Transcript, BootloaderKind, T) {
    (r.0, kind, r.1)
}

impl BootEnv for SessionEnv {
    type State = BootloaderKind;

    open spec fn state(&self) -> BootloaderKind {
        match *self {
            SessionEnv::Grub(_) => BootloaderKind::Grub,
            SessionEnv::UBoot(_) => BootloaderKind::UBoot,
        }
    }

    open spec fn reads(t: Transcript, s: BootloaderKind, key: BootEnvKey) -> (Transcript, BootloaderKind, EnvRead) {
        of_kind(
            s,
            match s {
                BootloaderKind::Grub => grub::got(t, key),
                BootloaderKind::UBoot => uboot::got(t, key),
            },
        )
    }

    open spec fn writes(t: Transcript, s: BootloaderKind, key: BootEnvKey, value: Option<Seq<char>>) -> (
        Transcript,
        BootloaderKind,
        EnvDone,
    ) {
        of_kind(
            s,
            match s {
                BootloaderKind::Grub => grub::edited(t, key, value),
                BootloaderKind::UBoot => uboot::put(t, key, value),
            },
        )
    }

    open spec fn saves(
        t: Transcript,
        s: BootloaderKind,
        partition: PartitionName,
        code: FsckExitCode,
        output: Seq<char>,
    ) -> (Transcript, BootloaderKind, EnvDone) {
        of_kind(
            s,
            match s {
                BootloaderKind::Grub => grub::saved(t, partition, code, output),
                BootloaderKind::UBoot => uboot::saved(t, partition, code, output),
            },
        )
    }

    open spec fn recalls(t: Transcript, s: BootloaderKind, partition: PartitionName) -> (
        Transcript,
        BootloaderKind,
        EnvRecord,
    ) {
        of_kind(
            s,
            match s {
                BootloaderKind::Grub => grub::recalled(t, partition),
                BootloaderKind::UBoot => uboot::recalled(t, partition),
            },
        )
    }

    open spec fn clears(t: Transcript, s: BootloaderKind, partition: PartitionName) -> (
        Transcript,
        BootloaderKind,
        EnvDone,
    ) {
        of_kind(
            s,
            match s {
                BootloaderKind::Grub => grub::cleared(t, partition),
                BootloaderKind::UBoot => uboot::put(t, BootEnvKey::FsckStatus(partition), None),
            },
        )
    }

    fn get_env(&mut self, key: BootEnvKey, sys: &mut Session) -> (r: EnvResult<Option<String>>) {
        match self {
            SessionEnv::Grub(env) => env.get_env(key, sys),
            SessionEnv::UBoot(env) => env.get_env(key, sys),
        }
    }

    fn set_env(&mut self, key: BootEnvKey, value: Option<&str>, sys: &mut Session) -> (r: EnvResult<()>) {
        match self {
            SessionEnv::Grub(env) => env.set_env(key, value, sys),
            SessionEnv::UBoot(env) => env.set_env(key, value, sys),
        }
    }

    fn save_fsck_status(&mut self, partition: PartitionName, code: FsckExitCode, output: &str, sys: &mut Session) -> (r:
        EnvResult<()>) {
        match self {
            SessionEnv::Grub(env) => env.save_fsck_status(partition, code, output, sys),
            SessionEnv::UBoot(env) => env.save_fsck_status(partition, code, output, sys),
        }
    }

    fn get_fsck_status(&mut self, partition: PartitionName, sys: &mut Session) -> (r: EnvResult<Option<FsckRecord>>) {
        match self {
            SessionEnv::Grub(env) => env.get_fsck_status(partition, sys),
            SessionEnv::UBoot(env) => env.get_fsck_status(partition, sys),
        }
    }

    fn clear_fsck_status(&mut self, partition: PartitionName, sys: &mut Session) -> (r: EnvResult<()>) {
        match self {
            SessionEnv::Grub(env) => env.clear_fsck_status(partition, sys),
            SessionEnv::UBoot(env) => env.clear_fsck_status(partition, sys),
        }
    }
}

} // verus!
