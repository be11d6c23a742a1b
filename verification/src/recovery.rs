//! Boot failure & recovery policy.
//!
//! Pure decision logic mapping an error's `RecoveryClass` and the boot
//! context to an `Action`. Executing the action (reboot/halt/shell) is up to the
//! caller; this module has no I/O.

use vstd::prelude::*;

use crate::error::InitramfsError;

verus! {

/// How an `InitramfsError` is meant to be recovered from.
#[derive(Debug, Clone, Copy, PartialEq, Eq, Structural)]
pub enum RecoveryClass {
    /// Non-fatal; the caller should warn and proceed.
    ContinueDegraded,
    /// A reboot is expected to change the outcome (e.g. fsck applied a fix, or
    /// extra-bootargs was written on first boot). Not bounded by the bootloader:
    /// a cause that never clears reboot-loops, an accepted residual risk.
    RebootToApply,
    /// Boot cannot proceed.
    Fatal,
}

/// What the fatal-error handler should do for a given class + context.
#[derive(Debug, Clone, Copy, PartialEq, Eq, Structural)]
pub enum Action {
    /// Error was already handled by the caller; no further action needed.
    Continue,
    /// Reboot the device. Reasons: OTA-rollback (Fatal + update_pending),
    /// fsck reboot-required, or extra-bootargs applied on first boot. The OTA
    /// case is bounded by the bootloader; fsck and extra-bootargs are
    /// unconditional accepted-risk reboot loops.
    Reboot,
    /// Infinite loop with kmsg logging; never exits PID 1.
    Halt,
    /// Spawn an interactive debug shell.
    Shell,
}

/// The recovery policy.
pub open spec fn policy(class: RecoveryClass, is_release: bool, update_pending: bool) -> Action {
    match class {
        RecoveryClass::ContinueDegraded => Action::Continue,
        RecoveryClass::RebootToApply => Action::Reboot,
        RecoveryClass::Fatal => if update_pending {
            Action::Reboot
        } else if is_release {
            Action::Halt
        } else {
            Action::Shell
        },
    }
}

/// Decide the action for a recovery class and boot context.
///
/// `update_pending` is `true` if `omnect_validate_update` was set in the
/// boot env at the time it was opened. When the env is unreadable or the
/// failure occurred before the env was opened, `update_pending` is `false`.
///
/// `is_release` is `true` on a release image.
#[must_use]
pub fn decide(class: RecoveryClass, is_release: bool, update_pending: bool) -> (r: Action)
    ensures
        r == policy(class, is_release, update_pending),
{
    match class {
        RecoveryClass::ContinueDegraded => Action::Continue,
        RecoveryClass::RebootToApply => Action::Reboot,
        RecoveryClass::Fatal => {
            if update_pending {
                Action::Reboot
            } else if is_release {
                Action::Halt
            } else {
                Action::Shell
            }
        },
    }
}

/// What remains to be done about an error that reached the fatal-error handler.
///
/// A degraded-continue error is meant to be absorbed before it gets here; one that
/// was not is treated as a fatal error without an update in flight, so that the
/// device does not fall off the policy.
pub open spec fn fatal_policy(class: RecoveryClass, is_release: bool, update_pending: bool) -> Action {
    match policy(class, is_release, update_pending) {
        Action::Continue => policy(RecoveryClass::Fatal, is_release, false),
        action => action,
    }
}

/// Decide what to do about an error that ended the boot.
pub fn handle_fatal_error(error: &InitramfsError, is_release: bool, update_pending: bool) -> (r: Action)
    ensures
        r == fatal_policy(error@.class(), is_release, update_pending),
{
    match decide(error.recovery_class(), is_release, update_pending) {
        Action::Continue => {
            if is_release {
                Action::Halt
            } else {
                Action::Shell
            }
        },
        action => action,
    }
}

/// A release image never opens a shell, whatever the error and the context.
pub proof fn law_release_never_shells(class: RecoveryClass, update_pending: bool)
    ensures
        policy(class, true, update_pending) != Action::Shell,
        fatal_policy(class, true, update_pending) != Action::Shell,
{
}

/// A fatal error during an unconfirmed update reboots, so that the bootloader can
/// roll back; an error that asks for a reboot always gets one.
pub proof fn law_rollback(is_release: bool, update_pending: bool)
    ensures
        policy(RecoveryClass::Fatal, is_release, true) == Action::Reboot,
        policy(RecoveryClass::RebootToApply, is_release, update_pending) == Action::Reboot,
        policy(RecoveryClass::Fatal, is_release, false) != Action::Reboot,
{
}

/// An error that ended the boot is never answered by going on with it.
pub proof fn law_fatal_never_continues(class: RecoveryClass, is_release: bool, update_pending: bool)
    ensures
        fatal_policy(class, is_release, update_pending) != Action::Continue,
{
}

} // verus!
