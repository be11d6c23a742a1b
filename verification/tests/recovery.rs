use omnect_os_init::error::{BootEnvError, FilesystemError, InitramfsError, IoError, ResizeDataError};
use omnect_os_init::filesystem::FsckExitCode;
use omnect_os_init::recovery::{decide, handle_fatal_error, Action, RecoveryClass};

#[test]
fn continue_degraded_always_continues() {
    for &is_release in &[false, true] {
        for &update in &[false, true] {
            assert_eq!(
                decide(RecoveryClass::ContinueDegraded, is_release, update),
                Action::Continue,
                "ContinueDegraded -> Continue regardless of context (is_release={is_release}, update={update})"
            );
        }
    }
}

#[test]
fn reboot_to_apply_always_reboots() {
    for &is_release in &[false, true] {
        for &update in &[false, true] {
            assert_eq!(
                decide(RecoveryClass::RebootToApply, is_release, update),
                Action::Reboot,
                "RebootToApply -> Reboot regardless of context"
            );
        }
    }
}

#[test]
fn fatal_with_update_pending_reboots() {
    assert_eq!(decide(RecoveryClass::Fatal, true, true), Action::Reboot);
    assert_eq!(decide(RecoveryClass::Fatal, false, true), Action::Reboot);
}

#[test]
fn fatal_release_halts() {
    assert_eq!(decide(RecoveryClass::Fatal, true, false), Action::Halt);
}

#[test]
fn fatal_debug_shells() {
    assert_eq!(decide(RecoveryClass::Fatal, false, false), Action::Shell);
}

fn reboot_error() -> FilesystemError {
    FilesystemError::FsckRequiresReboot {
        device: "/dev/sda1".to_string(),
        code: FsckExitCode(FsckExitCode::REBOOT_REQUIRED),
        output: String::new(),
    }
}

#[test]
fn errors_have_their_recovery_class() {
    assert_eq!(
        InitramfsError::Filesystem(reboot_error()).recovery_class(),
        RecoveryClass::RebootToApply
    );
    assert_eq!(
        InitramfsError::ResizeData(ResizeDataError::Filesystem(reboot_error())).recovery_class(),
        RecoveryClass::RebootToApply
    );
    assert_eq!(
        InitramfsError::ResizeData(ResizeDataError::Io(IoError::other("x".to_string()))).recovery_class(),
        RecoveryClass::ContinueDegraded
    );
    assert_eq!(
        InitramfsError::DegradedBoot(BootEnvError::CommandFailed {
            command: "a".to_string(),
            reason: "b".to_string()
        })
        .recovery_class(),
        RecoveryClass::Fatal
    );
}

#[test]
fn fatal_error_is_never_ignored() {
    let absorbed = InitramfsError::ResizeData(ResizeDataError::Io(IoError::other("x".to_string())));
    assert_eq!(handle_fatal_error(&absorbed, true, false), Action::Halt);
    assert_eq!(handle_fatal_error(&absorbed, false, false), Action::Shell);
    let fatal = InitramfsError::Io(IoError::other("x".to_string()));
    assert_eq!(handle_fatal_error(&fatal, true, true), Action::Reboot);
}
