use omnect_os_init::bootloader::BootEnvKey;
use omnect_os_init::error::{BootEnvError, FilesystemError, InitramfsError};
use omnect_os_init::filesystem::FsckExitCode;
use omnect_os_init::partition::PartitionName;
use omnect_os_init::system::{Reply, Session, Stop};
use omnect_os_init::{
    apply_boot_env_decision, compute_first_boot, read_update_pending, set_update_pending,
    update_pending_from_env, BootEnv, BootEnvDecision, BootEnvState, MockBootEnv, OdsStatus, Refused,
    UpdatePending,
};

/// A session that nothing is asked of.
fn idle() -> Session {
    Session::new(Vec::new())
}

fn env_error() -> BootEnvError {
    BootEnvError::CommandFailed {
        command: "boot-env-tool".into(),
        reason: "test".into(),
    }
}

fn make_available() -> BootEnvDecision<MockBootEnv> {
    BootEnvDecision::Continue(BootEnvState::Available(MockBootEnv::new()))
}

fn make_degraded() -> BootEnvDecision<MockBootEnv> {
    BootEnvDecision::Continue(BootEnvState::Degraded(env_error()))
}

fn make_abort() -> BootEnvDecision<MockBootEnv> {
    BootEnvDecision::Abort(InitramfsError::DegradedBoot(env_error()))
}

fn fsck_reboot_err() -> Result<(), InitramfsError> {
    Err(InitramfsError::Filesystem(
        FilesystemError::FsckRequiresReboot {
            device: "/dev/sda1".into(),
            code: FsckExitCode(FsckExitCode::REBOOT_REQUIRED),
            output: String::new(),
        },
    ))
}

/// A system on which nothing is mounted.
fn sys() -> Session {
    Session::new(vec![
        Reply::Text("proc /proc proc rw 0 0\n".to_string()),
        Reply::Text("proc /proc proc rw 0 0\n".to_string()),
    ])
}

fn apply(
    decision: BootEnvDecision<MockBootEnv>,
    core: Result<(), InitramfsError>,
    ods: &mut OdsStatus,
) -> Result<BootEnvState<MockBootEnv>, Refused<MockBootEnv>> {
    apply_boot_env_decision(decision, core, ods, "/tmp", &mut sys())
}

fn asks_for_reboot(r: &Result<BootEnvState<MockBootEnv>, Refused<MockBootEnv>>) -> bool {
    matches!(
        r,
        Err(Refused {
            stop: Stop::Failed(InitramfsError::Filesystem(
                FilesystemError::FsckRequiresReboot { .. }
            )),
            ..
        })
    )
}

#[test]
fn available_ok_core_returns_available_env() {
    let mut ods = OdsStatus::new();
    let result = apply(make_available(), Ok(()), &mut ods);
    assert!(matches!(result, Ok(BootEnvState::Available(_))));
    assert!(ods.degraded_boot.is_none());
}

#[test]
fn degraded_ok_core_sets_degraded_flag() {
    let mut ods = OdsStatus::new();
    let result = apply(make_degraded(), Ok(()), &mut ods);
    assert!(matches!(result, Ok(BootEnvState::Degraded(_))));
    let degraded = ods
        .degraded_boot
        .as_ref()
        .expect("degraded_boot must be Some after Degraded continue");
    assert_eq!(
        degraded.reason, "Command 'boot-env-tool' failed: test",
        "reason must be the text of the injected BootEnvError"
    );
}

#[test]
fn fsck_reboot_wins_over_degraded_continue() {
    let mut ods = OdsStatus::new();
    let result = apply(make_degraded(), fsck_reboot_err(), &mut ods);
    assert!(
        asks_for_reboot(&result),
        "expected FsckRequiresReboot, not DegradedBoot"
    );
    assert!(
        ods.degraded_boot.is_none(),
        "degraded flag must not be set on reboot path"
    );
}

#[test]
fn fsck_reboot_wins_over_abort() {
    let mut ods = OdsStatus::new();
    let result = apply(make_abort(), fsck_reboot_err(), &mut ods);
    assert!(
        asks_for_reboot(&result),
        "expected FsckRequiresReboot, not DegradedBoot"
    );
    assert!(
        ods.degraded_boot.is_none(),
        "degraded flag must not be set on reboot path"
    );
}

#[test]
fn abort_is_reported_where_the_core_partitions_are_fine() {
    let mut ods = OdsStatus::new();
    assert!(matches!(
        apply(make_abort(), Ok(()), &mut ods),
        Err(Refused {
            stop: Stop::Failed(InitramfsError::DegradedBoot(_)),
            env: None,
        })
    ));
}

#[test]
fn persist_runs_before_fsck_reboot_propagates() {
    // The fsck diagnostic must be in the boot environment when the error comes back,
    // or it is lost across the reboot.
    let mut ods = OdsStatus::new();
    ods.add_fsck_result(
        PartitionName::Boot,
        FsckExitCode::CORRECTED,
        "errors corrected on pass 1".into(),
    );

    let result = apply(make_available(), fsck_reboot_err(), &mut ods);

    assert!(
        asks_for_reboot(&result),
        "FsckRequiresReboot must still propagate"
    );
    match result {
        Err(Refused {
            env: Some(BootEnvState::Available(mut mock)),
            ..
        }) => {
            let record = mock
                .get_fsck_status(PartitionName::Boot, &mut idle())
                .unwrap()
                .expect("the results must be persisted before the error propagates");
            assert_eq!(record.output, "errors corrected on pass 1");
            assert!(mock.get_fsck_status(PartitionName::Data, &mut idle()).unwrap().is_none());
        }
        _ => panic!("the environment comes back with the error"),
    }
}

#[test]
fn persisted_records_stay_in_ods_status() {
    let mut ods = OdsStatus::new();
    ods.add_fsck_result(
        PartitionName::Boot,
        FsckExitCode::CORRECTED,
        "errors corrected on pass 1".into(),
    );

    let result = apply(make_available(), Ok(()), &mut ods);

    assert!(result.is_ok());
    assert_eq!(ods.fsck.len(), 1, "records must survive the persist step");
}

#[test]
fn update_pending_accessor_roundtrips() {
    let mut pending = UpdatePending::default();
    assert!(!read_update_pending(&pending));
    set_update_pending(&mut pending, true);
    assert!(read_update_pending(&pending));
    set_update_pending(&mut pending, false);
    assert!(!read_update_pending(&pending));
}

fn available(mock: MockBootEnv) -> BootEnvState<MockBootEnv> {
    BootEnvState::Available(mock)
}

#[test]
fn update_pending_false_when_degraded() {
    let mut env: BootEnvState<MockBootEnv> = BootEnvState::Degraded(BootEnvError::CommandFailed {
        command: "boot-env-tool".into(),
        reason: "not found".into(),
    });
    assert_eq!(update_pending_from_env(&mut env, &mut idle()), Some(false));
}

#[test]
fn update_pending_false_when_key_absent() {
    assert_eq!(update_pending_from_env(&mut available(MockBootEnv::new()), &mut idle()), Some(false));
}

#[test]
fn update_pending_true_when_key_set() {
    let bl = MockBootEnv::new().with_env(BootEnvKey::ValidateUpdate, "1");
    assert_eq!(update_pending_from_env(&mut available(bl), &mut idle()), Some(true));
}

#[test]
fn update_pending_false_when_key_is_empty() {
    let bl = MockBootEnv::new().with_env(BootEnvKey::ValidateUpdate, "");
    assert_eq!(update_pending_from_env(&mut available(bl), &mut idle()), Some(false));
}

#[test]
fn update_pending_false_when_get_env_errors() {
    let bl = MockBootEnv::new().with_get_env_error();
    assert_eq!(update_pending_from_env(&mut available(bl), &mut idle()), Some(false));
}

#[test]
fn marker_absent_yields_first_boot_true() {
    assert_eq!(compute_first_boot(&mut available(MockBootEnv::new()), &mut idle()), Some(true));
}

#[test]
fn marker_present_yields_first_boot_false() {
    let mock = MockBootEnv::new().with_env(BootEnvKey::FirstBootDone, "1");
    assert_eq!(compute_first_boot(&mut available(mock), &mut idle()), Some(false));
}

#[test]
fn empty_marker_yields_first_boot_true() {
    let mock = MockBootEnv::new().with_env(BootEnvKey::FirstBootDone, "");
    assert_eq!(compute_first_boot(&mut available(mock), &mut idle()), Some(true));
}

#[test]
fn unexpected_marker_value_yields_first_boot_true() {
    let mock = MockBootEnv::new().with_env(BootEnvKey::FirstBootDone, "yes");
    assert_eq!(compute_first_boot(&mut available(mock), &mut idle()), Some(true));
}

#[test]
fn degraded_env_yields_first_boot_false() {
    let mut env: BootEnvState<MockBootEnv> = BootEnvState::Degraded(env_error());
    assert_eq!(compute_first_boot(&mut env, &mut idle()), Some(false));
}

#[test]
fn get_env_error_yields_first_boot_false() {
    let mock = MockBootEnv::new().with_get_env_error();
    assert_eq!(compute_first_boot(&mut available(mock), &mut idle()), Some(false));
}
