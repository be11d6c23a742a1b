use omnect_os_init::bootloader::grub::{find_listed, fsck_file_path};
use omnect_os_init::bootloader::{
    create_mock_bootloader, truncate_on_char_boundary, MAX_FACTORY_RESET_FAILURE_REASON_LEN,
};
use omnect_os_init::bootloader::{BootEnvKey, Result};
use omnect_os_init::error::{BootEnvError, InitramfsError};
use omnect_os_init::filesystem::FsckExitCode;
use omnect_os_init::partition::PartitionName;
use omnect_os_init::system::{Session, Stop};
use omnect_os_init::{classify_boot_env, BootEnv, BootEnvDecision, BootEnvState, MockBootEnv};

/// A session that nothing is asked of.
fn idle() -> Session {
    Session::new(Vec::new())
}

fn ok_bootloader() -> Result<MockBootEnv> {
    Ok(MockBootEnv::new())
}

fn err_bootloader() -> Result<MockBootEnv> {
    Err(BootEnvError::CommandFailed {
        command: "boot-env-tool".into(),
        reason: "not found".into(),
    })
}

#[test]
fn ok_release_image_returns_available_not_degraded() {
    let decision = classify_boot_env(ok_bootloader(), true);
    assert!(matches!(
        decision,
        BootEnvDecision::Continue(BootEnvState::Available(_))
    ));
}

#[test]
fn ok_debug_image_returns_available_not_degraded() {
    let decision = classify_boot_env(ok_bootloader(), false);
    assert!(matches!(
        decision,
        BootEnvDecision::Continue(BootEnvState::Available(_))
    ));
}

#[test]
fn err_release_image_returns_degraded_continue() {
    let decision = classify_boot_env(err_bootloader(), true);
    assert!(matches!(
        decision,
        BootEnvDecision::Continue(BootEnvState::Degraded(_))
    ));
}

#[test]
fn err_debug_image_returns_abort_with_degraded_boot_error() {
    let decision = classify_boot_env(err_bootloader(), false);
    assert!(matches!(
        decision,
        BootEnvDecision::Abort(InitramfsError::DegradedBoot(_))
    ));
}

#[test]
fn test_mock_bootloader_get_set() {
    let mut bl = MockBootEnv::new();

    bl.set_env(BootEnvKey::ValidateUpdate, Some("1"), &mut idle()).unwrap();
    assert_eq!(
        bl.get_env(BootEnvKey::ValidateUpdate, &mut idle()).unwrap(),
        Some("1".to_string())
    );

    bl.set_env(BootEnvKey::ValidateUpdate, None, &mut idle()).unwrap();
    assert_eq!(bl.get_env(BootEnvKey::ValidateUpdate, &mut idle()).unwrap(), None);
}

#[test]
fn test_mock_bootloader_with_env() {
    let mut bl = MockBootEnv::new()
        .with_env(BootEnvKey::ValidateUpdate, "1")
        .with_env(BootEnvKey::BootloaderUpdated, "0");

    assert_eq!(
        bl.get_env(BootEnvKey::ValidateUpdate, &mut idle()).unwrap(),
        Some("1".to_string())
    );
    assert_eq!(
        bl.get_env(BootEnvKey::BootloaderUpdated, &mut idle()).unwrap(),
        Some("0".to_string())
    );
    assert_eq!(
        bl.get_env(BootEnvKey::FsckStatus(PartitionName::Boot), &mut idle())
            .unwrap(),
        None
    );
}

#[test]
fn test_mock_bootloader_fsck_status() {
    let mut bl = MockBootEnv::new();

    bl.save_fsck_status(
        PartitionName::Boot,
        FsckExitCode(FsckExitCode::CORRECTED),
        "errors corrected on pass 1",
        &mut idle(),
    )
    .unwrap();

    let retrieved = bl.get_fsck_status(PartitionName::Boot, &mut idle()).unwrap().unwrap();
    assert_eq!(retrieved.exit_code.bits(), FsckExitCode::CORRECTED);
    assert_eq!(retrieved.output, "errors corrected on pass 1".to_string());

    bl.clear_fsck_status(PartitionName::Boot, &mut idle()).unwrap();
    assert!(bl.get_fsck_status(PartitionName::Boot, &mut idle()).unwrap().is_none());
}

#[test]
fn mock_fails_on_demand() {
    let mut bl = create_mock_bootloader().with_get_env_error_after(1);
    assert!(bl.get_env(BootEnvKey::ResizedData, &mut idle()).is_ok());
    match bl.get_env(BootEnvKey::ResizedData, &mut idle()) {
        Err(Stop::Failed(e)) => assert_eq!(e.to_string(), "Command 'mock' failed: injected error"),
        _ => panic!("the read fails"),
    }
    let mut bl = create_mock_bootloader().with_set_env_error();
    match bl.set_env(BootEnvKey::ResizedData, Some("1"), &mut idle()) {
        Err(Stop::Failed(e)) => {
            assert_eq!(e.to_string(), "Command 'mock' failed: injected set_env error")
        }
        _ => panic!("the write fails"),
    }
    assert!(bl.set_env_calls.is_empty());
    let mut bl = create_mock_bootloader().with_set_env_normalize("other");
    bl.set_env(BootEnvKey::ResizedData, Some("1"), &mut idle()).unwrap();
    assert_eq!(
        bl.get_env(BootEnvKey::ResizedData, &mut idle()).unwrap(),
        Some("other".to_string())
    );
    assert_eq!(bl.set_env_calls, vec![BootEnvKey::ResizedData]);
}

#[test]
fn first_boot_done_key_string() {
    assert_eq!(
        BootEnvKey::FirstBootDone.as_str().as_ref(),
        "omnect_first_boot_done"
    );
}

#[test]
fn extra_bootargs_key_string() {
    assert_eq!(
        BootEnvKey::ExtraBootArgs.as_str().as_ref(),
        "omnect_extra_bootargs"
    );
}

#[test]
fn factory_reset_key_as_str() {
    assert_eq!(BootEnvKey::FactoryReset.as_str().as_ref(), "factory-reset");
}

#[test]
fn fsck_key_names_the_partition() {
    assert_eq!(
        BootEnvKey::FsckStatus(PartitionName::RootCurrent)
            .as_str()
            .as_ref(),
        "omnect_fsck_rootCurrent"
    );
    assert_eq!(
        BootEnvKey::FsckStatus(PartitionName::Data).to_string(),
        "omnect_fsck_data"
    );
}

#[test]
fn factory_reset_key_roundtrip_via_mock() {
    let mut bl = MockBootEnv::new();
    bl.set_env(BootEnvKey::FactoryReset, Some(r#"{"mode":1}"#), &mut idle())
        .unwrap();
    assert_eq!(
        bl.get_env(BootEnvKey::FactoryReset, &mut idle()).unwrap(),
        Some(r#"{"mode":1}"#.to_string())
    );
    bl.set_env(BootEnvKey::FactoryReset, None, &mut idle()).unwrap();
    assert_eq!(bl.get_env(BootEnvKey::FactoryReset, &mut idle()).unwrap(), None);
}

#[test]
fn returns_input_when_within_limit() {
    assert_eq!(truncate_on_char_boundary("short", 128), "short");
}

#[test]
fn truncates_ascii_at_limit() {
    assert_eq!(truncate_on_char_boundary("abcdef", 3), "abc");
}

#[test]
fn never_splits_a_multibyte_char() {
    // "é" is 2 bytes; a limit of 2 lands inside it, so the result backs off to "a".
    let s = "aé";
    let out = truncate_on_char_boundary(s, 2);
    assert!(s.is_char_boundary(out.len()));
    assert_eq!(out, "a");
}

#[test]
fn key_as_str_is_stable() {
    assert_eq!(
        BootEnvKey::FactoryResetLastError.as_str().as_ref(),
        "omnect_factory_reset_last_error"
    );
}

#[test]
fn save_factory_reset_failure_round_trips() {
    let mut mock = MockBootEnv::new();
    mock.save_factory_reset_failure(PartitionName::Etc, "mkfs retry exhausted", &mut idle())
        .unwrap();
    assert_eq!(
        mock.get_env(BootEnvKey::FactoryResetLastError, &mut idle()).unwrap(),
        Some("etc:mkfs retry exhausted".to_string())
    );
}

#[test]
fn save_factory_reset_failure_truncates_long_reason() {
    let mut mock = MockBootEnv::new();
    let long = "x".repeat(500);
    mock.save_factory_reset_failure(PartitionName::Data, &long, &mut idle())
        .unwrap();
    let stored = mock
        .get_env(BootEnvKey::FactoryResetLastError, &mut idle())
        .unwrap()
        .unwrap();
    assert!(stored.len() <= "data:".len() + MAX_FACTORY_RESET_FAILURE_REASON_LEN);
    assert!(stored.starts_with("data:x"));
    assert_eq!(stored, format!("data:{}", "x".repeat(128)));
}

#[test]
fn listed_variables_are_found_by_their_whole_name() {
    let listed = "a=1\nab=2\nc=x=y\n";
    assert_eq!(find_listed(listed, "a"), Some("1".to_string()));
    assert_eq!(find_listed(listed, "ab"), Some("2".to_string()));
    assert_eq!(find_listed(listed, "c"), Some("x=y".to_string()));
    assert_eq!(find_listed(listed, "b"), None);
}

#[test]
fn fsck_records_of_grub_are_files() {
    assert!(fsck_file_path(PartitionName::Data).contains("data"));
}
