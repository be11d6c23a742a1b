use std::collections::VecDeque;

use omnect_os_init::bootloader::{create_mock_bootloader, BootEnvKey};
use omnect_os_init::error::{BootEnvError, FactoryResetError, FilesystemError, InitOutcome, InitramfsError};
use omnect_os_init::filesystem::{mount_points, paths};
use omnect_os_init::mode::factory_reset::backup_restore::RestoreResult;
use omnect_os_init::mode::factory_reset::persist_exhausted_signal;
use omnect_os_init::mode::factory_reset::retry::{
    reformat_and_mount_with_retry, ReformatRetryOps, ReformatTargets, ResetFailureSignal, RetryReport,
};
use omnect_os_init::mode::factory_reset::status::{
    destructive_phase_failure_status, exhausted_outcome, exhausted_status, failure_status_code,
    join_context, restored_status, retry_note,
};
use omnect_os_init::mode::normal::{
    extra_bootargs_applied_ok, resize_succeeded, write_first_boot_marker,
};
use omnect_os_init::mode::BootMode;
use omnect_os_init::partition::PartitionName;
use omnect_os_init::runtime::{
    ExtraBootArgsOutcome, ExtraBootArgsStatus, FactoryResetStatusCode, ResizeOutcome, ResizeStatus,
};
use omnect_os_init::system::{Reply, Request, Session, Stop};
use omnect_os_init::{BootEnv, BootEnvState, MockBootEnv, OdsStatus};

/// A session that nothing is asked of.
fn idle() -> Session {
    Session::new(Vec::new())
}

const DATA: &str = "/dev/sda7";
const ETC: &str = "/dev/sda6";

// Programmable ops: each call pops the next scripted result for that
// method; reformat defaults to Ok on an empty queue, mount_all panics.
struct ScriptedOps {
    mount_results: VecDeque<Result<(), InitramfsError>>,
    reformat_results: VecDeque<Result<(), InitramfsError>>,
    reformatted: Vec<String>,
    warnings: Vec<String>,
}

impl ScriptedOps {
    fn new(results: Vec<Result<(), InitramfsError>>) -> Self {
        Self {
            mount_results: results.into_iter().collect(),
            reformat_results: VecDeque::new(),
            reformatted: vec![],
            warnings: vec![],
        }
    }

    fn with_reformat_results(mut self, r: Vec<Result<(), InitramfsError>>) -> Self {
        self.reformat_results = r.into_iter().collect();
        self
    }
}

impl ReformatRetryOps for ScriptedOps {
    type State = ();

    fn state(&self) {
        unreachable!()
    }

    fn reformats(
        _: (),
        _: vstd::seq::Seq<char>,
        _: vstd::seq::Seq<char>,
    ) -> (InitOutcome<()>, ()) {
        unreachable!()
    }

    fn warns(_: (), _: vstd::seq::Seq<char>) -> (Option<()>, ()) {
        unreachable!()
    }

    fn mounts(_: ()) -> (InitOutcome<()>, ()) {
        unreachable!()
    }

    fn reformat(&mut self, device: &str, _label: &str) -> Result<(), Stop<InitramfsError>> {
        self.reformatted.push(device.to_string());
        self.reformat_results
            .pop_front()
            .unwrap_or(Ok(()))
            .map_err(Stop::Failed)
    }

    fn warn(&mut self, message: &str) -> Option<()> {
        self.warnings.push(message.to_string());
        Some(())
    }

    fn mount_all(&mut self) -> Result<(), Stop<InitramfsError>> {
        self.mount_results
            .pop_front()
            .expect("mount_all called more times than scripted")
            .map_err(Stop::Failed)
    }
}

fn reformat_failed() -> InitramfsError {
    InitramfsError::FactoryReset(FactoryResetError::ReformatFailed {
        device: "/dev/sda6".into(),
        reason: "mkfs failed".into(),
    })
}

fn mount_failed(src: &str) -> InitramfsError {
    InitramfsError::Filesystem(FilesystemError::MountFailed {
        src_path: src.into(),
        target: "/rootfs/mnt/etc".into(),
        reason: "bad superblock".into(),
    })
}

fn overlay_failed(target: &str) -> InitramfsError {
    InitramfsError::Filesystem(FilesystemError::OverlayFailed {
        target: target.into(),
        reason: "cannot create upperdir".into(),
    })
}

fn retry(ops: &mut ScriptedOps) -> Result<RetryReport, Stop<InitramfsError>> {
    let none: Vec<String> = vec![];
    reformat_and_mount_with_retry(
        "/rootfs",
        &ReformatTargets {
            data_dev: DATA,
            etc_dev: ETC,
            preserve_list: &none,
            backed_up: &none,
            backup_dir: "/tmp/does-not-matter",
        },
        ops,
    )
}

fn report(ops: &mut ScriptedOps) -> RetryReport {
    match retry(ops) {
        Ok(report) => report,
        Err(_) => panic!("expected a report"),
    }
}

#[test]
fn clean_mount_no_retry() {
    let report = report(&mut ScriptedOps::new(vec![Ok(())]));
    assert!(report.retried.is_empty());
    assert!(report.exhausted.is_none());
}

#[test]
fn mkfs_recovers_after_one_retry() {
    let mut ops = ScriptedOps::new(vec![Ok(())]).with_reformat_results(vec![Err(reformat_failed())]);
    let report = report(&mut ops);
    assert_eq!(report.retried, vec![PartitionName::Data]);
    assert!(report.reformat_failed.is_empty());
    assert!(report.exhausted.is_none());
}

#[test]
fn mkfs_double_failure_still_attempts_mount_then_signals() {
    let mut ops = ScriptedOps::new(vec![Err(mount_failed(DATA))])
        .with_reformat_results(vec![Err(reformat_failed()), Err(reformat_failed())]);
    let report = report(&mut ops);
    assert_eq!(report.retried, vec![PartitionName::Data]);
    assert_eq!(report.reformat_failed, vec![PartitionName::Data]);
    let sig = report.exhausted.expect("must record exhausted");
    assert_eq!(sig.partition, PartitionName::Data);
    assert!(
        ops.mount_results.is_empty(),
        "mount must be attempted even after two failed mkfs"
    );
}

#[test]
fn mkfs_double_failure_but_mount_succeeds_records_reformat_failed() {
    let mut ops = ScriptedOps::new(vec![Ok(())])
        .with_reformat_results(vec![Err(reformat_failed()), Err(reformat_failed())]);
    let report = report(&mut ops);
    assert!(report.exhausted.is_none());
    assert_eq!(report.retried, vec![PartitionName::Data]);
    assert_eq!(report.reformat_failed, vec![PartitionName::Data]);
}

#[test]
fn every_mkfs_failure_is_warned_about() {
    let mut ops = ScriptedOps::new(vec![Ok(())])
        .with_reformat_results(vec![Err(reformat_failed()), Err(reformat_failed())]);
    report(&mut ops);
    let reason = reformat_failed().to_string();
    assert_eq!(
        ops.warnings,
        vec![
            format!("factory reset: mkfs of data failed, retrying once: {reason}"),
            format!("factory reset: mkfs of data failed again; attempting the mount anyway: {reason}"),
        ]
    );

    let mut ops = ScriptedOps::new(vec![Ok(())]);
    report(&mut ops);
    assert!(ops.warnings.is_empty());
}

#[test]
fn mount_failure_on_etc_signals_without_reformat() {
    let mut ops = ScriptedOps::new(vec![Err(mount_failed(ETC))]);
    let report = report(&mut ops);
    let sig = report.exhausted.expect("must record exhausted");
    assert_eq!(sig.partition, PartitionName::Etc);
    assert!(report.retried.is_empty());
    // Only the two initial reformats happened — no mount-triggered re-mkfs.
    assert_eq!(ops.reformatted.len(), 2);
}

#[test]
fn mount_failure_on_data_signals() {
    let report = report(&mut ScriptedOps::new(vec![Err(mount_failed(DATA))]));
    let sig = report.exhausted.expect("must record exhausted");
    assert_eq!(sig.partition, PartitionName::Data);
    assert!(report.retried.is_empty());
}

#[test]
fn overlay_dir_failure_on_etc_signals() {
    let dir = format!("/rootfs/{}/upper", mount_points::ETC_PARTITION);
    let report = report(&mut ScriptedOps::new(vec![Err(overlay_failed(&dir))]));
    let sig = report.exhausted.expect("must record exhausted");
    assert_eq!(sig.partition, PartitionName::Etc);
    assert!(report.retried.is_empty());
}

#[test]
fn overlay_mount_target_failure_on_home_signals_data() {
    let target = format!("/rootfs/{}", paths::HOME);
    let report = report(&mut ScriptedOps::new(vec![Err(overlay_failed(&target))]));
    let sig = report.exhausted.expect("must record exhausted");
    assert_eq!(sig.partition, PartitionName::Data);
}

#[test]
fn unresolvable_failure_propagates_err() {
    // A failure on the factory partition device — matches neither data nor etc.
    let result = retry(&mut ScriptedOps::new(vec![Err(mount_failed("/dev/sda4"))]));
    assert!(result.is_err());
}

#[test]
fn retry_note_only() {
    let out = join_context(Some("etc reformatted twice".into()), None);
    assert_eq!(out.as_deref(), Some("etc reformatted twice"));
}

#[test]
fn restore_context_only() {
    let out = join_context(None, Some("etc/hostname:restore".into()));
    assert_eq!(out.as_deref(), Some("etc/hostname:restore"));
}

#[test]
fn both_joined_with_bare_semicolon() {
    let out = join_context(
        Some("etc reformatted twice".into()),
        Some("etc/hostname:restore".into()),
    );
    assert_eq!(
        out.as_deref(),
        Some("etc reformatted twice;etc/hostname:restore")
    );
}

#[test]
fn neither_is_none() {
    assert_eq!(join_context(None, None), None);
}

#[test]
fn retry_note_lists_the_partitions() {
    assert_eq!(
        retry_note(&vec![PartitionName::Data, PartitionName::Etc]).as_deref(),
        Some("data,etc reformatted twice")
    );
    assert_eq!(retry_note(&vec![]), None);
}

fn p() -> Vec<String> {
    vec!["/p".to_string()]
}

fn partial() -> RestoreResult {
    RestoreResult::PartialFailure {
        context: "etc/hostname:restore".into(),
        error: "cp failed".into(),
    }
}

#[test]
fn exhausted_status_reports_error_and_wiped_data() {
    let sig = ResetFailureSignal {
        partition: PartitionName::Etc,
        reason: "mkfs retry exhausted".to_string(),
    };
    let status = exhausted_status(&sig, &vec![PartitionName::Etc], &p());
    assert_eq!(status.status, FactoryResetStatusCode::Error);
    assert!(status.data_wiped);
    assert_eq!(status.paths, vec!["/p".to_string()]);
    assert_eq!(status.error.as_deref(), Some("mkfs retry exhausted"));
    assert!(status
        .context
        .as_deref()
        .is_some_and(|c| c.contains("reformatted twice")));
}

#[test]
fn restored_status_success_no_retry() {
    let status = restored_status(&vec![], &vec![], RestoreResult::Success, &p());
    assert_eq!(status.status, FactoryResetStatusCode::Success);
    assert!(status.data_wiped);
    assert_eq!(status.context, None);
}

#[test]
fn restored_status_recovered_retry_is_warning() {
    let status = restored_status(
        &vec![PartitionName::Etc],
        &vec![],
        RestoreResult::Success,
        &p(),
    );
    assert_eq!(status.status, FactoryResetStatusCode::Warning);
    assert_eq!(status.error, None);
    assert_eq!(
        status.context.as_deref(),
        retry_note(&vec![PartitionName::Etc]).as_deref()
    );
}

#[test]
fn restored_status_mkfs_failed_twice_is_error() {
    let status = restored_status(
        &vec![PartitionName::Data],
        &vec![PartitionName::Data],
        RestoreResult::Success,
        &p(),
    );
    assert_eq!(status.status, FactoryResetStatusCode::Error);
    assert!(status.data_wiped);
    assert!(status
        .error
        .as_deref()
        .is_some_and(|e| e.contains("mkfs failed twice")));
    assert!(status
        .context
        .as_deref()
        .is_some_and(|c| c.contains("reformatted twice")));
}

#[test]
fn restored_status_partial_failure_no_retry() {
    let status = restored_status(&vec![], &vec![], partial(), &p());
    assert_eq!(status.status, FactoryResetStatusCode::Error);
    assert!(status.data_wiped);
    assert_eq!(status.error.as_deref(), Some("cp failed"));
    assert!(status
        .context
        .as_deref()
        .is_some_and(|c| c.contains("etc/hostname:restore")));
}

#[test]
fn restored_status_partial_failure_joins_retry_and_restore_context() {
    let status = restored_status(&vec![PartitionName::Etc], &vec![], partial(), &p());
    let note = retry_note(&vec![PartitionName::Etc]).expect("retry note");
    assert_eq!(
        status.context.as_deref(),
        Some(format!("{note};etc/hostname:restore").as_str())
    );
}

#[test]
fn destructive_phase_failure_status_reports_error_and_wiped_data() {
    let e = InitramfsError::FactoryReset(FactoryResetError::MountError("no data partition".into()));
    let status = destructive_phase_failure_status(e, p());
    assert_eq!(status.status, FactoryResetStatusCode::Error);
    assert!(status.data_wiped);
    assert!(status.error.is_some());
}

#[test]
fn failure_status_code_distinguishes_config_errors() {
    let invalid = InitramfsError::FactoryReset(FactoryResetError::InvalidConfig("x".into()));
    let missing = InitramfsError::FactoryReset(FactoryResetError::MissingField("x".into()));
    let other = InitramfsError::FactoryReset(FactoryResetError::MountError("x".into()));
    assert_eq!(
        failure_status_code(&invalid),
        FactoryResetStatusCode::Invalid
    );
    assert_eq!(
        failure_status_code(&missing),
        FactoryResetStatusCode::ConfigError
    );
    assert_eq!(failure_status_code(&other), FactoryResetStatusCode::Error);
}

#[test]
fn exhausted_outcome_pairs_status_with_signal() {
    let sig = ResetFailureSignal {
        partition: PartitionName::Data,
        reason: "bad superblock".to_string(),
    };
    let (status, signal) = exhausted_outcome(sig, &vec![PartitionName::Data], &p());
    assert_eq!(status.status, FactoryResetStatusCode::Error);
    assert!(status.data_wiped);
    let signal = signal.expect("signal must be carried out with the status");
    assert_eq!(signal.partition, PartitionName::Data);
    assert_eq!(signal.reason, "bad superblock");
}

#[test]
fn restored_status_partial_failure_keeps_mkfs_failed_note() {
    let status = restored_status(
        &vec![PartitionName::Data],
        &vec![PartitionName::Data],
        partial(),
        &p(),
    );
    assert_eq!(status.status, FactoryResetStatusCode::Error);
    let error = status.error.expect("error");
    assert!(error.contains("mkfs failed twice"), "{error}");
    assert!(error.contains("cp failed"), "{error}");
}

fn signal(partition: PartitionName) -> ResetFailureSignal {
    ResetFailureSignal {
        partition,
        reason: "mkfs retry exhausted".into(),
    }
}

fn read(env: &mut BootEnvState<MockBootEnv>, key: BootEnvKey) -> Option<String> {
    env.available_mut().unwrap().get_env(key, &mut idle()).unwrap()
}

fn degraded() -> BootEnvState<MockBootEnv> {
    BootEnvState::Degraded(BootEnvError::CommandFailed {
        command: "boot-env-tool".into(),
        reason: "test".into(),
    })
}

#[test]
fn writes_bootloader_key_when_signal_present() {
    let mut env = BootEnvState::Available(MockBootEnv::new());
    persist_exhausted_signal(Some(&signal(PartitionName::Etc)), &mut env, &mut idle());
    assert_eq!(
        read(&mut env, BootEnvKey::FactoryResetLastError),
        Some("etc:mkfs retry exhausted".to_string())
    );
}

#[test]
fn no_write_when_no_signal() {
    let mut env = BootEnvState::Available(MockBootEnv::new());
    persist_exhausted_signal(None, &mut env, &mut idle());
    assert_eq!(read(&mut env, BootEnvKey::FactoryResetLastError), None);
}

#[test]
fn no_panic_on_degraded_env() {
    let mut env = degraded();
    persist_exhausted_signal(Some(&signal(PartitionName::Data)), &mut env, &mut idle());
    assert!(env.is_degraded());
}

#[test]
fn no_propagate_when_set_env_fails() {
    let mut env = BootEnvState::Available(MockBootEnv::new().with_set_env_error());
    persist_exhausted_signal(Some(&signal(PartitionName::Data)), &mut env, &mut idle());
    assert_eq!(read(&mut env, BootEnvKey::FactoryResetLastError), None);
}

fn detect(mut mock: MockBootEnv) -> BootMode {
    BootMode::detect(Some(&mut mock), &mut idle()).unwrap()
}

#[test]
fn detect_normal_with_live_bootloader() {
    assert!(matches!(detect(create_mock_bootloader()), BootMode::Normal));
}

#[test]
fn detect_normal_degraded_boot_no_bootloader() {
    let mode = BootMode::detect(None::<&mut MockBootEnv>, &mut idle()).unwrap();
    assert!(matches!(mode, BootMode::Normal));
}

#[test]
fn detect_normal_when_factory_reset_key_absent() {
    assert!(matches!(detect(create_mock_bootloader()), BootMode::Normal));
}

#[test]
fn detect_factory_reset_when_key_present_valid_json() {
    let mode = detect(
        create_mock_bootloader().with_env(BootEnvKey::FactoryReset, r#"{"mode":1,"preserve":[]}"#),
    );
    assert!(matches!(mode, BootMode::FactoryReset(_)));
    if let BootMode::FactoryReset(config) = mode {
        assert_eq!(config.mode.number(), 1);
        assert!(config.preserve.is_empty());
    }
}

#[test]
fn detect_normal_when_key_present_invalid_json() {
    let mode = detect(create_mock_bootloader().with_env(BootEnvKey::FactoryReset, "not-json"));
    assert!(matches!(mode, BootMode::Normal));
}

#[test]
fn detect_normal_when_bootloader_unavailable() {
    let mode = BootMode::detect(None::<&mut MockBootEnv>, &mut idle()).unwrap();
    assert!(matches!(mode, BootMode::Normal));
}

#[test]
fn detect_normal_when_get_env_fails() {
    let mode = detect(create_mock_bootloader().with_get_env_error());
    assert!(matches!(mode, BootMode::Normal));
}

#[test]
fn detect_unsupported_mode_falls_back_to_normal() {
    let mode = detect(
        MockBootEnv::new().with_env(BootEnvKey::FactoryReset, r#"{"mode":2,"preserve":[]}"#),
    );
    assert!(
        matches!(mode, BootMode::Normal),
        "unsupported mode 2 must fall back to Normal"
    );

    let mode = detect(
        MockBootEnv::new().with_env(BootEnvKey::FactoryReset, r#"{"mode":0,"preserve":[]}"#),
    );
    assert!(
        matches!(mode, BootMode::Normal),
        "unsupported mode 0 must fall back to Normal"
    );
}

#[test]
fn detect_supported_mode_selects_factory_reset() {
    let mode = detect(
        MockBootEnv::new().with_env(BootEnvKey::FactoryReset, r#"{"mode":1,"preserve":[]}"#),
    );
    assert!(
        matches!(mode, BootMode::FactoryReset(_)),
        "supported mode 1 must select FactoryReset"
    );
}

#[test]
fn writes_marker_when_first_boot() {
    let mut env = BootEnvState::Available(MockBootEnv::new());
    write_first_boot_marker(true, &mut env, &mut idle());
    assert_eq!(
        read(&mut env, BootEnvKey::FirstBootDone),
        Some("1".to_string())
    );
}

fn bootargs_failed(reason: &str) -> ExtraBootArgsStatus {
    ExtraBootArgsStatus {
        outcome: ExtraBootArgsOutcome::SetEnvFailed,
        reason: reason.into(),
    }
}

#[test]
fn extra_bootargs_ok_unless_failed() {
    let mut ods = OdsStatus::new();
    assert!(extra_bootargs_applied_ok(&ods)); // absent → ok

    ods.set_extra_bootargs_status(bootargs_failed("boom"));
    assert!(!extra_bootargs_applied_ok(&ods)); // failure recorded → not ok
}

#[test]
fn skips_marker_when_extra_bootargs_failed() {
    let mut env = BootEnvState::Available(MockBootEnv::new());
    let mut ods = OdsStatus::new();
    ods.first_boot = true;
    ods.set_extra_bootargs_status(bootargs_failed("test failure"));

    write_first_boot_marker(ods.first_boot && extra_bootargs_applied_ok(&ods), &mut env, &mut idle());
    assert_eq!(
        read(&mut env, BootEnvKey::FirstBootDone),
        None,
        "marker must not be written when extra-bootargs failed"
    );
}

#[test]
fn does_not_write_when_not_first_boot() {
    let mut env = BootEnvState::Available(MockBootEnv::new());
    write_first_boot_marker(false, &mut env, &mut idle());
    assert_eq!(read(&mut env, BootEnvKey::FirstBootDone), None);
}

#[test]
fn no_op_on_degraded_env() {
    let mut env = degraded();
    write_first_boot_marker(true, &mut env, &mut idle());
    assert!(env.is_degraded());
}

#[test]
fn logs_warn_and_does_not_abort_when_set_env_fails() {
    let mut env = BootEnvState::Available(MockBootEnv::new().with_set_env_error());
    write_first_boot_marker(true, &mut env, &mut idle());
    assert_eq!(read(&mut env, BootEnvKey::FirstBootDone), None);
}

#[test]
fn failed_marker_is_warned_about() {
    let mut env = BootEnvState::Available(MockBootEnv::new().with_set_env_error());
    let mut sys = Session::new(vec![Reply::Done]);
    write_first_boot_marker(true, &mut env, &mut sys);
    assert_eq!(sys.asked().len(), 1);
    match &sys.asked()[0] {
        Request::Warn(message) => assert_eq!(
            message,
            "first-boot marker write failed: Command 'mock' failed: injected set_env error; will retry next boot"
        ),
        other => panic!("{other:?}"),
    }
}

#[test]
fn skips_marker_when_resize_failed() {
    let mut env = BootEnvState::Available(MockBootEnv::new());
    let mut ods = OdsStatus::new();
    ods.first_boot = true;
    ods.set_resize_status(ResizeStatus {
        outcome: ResizeOutcome::ToolError,
        reason: "test failure".into(),
    });

    write_first_boot_marker(ods.first_boot && resize_succeeded(true, &ods), &mut env, &mut idle());
    assert_eq!(
        read(&mut env, BootEnvKey::FirstBootDone),
        None,
        "marker must not be written when resize failed"
    );
}

#[test]
fn writes_marker_when_resize_succeeded() {
    let mut env = BootEnvState::Available(MockBootEnv::new());
    let mut ods = OdsStatus::new();
    ods.first_boot = true;

    write_first_boot_marker(ods.first_boot && resize_succeeded(true, &ods), &mut env, &mut idle());
    assert_eq!(
        read(&mut env, BootEnvKey::FirstBootDone),
        Some("1".to_string()),
        "marker must be written when resize succeeded"
    );
}
