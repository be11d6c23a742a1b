//! What the device service is told.

use std::collections::BTreeMap;

use omnect_os_init::bootloader::{create_mock_bootloader, BootEnvKey};
use omnect_os_init::error::{IoError, IoErrorKind};
use omnect_os_init::filesystem::FsckExitCode;
use omnect_os_init::json::print;
use omnect_os_init::partition::PartitionName;
use omnect_os_init::runtime::omnect_device_service::{
    handle_update_validation, lookup_gid, lookup_uid, write_status_file, ValidateUpdateState,
    BOOTLOADER_UPDATED_FILE, ODS_GROUP, ODS_STATUS_FILE, ODS_USER, UPDATE_VALIDATE_FAILED_FILE,
    UPDATE_VALIDATE_FILE,
};
use omnect_os_init::runtime::{
    create_ods_runtime_files, ExtraBootArgsOutcome, ExtraBootArgsStatus, FactoryResetStatus,
    FactoryResetStatusCode, ResizeOutcome, ResizeStatus,
};
use omnect_os_init::system::{CommandOutput, Reply, Request, Session, Stop};
use omnect_os_init::{MockBootEnv, OdsStatus};

/// What is at a path.
#[derive(Debug, Clone, PartialEq)]
enum Node {
    File(String),
    Dir,
    Link(String),
}

/// A file system in memory that answers requests.
struct World {
    nodes: BTreeMap<String, Node>,
    executable: Vec<String>,
    modes: BTreeMap<String, u32>,
    owners: BTreeMap<String, (u32, u32)>,
    /// Exit codes of programs by the end of their name; any other program succeeds.
    exits: BTreeMap<String, i32>,
    ran: Vec<String>,
    mounted: Vec<String>,
    unmounted: Vec<String>,
}

fn failed(kind: IoErrorKind, message: &str) -> Reply {
    Reply::Failed(IoError {
        kind,
        message: message.to_string(),
    })
}

fn not_found() -> Reply {
    failed(IoErrorKind::NotFound, "No such file or directory (os error 2)")
}

impl World {
    fn new() -> World {
        World {
            nodes: BTreeMap::new(),
            executable: vec![],
            modes: BTreeMap::new(),
            owners: BTreeMap::new(),
            exits: BTreeMap::new(),
            ran: vec![],
            mounted: vec![],
            unmounted: vec![],
        }
    }

    fn dir(&mut self, path: &str) {
        let mut at = String::new();
        for part in path.split('/').filter(|p| !p.is_empty()) {
            at = format!("{at}/{part}");
            self.nodes.entry(at.clone()).or_insert(Node::Dir);
        }
    }

    fn file(&mut self, path: &str, text: &str) {
        let parent = &path[..path.rfind('/').unwrap()];
        self.dir(parent);
        self.nodes
            .insert(path.to_string(), Node::File(text.to_string()));
    }

    fn program(&mut self, path: &str) {
        self.file(path, "#!/bin/sh");
        self.executable.push(path.to_string());
    }

    fn plain(path: &str) -> String {
        let parts: Vec<&str> = path
            .split('/')
            .filter(|p| !p.is_empty() && *p != ".")
            .collect();
        format!("/{}", parts.join("/"))
    }

    fn node(&self, path: &str) -> Option<&Node> {
        self.nodes.get(&World::plain(path))
    }

    fn followed(&self, path: &str) -> Option<&Node> {
        match self.node(path) {
            Some(Node::Link(target)) => self.node(target),
            other => other,
        }
    }

    fn there(&self, path: &str) -> bool {
        World::plain(path) == "/" || self.followed(path).is_some()
    }

    fn text(&self, path: &str) -> String {
        match self.node(path) {
            Some(Node::File(text)) => text.clone(),
            other => panic!("{path} is {other:?}"),
        }
    }

    fn link(&self, path: &str) -> Option<String> {
        match self.node(path) {
            Some(Node::Link(target)) => Some(target.clone()),
            _ => None,
        }
    }

    fn names(&self, path: &str) -> Vec<String> {
        let prefix = format!("{}/", World::plain(path));
        self.nodes
            .keys()
            .filter_map(|k| k.strip_prefix(&prefix))
            .filter(|rest| !rest.contains('/'))
            .map(|s| s.to_string())
            .collect()
    }

    /// Copies the node at `from`, and everything below it, to `to`.
    fn copy(&mut self, from: &str, to: &str) {
        let from = World::plain(from);
        let to = World::plain(to);
        let below: Vec<(String, Node)> = self
            .nodes
            .iter()
            .filter(|(k, _)| **k == from || k.starts_with(&format!("{from}/")))
            .map(|(k, v)| (k.clone(), v.clone()))
            .collect();
        self.dir(&to[..to.rfind('/').unwrap()]);
        for (path, node) in below {
            self.nodes.insert(format!("{to}{}", &path[from.len()..]), node);
        }
    }

    fn cp(&mut self, args: &[String]) -> bool {
        if args[0] == "--parents" {
            let to = format!("{}/{}", args[3], World::plain(&args[2]));
            self.copy(&args[2].clone(), &to);
            return true;
        }
        if let Some(dir) = args[1].strip_suffix("/.") {
            for name in self.names(dir) {
                self.copy(&format!("{dir}/{name}"), &format!("{}/{name}", args[2]));
            }
            return true;
        }
        let name = args[1].trim_end_matches('/').rsplit('/').next().unwrap().to_string();
        if self.node(&args[2]) != Some(&Node::Dir) {
            return false;
        }
        self.copy(&args[1].clone(), &format!("{}/{name}", args[2]));
        true
    }

    fn run(&mut self, program: &str, args: &[String]) -> Reply {
        self.ran.push(format!("{program} {}", args.join(" ")));
        let known = self
            .exits
            .iter()
            .find(|(name, _)| program.ends_with(name.as_str()))
            .map(|(_, code)| *code);
        let code = match known {
            Some(code) => code,
            None if program.ends_with("/cp") => {
                if self.cp(args) {
                    0
                } else {
                    1
                }
            }
            None => 0,
        };
        Reply::Output(CommandOutput {
            code: Some(code),
            status: format!("exit status: {code}"),
            stdout: String::new(),
            stderr: String::new(),
        })
    }

    fn answer(&mut self, request: &Request) -> Reply {
        match request {
            Request::Exists(p) => Reply::Flag(self.there(p)),
            Request::TryExists(p) => Reply::Flag(self.there(p)),
            Request::IsDir(p) => Reply::Flag(self.followed(p) == Some(&Node::Dir)),
            Request::IsFile(p) => Reply::Flag(matches!(self.followed(p), Some(Node::File(_)))),
            Request::IsSymlink(p) => Reply::Flag(self.link(p).is_some()),
            Request::IsExecutable(p) => Reply::Flag(self.executable.contains(&World::plain(p))),
            Request::ReadText(p) => match self.followed(p) {
                Some(Node::File(text)) => Reply::Text(text.clone()),
                Some(_) => failed(IoErrorKind::Other, "Is a directory (os error 21)"),
                None => not_found(),
            },
            Request::ReadLink(p) => match self.link(p) {
                Some(target) => Reply::Text(target),
                None => not_found(),
            },
            Request::ListDir(p) => {
                if self.followed(p) == Some(&Node::Dir) {
                    Reply::Names {
                        names: self.names(p),
                        failed: None,
                    }
                } else {
                    not_found()
                }
            }
            Request::CreateDir(p) => {
                let path = World::plain(p);
                let blocked = self
                    .nodes
                    .iter()
                    .any(|(k, v)| {
                        matches!(v, Node::File(_)) && (*k == path || path.starts_with(&format!("{k}/")))
                    });
                if blocked {
                    return failed(IoErrorKind::Other, "Not a directory (os error 20)");
                }
                self.dir(&path);
                Reply::Done
            }
            Request::WriteText { path, text } | Request::WriteDurable { path, text, .. } => {
                let path = World::plain(path);
                if self.there(&path[..path.rfind('/').unwrap()]) {
                    self.nodes.insert(path, Node::File(text.clone()));
                    Reply::Done
                } else {
                    not_found()
                }
            }
            Request::RemoveFile(p) => match self.nodes.remove(&World::plain(p)) {
                Some(_) => Reply::Done,
                None => not_found(),
            },
            Request::Symlink { target, link } => {
                if self.node(link).is_some() {
                    return failed(IoErrorKind::Other, "File exists (os error 17)");
                }
                self.nodes
                    .insert(World::plain(link), Node::Link(target.clone()));
                Reply::Done
            }
            Request::SetOwner { path, uid, gid } => {
                self.owners.insert(path.clone(), (*uid, *gid));
                Reply::Done
            }
            Request::SetMode { path, mode } => {
                self.modes.insert(path.clone(), *mode);
                Reply::Done
            }
            Request::Run { program, args } => self.run(program, args),
            Request::Mount { target, .. } => {
                self.mounted.push(target.clone());
                Reply::Done
            }
            Request::Unmount(target) => {
                self.unmounted.push(target.clone());
                Reply::Done
            }
            Request::Clock => Reply::Millis(0),
            Request::Sync | Request::Sleep(_) | Request::Warn(_) => Reply::Done,
            Request::ChangeDir(_) | Request::ChangeRoot(_) => {
                Reply::Done
            }
            other => panic!("no answer to {other:?}"),
        }
    }

    /// Runs a procedure again and again, with one more answer each time, until it ends.
    fn drive<T, E>(
        &mut self,
        mut procedure: impl FnMut(&mut Session) -> Result<T, Stop<E>>,
    ) -> Result<T, E> {
        let mut replies: Vec<Reply> = vec![];
        loop {
            let mut sys = Session::new(replies.clone());
            match procedure(&mut sys) {
                Ok(x) => return Ok(x),
                Err(Stop::Failed(e)) => return Err(e),
                Err(Stop::Pending) => {
                    let reply = self.answer(&sys.asked()[replies.len()]);
                    replies.push(reply);
                }
            }
        }
    }
}

fn compact(pretty: &str) -> String {
    serde_json::from_str::<serde_json::Value>(pretty)
        .unwrap()
        .to_string()
}

fn ods_json(status: &OdsStatus) -> String {
    compact(&print(&status.to_json()).unwrap())
}

fn ods_value(status: &OdsStatus) -> serde_json::Value {
    serde_json::from_str(&ods_json(status)).unwrap()
}

fn reset_json(status: &FactoryResetStatus) -> String {
    compact(&print(&status.to_json()).unwrap())
}

/// A rootfs that knows the user of the device service.
fn fake_rootfs() -> World {
    let mut world = World::new();
    world.file(
        "/rootfs/etc/passwd",
        "root:x:0:0:root:/root:/bin/sh\nomnect_device_service:x:15:16::/:/bin/sh\n",
    );
    world.file(
        "/rootfs/etc/group",
        "root:x:0:\nomnect_device_service:x:16:\n",
    );
    world.dir("/ods");
    world
}

#[test]
fn test_ods_status_default() {
    let status = OdsStatus::default();
    assert!(status.fsck.is_empty());
    assert!(status.factory_reset.is_none());
}

#[test]
fn test_ods_status_add_fsck() {
    let mut status = OdsStatus::new();
    status.add_fsck_result(PartitionName::Boot, 0, "clean".to_string());
    status.add_fsck_result(PartitionName::Data, 1, "errors corrected".to_string());

    assert_eq!(status.fsck.len(), 2);
    assert_eq!(status.fsck.get(&PartitionName::Boot).unwrap().code, 0);
    assert_eq!(status.fsck.get(&PartitionName::Data).unwrap().code, 1);
}

#[test]
fn test_ods_status_serialization() {
    let mut status = OdsStatus::new();
    status.add_fsck_result(PartitionName::Boot, 0, "clean".to_string());

    let json = ods_json(&status);
    assert!(json.contains("\"boot\""));
    assert!(json.contains("\"code\":0"));
}

#[test]
fn test_write_status_file() {
    let mut world = World::new();
    world.dir("/ods");
    let status = OdsStatus::new();
    world
        .drive(|sys| write_status_file("/ods", &status, sys))
        .unwrap();
    let content = world.text(&format!("/ods/{ODS_STATUS_FILE}"));
    assert!(content.contains("{"));
    assert_eq!(compact(&content), "{\"first_boot\":false}");
}

#[test]
fn test_factory_reset_status_serialization() {
    let status = FactoryResetStatus {
        status: FactoryResetStatusCode::Success,
        error: None,
        context: Some("normal".to_string()),
        paths: vec!["/etc/hostname".to_string()],
        data_wiped: true,
    };

    let json = reset_json(&status);
    assert!(json.contains("\"status\":0"));
    assert!(json.contains("\"paths\""));
}

#[test]
fn test_factory_reset_status_code_serializes_as_integer() {
    let cases: &[(FactoryResetStatusCode, u64)] = &[
        (FactoryResetStatusCode::Success, 0),
        (FactoryResetStatusCode::Invalid, 1),
        (FactoryResetStatusCode::Error, 2),
        (FactoryResetStatusCode::ConfigError, 3),
    ];
    for (variant, expected) in cases {
        let s = FactoryResetStatus {
            status: *variant,
            error: None,
            context: None,
            paths: vec![],
            data_wiped: false,
        };
        let json: serde_json::Value = serde_json::from_str(&reset_json(&s)).unwrap();
        assert_eq!(json["status"], *expected, "variant {:?}", variant);
    }
}

#[test]
fn factory_reset_data_wiped_always_serialized() {
    for wiped in [false, true] {
        let s = FactoryResetStatus {
            status: FactoryResetStatusCode::Error,
            error: Some("test".to_string()),
            context: None,
            paths: vec![],
            data_wiped: wiped,
        };
        let json = reset_json(&s);
        assert!(
            json.contains(&format!("\"data_wiped\":{wiped}")),
            "data_wiped={wiped} must be serialized; got: {json}"
        );
    }
}

#[test]
fn test_factory_reset_status_code_display() {
    assert_eq!(FactoryResetStatusCode::Success.to_string(), "success");
    assert_eq!(FactoryResetStatusCode::Invalid.to_string(), "invalid");
    assert_eq!(FactoryResetStatusCode::Error.to_string(), "error");
    assert_eq!(
        FactoryResetStatusCode::ConfigError.to_string(),
        "config_error"
    );
}

#[test]
fn test_validate_update_state_from_str() {
    assert_eq!(
        ValidateUpdateState::from("1"),
        ValidateUpdateState::Requested
    );
    assert_eq!(
        ValidateUpdateState::from("failed"),
        ValidateUpdateState::Failed
    );
    assert_eq!(
        ValidateUpdateState::from("true"),
        ValidateUpdateState::Other
    );
    assert_eq!(ValidateUpdateState::from("0"), ValidateUpdateState::Other);
    assert_eq!(ValidateUpdateState::from(""), ValidateUpdateState::Other);
    assert_eq!(
        ValidateUpdateState::from("unexpected"),
        ValidateUpdateState::Other
    );
}

#[test]
fn test_validate_update_state_display() {
    assert_eq!(ValidateUpdateState::Requested.to_string(), "requested");
    assert_eq!(ValidateUpdateState::Failed.to_string(), "failed");
    assert_eq!(ValidateUpdateState::Other.to_string(), "other");
}

fn validate(make: impl Fn() -> MockBootEnv) -> World {
    let mut world = World::new();
    world.dir("/ods");
    world
        .drive(|sys| handle_update_validation("/ods", &mut make(), 15, 16, sys))
        .unwrap();
    world
}

fn has(world: &World, name: &str) -> bool {
    world.there(&format!("/ods/{name}"))
}

#[test]
fn test_handle_update_validation_value_1() {
    let world = validate(|| create_mock_bootloader().with_env(BootEnvKey::ValidateUpdate, "1"));
    assert!(has(&world, UPDATE_VALIDATE_FILE));
    assert!(!has(&world, UPDATE_VALIDATE_FAILED_FILE));
    assert!(!has(&world, BOOTLOADER_UPDATED_FILE));
    assert_eq!(
        world.owners.get(&format!("/ods/{UPDATE_VALIDATE_FILE}")),
        Some(&(15, 16))
    );
}

#[test]
fn test_handle_update_validation_value_true_not_accepted() {
    let world = validate(|| create_mock_bootloader().with_env(BootEnvKey::ValidateUpdate, "true"));
    assert!(!has(&world, UPDATE_VALIDATE_FILE));
}

#[test]
fn test_handle_update_validation_failed() {
    let world = validate(|| create_mock_bootloader().with_env(BootEnvKey::ValidateUpdate, "failed"));
    assert!(!has(&world, UPDATE_VALIDATE_FILE));
    assert!(has(&world, UPDATE_VALIDATE_FAILED_FILE));
}

#[test]
fn test_handle_update_validation_unexpected_value_creates_nothing() {
    let world =
        validate(|| create_mock_bootloader().with_env(BootEnvKey::ValidateUpdate, "unexpected"));
    assert!(!has(&world, UPDATE_VALIDATE_FILE));
    assert!(!has(&world, UPDATE_VALIDATE_FAILED_FILE));
}

#[test]
fn test_handle_update_validation_bootloader_updated() {
    let world = validate(|| create_mock_bootloader().with_env(BootEnvKey::BootloaderUpdated, "1"));
    assert!(has(&world, BOOTLOADER_UPDATED_FILE));
}

#[test]
fn test_handle_update_validation_bootloader_updated_false_creates_nothing() {
    let world = validate(|| create_mock_bootloader().with_env(BootEnvKey::BootloaderUpdated, "0"));
    assert!(!has(&world, BOOTLOADER_UPDATED_FILE));
}

#[test]
fn test_handle_update_validation_no_env_creates_nothing() {
    let world = validate(create_mock_bootloader);
    assert!(!has(&world, UPDATE_VALIDATE_FILE));
    assert!(!has(&world, UPDATE_VALIDATE_FAILED_FILE));
    assert!(!has(&world, BOOTLOADER_UPDATED_FILE));
}

#[test]
fn test_lookup_uid_and_gid() {
    let mut world = fake_rootfs();
    assert_eq!(
        world.drive(|sys| lookup_uid("/rootfs", ODS_USER, sys)).unwrap(),
        15
    );
    assert_eq!(
        world.drive(|sys| lookup_gid("/rootfs", ODS_GROUP, sys)).unwrap(),
        16
    );
}

#[test]
fn test_lookup_uid_missing_user() {
    let mut world = World::new();
    world.file("/rootfs/etc/passwd", "root:x:0:0::/root:/bin/sh\n");
    assert!(world.drive(|sys| lookup_uid("/rootfs", ODS_USER, sys)).is_err());
}

#[test]
fn test_lookup_gid_missing_group() {
    let mut world = World::new();
    world.file("/rootfs/etc/group", "root:x:0:\n");
    assert!(world.drive(|sys| lookup_gid("/rootfs", ODS_GROUP, sys)).is_err());
}

#[test]
fn test_create_ods_runtime_files_end_to_end() {
    let mut world = fake_rootfs();
    let mut status = OdsStatus::new();
    status.add_fsck_result(PartitionName::Boot, 0, "clean".to_string());

    world
        .drive(|sys| {
            let mut bl = create_mock_bootloader().with_env(BootEnvKey::ValidateUpdate, "1");
            create_ods_runtime_files(&status, Some(&mut bl), "/rootfs", "/ods", sys)
        })
        .unwrap();

    assert!(world
        .text(&format!("/ods/{ODS_STATUS_FILE}"))
        .contains("\"boot\""));
    assert!(has(&world, UPDATE_VALIDATE_FILE));
    assert!(!has(&world, BOOTLOADER_UPDATED_FILE));
}

#[test]
fn test_create_ods_runtime_files_no_bootloader() {
    let mut world = fake_rootfs();
    world
        .drive(|sys| {
            create_ods_runtime_files(
                &OdsStatus::new(),
                None::<&mut MockBootEnv>,
                "/rootfs",
                "/ods",
                sys,
            )
        })
        .unwrap();
    assert!(has(&world, ODS_STATUS_FILE));
    assert!(!has(&world, UPDATE_VALIDATE_FILE));
}

#[test]
fn degraded_boot_serializes_only_when_set() {
    let json_normal = ods_json(&OdsStatus::new());
    assert!(
        !json_normal.contains("degraded_boot"),
        "degraded_boot must be absent when None; got: {json_normal}"
    );

    let mut status_degraded = OdsStatus::new();
    status_degraded.set_degraded_boot("grubenv missing".to_string());
    let json_degraded = ods_json(&status_degraded);
    assert!(
        json_degraded.contains("\"degraded_boot\":{\"reason\":\"grubenv missing\"}"),
        "degraded_boot must be a nested object with reason; got: {json_degraded}"
    );
}

#[test]
fn resize_status_absent_on_clean_run() {
    let json = ods_json(&OdsStatus::new());
    assert!(
        !json.contains("resize_data"),
        "resize_data must be absent when None; got: {json}"
    );
}

#[test]
fn resize_status_present_with_outcome_and_reason() {
    let mut status = OdsStatus::new();
    status.set_resize_status(ResizeStatus {
        outcome: ResizeOutcome::SkippedFsck,
        reason: "data partition fsck reported uncorrected errors".to_string(),
    });
    let json = ods_json(&status);
    assert!(
        json.contains("\"resize_data\""),
        "resize_data must be present when Some; got: {json}"
    );
    assert!(
        json.contains("\"outcome\":\"skipped_fsck\""),
        "outcome must serialize as snake_case; got: {json}"
    );
    assert!(
        json.contains("\"reason\""),
        "reason must be present; got: {json}"
    );
}

#[test]
fn resize_outcome_variants_serialize_snake_case() {
    let cases: &[(ResizeOutcome, &str)] = &[
        (ResizeOutcome::SkippedFsck, "\"skipped_fsck\""),
        (ResizeOutcome::ToolError, "\"tool_error\""),
        (ResizeOutcome::InvalidLayout, "\"invalid_layout\""),
    ];
    for (variant, expected) in cases {
        let mut status = OdsStatus::new();
        status.set_resize_status(ResizeStatus {
            outcome: *variant,
            reason: String::new(),
        });
        let s = ods_value(&status)["resize_data"]["outcome"].to_string();
        assert_eq!(&s, expected, "{variant:?} must serialize as {expected}");
    }
}

#[test]
fn first_boot_always_serialized() {
    let j = ods_json(&OdsStatus::new());
    assert!(
        j.contains("\"first_boot\":false"),
        "default first_boot must be false and serialized; got: {j}"
    );

    let mut s = OdsStatus::new();
    s.first_boot = true;
    let j = ods_json(&s);
    assert!(
        j.contains("\"first_boot\":true"),
        "first_boot=true must be serialized; got: {j}"
    );
}

#[test]
fn extra_bootargs_failure_is_serialized() {
    let mut s = OdsStatus::new();
    s.set_extra_bootargs_status(ExtraBootArgsStatus {
        outcome: ExtraBootArgsOutcome::ReadBackMismatch,
        reason: "mangled".to_string(),
    });
    assert_eq!(
        ods_value(&s)["extra_bootargs"]["outcome"],
        "read_back_mismatch"
    );
}

#[test]
fn factory_reset_success_status_json() {
    let status = FactoryResetStatus {
        status: FactoryResetStatusCode::Success,
        error: None,
        context: None,
        paths: vec!["/etc/omnect/factory-reset.d/".into()],
        data_wiped: true,
    };
    let mut ods = OdsStatus::new();
    ods.set_factory_reset(status);
    let json = ods_value(&ods);
    let fr = &json["factory_reset"];

    assert!(!fr.is_null(), "missing factory_reset key: {json}");
    assert_eq!(fr["status"], 0, "status must be integer 0: {json}");
    assert_eq!(fr["data_wiped"], true, "data_wiped must be true: {json}");
    assert_eq!(fr["paths"][0], "/etc/omnect/factory-reset.d/");
    assert!(
        fr.get("error").is_none(),
        "error must be skipped when None: {json}"
    );
    assert!(
        fr.get("context").is_none(),
        "context must be skipped when None: {json}"
    );
}

#[test]
fn factory_reset_error_status_json() {
    let status = FactoryResetStatus {
        status: FactoryResetStatusCode::Error,
        error: Some("mkfs retry exhausted".into()),
        context: Some("etc reformatted twice: initial remount failed".into()),
        paths: vec!["/etc/omnect/factory-reset.d/".into()],
        data_wiped: true,
    };
    let mut ods = OdsStatus::new();
    ods.set_factory_reset(status);
    let json = ods_json(&ods);

    assert!(
        json.contains("\"status\":2"),
        "status must be integer 2: {json}"
    );
    assert!(json.contains("\"error\":"), "error missing: {json}");
    assert!(json.contains("\"context\":"), "context missing: {json}");
    assert!(
        json.contains("\"data_wiped\":true"),
        "data_wiped missing: {json}"
    );
}

#[test]
fn factory_reset_status_code_serializes_as_integer() {
    let status = FactoryResetStatus {
        status: FactoryResetStatusCode::Success,
        error: None,
        context: None,
        paths: vec![],
        data_wiped: false,
    };
    let mut ods = OdsStatus::new();
    ods.set_factory_reset(status);
    let json = ods_json(&ods);

    assert!(
        json.contains("\"status\":0"),
        "status must serialize as bare integer, not a string: {json}"
    );
}

#[test]
fn factory_reset_warning_status_serializes_as_four() {
    let status = FactoryResetStatus {
        status: FactoryResetStatusCode::Warning,
        error: None,
        context: Some("etc reformatted twice".into()),
        paths: vec![],
        data_wiped: true,
    };
    let mut ods = OdsStatus::new();
    ods.set_factory_reset(status);
    let json = ods_value(&ods);

    assert_eq!(
        json["factory_reset"]["status"], 4,
        "Warning must serialize as 4 (wire contract): {json}"
    );
}

#[test]
fn clean_run_omits_the_fsck_key() {
    let mut ods = OdsStatus::new();
    ods.record_fsck_result(PartitionName::Boot, FsckExitCode(FsckExitCode::OK), "clean".into());
    ods.record_fsck_result(PartitionName::Data, FsckExitCode(FsckExitCode::OK), "clean".into());

    let json = ods_value(&ods);
    assert!(
        json.get("fsck").is_none(),
        "clean partitions must leave the fsck key out: {json}"
    );
}

#[test]
fn failing_partition_is_keyed_by_its_canonical_name() {
    let mut ods = OdsStatus::new();
    ods.record_fsck_result(
        PartitionName::Data,
        FsckExitCode(FsckExitCode::CORRECTED),
        "errors corrected on pass 1".into(),
    );

    let json = ods_value(&ods);
    let entry = &json["fsck"]["data"];
    assert_eq!(entry["code"], 1, "code must be a bare integer: {json}");
    assert_eq!(entry["output"], "errors corrected on pass 1");
}

#[test]
fn only_failing_partitions_appear() {
    let mut ods = OdsStatus::new();
    ods.record_fsck_result(PartitionName::Boot, FsckExitCode(FsckExitCode::OK), "clean".into());
    ods.record_fsck_result(
        PartitionName::Cert,
        FsckExitCode(FsckExitCode::CORRECTED),
        "errors corrected".into(),
    );
    ods.record_fsck_result(
        PartitionName::Etc,
        FsckExitCode(FsckExitCode::CORRECTED),
        "errors corrected".into(),
    );
    ods.record_fsck_result(
        PartitionName::Data,
        FsckExitCode(FsckExitCode::ERRORS_UNCORRECTED),
        "uncorrected errors".into(),
    );

    let json = ods_value(&ods);
    let fsck = json["fsck"].as_object().unwrap();
    assert!(!fsck.contains_key("boot"), "got: {json}");
    for name in ["cert", "etc", "data"] {
        assert!(fsck.contains_key(name), "missing {name}: {json}");
    }
}
