//! Whole boots on a system in memory.

use std::collections::BTreeMap;

use omnect_os_init::bootloader::types::{decode_fsck_output, encode_fsck_output, parse_record};
use omnect_os_init::bootloader::{BootEnvKey, BootloaderKind};
use omnect_os_init::config::{CmdlineConfig, Config};
use omnect_os_init::error::{EarlyInitError, FilesystemError, InitramfsError, IoError, IoErrorKind};
use omnect_os_init::json::{parse, Json};
use omnect_os_init::logging::disable_kmsg_ratelimit;
use omnect_os_init::logging::kmsg::{direct_line, fatal_line, log_line, Level};
use omnect_os_init::mode::factory_reset::reformat::reformat_ext4;
use omnect_os_init::mode::{first_boot, BootContext};
use omnect_os_init::order::sort_names;
use omnect_os_init::partition::{PartitionLayout, PartitionName, PartitionTable, RootDevice};
use omnect_os_init::path;
use omnect_os_init::runtime::switch_root;
use omnect_os_init::system::{CommandOutput, MountFlag, Reply, Request, Session, Stop};
use omnect_os_init::util::{get_uboot_env, set_uboot_env, StepError};
use omnect_os_init::{
    e2fsck, finish, mount, mount_essential_filesystems, open_boot_env, read_update_pending, resizefs,
    rootblk, run_init, BootEnv, BootEnvState, ImageConfig, MockBootEnv, OdsStatus, UpdatePending,
};

/// What is at a path.
#[derive(Debug, Clone, PartialEq)]
enum Node {
    File(String),
    Dir,
    Link(String),
}

/// A file system in memory that answers requests.
struct World {
    nodes: BTreeMap<String, Node>,
    executable: Vec<String>,
    modes: BTreeMap<String, u32>,
    owners: BTreeMap<String, (u32, u32)>,
    /// Exit codes of programs by the end of their name; any other program succeeds.
    exits: BTreeMap<String, i32>,
    ran: Vec<String>,
    mounted: Vec<String>,
    unmounted: Vec<String>,
    warnings: Vec<String>,
}

fn failed(kind: IoErrorKind, message: &str) -> Reply {
    Reply::Failed(IoError {
        kind,
        message: message.to_string(),
    })
}

fn not_found() -> Reply {
    failed(IoErrorKind::NotFound, "No such file or directory (os error 2)")
}

impl World {
    fn new() -> World {
        World {
            nodes: BTreeMap::new(),
            executable: vec![],
            modes: BTreeMap::new(),
            owners: BTreeMap::new(),
            exits: BTreeMap::new(),
            ran: vec![],
            mounted: vec![],
            unmounted: vec![],
            warnings: vec![],
        }
    }

    fn dir(&mut self, path: &str) {
        let mut at = String::new();
        for part in path.split('/').filter(|p| !p.is_empty()) {
            at = format!("{at}/{part}");
            self.nodes.entry(at.clone()).or_insert(Node::Dir);
        }
    }

    fn file(&mut self, path: &str, text: &str) {
        let parent = &path[..path.rfind('/').unwrap()];
        self.dir(parent);
        self.nodes
            .insert(path.to_string(), Node::File(text.to_string()));
    }

    fn program(&mut self, path: &str) {
        self.file(path, "#!/bin/sh");
        self.executable.push(path.to_string());
    }

    fn plain(path: &str) -> String {
        let parts: Vec<&str> = path
            .split('/')
            .filter(|p| !p.is_empty() && *p != ".")
            .collect();
        format!("/{}", parts.join("/"))
    }

    fn node(&self, path: &str) -> Option<&Node> {
        self.nodes.get(&World::plain(path))
    }

    fn followed(&self, path: &str) -> Option<&Node> {
        match self.node(path) {
            Some(Node::Link(target)) => self.node(target),
            other => other,
        }
    }

    fn there(&self, path: &str) -> bool {
        World::plain(path) == "/" || self.followed(path).is_some()
    }

    fn text(&self, path: &str) -> String {
        match self.node(path) {
            Some(Node::File(text)) => text.clone(),
            other => panic!("{path} is {other:?}"),
        }
    }

    fn link(&self, path: &str) -> Option<String> {
        match self.node(path) {
            Some(Node::Link(target)) => Some(target.clone()),
            _ => None,
        }
    }

    fn names(&self, path: &str) -> Vec<String> {
        let prefix = format!("{}/", World::plain(path));
        self.nodes
            .keys()
            .filter_map(|k| k.strip_prefix(&prefix))
            .filter(|rest| !rest.contains('/'))
            .map(|s| s.to_string())
            .collect()
    }

    /// Copies the node at `from`, and everything below it, to `to`.
    fn copy(&mut self, from: &str, to: &str) {
        let from = World::plain(from);
        let to = World::plain(to);
        let below: Vec<(String, Node)> = self
            .nodes
            .iter()
            .filter(|(k, _)| **k == from || k.starts_with(&format!("{from}/")))
            .map(|(k, v)| (k.clone(), v.clone()))
            .collect();
        self.dir(&to[..to.rfind('/').unwrap()]);
        for (path, node) in below {
            self.nodes.insert(format!("{to}{}", &path[from.len()..]), node);
        }
    }

    fn cp(&mut self, args: &[String]) -> bool {
        if args[0] == "--parents" {
            let to = format!("{}/{}", args[3], World::plain(&args[2]));
            self.copy(&args[2].clone(), &to);
            return true;
        }
        if let Some(dir) = args[1].strip_suffix("/.") {
            for name in self.names(dir) {
                self.copy(&format!("{dir}/{name}"), &format!("{}/{name}", args[2]));
            }
            return true;
        }
        let name = args[1].trim_end_matches('/').rsplit('/').next().unwrap().to_string();
        if self.node(&args[2]) != Some(&Node::Dir) {
            return false;
        }
        self.copy(&args[1].clone(), &format!("{}/{name}", args[2]));
        true
    }

    fn run(&mut self, program: &str, args: &[String]) -> Reply {
        self.ran.push(format!("{program} {}", args.join(" ")));
        let known = self
            .exits
            .iter()
            .find(|(name, _)| program.ends_with(name.as_str()))
            .map(|(_, code)| *code);
        let code = match known {
            Some(code) => code,
            None if program.ends_with("/cp") => {
                if self.cp(args) {
                    0
                } else {
                    1
                }
            }
            None => 0,
        };
        Reply::Output(CommandOutput {
            code: Some(code),
            status: format!("exit status: {code}"),
            stdout: String::new(),
            stderr: String::new(),
        })
    }

    fn answer(&mut self, request: &Request) -> Reply {
        match request {
            Request::Exists(p) => Reply::Flag(self.there(p)),
            Request::TryExists(p) => Reply::Flag(self.there(p)),
            Request::IsDir(p) => Reply::Flag(self.followed(p) == Some(&Node::Dir)),
            Request::IsFile(p) => Reply::Flag(matches!(self.followed(p), Some(Node::File(_)))),
            Request::IsSymlink(p) => Reply::Flag(self.link(p).is_some()),
            Request::IsExecutable(p) => Reply::Flag(self.executable.contains(&World::plain(p))),
            Request::ReadText(p) => match self.followed(p) {
                Some(Node::File(text)) => Reply::Text(text.clone()),
                Some(_) => failed(IoErrorKind::Other, "Is a directory (os error 21)"),
                None => not_found(),
            },
            Request::ReadLink(p) => match self.link(p) {
                Some(target) => Reply::Text(target),
                None => not_found(),
            },
            Request::ListDir(p) => {
                if self.followed(p) == Some(&Node::Dir) {
                    Reply::Names {
                        names: self.names(p),
                        failed: None,
                    }
                } else {
                    not_found()
                }
            }
            Request::CreateDir(p) => {
                let path = World::plain(p);
                let blocked = self
                    .nodes
                    .iter()
                    .any(|(k, v)| {
                        matches!(v, Node::File(_)) && (*k == path || path.starts_with(&format!("{k}/")))
                    });
                if blocked {
                    return failed(IoErrorKind::Other, "Not a directory (os error 20)");
                }
                self.dir(&path);
                Reply::Done
            }
            Request::WriteText { path, text } | Request::WriteDurable { path, text, .. } => {
                let path = World::plain(path);
                if self.there(&path[..path.rfind('/').unwrap()]) {
                    self.nodes.insert(path, Node::File(text.clone()));
                    Reply::Done
                } else {
                    not_found()
                }
            }
            Request::RemoveFile(p) => match self.nodes.remove(&World::plain(p)) {
                Some(_) => Reply::Done,
                None => not_found(),
            },
            Request::Symlink { target, link } => {
                if self.node(link).is_some() {
                    return failed(IoErrorKind::Other, "File exists (os error 17)");
                }
                self.nodes
                    .insert(World::plain(link), Node::Link(target.clone()));
                Reply::Done
            }
            Request::SetOwner { path, uid, gid } => {
                self.owners.insert(path.clone(), (*uid, *gid));
                Reply::Done
            }
            Request::SetMode { path, mode } => {
                self.modes.insert(path.clone(), *mode);
                Reply::Done
            }
            Request::Run { program, args } => self.run(program, args),
            Request::Mount { target, .. } => {
                self.mounted.push(target.clone());
                Reply::Done
            }
            Request::Unmount(target) => {
                self.unmounted.push(target.clone());
                Reply::Done
            }
            Request::Clock => Reply::Millis(0),
            Request::Sync | Request::Sleep(_) => Reply::Done,
            Request::Warn(message) => {
                self.warnings.push(message.clone());
                Reply::Done
            }
            Request::ChangeDir(_) | Request::ChangeRoot(_) => {
                Reply::Done
            }
            other => panic!("no answer to {other:?}"),
        }
    }

    /// Runs a procedure again and again, with one more answer each time, until it ends.
    fn drive<T, E>(
        &mut self,
        mut procedure: impl FnMut(&mut Session) -> Result<T, Stop<E>>,
    ) -> Result<T, E> {
        let mut replies: Vec<Reply> = vec![];
        loop {
            let mut sys = Session::new(replies.clone());
            match procedure(&mut sys) {
                Ok(x) => return Ok(x),
                Err(Stop::Failed(e)) => return Err(e),
                Err(Stop::Pending) => {
                    let reply = self.answer(&sys.asked()[replies.len()]);
                    replies.push(reply);
                }
            }
        }
    }
}

/// A system with a U-Boot environment.
struct Machine {
    world: World,
    env: BTreeMap<String, String>,
}

/// How a boot ended.
#[derive(Debug)]
enum End {
    /// The named init took over.
    Handed(String),
    Failed(InitramfsError),
}

fn output(code: i32, stdout: &str) -> Reply {
    Reply::Output(CommandOutput {
        code: Some(code),
        status: format!("exit status: {code}"),
        stdout: stdout.to_string(),
        stderr: String::new(),
    })
}

impl Machine {
    fn new() -> Machine {
        let mut world = World::new();
        world.file("/proc/cmdline", "root=/dev/mmcblk0p2 quiet\n");
        world.file("/proc/mounts", "proc /proc proc rw 0 0\n");
        world.file("/proc/self/mounts", "proc /proc proc rw 0 0\n");
        world.dir("/run");
        for n in 1..9 {
            world.file(&format!("/dev/mmcblk0p{n}"), "");
        }
        world.file("/dev/mmcblk0", "");
        world.dir("/rootfs/boot");
        world.dir("/rootfs/home");
        world.dir("/rootfs/mnt/factory");
        world.dir("/rootfs/mnt/etc");
        world.dir("/rootfs/mnt/data");
        world.file(
            "/rootfs/etc/passwd",
            "omnect_device_service:x:15:16::/:/bin/sh\n",
        );
        world.file("/rootfs/etc/group", "omnect_device_service:x:16:\n");
        world.program("/rootfs/sbin/init");
        Machine {
            world,
            env: BTreeMap::new(),
        }
    }

    fn answer(&mut self, request: &Request) -> Reply {
        match request {
            Request::Run { program, args } if program == "/bin/fw_printenv" => {
                match self.env.get(&args[1]) {
                    Some(value) => output(0, &format!("{value}\n")),
                    None => output(1, ""),
                }
            }
            Request::Run { program, args } if program == "/bin/fw_setenv" => {
                if args.len() == 2 {
                    self.env.insert(args[0].clone(), args[1].clone());
                } else {
                    self.env.remove(&args[0]);
                }
                output(0, "")
            }
            // the filters give back what they get
            Request::Pipe { input, .. } => Reply::Bytes {
                code: Some(0),
                stdout: input.clone(),
            },
            other => self.world.answer(other),
        }
    }

    fn boot(&mut self, image: &ImageConfig, pending: &mut UpdatePending) -> End {
        let mut replies: Vec<Reply> = vec![];
        loop {
            let mut sys = Session::new(replies.clone());
            match run_init(image, pending, &mut sys) {
                Ok(()) => panic!("a boot does not come back"),
                Err(Stop::Failed(e)) => return End::Failed(e),
                Err(Stop::Pending) => {
                    let request = &sys.asked()[replies.len()];
                    if let Request::Exec(init) = request {
                        return End::Handed(init.clone());
                    }
                    let reply = self.answer(request);
                    replies.push(reply);
                }
            }
        }
    }

    fn status(&self) -> serde_json::Value {
        let text = self
            .world
            .text("/run/omnect-device-service/omnect-os-initramfs.json");
        serde_json::from_str(&text).unwrap()
    }
}

fn image() -> ImageConfig {
    ImageConfig {
        bootloader: BootloaderKind::UBoot,
        table: PartitionTable::Dos,
        release: true,
        resize_data: false,
        factory_reset: true,
        persistent_var_log: false,
    }
}

#[test]
fn first_boot_is_marked_once() {
    let mut machine = Machine::new();
    let mut pending = UpdatePending::default();
    match machine.boot(&image(), &mut pending) {
        End::Handed(init) => assert_eq!(init, "/sbin/init"),
        End::Failed(e) => panic!("{}", e.to_string()),
    }
    assert_eq!(machine.status()["first_boot"], true);
    assert!(!read_update_pending(&pending));
    assert_eq!(
        machine.env.get("omnect_first_boot_done").map(|s| s.as_str()),
        Some("1")
    );
    assert_eq!(
        machine.world.link("/dev/omnect/data"),
        Some("/dev/mmcblk0p8".to_string())
    );

    let mut again = Machine::new();
    again.env = machine.env.clone();
    assert!(matches!(again.boot(&image(), &mut pending), End::Handed(_)));
    assert_eq!(again.status()["first_boot"], false);
}

#[test]
fn requested_init_is_handed_over_to() {
    let mut machine = Machine::new();
    machine
        .world
        .file("/proc/cmdline", "root=/dev/mmcblk0p3 init=/bin/other\n");
    machine.world.program("/rootfs/bin/other");
    match machine.boot(&image(), &mut UpdatePending::default()) {
        End::Handed(init) => assert_eq!(init, "/bin/other"),
        End::Failed(e) => panic!("{}", e.to_string()),
    }
}

#[test]
fn update_in_flight_is_told_and_validated() {
    let mut machine = Machine::new();
    machine
        .env
        .insert("omnect_validate_update".to_string(), "1".to_string());
    let mut pending = UpdatePending::default();
    assert!(matches!(machine.boot(&image(), &mut pending), End::Handed(_)));
    assert!(read_update_pending(&pending));
    assert!(machine
        .world
        .there("/run/omnect-device-service/omnect_validate_update"));
}

#[test]
fn data_partition_grows_on_first_boot() {
    let mut machine = Machine::new();
    let image = ImageConfig {
        resize_data: true,
        ..image()
    };
    assert!(matches!(
        machine.boot(&image, &mut UpdatePending::default()),
        End::Handed(_)
    ));
    // parted printed no extended partition, so that growing failed and is tried again
    assert_eq!(machine.status()["resize_data"]["outcome"], "invalid_layout");
    assert!(!machine.env.contains_key("omnect_first_boot_done"));
}

#[test]
fn factory_reset_runs_once_and_boots_on() {
    let mut machine = Machine::new();
    machine.env.insert(
        "factory-reset".to_string(),
        r#"{"mode":1,"preserve":[]}"#.to_string(),
    );
    assert!(matches!(
        machine.boot(&image(), &mut UpdatePending::default()),
        End::Handed(_)
    ));
    assert!(!machine.env.contains_key("factory-reset"));
    let status = machine.status();
    assert_eq!(status["factory_reset"]["status"], 0);
    assert_eq!(status["factory_reset"]["data_wiped"], true);
    assert!(machine
        .world
        .ran
        .contains(&"/sbin/mkfs.ext4 -F -q /dev/mmcblk0p8".to_string()));
    assert!(machine
        .world
        .ran
        .contains(&"/sbin/mkfs.ext4 -F -q /dev/mmcblk0p7".to_string()));
}

#[test]
fn factory_reset_backs_up_before_it_wipes() {
    let mut machine = Machine::new();
    machine.env.insert(
        "factory-reset".to_string(),
        r#"{"mode":1,"preserve":["network"]}"#.to_string(),
    );
    machine.world.file(
        "/rootfs/etc/omnect/factory-reset.json",
        r#"{"network":["/etc/hostname"]}"#,
    );
    machine.world.file("/rootfs/etc/hostname", "device");
    assert!(matches!(
        machine.boot(&image(), &mut UpdatePending::default()),
        End::Handed(_)
    ));
    assert_eq!(machine.status()["factory_reset"]["data_wiped"], true);
    let saved = machine.world.ran.iter().position(|r| r.starts_with("/bin/cp --parents"));
    let wiped = machine.world.ran.iter().position(|r| r.contains("mkfs") || r.contains("tune2fs"));
    assert!(saved.is_some());
    assert!(saved < wiped, "{saved:?} {wiped:?}");
}

#[test]
fn boot_asks_one_request_more_than_it_has_answers() {
    let mut machine = Machine::new();
    let mut pending = UpdatePending::default();
    let mut replies: Vec<Reply> = vec![];
    let mut earlier: Vec<String> = vec![];
    loop {
        let mut sys = Session::new(replies.clone());
        assert!(matches!(run_init(&image(), &mut pending, &mut sys), Err(Stop::Pending)));
        let asked: Vec<String> = sys.asked().iter().map(|r| format!("{r:?}")).collect();
        assert_eq!(asked.len(), replies.len() + 1);
        assert_eq!(asked[..earlier.len()], earlier[..]);
        let request = &sys.asked()[replies.len()];
        if let Request::Exec(_) = request {
            return;
        }
        replies.push(machine.answer(request));
        earlier = asked;
    }
}

#[test]
fn trigger_with_a_repeated_field_boots_normally() {
    let mut machine = Machine::new();
    machine.env.insert(
        "factory-reset".to_string(),
        r#"{"mode":1,"mode":1,"preserve":[]}"#.to_string(),
    );
    assert!(matches!(
        machine.boot(&image(), &mut UpdatePending::default()),
        End::Handed(_)
    ));
    assert!(machine.status().get("factory_reset").is_none());
    assert!(!machine.world.ran.iter().any(|r| r.contains("mkfs")));
}

#[test]
fn leaked_mount_is_warned_about_and_left_alone() {
    let mut machine = Machine::new();
    machine.world.file(
        "/proc/mounts",
        "proc /proc proc rw 0 0\n/dev/mmcblk0p8 /rootfs/mnt/data ext4 rw 0 0\n",
    );
    assert!(matches!(
        machine.boot(&image(), &mut UpdatePending::default()),
        End::Handed(_)
    ));
    assert_eq!(
        machine.world.warnings,
        vec!["data already mounted at /rootfs/mnt/data; skipping (unexpected — likely a leaked mount)"]
    );
    assert!(!machine.world.mounted.contains(&"/rootfs/mnt/data".to_string()));
}

#[test]
fn fsck_errors_that_are_passed_over_are_warned_about() {
    let mut machine = Machine::new();
    machine.world.exits.insert("fsck".to_string(), 4);
    assert!(matches!(
        machine.boot(&image(), &mut UpdatePending::default()),
        End::Handed(_)
    ));
    assert!(machine.world.warnings.contains(
        &"fsck on /dev/mmcblk0p8 had errors (uncorrected errors), continuing anyway".to_string()
    ));
}

#[test]
fn factory_reset_that_cannot_back_up_wipes_nothing() {
    let mut machine = Machine::new();
    machine.env.insert(
        "factory-reset".to_string(),
        r#"{"mode":1,"preserve":["network"]}"#.to_string(),
    );
    machine
        .world
        .file("/rootfs/etc/omnect/factory-reset.json", "not json");
    assert!(matches!(
        machine.boot(&image(), &mut UpdatePending::default()),
        End::Handed(_)
    ));
    let status = machine.status();
    assert_eq!(status["factory_reset"]["status"], 1);
    assert_eq!(status["factory_reset"]["data_wiped"], false);
    assert!(!machine.world.ran.iter().any(|r| r.contains("mkfs")));
}

#[test]
fn image_without_factory_reset_ignores_the_trigger() {
    let mut machine = Machine::new();
    machine.env.insert(
        "factory-reset".to_string(),
        r#"{"mode":1,"preserve":[]}"#.to_string(),
    );
    let image = ImageConfig {
        factory_reset: false,
        ..image()
    };
    assert!(matches!(
        machine.boot(&image, &mut UpdatePending::default()),
        End::Handed(_)
    ));
    assert!(machine.env.contains_key("factory-reset"));
    assert!(machine.status().get("factory_reset").is_none());
}

#[test]
fn fsck_that_asks_for_a_reboot_is_recorded_first() {
    let mut machine = Machine::new();
    machine.world.exits.insert("fsck".to_string(), 2);
    match machine.boot(&image(), &mut UpdatePending::default()) {
        End::Failed(InitramfsError::Filesystem(FilesystemError::FsckRequiresReboot { .. })) => {}
        other => panic!("{other:?}"),
    }
    assert_eq!(
        machine.env.get("omnect_fsck_boot").map(|s| s.as_str()),
        Some("2")
    );
}

#[test]
fn missing_boot_environment_degrades_a_release_image() {
    let mut machine = Machine::new();
    let grub = ImageConfig {
        bootloader: BootloaderKind::Grub,
        ..image()
    };
    assert!(matches!(
        machine.boot(&grub, &mut UpdatePending::default()),
        End::Handed(_)
    ));
    assert!(machine.status()["degraded_boot"]["reason"]
        .as_str()
        .unwrap()
        .contains("grubenv"));
    assert!(machine.world.warnings.contains(
        &"update validation skipped — bootloader unavailable; any in-flight A/B update will roll back on timer expiry"
            .to_string()
    ));
    let mut machine = Machine::new();
    let debug = ImageConfig {
        release: false,
        ..grub
    };
    assert!(matches!(
        machine.boot(&debug, &mut UpdatePending::default()),
        End::Failed(InitramfsError::DegradedBoot(_))
    ));
}

#[test]
fn unknown_device_ends_the_boot() {
    let mut machine = Machine::new();
    machine.world.file("/proc/cmdline", "quiet\n");
    assert!(matches!(
        machine.boot(&image(), &mut UpdatePending::default()),
        End::Failed(InitramfsError::Partition(_))
    ));
}

// ---- the environment of the running system ------------------------------

#[test]
fn captured_output_is_readable() {
    let out = CommandOutput::captured(
        Some(0),
        "exit status: 0".to_string(),
        &vec![b'o', b'k', 0xff],
        &b"warning".to_vec(),
    );
    assert!(out.success());
    assert_eq!(out.stdout, "ok\u{fffd}");
    assert_eq!(out.stderr, "warning");
}

#[test]
fn grub_environment_lists_sets_and_syncs() {
    let mut sys = Session::new(vec![
        Reply::Flag(true),
        output(0, "omnect_resized_data=1\n"),
        output(0, ""),
        Reply::Done,
    ]);
    let mut env = match open_boot_env(BootloaderKind::Grub, &mut sys) {
        Ok(env) => env,
        Err(_) => panic!("the file is there"),
    };
    assert_eq!(
        env.get_env(BootEnvKey::ResizedData, &mut sys).unwrap(),
        Some("1".to_string())
    );
    assert!(env
        .set_env(BootEnvKey::FirstBootDone, Some("1"), &mut sys)
        .is_ok());
    let asked: Vec<String> = sys.asked().iter().map(|r| format!("{r:?}")).collect();
    assert!(asked[2].contains("omnect_first_boot_done=1"));
    assert_eq!(asked[3], "Sync");
    // without an answer the call does not end
    assert!(matches!(
        env.get_env(BootEnvKey::ResizedData, &mut sys),
        Err(Stop::Pending)
    ));
}

fn piped(bytes: &str) -> Reply {
    Reply::Bytes {
        code: Some(0),
        stdout: bytes.as_bytes().to_vec(),
    }
}

#[test]
fn test_encode_decode_roundtrip() {
    let code = 1;
    let output = "Pass 1: Checking inodes, blocks, and sizes\nErrors corrected.";
    let mut sys = Session::new(vec![piped("compressed"), piped("Y29t\n")]);
    let encoded = encode_fsck_output(code, output, &mut sys).unwrap();
    assert!(!encoded.is_empty(), "encoding should succeed");
    assert_eq!(encoded, "Y29t");
    let raw = match &sys.asked()[0] {
        Request::Pipe { input, .. } => input.clone(),
        other => panic!("{other:?}"),
    };
    let mut sys = Session::new(vec![
        piped("compressed"),
        Reply::Bytes {
            code: Some(0),
            stdout: raw,
        },
    ]);
    let (dec_code, dec_output) = decode_fsck_output(&encoded, &mut sys).unwrap().unwrap();
    assert_eq!(dec_code, code);
    assert_eq!(dec_output, output);
}

#[test]
fn test_decode_invalid_returns_none() {
    let refused = || {
        Session::new(vec![Reply::Bytes {
            code: Some(1),
            stdout: vec![],
        }])
    };
    assert!(decode_fsck_output("not-valid-base64!!!", &mut refused())
        .unwrap()
        .is_none());
    assert!(decode_fsck_output("", &mut refused()).unwrap().is_none());
}

#[test]
fn records_keep_bytes_that_are_no_text_readable() {
    let mut sys = Session::new(vec![
        piped("x"),
        Reply::Bytes {
            code: Some(0),
            stdout: b"1\na\xffb".to_vec(),
        },
    ]);
    let (code, output) = decode_fsck_output("x", &mut sys).unwrap().unwrap();
    assert_eq!(code, 1);
    assert_eq!(output, "a\u{fffd}b");
    assert!(parse_record("no number\nx").is_none());
}

// ---- the flat scripts ---------------------------------------------------

#[test]
fn uboot_variables_are_read_from_bytes() {
    let mut sys = Session::new(vec![piped("resized-data=1\n")]);
    match get_uboot_env("resized-data", &mut sys) {
        Ok(v) => assert_eq!(v.as_deref(), Some("1\n")),
        Err(_) => panic!("the tool succeeded"),
    }
    let mut sys = Session::new(vec![piped("resized-data=\n")]);
    assert!(matches!(get_uboot_env("resized-data", &mut sys), Ok(None)));
    let mut sys = Session::new(vec![piped("nothing")]);
    match get_uboot_env("resized-data", &mut sys) {
        Err(Stop::Failed(e)) => assert_eq!(e.to_string(), "failed to parse value from resized-data"),
        _ => panic!("expected an error"),
    }
    let mut sys = Session::new(vec![Reply::Bytes {
        code: Some(0),
        stdout: vec![0xff],
    }]);
    match get_uboot_env("resized-data", &mut sys) {
        Err(Stop::Failed(StepError::InvalidUtf8(fault))) => {
            assert_eq!(fault, "invalid utf-8 sequence of 1 bytes from index 0")
        }
        _ => panic!("expected an error"),
    }
    let mut sys = Session::new(vec![output(1, "")]);
    match set_uboot_env("a", "b", &mut sys) {
        Err(Stop::Failed(e)) => assert_eq!(e.to_string(), "fw_setenv a=b failed"),
        _ => panic!("expected an error"),
    }
}

#[test]
fn every_filesystem_is_checked() {
    let mut world = World::new();
    world.exits.insert("e2fsck".to_string(), 4);
    assert!(world.drive(e2fsck::run).is_ok());
    assert_eq!(world.ran.len(), 5);
    assert_eq!(world.ran[4], "/sbin/e2fsck -y /dev/omnect/data");
}

#[test]
fn everything_is_mounted() {
    let mut world = World::new();
    world.dir("/rootfs/mnt/etc");
    world.file("/rootfs/mnt/factory/etc/hostname", "factory");
    world.exits.insert("cp".to_string(), 0);
    assert!(world.drive(|sys| mount::run(true, sys)).is_ok());
    assert_eq!(
        world.mounted,
        vec![
            "/rootfs",
            "/rootfs/mnt/cert",
            "/rootfs/mnt/factory",
            "/rootfs/mnt/etc",
            "/rootfs/etc",
            "/rootfs/mnt/data",
            "/rootfs/home",
            "/rootfs/var/lib",
            "/rootfs/usr/local",
            "/rootfs/var/log",
            "/rootfs/run",
            "/rootfs/var/volatile",
        ]
    );
    assert_eq!(
        world.ran,
        vec!["cp -a /rootfs/mnt/factory/etc/. /rootfs/mnt/etc/upper"]
    );
    let mut sys = Session::new(vec![failed(IoErrorKind::Other, "busy")]);
    match mount::run(false, &mut sys) {
        Err(Stop::Failed(e)) => assert_eq!(e.to_string(), "/dev/omnect/rootCurrent -> /rootfs"),
        _ => panic!("expected an error"),
    }
}

#[test]
fn filesystem_grows_once() {
    let mut sys = Session::new(vec![piped("resized-data=1\n")]);
    assert!(resizefs::run(PartitionTable::Gpt, &mut sys).is_ok());
    assert_eq!(sys.asked().len(), 1);
    let ok = || output(0, "");
    let mut sys = Session::new(vec![piped("resized-data=\n"), ok(), ok(), output(1, ""), ok(), ok()]);
    assert!(resizefs::run(PartitionTable::Gpt, &mut sys).is_ok());
    assert_eq!(sys.asked().len(), 6);
    let mut sys = Session::new(vec![piped("resized-data=\n"), ok(), output(2, "")]);
    match resizefs::run(PartitionTable::Dos, &mut sys) {
        Err(Stop::Failed(e)) => assert_eq!(e.to_string(), "growpart extended failed"),
        _ => panic!("expected an error"),
    }
}

#[test]
fn device_links_follow_the_root_partition() {
    let mut world = World::new();
    world.file("/dev/mmcblk0p2", "");
    world.file("/dev/mmcblk0", "");
    let params = CmdlineConfig::parse("root=/dev/mmcblk0p2");
    assert!(world
        .drive(|sys| rootblk::run(&params, PartitionTable::Dos, sys))
        .is_ok());
    assert_eq!(world.link("/dev/omnect/rootblk"), Some("/dev/mmcblk0".to_string()));
    assert_eq!(world.link("/dev/omnect/data"), Some("/dev/mmcblk0p8".to_string()));
    assert_eq!(world.link("/dev/omnect/extended"), Some("/dev/mmcblk0p4".to_string()));
    let mut sys = Session::new(vec![]);
    match rootblk::run(&CmdlineConfig::parse("quiet"), PartitionTable::Gpt, &mut sys) {
        Err(Stop::Failed(e)) => assert_eq!(e.to_string(), "no root partion found"),
        _ => panic!("expected an error"),
    }
}

#[test]
fn hand_over_that_comes_back_is_no_error() {
    let mut sys = Session::new(vec![
        Reply::Done,
        Reply::Done,
        Reply::Done,
        Reply::Done,
        failed(IoErrorKind::NotFound, "gone"),
    ]);
    assert!(finish::run(&CmdlineConfig::parse("init=/x"), &mut sys).is_ok());
    match &sys.asked()[4] {
        Request::ExecWith { program, args } => {
            assert_eq!(program, "/sbin/switch_root");
            assert_eq!(args.join(" "), "/rootfs /x");
        }
        other => panic!("{other:?}"),
    }
    assert!(matches!(&sys.asked()[0], Request::Mount { flags, .. } if flags.contains(MountFlag::Move)));
}

// ---- early and late steps -----------------------------------------------

#[test]
fn essential_filesystems_come_first() {
    let mut world = World::new();
    world.dir("/proc/sys/kernel");
    assert!(world.drive(mount_essential_filesystems).is_ok());
    assert_eq!(world.mounted, vec!["/dev", "/proc", "/sys", "/run"]);
    assert_eq!(world.text("/proc/sys/kernel/printk_devkmsg"), "on\n");
    let mut sys = Session::new(vec![failed(IoErrorKind::Other, "no")]);
    assert!(matches!(
        mount_essential_filesystems(&mut sys),
        Err(Stop::Failed(EarlyInitError::MountFailed { .. }))
    ));
}

#[test]
fn failed_hand_over_moves_the_mounts_back() {
    let mut world = World::new();
    world.program("/rootfs/sbin/init");
    let mut replies: Vec<Reply> = vec![];
    let asked = loop {
        let mut sys = Session::new(replies.clone());
        match switch_root("/rootfs", None, &mut sys) {
            Err(Stop::Pending) => {
                let request = &sys.asked()[replies.len()];
                let reply = match request {
                    Request::Mount { target, .. } if target == "/" => {
                        failed(IoErrorKind::Other, "refused")
                    }
                    other => world.answer(other),
                };
                replies.push(reply);
            }
            Err(Stop::Failed(_)) => {
                break sys
                    .asked()
                    .iter()
                    .filter_map(|r| match r {
                        Request::Mount { source, target, .. } => {
                            Some(format!("{}>{target}", source.clone().unwrap_or_default()))
                        }
                        _ => None,
                    })
                    .collect::<Vec<String>>()
            }
            Ok(()) => panic!("a hand-over does not come back"),
        }
    };
    let moves = asked.iter().position(|m| m.ends_with(">/")).unwrap();
    let forth = &asked[..moves];
    let back = &asked[moves + 1..];
    assert!(!forth.is_empty());
    assert_eq!(forth.len(), back.len());
    for (m, b) in forth.iter().zip(back.iter().rev()) {
        let (from, to) = m.split_once('>').unwrap();
        assert_eq!(*b, format!("{to}>{from}"));
    }
}

#[test]
fn mount_that_cannot_be_moved_back_is_warned_about() {
    let mut world = World::new();
    world.program("/rootfs/sbin/init");
    let mut replies: Vec<Reply> = vec![];
    let warnings = loop {
        let mut sys = Session::new(replies.clone());
        match switch_root("/rootfs", None, &mut sys) {
            Err(Stop::Pending) => {
                let request = &sys.asked()[replies.len()];
                let reply = match request {
                    Request::Mount { target, .. } if target == "/" || target == "/sys" => {
                        failed(IoErrorKind::Other, "refused")
                    }
                    other => world.answer(other),
                };
                replies.push(reply);
            }
            Err(Stop::Failed(_)) => break world.warnings,
            Ok(()) => panic!("a hand-over does not come back"),
        }
    };
    assert_eq!(warnings.len(), 1);
    assert!(warnings[0].starts_with("Failed to restore /sys to initramfs during rollback: "));
}

#[test]
fn reformat_labels_the_filesystem() {
    let mut world = World::new();
    assert!(world
        .drive(|sys| reformat_ext4("/dev/sda7", "data", sys))
        .is_ok());
    assert_eq!(
        world.ran,
        vec![
            "/sbin/mkfs.ext4 -F -q /dev/sda7",
            "/sbin/tune2fs /dev/sda7 -c -1 -i 0 -L data",
        ]
    );
}

#[test]
fn first_boot_needs_a_boot_environment() {
    let config = Config::default();
    let layout = PartitionLayout::new(
        RootDevice {
            base: "/dev/sda".to_string(),
            partition_sep: String::new(),
            root_partition: "/dev/sda2".to_string(),
        },
        PartitionTable::Gpt,
    )
    .unwrap();
    let env: BootEnvState<MockBootEnv> =
        BootEnvState::Degraded(omnect_os_init::error::BootEnvError::CommandFailed {
            command: "x".to_string(),
            reason: "y".to_string(),
        });
    let mut ctx = BootContext::new(&config, &layout, "/rootfs", env, OdsStatus::new(), true);
    let mut sys = Session::new(vec![]);
    match first_boot::run(&mut ctx, PartitionTable::Gpt, &mut sys) {
        Err(Stop::Failed(e)) => assert_eq!(
            e.to_string(),
            "Bootloader error: Command 'first_boot::run' failed: bootloader unavailable on first boot"
        ),
        _ => panic!("expected an error"),
    }
    assert!(sys.asked().is_empty());
}

// ---- building blocks ----------------------------------------------------

#[test]
fn kernel_log_lines_carry_their_level() {
    assert_eq!(log_line(Level::Error, "x"), "<3>omnect-os-initramfs: x\n");
    assert_eq!(log_line(Level::Warn, "x"), "<4>omnect-os-initramfs: x\n");
    assert_eq!(log_line(Level::Trace, "x"), "<7>omnect-os-initramfs: x\n");
    assert_eq!(fatal_line("x"), "<2>omnect-os-initramfs: FATAL: x\n");
    assert_eq!(direct_line("x"), "<6>omnect-os-initramfs: x\n");
}

#[test]
fn rate_limits_are_restored() {
    let mut sys = Session::new(vec![
        Reply::Text("5\n".to_string()),
        Reply::Text("10\n".to_string()),
        Reply::Done,
        Reply::Done,
        Reply::Done,
        Reply::Done,
    ]);
    let guard = disable_kmsg_ratelimit(&mut sys).unwrap();
    assert!(guard.restore(&mut sys).is_some());
    let written: Vec<String> = sys
        .asked()
        .iter()
        .filter_map(|r| match r {
            Request::WriteText { text, .. } => Some(text.clone()),
            _ => None,
        })
        .collect();
    assert_eq!(written, vec!["0", "0", "5", "10"]);
}

#[test]
fn json_is_read_member_by_member() {
    let json = parse(r#"{"a":[1,-2,true,null,"x"],"b":{"c":1.5}}"#).unwrap();
    match json.get("a") {
        Some(Json::List(items)) => {
            assert!(matches!(items[0], Json::Number(Some(1))));
            assert!(matches!(items[1], Json::Number(Some(-2))));
            assert!(matches!(items[2], Json::Bool(true)));
            assert!(matches!(items[3], Json::Null));
            assert!(matches!(&items[4], Json::Text(s) if s == "x"));
        }
        _ => panic!("expected a list"),
    }
    assert!(matches!(
        json.get("b").and_then(|b| b.get("c")),
        Some(Json::Number(None))
    ));
    assert!(json.get("d").is_none());
    assert!(parse("{").is_err());
}

#[test]
fn paths_are_joined_and_compared_by_component() {
    assert_eq!(path::join("/a", "b/c"), "/a/b/c");
    assert_eq!(path::join("/a", "/b"), "/b");
    assert!(path::same_path("/a//b/", "/a/b"));
    assert!(path::is_under("/a/b/c", "/a/b"));
    assert!(!path::is_under("/a/bc", "/a/b"));
    assert_eq!(path::file_name("/a/b.json").as_deref(), Some("b.json"));
    assert_eq!(path::parent("/a/b").as_deref(), Some("/a"));
    assert!(path::has_parent_dir("a/../b"));
    assert_eq!(path::strip_root("/a"), "a");
}

#[test]
fn names_are_sorted() {
    let names = vec!["b".to_string(), "a".to_string(), "aa".to_string()];
    assert_eq!(sort_names(&names), vec!["a", "aa", "b"]);
}

#[test]
fn partitions_are_listed_in_order() {
    let layout = PartitionLayout::new(
        RootDevice {
            base: "/dev/sda".to_string(),
            partition_sep: String::new(),
            root_partition: "/dev/sda3".to_string(),
        },
        PartitionTable::Dos,
    )
    .unwrap();
    let names: Vec<PartitionName> = (0..layout.partitions.len())
        .map(|i| *layout.partitions.key_at(i))
        .collect();
    assert_eq!(names[0], PartitionName::Boot);
    assert_eq!(names[4], PartitionName::Extended);
    assert_eq!(names[8], PartitionName::Data);
    assert_eq!(layout.partitions.value_at(3), "/dev/sda3");
}
