//! The boot procedures on a file system in memory.

use std::collections::BTreeMap;

use omnect_os_init::bootloader::{
    BootEnvKey, EnvDone, EnvRead, EnvRecord, EnvResult, FsckRecord,
};
use omnect_os_init::error::{
    BootEnvError, FactoryResetError, FilesystemError, InitramfsError, IoError, IoErrorKind,
    PartitionError, ResizeDataError,
};
use omnect_os_init::filesystem::boot_sequence::{
    mount_tracked_partition, write_fsck_log, PartitionMountSpec,
};
use omnect_os_init::filesystem::mount::{mounts_contain, unmount_tracked};
use omnect_os_init::filesystem::mount_points;
use omnect_os_init::filesystem::overlayfs::{
    copy_directory_contents, ensure_dir, ensure_overlay_dirs, is_directory_empty,
};
use omnect_os_init::filesystem::resize_data::{
    parse_extended_partition_nr, partition_number, resize_if_needed, write_resize_guard,
};
use omnect_os_init::filesystem::{
    check_filesystem, check_filesystem_lenient, drain_fsck_env, is_path_mounted, mount_tmpfs,
    persist_fsck_results, setup_data_overlay, setup_etc_overlay, FsType, FsckExitCode, FsckResult,
    MountOptions, MountPoint,
};
use omnect_os_init::init_setup::extra_bootargs::{
    self, read_extra_bootargs, should_sync, BOOTARGS_CUSTOM_FILE, BOOTARGS_OMNECT_FILE,
};
use omnect_os_init::init_setup::resize_data::{self as resize_step, handle_result, outcome_for};
use omnect_os_init::init_setup::InitSetupCtx;
use omnect_os_init::map::OrderedMap;
use omnect_os_init::mode::factory_reset::backup_restore::{
    backup_all, backup_path, restore_all, restore_path, RestoreResult,
};
use omnect_os_init::mode::factory_reset::config::{
    build_preserve_list, validate_preserve_path, FactoryResetConfig, ResetMode,
    PRESERVE_LIST_MANDATORY,
};
use omnect_os_init::mode::resize_data as guarded_resize;
use omnect_os_init::partition::symlinks::{create_symlink, verify_symlink};
use omnect_os_init::partition::{
    create_omnect_symlinks, remove_omnect_symlinks, verify_symlinks, PartitionLayout,
    PartitionName, PartitionTable, RootDevice,
};
use omnect_os_init::preflight::{resize_data as preflight_step, PreflightCtx};
use omnect_os_init::runtime::fs_link::{
    create_link, load_config_file, load_fs_link_config, validate_relative_path,
};
use omnect_os_init::runtime::switch_root::find_init;
use omnect_os_init::runtime::{
    create_fs_links, ExtraBootArgsOutcome, FsLinkConfig, FsckStatus, LinkEntry, ResizeOutcome,
};
use omnect_os_init::system::{
    CommandOutput, MountFlag, MountFlags, Reply, Request, Session, Stop, Transcript,
};
use omnect_os_init::{BootEnv, BootEnvState, MockBootEnv, OdsStatus};

/// A session that nothing is asked of.
fn idle() -> Session {
    Session::new(Vec::new())
}

/// What is at a path.
#[derive(Debug, Clone, PartialEq)]
enum Node {
    File(String),
    Dir,
    Link(String),
}

/// A file system in memory that answers requests.
struct World {
    nodes: BTreeMap<String, Node>,
    executable: Vec<String>,
    modes: BTreeMap<String, u32>,
    owners: BTreeMap<String, (u32, u32)>,
    /// Exit codes of programs by the end of their name; any other program succeeds.
    exits: BTreeMap<String, i32>,
    ran: Vec<String>,
    mounted: Vec<String>,
    unmounted: Vec<String>,
}

fn failed(kind: IoErrorKind, message: &str) -> Reply {
    Reply::Failed(IoError {
        kind,
        message: message.to_string(),
    })
}

fn not_found() -> Reply {
    failed(IoErrorKind::NotFound, "No such file or directory (os error 2)")
}

impl World {
    fn new() -> World {
        World {
            nodes: BTreeMap::new(),
            executable: vec![],
            modes: BTreeMap::new(),
            owners: BTreeMap::new(),
            exits: BTreeMap::new(),
            ran: vec![],
            mounted: vec![],
            unmounted: vec![],
        }
    }

    fn dir(&mut self, path: &str) {
        let mut at = String::new();
        for part in path.split('/').filter(|p| !p.is_empty()) {
            at = format!("{at}/{part}");
            self.nodes.entry(at.clone()).or_insert(Node::Dir);
        }
    }

    fn file(&mut self, path: &str, text: &str) {
        let parent = &path[..path.rfind('/').unwrap()];
        self.dir(parent);
        self.nodes
            .insert(path.to_string(), Node::File(text.to_string()));
    }

    fn program(&mut self, path: &str) {
        self.file(path, "#!/bin/sh");
        self.executable.push(path.to_string());
    }

    fn plain(path: &str) -> String {
        let parts: Vec<&str> = path
            .split('/')
            .filter(|p| !p.is_empty() && *p != ".")
            .collect();
        format!("/{}", parts.join("/"))
    }

    fn node(&self, path: &str) -> Option<&Node> {
        self.nodes.get(&World::plain(path))
    }

    fn followed(&self, path: &str) -> Option<&Node> {
        match self.node(path) {
            Some(Node::Link(target)) => self.node(target),
            other => other,
        }
    }

    fn there(&self, path: &str) -> bool {
        World::plain(path) == "/" || self.followed(path).is_some()
    }

    fn text(&self, path: &str) -> String {
        match self.node(path) {
            Some(Node::File(text)) => text.clone(),
            other => panic!("{path} is {other:?}"),
        }
    }

    fn link(&self, path: &str) -> Option<String> {
        match self.node(path) {
            Some(Node::Link(target)) => Some(target.clone()),
            _ => None,
        }
    }

    fn names(&self, path: &str) -> Vec<String> {
        let prefix = format!("{}/", World::plain(path));
        self.nodes
            .keys()
            .filter_map(|k| k.strip_prefix(&prefix))
            .filter(|rest| !rest.contains('/'))
            .map(|s| s.to_string())
            .collect()
    }

    /// Copies the node at `from`, and everything below it, to `to`.
    fn copy(&mut self, from: &str, to: &str) {
        let from = World::plain(from);
        let to = World::plain(to);
        let below: Vec<(String, Node)> = self
            .nodes
            .iter()
            .filter(|(k, _)| **k == from || k.starts_with(&format!("{from}/")))
            .map(|(k, v)| (k.clone(), v.clone()))
            .collect();
        self.dir(&to[..to.rfind('/').unwrap()]);
        for (path, node) in below {
            self.nodes.insert(format!("{to}{}", &path[from.len()..]), node);
        }
    }

    fn cp(&mut self, args: &[String]) -> bool {
        if args[0] == "--parents" {
            let to = format!("{}/{}", args[3], World::plain(&args[2]));
            self.copy(&args[2].clone(), &to);
            return true;
        }
        if let Some(dir) = args[1].strip_suffix("/.") {
            for name in self.names(dir) {
                self.copy(&format!("{dir}/{name}"), &format!("{}/{name}", args[2]));
            }
            return true;
        }
        let name = args[1].trim_end_matches('/').rsplit('/').next().unwrap().to_string();
        if self.node(&args[2]) != Some(&Node::Dir) {
            return false;
        }
        self.copy(&args[1].clone(), &format!("{}/{name}", args[2]));
        true
    }

    fn run(&mut self, program: &str, args: &[String]) -> Reply {
        self.ran.push(format!("{program} {}", args.join(" ")));
        let known = self
            .exits
            .iter()
            .find(|(name, _)| program.ends_with(name.as_str()))
            .map(|(_, code)| *code);
        let code = match known {
            Some(code) => code,
            None if program.ends_with("/cp") => {
                if self.cp(args) {
                    0
                } else {
                    1
                }
            }
            None => 0,
        };
        Reply::Output(CommandOutput {
            code: Some(code),
            status: format!("exit status: {code}"),
            stdout: String::new(),
            stderr: String::new(),
        })
    }

    fn answer(&mut self, request: &Request) -> Reply {
        match request {
            Request::Exists(p) => Reply::Flag(self.there(p)),
            Request::TryExists(p) => Reply::Flag(self.there(p)),
            Request::IsDir(p) => Reply::Flag(self.followed(p) == Some(&Node::Dir)),
            Request::IsFile(p) => Reply::Flag(matches!(self.followed(p), Some(Node::File(_)))),
            Request::IsSymlink(p) => Reply::Flag(self.link(p).is_some()),
            Request::IsExecutable(p) => Reply::Flag(self.executable.contains(&World::plain(p))),
            Request::ReadText(p) => match self.followed(p) {
                Some(Node::File(text)) => Reply::Text(text.clone()),
                Some(_) => failed(IoErrorKind::Other, "Is a directory (os error 21)"),
                None => not_found(),
            },
            Request::ReadLink(p) => match self.link(p) {
                Some(target) => Reply::Text(target),
                None => not_found(),
            },
            Request::ListDir(p) => {
                if self.followed(p) == Some(&Node::Dir) {
                    Reply::Names {
                        names: self.names(p),
                        failed: None,
                    }
                } else {
                    not_found()
                }
            }
            Request::CreateDir(p) => {
                let path = World::plain(p);
                let blocked = self
                    .nodes
                    .iter()
                    .any(|(k, v)| {
                        matches!(v, Node::File(_)) && (*k == path || path.starts_with(&format!("{k}/")))
                    });
                if blocked {
                    return failed(IoErrorKind::Other, "Not a directory (os error 20)");
                }
                self.dir(&path);
                Reply::Done
            }
            Request::WriteText { path, text } | Request::WriteDurable { path, text, .. } => {
                let path = World::plain(path);
                if self.there(&path[..path.rfind('/').unwrap()]) {
                    self.nodes.insert(path, Node::File(text.clone()));
                    Reply::Done
                } else {
                    not_found()
                }
            }
            Request::RemoveFile(p) => match self.nodes.remove(&World::plain(p)) {
                Some(_) => Reply::Done,
                None => not_found(),
            },
            Request::Symlink { target, link } => {
                if self.node(link).is_some() {
                    return failed(IoErrorKind::Other, "File exists (os error 17)");
                }
                self.nodes
                    .insert(World::plain(link), Node::Link(target.clone()));
                Reply::Done
            }
            Request::SetOwner { path, uid, gid } => {
                self.owners.insert(path.clone(), (*uid, *gid));
                Reply::Done
            }
            Request::SetMode { path, mode } => {
                self.modes.insert(path.clone(), *mode);
                Reply::Done
            }
            Request::Run { program, args } => self.run(program, args),
            Request::Mount { target, .. } => {
                self.mounted.push(target.clone());
                Reply::Done
            }
            Request::Unmount(target) => {
                self.unmounted.push(target.clone());
                Reply::Done
            }
            Request::Clock => Reply::Millis(0),
            Request::Sync | Request::Sleep(_) | Request::Warn(_) => Reply::Done,
            Request::ChangeDir(_) | Request::ChangeRoot(_) => {
                Reply::Done
            }
            other => panic!("no answer to {other:?}"),
        }
    }

    /// Runs a procedure again and again, with one more answer each time, until it ends.
    fn drive<T, E>(
        &mut self,
        mut procedure: impl FnMut(&mut Session) -> Result<T, Stop<E>>,
    ) -> Result<T, E> {
        let mut replies: Vec<Reply> = vec![];
        loop {
            let mut sys = Session::new(replies.clone());
            match procedure(&mut sys) {
                Ok(x) => return Ok(x),
                Err(Stop::Failed(e)) => return Err(e),
                Err(Stop::Pending) => {
                    let reply = self.answer(&sys.asked()[replies.len()]);
                    replies.push(reply);
                }
            }
        }
    }
}

fn code(c: i32) -> FsckExitCode {
    FsckExitCode(c)
}

#[test]
fn test_fsck_exit_code_clean() {
    let code = FsckExitCode::from(Some(0i32));
    assert!(code.is_clean());
    assert!(!code.is_reboot_required());
    assert!(code.is_mount_safe());
    assert_eq!(code.to_string(), "No errors");
}

#[test]
fn test_fsck_exit_code_corrected() {
    let code = FsckExitCode::from(Some(1i32));
    assert!(code.has_corrected_bit());
    assert!(!code.is_reboot_required());
    assert!(code.is_mount_safe());
    assert_eq!(code.to_string(), "errors corrected");
}

#[test]
fn test_fsck_exit_code_reboot_required() {
    let code = FsckExitCode::from(Some(2i32));
    assert!(code.is_reboot_required());
    assert!(!code.is_mount_safe());
    assert_eq!(code.to_string(), "reboot required");
}

#[test]
fn test_fsck_exit_code_combined() {
    let code = FsckExitCode::from(Some(3i32));
    assert!(code.has_corrected_bit());
    assert!(code.is_reboot_required());
    assert!(!code.is_mount_safe());
    assert_eq!(code.to_string(), "errors corrected, reboot required");
}

#[test]
fn test_fsck_exit_code_unknown_sentinel() {
    let code = FsckExitCode::from(None::<i32>);
    // None (signal-killed) normalizes to OPERATIONAL_ERROR, not UNKNOWN.
    assert_eq!(code.bits(), FsckExitCode::OPERATIONAL_ERROR);
    assert!(!code.is_mount_safe());
}

#[test]
fn test_fsck_exit_code_unknown_const_predicates() {
    let unknown = code(FsckExitCode::UNKNOWN);
    assert!(unknown.has_corrected_bit());
    assert!(unknown.is_reboot_required());
    assert!(unknown.has_uncorrected_errors());
    assert!(unknown.has_operational_error());
    // is_mount_safe uses strict equality — UNKNOWN is never OK or CORRECTED.
    assert!(!unknown.is_mount_safe());
}

#[test]
fn test_fsck_exit_code_5_corrected_with_uncorrected_errors() {
    let code = FsckExitCode::from(5i32);
    assert!(code.has_corrected_bit());
    assert!(code.has_uncorrected_errors());
    assert!(!code.is_mount_safe());
}

#[test]
fn test_fsck_exit_code_9_corrected_with_operational_error() {
    let code = FsckExitCode::from(9i32);
    assert!(code.has_corrected_bit());
    assert!(code.has_operational_error());
    assert!(!code.is_mount_safe());
}

#[test]
fn test_fsck_exit_code_display_unknown() {
    assert_eq!(
        code(FsckExitCode::UNKNOWN).to_string(),
        "unknown (fsck could not be spawned)"
    );
}

#[test]
fn test_fsck_exit_code_display_ok() {
    assert_eq!(code(FsckExitCode::OK).to_string(), "No errors");
}

#[test]
fn test_fsck_exit_code_display_corrected() {
    assert_eq!(code(FsckExitCode::CORRECTED).to_string(), "errors corrected");
}

#[test]
fn test_fsck_exit_code_display_reboot() {
    assert_eq!(
        code(FsckExitCode::REBOOT_REQUIRED).to_string(),
        "reboot required"
    );
}

#[test]
fn test_fsck_exit_code_display_combined() {
    assert_eq!(
        FsckExitCode::from(3i32).to_string(),
        "errors corrected, reboot required"
    );
}

#[test]
fn test_fsck_exit_code_display_errors() {
    assert_eq!(
        code(FsckExitCode::ERRORS_UNCORRECTED).to_string(),
        "uncorrected errors"
    );
}

#[test]
fn fsck_exit_code_names_every_bit() {
    assert_eq!(
        code(16 + 32 + 128).to_string(),
        "usage error, cancelled, library error"
    );
    assert!(code(FsckExitCode::USAGE_ERROR).is_usage_error());
    assert!(code(FsckExitCode::CANCELLED).is_cancelled());
    assert!(code(FsckExitCode::LIBRARY_ERROR).is_library_error());
    assert_eq!(code(64).to_string(), "unknown error (code 64)");
}

fn fsck_result(c: i32) -> FsckResult {
    FsckResult {
        device: "/dev/sda1".to_string(),
        exit_code: code(c),
        output: String::new(),
    }
}

#[test]
fn test_fsck_result_has_uncorrected_errors() {
    assert!(fsck_result(FsckExitCode::ERRORS_UNCORRECTED).has_uncorrected_errors());
    assert!(!fsck_result(FsckExitCode::OK).has_uncorrected_errors());
}

#[test]
fn test_fsck_result_has_operational_error() {
    assert!(fsck_result(FsckExitCode::OPERATIONAL_ERROR).has_operational_error());
}

fn fsck_says(code: Option<i32>) -> Session {
    Session::new(vec![
        // there is no rate limit to lift
        not_found(),
        Reply::Output(CommandOutput {
            code,
            status: String::new(),
            stdout: "out".to_string(),
            stderr: "err".to_string(),
        }),
        // the warning, where there is one
        Reply::Done,
    ])
}

#[test]
fn fsck_is_judged_by_its_exit_code() {
    let mut sys = fsck_says(Some(1));
    match check_filesystem("/dev/sda7", FsType::Ext4, &mut sys) {
        Ok(r) => {
            assert_eq!(r.exit_code.bits(), 1);
            assert_eq!(r.device, "/dev/sda7");
            assert_eq!(r.output, "outerr");
        }
        Err(_) => panic!("corrected errors are no failure"),
    }
    match &sys.asked()[1] {
        Request::Run { program, args } => {
            assert_eq!(program, "/sbin/fsck");
            assert_eq!(args.join(" "), "-y -t ext4 /dev/sda7");
        }
        other => panic!("{other:?}"),
    }
    assert!(matches!(
        check_filesystem("/dev/sda7", FsType::Ext4, &mut fsck_says(Some(2))),
        Err(Stop::Failed(FilesystemError::FsckRequiresReboot { .. }))
    ));
    assert!(matches!(
        check_filesystem("/dev/sda7", FsType::Ext4, &mut fsck_says(Some(4))),
        Err(Stop::Failed(FilesystemError::FsckFailed { .. }))
    ));
    assert!(check_filesystem_lenient("/dev/sda7", FsType::Ext4, &mut fsck_says(Some(4))).is_ok());
    assert!(matches!(
        check_filesystem_lenient("/dev/sda7", FsType::Ext4, &mut fsck_says(Some(2))),
        Err(Stop::Failed(FilesystemError::FsckRequiresReboot { .. }))
    ));
}

#[test]
fn test_fstype_as_str() {
    assert_eq!(FsType::Ext4.as_str(), "ext4");
    assert_eq!(FsType::Vfat.as_str(), "vfat");
    assert_eq!(FsType::Tmpfs.as_str(), "tmpfs");
    assert_eq!(FsType::Overlay.as_str(), "overlay");
}

#[test]
fn test_fstype_display() {
    assert_eq!(FsType::Ext4.to_string(), "ext4");
    assert_eq!(FsType::Vfat.to_string(), "vfat");
    assert_eq!(FsType::Tmpfs.to_string(), "tmpfs");
    assert_eq!(FsType::Overlay.to_string(), "overlay");
}

#[test]
fn test_mount_options_default() {
    let opts = MountOptions::default();
    assert!(opts.fstype.is_none());
    assert!(opts.flags.is_empty());
    assert!(opts.data.is_none());
}

#[test]
fn test_mount_options_ext4_readonly() {
    let opts = MountOptions::ext4_readonly();
    assert_eq!(opts.fstype, Some(FsType::Ext4));
    assert!(opts.flags.contains(MountFlag::RdOnly));
}

#[test]
fn test_mount_options_builder() {
    let opts = MountOptions::ext4_readwrite()
        .noatime()
        .nosuid()
        .with_data("discard");

    assert_eq!(opts.fstype, Some(FsType::Ext4));
    assert!(opts.flags.contains(MountFlag::NoAtime));
    assert!(opts.flags.contains(MountFlag::NoSuid));
    assert!(!opts.flags.contains(MountFlag::RdOnly));
    assert_eq!(opts.data, Some("discard".to_string()));
}

#[test]
fn mount_options_add_one_flag_each() {
    let opts = MountOptions::ext4_readwrite().readonly().nodev().noexec();
    assert!(opts.flags.contains(MountFlag::RdOnly));
    assert!(opts.flags.contains(MountFlag::NoDev));
    assert!(opts.flags.contains(MountFlag::NoExec));
    assert!(!opts.flags.contains(MountFlag::NoSuid));
    assert!(!opts.flags.contains(MountFlag::NoAtime));
}

#[test]
fn test_mount_point_new() {
    let mp = MountPoint::new("/dev/sda1", "/mnt/boot", MountOptions::vfat());
    assert_eq!(mp.source, "/dev/sda1");
    assert_eq!(mp.target, "/mnt/boot");
    assert_eq!(mp.options.fstype, Some(FsType::Vfat));
}

#[test]
fn tmpfs_is_mounted_with_its_options() {
    let mut sys = Session::new(vec![Reply::Done]);
    let flags = MountFlags::empty().with(MountFlag::NoDev);
    assert!(mount_tmpfs("/run", flags, Some("mode=0755"), &mut sys).is_ok());
    match &sys.asked()[0] {
        Request::Mount {
            target,
            fstype,
            flags,
            data,
            ..
        } => {
            assert_eq!(target, "/run");
            assert_eq!(fstype.as_deref(), Some("tmpfs"));
            assert!(flags.contains(MountFlag::NoDev));
            assert_eq!(data.as_deref(), Some("mode=0755"));
        }
        other => panic!("{other:?}"),
    }
}

#[test]
fn mount_points_are_found_in_the_mount_table() {
    let table = "proc /proc proc rw 0 0\n/dev/sda7 /rootfs/mnt/data ext4 rw 0 0\n";
    assert!(mounts_contain(table, "/rootfs/mnt/data"));
    assert!(!mounts_contain(table, "/rootfs/mnt"));
    let mut sys = Session::new(vec![Reply::Text(table.to_string())]);
    assert!(matches!(is_path_mounted("/proc", &mut sys), Ok(true)));
}

#[test]
fn tracked_mounts_are_undone_in_reverse() {
    let mut world = World::new();
    let left = world.drive(|sys| {
        let mut mounts = vec!["/a".to_string(), "/a/b".to_string()];
        match unmount_tracked(&mut mounts, sys) {
            Ok(()) => Ok(mounts),
            Err(e) => Err(e),
        }
    });
    assert!(left.unwrap().is_empty());
    assert_eq!(world.unmounted, vec!["/a/b", "/a"]);
}

fn empty_layout() -> PartitionLayout {
    PartitionLayout {
        partitions: OrderedMap::new(),
        device: RootDevice {
            base: "/dev/sda".to_string(),
            partition_sep: String::new(),
            root_partition: "/dev/sda2".to_string(),
        },
    }
}

fn sda_layout() -> PartitionLayout {
    PartitionLayout::new(empty_layout().device, PartitionTable::Gpt).unwrap()
}

#[test]
fn resize_data_test_partition_number_sata() {
    assert_eq!(partition_number("/dev/sda8"), Some(8));
}

#[test]
fn resize_data_test_partition_number_nvme() {
    assert_eq!(partition_number("/dev/nvme0n1p7"), Some(7));
}

#[test]
fn resize_data_test_partition_number_mmc() {
    assert_eq!(partition_number("/dev/mmcblk0p8"), Some(8));
}

#[test]
fn resize_data_test_partition_number_multi_digit() {
    assert_eq!(partition_number("/dev/sda10"), Some(10));
}

#[test]
fn resize_data_test_partition_number_no_digits() {
    assert_eq!(partition_number("/dev/sda"), None);
}

#[test]
fn resize_data_test_find_extended_partition_parses_output() {
    let output = "\
Model: ATA VBOX HARDDISK (scsi)
Disk /dev/sda: 8590MB
Sector size (logical/physical): 512B/512B
Partition Table: msdos
Disk Flags:

Number  Start   End     Size    Type      File system  Flags
 1      1049kB  500MB   499MB   primary   fat32        boot, esp
 2      500MB   1500MB  1000MB  primary   ext4
 3      1500MB  8589MB  7089MB  extended
 8      1501MB  8589MB  7088MB  logical   ext4";

    assert_eq!(parse_extended_partition_nr(output), Some(3));
    assert_eq!(parse_extended_partition_nr(" 4 1MB 2MB 1MB ExTeNdEd"), Some(4));
}

#[test]
fn resize_data_test_find_extended_partition_not_found() {
    let output = "\
Number  Start   End     Size   File system  Name  Flags
 1      1049kB  500MB   499MB  fat32              boot, esp
 7      500MB   8589MB  8089MB ext4";

    assert_eq!(parse_extended_partition_nr(output), None);
}

#[test]
fn extended_partition_is_told_by_its_type() {
    let output = "\
Number  Start   End     Size    Type      File system  Flags
 1      1049kB  500MB   499MB   primary   extended     boot
 2      500MB   8589MB  8089MB  Extended               lba";
    assert_eq!(parse_extended_partition_nr(output), Some(2));
}

#[test]
fn e2fsck_is_tolerated_only_where_it_cleaned_up() {
    let ended = |code: Option<i32>| {
        let mut sys = Session::new(vec![Reply::Output(CommandOutput {
            code,
            status: String::new(),
            stdout: "out".to_string(),
            stderr: "err".to_string(),
        })]);
        guarded_resize::run_e2fsck("/dev/sda7", &mut sys)
    };
    assert!(ended(Some(0)).is_ok());
    assert!(ended(Some(1)).is_ok());
    for code in [Some(2), Some(8), Some(-1), None] {
        match ended(code) {
            Err(Stop::Failed(ResizeDataError::CommandFailed { command, code: c, output })) => {
                assert_eq!(command, "/sbin/e2fsck -y /dev/sda7");
                assert_eq!(c, code.unwrap_or(-1));
                assert_eq!(output, "outerr");
            }
            _ => panic!("{code:?} is a failure"),
        }
    }
}

#[test]
fn failed_command_is_named_with_its_arguments() {
    let mut sys = Session::new(vec![Reply::Output(CommandOutput {
        code: Some(3),
        status: String::new(),
        stdout: String::new(),
        stderr: String::new(),
    })]);
    match guarded_resize::run_cmd("/bin/sync", vec![], &mut sys) {
        Err(Stop::Failed(ResizeDataError::CommandFailed { command, code, .. })) => {
            assert_eq!(command, "/bin/sync ");
            assert_eq!(code, 3);
        }
        _ => panic!("expected CommandFailed"),
    }
}

#[test]
fn test_partition_number_sata() {
    assert_eq!(guarded_resize::partition_number("/dev/sda8"), Some(8));
}

#[test]
fn test_partition_number_nvme() {
    assert_eq!(guarded_resize::partition_number("/dev/nvme0n1p7"), Some(7));
}

#[test]
fn test_partition_number_mmc() {
    assert_eq!(guarded_resize::partition_number("/dev/mmcblk0p8"), Some(8));
}

#[test]
fn test_partition_number_multi_digit() {
    assert_eq!(guarded_resize::partition_number("/dev/sda10"), Some(10));
}

#[test]
fn test_partition_number_no_digits() {
    assert_eq!(guarded_resize::partition_number("/dev/sda"), None);
}

/// What the extended partition of a disk is, given what parted prints.
fn extended_partition(output: &str) -> Result<u32, ResizeDataError> {
    let mut sys = Session::new(vec![Reply::Output(CommandOutput {
        code: Some(0),
        status: String::new(),
        stdout: output.to_string(),
        stderr: String::new(),
    })]);
    match guarded_resize::find_extended_partition("/dev/sda", &mut sys) {
        Ok(n) => Ok(n),
        Err(Stop::Failed(e)) => Err(e),
        Err(Stop::Pending) => panic!("parted has answered"),
    }
}

#[test]
fn test_find_extended_partition_parses_output() {
    let output = "\
Model: ATA VBOX HARDDISK (scsi)
Disk /dev/sda: 8590MB
Sector size (logical/physical): 512B/512B
Partition Table: msdos
Disk Flags:

Number  Start   End     Size    Type      File system  Flags
 1      1049kB  500MB   499MB   primary   fat32        boot, esp
 2      500MB   1500MB  1000MB  primary   ext4
 3      1500MB  8589MB  7089MB  extended
 8      1501MB  8589MB  7088MB  logical   ext4";

    assert!(matches!(extended_partition(output), Ok(3)));
}

#[test]
fn test_find_extended_partition_not_found() {
    let output = "\
Number  Start   End     Size   File system  Name  Flags
 1      1049kB  500MB   499MB  fat32              boot, esp
 7      500MB   8589MB  8089MB ext4";

    assert!(matches!(
        extended_partition(output),
        Err(ResizeDataError::ExtendedPartitionNotFound(_))
    ));
}

#[test]
fn test_resize_skips_when_data_partition_absent() {
    let layout = empty_layout();
    let mut bl = MockBootEnv::new();
    let mut sys = Session::new(vec![]);
    assert!(resize_if_needed(&layout, PartitionTable::Gpt, Some(&mut bl), &mut sys).is_ok());
    assert!(bl.get_env(BootEnvKey::ResizedData, &mut idle()).unwrap().is_none());
    assert!(sys.asked().is_empty());
}

#[test]
fn resize_with_none_bootloader_skips_guard_set() {
    let layout = empty_layout();
    let mut sys = Session::new(vec![]);
    assert!(
        resize_if_needed(&layout, PartitionTable::Dos, None::<&mut MockBootEnv>, &mut sys).is_ok()
    );
}

#[test]
fn write_guard_none_bootloader_is_noop() {
    assert!(write_resize_guard(None::<&mut MockBootEnv>, &mut idle()).is_some());
}

#[test]
fn write_guard_some_bootloader_sets_env() {
    let mut bl = MockBootEnv::new();
    write_resize_guard(Some(&mut bl), &mut idle()).unwrap();
    assert_eq!(
        bl.get_env(BootEnvKey::ResizedData, &mut idle()).unwrap(),
        Some("1".to_string())
    );
}

#[test]
fn failed_guard_is_warned_about() {
    let mut bl = MockBootEnv::new().with_set_env_error();
    let mut sys = Session::new(vec![Reply::Done]);
    assert!(write_resize_guard(Some(&mut bl), &mut sys).is_some());
    match &sys.asked()[0] {
        Request::Warn(message) => assert_eq!(
            message,
            "data partition resize completed but guard write failed: Command 'mock' failed: injected set_env error; \
             resize will run again on next boot (idempotent)"
        ),
        other => panic!("{other:?}"),
    }
}

#[test]
fn resize_runs_its_tools_in_order() {
    let mut world = World::new();
    let layout = sda_layout();
    let guard = world
        .drive(|sys| {
            let mut bl = MockBootEnv::new();
            match resize_if_needed(&layout, PartitionTable::Gpt, Some(&mut bl), sys) {
                Ok(()) => Ok(bl.get_env(BootEnvKey::ResizedData, &mut idle()).unwrap()),
                Err(e) => Err(e),
            }
        })
        .unwrap();
    assert_eq!(guard, Some("1".to_string()));
    assert_eq!(
        world.ran,
        vec![
            "/sbin/sgdisk /dev/sda -e",
            "/sbin/parted /dev/sda resizepart 7 100%",
            "/sbin/fsck -y -t ext4 /dev/sda7",
            "/sbin/resize2fs -f /dev/sda7",
            "/bin/sync ",
        ]
    );
}

#[test]
fn resize_of_a_dos_disk_needs_its_extended_partition() {
    let mut world = World::new();
    let layout = PartitionLayout::new(empty_layout().device, PartitionTable::Dos).unwrap();
    let e = world
        .drive(|sys| resize_if_needed(&layout, PartitionTable::Dos, None::<&mut MockBootEnv>, sys))
        .unwrap_err();
    assert!(matches!(
        e,
        InitramfsError::ResizeData(ResizeDataError::ExtendedPartitionNotFound(_))
    ));
    let mut world = World::new();
    world.exits.insert("sgdisk".to_string(), 3);
    let layout = sda_layout();
    match world.drive(|sys| resize_if_needed(&layout, PartitionTable::Gpt, None::<&mut MockBootEnv>, sys)) {
        Err(InitramfsError::ResizeData(ResizeDataError::CommandFailed { command, code, .. })) => {
            assert_eq!(command, "/sbin/sgdisk /dev/sda -e");
            assert_eq!(code, 3);
        }
        _ => panic!("expected CommandFailed"),
    }
}

#[test]
fn guarded_resize_runs_once() {
    let mut world = World::new();
    let layout = sda_layout();
    let guard = world
        .drive(|sys| {
            let mut bl = MockBootEnv::new();
            match guarded_resize::resize_if_needed(&layout, PartitionTable::Gpt, Some(&mut bl), sys) {
                Ok(()) => Ok(bl.get_env(BootEnvKey::ResizedData, &mut idle()).unwrap()),
                Err(e) => Err(e),
            }
        })
        .unwrap();
    assert_eq!(guard, Some("1".to_string()));
    assert_eq!(world.link("/etc/mtab"), Some("/proc/self/mounts".to_string()));
    assert!(world.ran.contains(&"/sbin/e2fsck -y /dev/sda7".to_string()));

    let mut sys = Session::new(vec![]);
    let mut bl = MockBootEnv::new().with_env(BootEnvKey::ResizedData, "1");
    assert!(
        guarded_resize::resize_if_needed(&layout, PartitionTable::Gpt, Some(&mut bl), &mut sys).is_ok()
    );
    assert!(sys.asked().is_empty());
}

// ---- fsck results -------------------------------------------------------

fn make_ods_with(partition: PartitionName, c: i32, output: &str) -> OdsStatus {
    let mut s = OdsStatus::new();
    s.record_fsck_result(partition, code(c), output.to_string());
    s
}

/// Insert past `record_fsck_result`, which drops clean results.
fn insert_raw(ods: &mut OdsStatus, partition: PartitionName, code: i32, output: &str) {
    ods.fsck.insert(
        partition,
        FsckStatus {
            code,
            output: output.to_string(),
        },
    );
}

struct TrackingBootEnv {
    saved: Vec<(PartitionName, FsckExitCode, String)>,
    save_fails: bool,
    read_fails: bool,
}

impl TrackingBootEnv {
    fn new() -> Self {
        TrackingBootEnv {
            saved: Vec::new(),
            save_fails: false,
            read_fails: false,
        }
    }
}

fn injected() -> BootEnvError {
    BootEnvError::CommandFailed {
        command: "mock".into(),
        reason: "injected failure".into(),
    }
}

impl BootEnv for TrackingBootEnv {
    type State = ();

    fn state(&self) {
        unreachable!()
    }

    fn reads(_: Transcript, _: (), _: BootEnvKey) -> (Transcript, (), EnvRead) {
        unreachable!()
    }

    fn writes(
        _: Transcript,
        _: (),
        _: BootEnvKey,
        _: Option<vstd::seq::Seq<char>>,
    ) -> (Transcript, (), EnvDone) {
        unreachable!()
    }

    fn saves(
        _: Transcript,
        _: (),
        _: PartitionName,
        _: FsckExitCode,
        _: vstd::seq::Seq<char>,
    ) -> (Transcript, (), EnvDone) {
        unreachable!()
    }

    fn recalls(_: Transcript, _: (), _: PartitionName) -> (Transcript, (), EnvRecord) {
        unreachable!()
    }

    fn clears(_: Transcript, _: (), _: PartitionName) -> (Transcript, (), EnvDone) {
        unreachable!()
    }

    fn get_env(&mut self, _key: BootEnvKey, _sys: &mut Session) -> EnvResult<Option<String>> {
        Ok(None)
    }

    fn set_env(
        &mut self,
        _key: BootEnvKey,
        _value: Option<&str>,
        _sys: &mut Session,
    ) -> EnvResult<()> {
        Ok(())
    }

    fn save_fsck_status(
        &mut self,
        partition: PartitionName,
        code: FsckExitCode,
        output: &str,
        _sys: &mut Session,
    ) -> EnvResult<()> {
        if self.save_fails {
            return Err(Stop::Failed(injected()));
        }
        self.saved.push((partition, code, output.to_string()));
        Ok(())
    }

    fn get_fsck_status(
        &mut self,
        _partition: PartitionName,
        _sys: &mut Session,
    ) -> EnvResult<Option<FsckRecord>> {
        if self.read_fails {
            return Err(Stop::Failed(injected()));
        }
        Ok(None)
    }

    fn clear_fsck_status(&mut self, _partition: PartitionName, _sys: &mut Session) -> EnvResult<()> {
        Ok(())
    }
}

/// Persists the results with a tracking environment, and returns what reached it.
fn persist_into(
    world: &mut World,
    ods: &OdsStatus,
    save_fails: bool,
) -> Vec<(PartitionName, FsckExitCode, String)> {
    let r: Result<_, ()> = world.drive(|sys| {
        let mut bl = TrackingBootEnv::new();
        bl.save_fails = save_fails;
        match persist_fsck_results(ods, Some(&mut bl), "/tmp/x", sys) {
            Some(()) => Ok(bl.saved),
            None => Err(Stop::Pending),
        }
    });
    r.unwrap()
}

fn unmounted_world() -> World {
    let mut world = World::new();
    world.file("/proc/mounts", "proc /proc proc rw 0 0\n");
    world.file("/proc/self/mounts", "proc /proc proc rw 0 0\n");
    world.dir("/tmp/x");
    world
}

#[test]
fn write_fsck_log_writes_the_file_and_returns_its_path() {
    let mut world = World::new();
    world.dir("/tmp/x");
    let path = world
        .drive(|sys| write_fsck_log("/tmp/x", PartitionName::Data, "errors corrected", sys))
        .unwrap();
    assert_eq!(path, "/tmp/x/data.log");
    assert_eq!(world.text(&path), "errors corrected");
}

#[test]
fn test_persist_zero_code_not_saved() {
    let mut ods = OdsStatus::new();
    insert_raw(&mut ods, PartitionName::Boot, 0, "clean");
    assert_eq!(ods.fsck.len(), 1, "the guard must have something to skip");
    let saved = persist_into(&mut unmounted_world(), &ods, false);
    assert!(saved.is_empty(), "zero exit code must not be persisted");
}

#[test]
fn test_persist_nonzero_calls_save_fsck_status() {
    let ods = make_ods_with(PartitionName::Boot, FsckExitCode::CORRECTED, "errors corrected");
    let saved = persist_into(&mut unmounted_world(), &ods, false);
    assert_eq!(saved.len(), 1);
    assert_eq!(saved[0].0, PartitionName::Boot);
    assert_eq!(saved[0].1.bits(), FsckExitCode::CORRECTED);
    assert_eq!(saved[0].2, "errors corrected");
}

#[test]
fn test_persist_empty_output_still_calls_bootloader_but_no_log_dir() {
    let ods = make_ods_with(PartitionName::Data, FsckExitCode::ERRORS_UNCORRECTED, "");
    let mut world = unmounted_world();
    let saved = persist_into(&mut world, &ods, false);
    assert_eq!(saved.len(), 1);
    assert!(!world.there("/tmp/x/mnt/data/var/log/fsck"));
}

#[test]
fn test_persist_multiple_partitions_only_nonzero_saved() {
    let mut ods = OdsStatus::new();
    insert_raw(&mut ods, PartitionName::Boot, 0, "clean");
    insert_raw(&mut ods, PartitionName::Etc, 0, "clean");
    ods.record_fsck_result(
        PartitionName::Data,
        code(FsckExitCode::CORRECTED),
        "errors corrected".to_string(),
    );
    ods.record_fsck_result(
        PartitionName::Cert,
        code(FsckExitCode::ERRORS_UNCORRECTED),
        "uncorrected errors".to_string(),
    );
    assert_eq!(ods.fsck.len(), 4, "all four must be in the map");

    let saved = persist_into(&mut unmounted_world(), &ods, false);

    assert_eq!(saved.len(), 2);
    let partitions: Vec<PartitionName> = saved.iter().map(|(p, _, _)| *p).collect();
    assert!(partitions.contains(&PartitionName::Data));
    assert!(partitions.contains(&PartitionName::Cert));
    assert!(!partitions.contains(&PartitionName::Boot));
    assert!(!partitions.contains(&PartitionName::Etc));
}

#[test]
fn persisted_results_are_logged_on_a_mounted_data_partition() {
    let ods = make_ods_with(PartitionName::Boot, FsckExitCode::CORRECTED, "some output");
    let mut world = World::new();
    let table = "/dev/sda7 /tmp/x/mnt/data ext4 rw 0 0\n";
    world.file("/proc/mounts", table);
    world.file("/proc/self/mounts", table);
    world.dir("/tmp/x/mnt/data");
    persist_into(&mut world, &ods, false);
    assert_eq!(world.text("/tmp/x/mnt/data/var/log/fsck/boot.log"), "some output");
}

#[test]
fn test_drain_moves_record_from_env_into_ods_and_clears_it() {
    let mut bl = MockBootEnv::new();
    bl.save_fsck_status(
        PartitionName::Boot,
        code(FsckExitCode::CORRECTED),
        "errors corrected on pass 1",
        &mut idle(),
    )
    .unwrap();
    let mut ods = OdsStatus::new();

    drain_fsck_env(&mut ods, Some(&mut bl), &mut idle());

    let record = ods.fsck.get(&PartitionName::Boot).unwrap();
    assert_eq!(record.code, 1);
    assert_eq!(record.output, "errors corrected on pass 1");
    assert!(
        bl.get_fsck_status(PartitionName::Boot, &mut idle()).unwrap().is_none(),
        "a reported record must not be drained again on the next boot"
    );
}

#[test]
fn test_drain_keeps_this_boot_results_and_adds_stale_ones() {
    let mut bl = MockBootEnv::new();
    bl.save_fsck_status(
        PartitionName::Boot,
        code(FsckExitCode::CORRECTED),
        "stale from a reboot",
        &mut idle(),
    )
    .unwrap();
    let mut ods = make_ods_with(
        PartitionName::Data,
        FsckExitCode::ERRORS_UNCORRECTED,
        "uncorrected errors",
    );

    drain_fsck_env(&mut ods, Some(&mut bl), &mut idle());

    assert_eq!(ods.fsck.len(), 2);
    assert_eq!(ods.fsck.get(&PartitionName::Data).unwrap().code, 4);
    assert_eq!(ods.fsck.get(&PartitionName::Boot).unwrap().code, 1);
}

#[test]
fn test_drain_without_bootloader_is_a_no_op() {
    let mut ods = make_ods_with(PartitionName::Data, FsckExitCode::CORRECTED, "errors corrected");
    drain_fsck_env(&mut ods, None::<&mut MockBootEnv>, &mut idle());
    assert_eq!(ods.fsck.len(), 1);
}

#[test]
fn test_drain_read_failure_does_not_abort() {
    let mut ods = OdsStatus::new();
    let mut bl = TrackingBootEnv::new();
    bl.read_fails = true;
    drain_fsck_env(&mut ods, Some(&mut bl), &mut idle());
    assert!(ods.fsck.is_empty());
}

#[test]
fn test_persist_bootloader_save_failure_does_not_abort() {
    let ods = make_ods_with(
        PartitionName::Boot,
        FsckExitCode::REBOOT_REQUIRED,
        "reboot required",
    );
    let saved = persist_into(&mut unmounted_world(), &ods, true);
    assert!(saved.is_empty());
}

#[test]
fn test_persist_data_not_mounted_no_log_dir_created() {
    let ods = make_ods_with(PartitionName::Boot, FsckExitCode::CORRECTED, "some output");
    let mut world = unmounted_world();
    let saved = persist_into(&mut world, &ods, false);
    assert_eq!(saved.len(), 1);
    assert!(!world.there("/tmp/x/mnt/data/var/log/fsck"));
}

#[test]
fn test_persist_none_bootloader_skips_save_fsck_status() {
    let ods = make_ods_with(PartitionName::Boot, FsckExitCode::CORRECTED, "errors corrected");
    let mut world = unmounted_world();
    let r: Result<(), ()> = world.drive(|sys| {
        match persist_fsck_results(&ods, None::<&mut MockBootEnv>, "/tmp/x", sys) {
            Some(()) => Ok(()),
            None => Err(Stop::Pending),
        }
    });
    r.unwrap();
    assert!(!world.there("/tmp/x/mnt/data/var/log/fsck"));
}

#[test]
fn mount_tracked_partition_is_noop_when_absent_from_layout() {
    let layout = empty_layout();
    let mut ods_status = OdsStatus::new();
    let mut mounts: Vec<String> = Vec::new();
    let mut sys = Session::new(vec![]);

    let result = mount_tracked_partition(
        &layout,
        PartitionMountSpec {
            partition: PartitionName::Factory,
            mount_point: mount_points::FACTORY_PARTITION,
            options: MountOptions::ext4_readonly(),
            fstype: FsType::Ext4,
        },
        "/nonexistent",
        &mut ods_status,
        &mut mounts,
        &mut sys,
    );

    assert!(result.is_ok());
    assert!(mounts.is_empty());
    assert!(sys.asked().is_empty());
}

// ---- overlays -----------------------------------------------------------

#[test]
fn test_ensure_dir_creates_directory() {
    let mut world = World::new();
    assert!(!world.there("/tmp/x/test/nested/dir"));
    world
        .drive(|sys| ensure_dir("/tmp/x/test/nested/dir", sys))
        .unwrap();
    assert!(world.there("/tmp/x/test/nested/dir"));
}

#[test]
fn test_ensure_dir_existing() {
    let mut world = World::new();
    world.dir("/tmp/x");
    world.drive(|sys| ensure_dir("/tmp/x", sys)).unwrap();
    assert!(world.there("/tmp/x"));
}

#[test]
fn test_is_directory_empty_true() {
    let mut world = World::new();
    world.dir("/tmp/x");
    assert!(world.drive(|sys| is_directory_empty("/tmp/x", sys)).unwrap());
}

#[test]
fn test_is_directory_empty_false() {
    let mut world = World::new();
    world.file("/tmp/x/file.txt", "content");
    assert!(!world.drive(|sys| is_directory_empty("/tmp/x", sys)).unwrap());
}

#[test]
fn test_is_directory_empty_nonexistent() {
    let mut world = World::new();
    assert!(world
        .drive(|sys| is_directory_empty("/nonexistent/path", sys))
        .unwrap());
}

#[test]
fn test_ensure_overlay_dirs() {
    let mut world = World::new();
    world
        .drive(|sys| ensure_overlay_dirs("/tmp/x/upper", "/tmp/x/work", sys))
        .unwrap();
    assert!(world.there("/tmp/x/upper"));
    assert!(world.there("/tmp/x/work"));
}

#[test]
fn test_copy_directory_contents() {
    let mut world = World::new();
    world.dir("/tmp/x/dst");
    world.file("/tmp/x/src/file1.txt", "content1");
    world.file("/tmp/x/src/subdir/file2.txt", "content2");

    world
        .drive(|sys| copy_directory_contents("/tmp/x/src", "/tmp/x/dst", sys))
        .unwrap();

    assert!(world.there("/tmp/x/dst/file1.txt"));
    assert!(world.there("/tmp/x/dst/subdir/file2.txt"));
    assert_eq!(world.text("/tmp/x/dst/file1.txt"), "content1");
}

#[test]
fn test_copy_directory_nonexistent_source() {
    let mut world = World::new();
    world.dir("/tmp/x/dst");
    let result = world.drive(|sys| copy_directory_contents("/tmp/x/nonexistent", "/tmp/x/dst", sys));
    assert!(result.is_ok());
}

#[test]
fn etc_overlay_is_seeded_from_the_factory_defaults_once() {
    let mut world = World::new();
    world.file("/rootfs/mnt/factory/etc/hostname", "factory");
    world.dir("/rootfs/mnt/etc");
    world.dir("/rootfs/etc");
    world.drive(|sys| setup_etc_overlay("/rootfs", sys)).unwrap();
    assert_eq!(world.text("/rootfs/mnt/etc/upper/hostname"), "factory");
    assert!(world.mounted.contains(&"/rootfs/etc".to_string()));

    world.file("/rootfs/mnt/factory/etc/hostname", "changed");
    world.drive(|sys| setup_etc_overlay("/rootfs", sys)).unwrap();
    assert_eq!(world.text("/rootfs/mnt/etc/upper/hostname"), "factory");
}

#[test]
fn data_overlay_makes_the_log_persistent_on_demand() {
    let mut world = World::new();
    world.drive(|sys| setup_data_overlay("/rootfs", false, sys)).unwrap();
    assert!(world.mounted.contains(&"/rootfs/home".to_string()));
    assert!(!world.mounted.contains(&"/rootfs/var/log".to_string()));
    let mut world = World::new();
    world.drive(|sys| setup_data_overlay("/rootfs", true, sys)).unwrap();
    assert!(world.mounted.contains(&"/rootfs/var/log".to_string()));
}

// ---- device links -------------------------------------------------------

#[test]
fn test_create_symlink_in_temp_dir() {
    let mut world = World::new();
    world.file("/tmp/x/target_file", "test");
    let result = world.drive(|sys| create_symlink("/tmp/x/target_file", "/tmp/x/link", sys));
    assert!(result.is_ok());
    assert_eq!(world.link("/tmp/x/link"), Some("/tmp/x/target_file".to_string()));
}

#[test]
fn test_create_symlink_replaces_existing() {
    let mut world = World::new();
    world.file("/tmp/x/target1", "test1");
    world.file("/tmp/x/target2", "test2");

    world
        .drive(|sys| create_symlink("/tmp/x/target1", "/tmp/x/link", sys))
        .unwrap();
    assert_eq!(world.link("/tmp/x/link"), Some("/tmp/x/target1".to_string()));

    world
        .drive(|sys| create_symlink("/tmp/x/target2", "/tmp/x/link", sys))
        .unwrap();
    assert_eq!(world.link("/tmp/x/link"), Some("/tmp/x/target2".to_string()));
}

#[test]
fn create_symlink_does_not_replace_a_directory() {
    let mut world = World::new();
    world.dir("/tmp/x/link");
    let e = world
        .drive(|sys| create_symlink("/tmp/x/target", "/tmp/x/link", sys))
        .unwrap_err();
    assert!(matches!(e, PartitionError::SymlinkRemoveFailed { .. }));
    assert_eq!(world.node("/tmp/x/link"), Some(&Node::Dir));
}

fn world_with_link() -> World {
    let mut world = World::new();
    world.file("/tmp/x/target", "test");
    world.file("/tmp/x/target1", "test1");
    world.file("/tmp/x/target2", "test2");
    world
}

#[test]
fn test_verify_symlink_success() {
    let mut world = world_with_link();
    world
        .nodes
        .insert("/tmp/x/link".to_string(), Node::Link("/tmp/x/target".to_string()));
    let result = world.drive(|sys| verify_symlink("/tmp/x/link", "/tmp/x/target", sys));
    assert!(result.is_ok());
}

#[test]
fn test_verify_symlink_wrong_target() {
    let mut world = world_with_link();
    world
        .nodes
        .insert("/tmp/x/link".to_string(), Node::Link("/tmp/x/target1".to_string()));
    let result = world.drive(|sys| verify_symlink("/tmp/x/link", "/tmp/x/target2", sys));
    assert!(result.is_err());
}

#[test]
fn test_verify_symlink_not_exists() {
    let mut world = world_with_link();
    let result = world.drive(|sys| verify_symlink("/tmp/x/nonexistent", "/tmp/x/target", sys));
    assert!(result.is_err());
}

#[test]
fn device_links_are_created_verified_and_removed() {
    let mut world = World::new();
    world.dir("/dev");
    let layout = sda_layout();
    for n in 1..8 {
        world.file(&format!("/dev/sda{n}"), "");
    }
    world.file("/dev/sda", "");
    world.drive(|sys| create_omnect_symlinks(&layout, sys)).unwrap();
    assert_eq!(world.link("/dev/omnect/rootblk"), Some("/dev/sda".to_string()));
    assert_eq!(world.link("/dev/omnect/data"), Some("/dev/sda7".to_string()));
    assert_eq!(world.link("/dev/omnect/rootCurrent"), Some("/dev/sda2".to_string()));
    assert!(world.drive(|sys| verify_symlinks(&layout, sys)).is_ok());
    world.drive(remove_omnect_symlinks).unwrap();
    assert_eq!(world.link("/dev/omnect/data"), None);
    assert!(world.drive(|sys| verify_symlinks(&layout, sys)).is_err());
}

// ---- fs links -----------------------------------------------------------

#[test]
fn test_link_entry_deserialize() {
    let config = FsLinkConfig::parse(r#"{"links": [{"target": "/data/app", "link": "opt/app"}]}"#).unwrap();
    let entry: &LinkEntry = &config.links[0];
    assert_eq!(entry.target, "/data/app");
    assert_eq!(entry.link, "opt/app");
}

#[test]
fn test_fs_link_config_deserialize() {
    let json = r#"{
        "links": [
            {"target": "/data/app", "link": "opt/app"},
            {"target": "/data/config", "link": "etc/app"}
        ]
    }"#;

    let config = FsLinkConfig::parse(json).unwrap();
    assert_eq!(config.links.len(), 2);
}

#[test]
fn fs_link_config_has_to_be_complete() {
    assert!(FsLinkConfig::parse("not json").is_err());
    assert!(FsLinkConfig::parse(r#"{"links": [{"target": "/data/app"}]}"#).is_err());
    assert!(FsLinkConfig::parse(r#"{"links": [{"target": 1, "link": "x"}]}"#).is_err());
}

#[test]
fn fs_link_fields_stand_once() {
    let links = r#"[{"target": "/data/app", "link": "opt/app"}]"#;
    let twice = format!(r#"{{"links": {links}, "links": {links}}}"#);
    assert!(FsLinkConfig::parse(&twice).is_err());
    assert!(FsLinkConfig::parse(r#"{"links": [{"target": "/a", "target": "/a", "link": "b"}]}"#).is_err());
    assert!(FsLinkConfig::parse(r#"{"links": [{"target": "/a", "link": "b", "link": "b"}]}"#).is_err());
}

#[test]
fn fs_link_config_passes_over_other_names() {
    let deep = format!("{}{}", "[".repeat(300), "]".repeat(300));
    let text = format!(
        r#" {{"a": 1e999, "a": "\ud800", "links" : [ {{"target":"/a","x":{deep},"x":2,"link":"b"}} , ["/c","d"] ] }} "#
    );
    let config = FsLinkConfig::parse(&text).unwrap();
    assert_eq!(config.links.len(), 2);
    assert_eq!(config.links[0].target, "/a");
    assert_eq!(config.links[0].link, "b");
    assert_eq!(config.links[1].target, "/c");
    assert_eq!(config.links[1].link, "d");
    let list = FsLinkConfig::parse(r#"[[{"target": "/a", "link": "b"}]]"#).unwrap();
    assert_eq!(list.links[0].link, "b");
    assert!(FsLinkConfig::parse(r#"[[], []]"#).is_err());
    assert!(FsLinkConfig::parse(r#"{"links": []} x"#).is_err());
    assert!(FsLinkConfig::parse(r#"{"links": [],}"#).is_err());
    assert!(FsLinkConfig::parse(r#"{"links": [] "a": 1}"#).is_err());
    assert!(FsLinkConfig::parse(r#"{"links" []}"#).is_err());
    assert!(FsLinkConfig::parse(r#"{"links": []"#).is_err());
    assert!(FsLinkConfig::parse(r#"{"links": [], 1: 2}"#).is_err());
    assert!(FsLinkConfig::parse(r#"{"links": {}}"#).is_err());
    assert!(FsLinkConfig::parse("{}").is_err());
    assert!(FsLinkConfig::parse(" ").is_err());
    assert!(FsLinkConfig::parse("7").is_err());
    assert!(FsLinkConfig::parse(r#"{"links": []}"#).unwrap().links.is_empty());
}

fn entry(target: &str, link: &str) -> LinkEntry {
    LinkEntry {
        target: target.to_string(),
        link: link.to_string(),
    }
}

#[test]
fn test_create_link() {
    let mut world = World::new();
    world.dir("/tmp/x/target");
    world
        .drive(|sys| create_link("/tmp/x", &entry("/tmp/x/target", "link"), sys))
        .unwrap();
    assert_eq!(world.link("/tmp/x/link"), Some("/tmp/x/target".to_string()));
}

#[test]
fn test_create_link_replaces_existing() {
    let mut world = World::new();
    world.dir("/tmp/x/target1");
    world.dir("/tmp/x/target2");
    world
        .drive(|sys| create_link("/tmp/x", &entry("/tmp/x/target1", "link"), sys))
        .unwrap();
    world
        .drive(|sys| create_link("/tmp/x", &entry("/tmp/x/target2", "link"), sys))
        .unwrap();
    assert_eq!(world.link("/tmp/x/link"), Some("/tmp/x/target2".to_string()));
}

#[test]
fn test_create_link_nested_path() {
    let mut world = World::new();
    world.dir("/tmp/x/target");
    world
        .drive(|sys| create_link("/tmp/x", &entry("/tmp/x/target", "nested/deep/link"), sys))
        .unwrap();
    assert!(world.link("/tmp/x/nested/deep/link").is_some());
}

#[test]
fn links_outside_the_rootfs_are_refused() {
    assert!(validate_relative_path("opt/app").is_ok());
    assert!(validate_relative_path("../app").is_err());
    let mut world = World::new();
    world.dir("/tmp/x");
    assert!(world
        .drive(|sys| create_link("/tmp/x", &entry("/data", "../evil"), sys))
        .is_err());
    assert_eq!(world.link("/tmp/evil"), None);
}

#[test]
fn test_load_empty_config() {
    let mut world = World::new();
    world.dir("/tmp/x");
    let config = world.drive(|sys| load_fs_link_config("/tmp/x", sys)).unwrap();
    assert!(config.links.is_empty());
}

#[test]
fn test_load_config_file() {
    let mut world = World::new();
    world.file(
        "/tmp/x/config.json",
        r#"{"links": [{"target": "/data", "link": "opt"}]}"#,
    );
    let config = world
        .drive(|sys| load_config_file("/tmp/x/config.json", sys))
        .unwrap();
    assert_eq!(config.links.len(), 1);
}

#[test]
fn fs_links_come_from_the_file_and_the_directory() {
    let mut world = World::new();
    world.file(
        "/tmp/x/etc/omnect/fs-link.json",
        r#"{"links": [{"target": "/a", "link": "opt/a"}]}"#,
    );
    world.file(
        "/tmp/x/etc/omnect/fs-link.d/b.json",
        r#"{"links": [{"target": "/b", "link": "opt/b"}]}"#,
    );
    world.file("/tmp/x/etc/omnect/fs-link.d/note.txt", "no json");
    world.drive(|sys| create_fs_links("/tmp/x", sys)).unwrap();
    assert_eq!(world.link("/tmp/x/opt/a"), Some("/a".to_string()));
    assert_eq!(world.link("/tmp/x/opt/b"), Some("/b".to_string()));
}

// ---- init ---------------------------------------------------------------

#[test]
fn test_find_init_default() {
    let mut world = World::new();
    world.program("/tmp/x/sbin/init");
    let result = world.drive(|sys| find_init("/tmp/x", "/sbin/init", sys));
    assert_eq!(result.unwrap(), "/sbin/init");
}

#[test]
fn test_find_init_systemd() {
    let mut world = World::new();
    world.program("/tmp/x/lib/systemd/systemd");
    let result = world.drive(|sys| find_init("/tmp/x", "/sbin/init", sys));
    assert_eq!(result.unwrap(), "/lib/systemd/systemd");
}

#[test]
fn test_find_init_not_found() {
    let mut world = World::new();
    world.dir("/tmp/x");
    let result = world.drive(|sys| find_init("/tmp/x", "/sbin/init", sys));
    assert!(result.is_err());
}

#[test]
fn test_find_init_non_executable() {
    let mut world = World::new();
    world.file("/tmp/x/sbin/init", "#!/bin/sh");
    let result = world.drive(|sys| find_init("/tmp/x", "/sbin/init", sys));
    assert!(result.is_err());
}

// ---- backup and restore -------------------------------------------------

const ROOTFS: &str = "/tmp/x/rootfs";
const BACKUP: &str = "/tmp/x/backup";

fn reset_world() -> World {
    let mut world = World::new();
    world.dir(ROOTFS);
    world.dir(BACKUP);
    world
}

fn backup_root() -> String {
    format!("{BACKUP}{ROOTFS}")
}

fn list(paths: &[&str]) -> Vec<String> {
    paths.iter().map(|s| s.to_string()).collect()
}

#[test]
fn backup_path_nonexistent_source_silently_skips() {
    let mut world = reset_world();
    world
        .drive(|sys| backup_path(ROOTFS, "/etc/hostname", BACKUP, sys))
        .unwrap();
    assert!(!world.there("/tmp/x/backup/etc/hostname"));
}

#[test]
fn restore_path_restores_file_from_backup() {
    let mut world = reset_world();
    world.dir("/tmp/x/rootfs/etc");
    world.file(&format!("{}/etc/hostname", backup_root()), "restored-hostname");

    world
        .drive(|sys| restore_path(ROOTFS, "/etc/hostname", BACKUP, sys))
        .unwrap();

    assert_eq!(world.text("/tmp/x/rootfs/etc/hostname"), "restored-hostname");
}

#[test]
fn restore_path_nonexistent_backup_silently_skips() {
    let mut world = reset_world();
    world
        .drive(|sys| restore_path(ROOTFS, "/etc/hostname", BACKUP, sys))
        .unwrap();
    assert!(!world.there("/tmp/x/rootfs/etc/hostname"));
}

#[test]
fn restore_all_success_on_empty_list() {
    let mut world = reset_world();
    let none = list(&[]);
    let result = world
        .drive(|sys| restore_all(ROOTFS, &none, BACKUP, sys))
        .unwrap();
    assert!(matches!(result, RestoreResult::Success));
}

#[test]
fn restore_all_partial_failure_accumulates_context() {
    let mut world = reset_world();
    world.file(&format!("{}/etc/hostname", backup_root()), "host");
    // A regular file at rootfs/etc makes the creation of the directory fail.
    world.file("/tmp/x/rootfs/etc", "not-a-dir");

    let manifest = list(&["/etc/hostname"]);
    match world
        .drive(|sys| restore_all(ROOTFS, &manifest, BACKUP, sys))
        .unwrap()
    {
        RestoreResult::PartialFailure { context, .. } => {
            assert!(context.contains("etc/hostname:restore"));
        }
        RestoreResult::Success => panic!("expected PartialFailure"),
    }
}

#[test]
fn backup_all_returns_only_paths_that_existed() {
    let mut world = reset_world();
    world.file("/tmp/x/rootfs/etc/hostname", "host");

    let preserve = list(&["/etc/hostname", "/etc/absent"]);
    let manifest = world
        .drive(|sys| backup_all(ROOTFS, &preserve, BACKUP, sys))
        .unwrap();
    assert_eq!(manifest, vec!["/etc/hostname".to_string()]);
    assert_eq!(world.text(&format!("{}/etc/hostname", backup_root())), "host");
}

#[test]
fn restore_all_reports_partial_failure_when_backed_up_file_vanished() {
    let mut world = reset_world();
    let manifest = list(&["/etc/hostname"]);
    match world
        .drive(|sys| restore_all(ROOTFS, &manifest, BACKUP, sys))
        .unwrap()
    {
        RestoreResult::PartialFailure { context, .. } => {
            assert!(context.contains("etc/hostname:missing-backup"));
        }
        RestoreResult::Success => panic!("expected PartialFailure"),
    }
}

#[test]
fn restore_all_success_when_manifest_empty() {
    let mut world = reset_world();
    let none = list(&[]);
    let result = world
        .drive(|sys| restore_all(ROOTFS, &none, BACKUP, sys))
        .unwrap();
    assert!(matches!(result, RestoreResult::Success));
}

#[test]
fn what_is_backed_up_is_restored() {
    let mut world = reset_world();
    world.file("/tmp/x/rootfs/etc/hostname", "host");
    let preserve = list(&["/etc/hostname"]);
    let manifest = world
        .drive(|sys| backup_all(ROOTFS, &preserve, BACKUP, sys))
        .unwrap();
    world.nodes.remove("/tmp/x/rootfs/etc/hostname");
    let result = world
        .drive(|sys| restore_all(ROOTFS, &manifest, BACKUP, sys))
        .unwrap();
    assert!(matches!(result, RestoreResult::Success));
    assert_eq!(world.text("/tmp/x/rootfs/etc/hostname"), "host");
}

#[test]
fn failed_copy_ends_the_backup() {
    let mut world = reset_world();
    world.file("/tmp/x/rootfs/etc/hostname", "host");
    world.exits.insert("/cp".to_string(), 1);
    let preserve = list(&["/etc/hostname"]);
    match world.drive(|sys| backup_all(ROOTFS, &preserve, BACKUP, sys)) {
        Err(InitramfsError::FactoryReset(FactoryResetError::BackupFailed { path, reason })) => {
            assert_eq!(path, "/etc/hostname");
            assert_eq!(reason, "cp failed (exit status: 1): ");
        }
        _ => panic!("expected BackupFailed"),
    }
}

// ---- what a factory reset preserves -------------------------------------

fn reset_config(keys: &[&str]) -> FactoryResetConfig {
    FactoryResetConfig {
        mode: ResetMode::Mode1,
        preserve: list(keys),
    }
}

fn preserve_list(world: &mut World, keys: &[&str]) -> Result<Vec<String>, InitramfsError> {
    let config = reset_config(keys);
    world.drive(|sys| build_preserve_list(&config, "/tmp/x", sys))
}

#[test]
fn parse_mode_and_preserve() {
    let cfg = FactoryResetConfig::parse(r#"{"mode":1,"preserve":[]}"#).unwrap();
    assert_eq!(cfg.mode, ResetMode::Mode1);
    assert!(cfg.preserve.is_empty());
}

#[test]
fn parse_rejects_unsupported_mode() {
    assert!(FactoryResetConfig::parse(r#"{"mode":2,"preserve":[]}"#).is_err());
    assert!(FactoryResetConfig::parse(r#"{"mode":0,"preserve":[]}"#).is_err());
}

#[test]
fn parse_accepts_mode_1() {
    let cfg = FactoryResetConfig::parse(r#"{"mode":1,"preserve":["applications"]}"#).unwrap();
    assert_eq!(cfg.mode, ResetMode::Mode1);
    assert_eq!(cfg.preserve, vec!["applications"]);
}

#[test]
fn reset_mode_try_from_rejects_non_one() {
    assert!(ResetMode::try_from(2u32).is_err());
    assert!(ResetMode::try_from(1u32).is_ok());
}

#[test]
fn parse_invalid_json_returns_error() {
    assert!(FactoryResetConfig::parse("not json").is_err());
}

#[test]
fn trigger_fields_stand_once() {
    assert!(FactoryResetConfig::parse(r#"{"mode":1,"mode":1}"#).is_err());
    assert!(FactoryResetConfig::parse(r#"{"mode":1,"mod\u0065":1}"#).is_err());
    assert!(FactoryResetConfig::parse(r#"{"mode":1,"preserve":[],"preserve":[]}"#).is_err());
    match FactoryResetConfig::parse(r#"{"mode":2,"mode":1}"#) {
        Err(e) => assert_eq!(
            e.to_string(),
            "Factory reset error: Invalid configuration: Failed to parse factory-reset JSON: duplicate field `mode`"
        ),
        Ok(_) => panic!("a repeated field is an error"),
    }
}

#[test]
fn trigger_passes_over_other_names() {
    let deep = format!("{}{}", "[".repeat(300), "]".repeat(300));
    let text = format!(r#"{{"a":{deep},"b":1e999,"b":"\ud800","mod\u0065":1,"preserve":["x"]}}"#);
    let config = FactoryResetConfig::parse(&text).unwrap();
    assert_eq!(config.preserve, vec!["x"]);
    assert!(FactoryResetConfig::parse(r#"{"\ud800":1,"mode":1}"#).is_err());
    assert!(FactoryResetConfig::parse(r#"{"mode":1e999}"#).is_err());
    assert!(FactoryResetConfig::parse(r#"{"mode":1}}"#).is_err());
    assert!(FactoryResetConfig::parse(r#"[1,["x"]]"#).is_ok());
    assert!(FactoryResetConfig::parse(r#"[1]"#).is_ok());
    assert!(FactoryResetConfig::parse(r#"[]"#).is_err());
}

#[test]
fn parse_missing_mode_returns_error() {
    assert!(FactoryResetConfig::parse(r#"{"preserve":[]}"#).is_err());
}

#[test]
fn build_preserve_list_empty_preserve() {
    let mut world = World::new();
    world.dir("/tmp/x");
    let list = preserve_list(&mut world, &[]).unwrap();
    assert_eq!(list, vec![PRESERVE_LIST_MANDATORY]);
}

#[test]
fn build_preserve_list_applications_key() {
    let mut world = World::new();
    world.file(
        "/tmp/x/etc/omnect/factory-reset.d/app.json",
        r#"{"paths":["/home/user/.config","var/app"]}"#,
    );
    let list = preserve_list(&mut world, &["applications"]).unwrap();
    assert_eq!(list[0], PRESERVE_LIST_MANDATORY);
    assert!(list.contains(&"/home/user/.config".to_string()));
    assert!(list.contains(&"var/app".to_string()));
}

#[test]
fn build_preserve_list_custom_key() {
    let mut world = World::new();
    world.file(
        "/tmp/x/etc/omnect/factory-reset.json",
        r#"{"network":["/etc/network/interfaces","/etc/wpa_supplicant.conf"]}"#,
    );
    let list = preserve_list(&mut world, &["network"]).unwrap();
    assert!(list.contains(&"/etc/network/interfaces".to_string()));
    assert!(list.contains(&"/etc/wpa_supplicant.conf".to_string()));
}

#[test]
fn build_preserve_list_custom_key_non_array_returns_error() {
    let mut world = World::new();
    world.file(
        "/tmp/x/etc/omnect/factory-reset.json",
        r#"{"network":"/etc/network/interfaces"}"#,
    );
    assert!(preserve_list(&mut world, &["network"]).is_err());
}

#[test]
fn validate_preserve_path_rejects_empty_string() {
    assert!(validate_preserve_path("").is_err());
    assert!(validate_preserve_path("/").is_err());
}

#[test]
fn validate_preserve_path_rejects_parent_dir_traversal() {
    assert!(validate_preserve_path("../../etc/shadow").is_err());
    assert!(validate_preserve_path("/etc/../../shadow").is_err());
}

#[test]
fn validate_preserve_path_accepts_normal_paths() {
    assert!(validate_preserve_path("/etc/hostname").is_ok());
    assert!(validate_preserve_path("var/app").is_ok());
}

fn invalid_config(r: Result<Vec<String>, InitramfsError>) -> bool {
    matches!(
        r,
        Err(InitramfsError::FactoryReset(FactoryResetError::InvalidConfig(_)))
    )
}

#[test]
fn build_preserve_list_custom_key_rejects_traversal() {
    let mut world = World::new();
    world.file(
        "/tmp/x/etc/omnect/factory-reset.json",
        r#"{"network":["../../etc/shadow"]}"#,
    );
    assert!(invalid_config(preserve_list(&mut world, &["network"])));
}

#[test]
fn build_preserve_list_applications_rejects_traversal() {
    let mut world = World::new();
    world.file(
        "/tmp/x/etc/omnect/factory-reset.d/app.json",
        r#"{"paths":["../outside"]}"#,
    );
    assert!(invalid_config(preserve_list(&mut world, &["applications"])));
}

#[test]
fn build_preserve_list_applications_invalid_json_returns_invalid_config() {
    let mut world = World::new();
    world.file("/tmp/x/etc/omnect/factory-reset.d/app.json", "not json");
    assert!(invalid_config(preserve_list(&mut world, &["applications"])));
}

#[test]
fn build_preserve_list_read_error_maps_to_io_not_invalid_config() {
    let mut world = World::new();
    world.dir("/tmp/x/etc/omnect/factory-reset.d/app.json");
    assert!(matches!(
        preserve_list(&mut world, &["applications"]),
        Err(InitramfsError::FactoryReset(FactoryResetError::Io(_)))
    ));
}

#[test]
fn build_preserve_list_custom_key_non_string_element_is_hard_error() {
    let mut world = World::new();
    world.file(
        "/tmp/x/etc/omnect/factory-reset.json",
        r#"{"network":["/etc/network/interfaces", 42]}"#,
    );
    assert!(invalid_config(preserve_list(&mut world, &["network"])));
}

#[test]
fn build_preserve_list_applications_non_string_element_is_hard_error() {
    let mut world = World::new();
    world.file(
        "/tmp/x/etc/omnect/factory-reset.d/app.json",
        r#"{"paths":["var/app", null]}"#,
    );
    assert!(invalid_config(preserve_list(&mut world, &["applications"])));
}

// ---- extra boot arguments -----------------------------------------------

fn boot_args(files: &[(&str, &str)]) -> World {
    let mut world = World::new();
    world.dir("/tmp/x/boot");
    for (name, text) in files {
        world.file(&format!("/tmp/x/boot/{name}"), text);
    }
    world
}

fn read_args(world: &mut World) -> Result<String, IoError> {
    world.drive(|sys| read_extra_bootargs("/tmp/x/boot", sys))
}

#[test]
fn no_files_yields_empty_string() {
    assert_eq!(read_args(&mut boot_args(&[])).unwrap(), "");
}

#[test]
fn omnect_only_returns_its_content() {
    let mut world = boot_args(&[(BOOTARGS_OMNECT_FILE, "quiet loglevel=3\n")]);
    assert_eq!(read_args(&mut world).unwrap(), "quiet loglevel=3");
}

#[test]
fn both_files_are_joined_with_space() {
    let mut world = boot_args(&[
        (BOOTARGS_OMNECT_FILE, "quiet loglevel=3"),
        (BOOTARGS_CUSTOM_FILE, "myarg=1"),
    ]);
    assert_eq!(read_args(&mut world).unwrap(), "quiet loglevel=3 myarg=1");
}

#[test]
fn empty_files_yield_empty_string() {
    let mut world = boot_args(&[(BOOTARGS_OMNECT_FILE, "   \n"), (BOOTARGS_CUSTOM_FILE, "\n")]);
    assert_eq!(read_args(&mut world).unwrap(), "");
}

#[test]
fn internal_whitespace_is_squeezed() {
    let mut world = boot_args(&[
        (BOOTARGS_OMNECT_FILE, "quiet    loglevel=3"),
        (BOOTARGS_CUSTOM_FILE, "a\tb"),
    ]);
    assert_eq!(read_args(&mut world).unwrap(), "quiet loglevel=3 a b");
}

#[test]
fn custom_only_returns_its_content() {
    let mut world = boot_args(&[(BOOTARGS_CUSTOM_FILE, "myarg=1\n")]);
    assert_eq!(read_args(&mut world).unwrap(), "myarg=1");
}

#[test]
fn read_extra_bootargs_propagates_read_error() {
    let mut world = boot_args(&[]);
    world.dir(&format!("/tmp/x/boot/{BOOTARGS_OMNECT_FILE}"));
    assert!(read_args(&mut world).is_err());
}

#[test]
fn should_sync_only_on_first_boot_without_update() {
    assert!(should_sync(true, false));
    assert!(!should_sync(false, false));
    assert!(!should_sync(true, true));
    assert!(!should_sync(false, true));
}

/// What a run of the step comes to, and what it leaves behind.
struct Synced {
    result: Result<(), InitramfsError>,
    outcome: Option<ExtraBootArgsOutcome>,
    mock: MockBootEnv,
}

fn sync(
    world: &mut World,
    make: impl Fn() -> MockBootEnv,
    first_boot: bool,
    update_pending: bool,
) -> Synced {
    let layout = empty_layout();
    let r: Result<Synced, ()> = world.drive(|sys| {
        let mut ods_status = OdsStatus::new();
        ods_status.first_boot = first_boot;
        let mut ctx = InitSetupCtx {
            layout: &layout,
            table: PartitionTable::Gpt,
            boot_env: BootEnvState::Available(make()),
            ods_status,
            rootfs: "/tmp/x",
            update_pending,
            resize_data: false,
        };
        let result = match extra_bootargs::run(&mut ctx, sys) {
            Err(Stop::Pending) => return Err(Stop::Pending),
            Err(Stop::Failed(e)) => Err(e),
            Ok(()) => Ok(()),
        };
        let mock = match ctx.boot_env {
            BootEnvState::Available(mock) => mock,
            BootEnvState::Degraded(_) => panic!("the environment was open"),
        };
        Ok(Synced {
            result,
            outcome: ctx.ods_status.extra_bootargs.map(|s| s.outcome),
            mock,
        })
    });
    r.unwrap()
}

fn args_of(synced: &mut Synced) -> Option<String> {
    synced.mock.get_env(BootEnvKey::ExtraBootArgs, &mut idle()).unwrap()
}

fn quiet() -> World {
    boot_args(&[(BOOTARGS_OMNECT_FILE, "quiet loglevel=3")])
}

#[test]
fn extra_bootargs_skips_when_not_first_boot() {
    let mut r = sync(&mut quiet(), MockBootEnv::new, false, false);
    assert!(r.result.is_ok());
    assert!(r.outcome.is_none());
    assert_eq!(args_of(&mut r), None);
}

#[test]
fn skips_when_update_pending() {
    let mut world = boot_args(&[(BOOTARGS_OMNECT_FILE, "quiet")]);
    let r = sync(&mut world, MockBootEnv::new, true, true);
    assert!(r.result.is_ok());
    assert!(r.outcome.is_none());
}

#[test]
fn already_current_is_noop() {
    let make = || MockBootEnv::new().with_env(BootEnvKey::ExtraBootArgs, "quiet loglevel=3");
    let r = sync(&mut quiet(), make, true, false);
    assert!(r.result.is_ok());
    assert!(r.outcome.is_none(), "no-op must not record an ODS entry");
}

#[test]
fn changed_value_applies_and_requests_reboot() {
    let mut r = sync(&mut quiet(), MockBootEnv::new, true, false);
    assert!(matches!(r.result, Err(InitramfsError::ExtraBootArgsUpdated)));
    assert!(
        r.outcome.is_none(),
        "success is not recorded in ODS (reboot before JSON write)"
    );
    assert_eq!(args_of(&mut r).as_deref(), Some("quiet loglevel=3"));
}

#[test]
fn read_back_mismatch_records_failed_without_reboot() {
    let make = || MockBootEnv::new().with_set_env_normalize("mangled");
    let r = sync(&mut quiet(), make, true, false);
    assert!(
        r.result.is_ok(),
        "must not request reboot on read-back mismatch"
    );
    assert_eq!(r.outcome, Some(ExtraBootArgsOutcome::ReadBackMismatch));
}

#[test]
fn file_read_error_records_failed_without_touching_env() {
    let mut world = boot_args(&[]);
    world.dir(&format!("/tmp/x/boot/{BOOTARGS_OMNECT_FILE}"));
    let make = || MockBootEnv::new().with_env(BootEnvKey::ExtraBootArgs, "quiet loglevel=3");
    let mut r = sync(&mut world, make, true, false);
    assert!(r.result.is_ok(), "read error must not request a reboot");
    assert_eq!(r.outcome, Some(ExtraBootArgsOutcome::FileReadFailed));
    assert_eq!(args_of(&mut r).as_deref(), Some("quiet loglevel=3"));
}

#[test]
fn get_env_error_records_read_failed_without_reboot() {
    let make = || MockBootEnv::new().with_get_env_error();
    let r = sync(&mut quiet(), make, true, false);
    assert!(r.result.is_ok(), "get_env failure must not block boot");
    assert_eq!(r.outcome, Some(ExtraBootArgsOutcome::ReadFailed));
}

#[test]
fn empty_config_is_noop_without_reboot() {
    let mut r = sync(&mut boot_args(&[]), MockBootEnv::new, true, false);
    assert!(
        r.result.is_ok(),
        "empty config must not reboot on fresh flash"
    );
    assert!(r.outcome.is_none());
    assert_eq!(args_of(&mut r), None);
}

#[test]
fn empty_args_delete_stale_value_and_request_reboot() {
    let make = || MockBootEnv::new().with_env(BootEnvKey::ExtraBootArgs, "stale=1");
    let mut r = sync(&mut boot_args(&[]), make, true, false);
    assert!(matches!(r.result, Err(InitramfsError::ExtraBootArgsUpdated)));
    assert_eq!(args_of(&mut r), None);
}

#[test]
fn set_env_error_records_failed_without_reboot() {
    let make = || MockBootEnv::new().with_set_env_error();
    let r = sync(&mut quiet(), make, true, false);
    assert!(
        r.result.is_ok(),
        "transient set_env failure must not block boot"
    );
    assert_eq!(r.outcome, Some(ExtraBootArgsOutcome::SetEnvFailed));
}

#[test]
fn read_back_error_records_read_back_failed_without_reboot() {
    // First get_env (read current) succeeds; the read-back call fails.
    let make = || MockBootEnv::new().with_get_env_error_after(1);
    let r = sync(&mut quiet(), make, true, false);
    assert!(r.result.is_ok(), "read-back failure must not reboot");
    assert_eq!(r.outcome, Some(ExtraBootArgsOutcome::ReadBackFailed));
}

// ---- growth of the data partition ---------------------------------------

fn layout_with_data() -> PartitionLayout {
    let mut layout = empty_layout();
    layout
        .partitions
        .insert(PartitionName::Data, "/dev/sda8".to_string());
    layout
}

/// A system without any tool.
fn toolless() -> World {
    let mut world = World::new();
    world.exits.insert(String::new(), 127);
    world
}

fn degraded() -> BootEnvState<MockBootEnv> {
    BootEnvState::Degraded(BootEnvError::CommandFailed {
        command: "boot-env-tool".into(),
        reason: "test".into(),
    })
}

fn grow(
    layout: &PartitionLayout,
    make: impl Fn() -> BootEnvState<MockBootEnv>,
    first_boot: bool,
) -> (Result<(), String>, Option<ResizeOutcome>) {
    let r: Result<_, ()> = toolless().drive(|sys| {
        let mut ods_status = OdsStatus::new();
        ods_status.first_boot = first_boot;
        let mut ctx = InitSetupCtx {
            layout,
            table: PartitionTable::Gpt,
            boot_env: make(),
            ods_status,
            rootfs: "/tmp/x",
            update_pending: false,
            resize_data: true,
        };
        let result = match resize_step::run(&mut ctx, sys) {
            Err(Stop::Pending) => return Err(Stop::Pending),
            Err(Stop::Failed(e)) => Err(e.to_string()),
            Ok(()) => Ok(()),
        };
        Ok((result, ctx.ods_status.resize_data.map(|s| s.outcome)))
    });
    r.unwrap()
}

fn available() -> BootEnvState<MockBootEnv> {
    BootEnvState::Available(MockBootEnv::new())
}

#[test]
fn resize_data_skips_when_not_first_boot() {
    let (result, outcome) = grow(&layout_with_data(), available, false);
    assert!(result.is_ok());
    assert!(
        outcome.is_none(),
        "non-first-boot path must not record a resize_data status"
    );
}

#[test]
fn first_boot_with_available_env_attempts_resize() {
    let (result, outcome) = grow(&layout_with_data(), available, true);
    assert!(
        result.is_ok(),
        "tool errors must be absorbed; got: {result:?}"
    );
    assert_eq!(outcome, Some(ResizeOutcome::ToolError));
}

#[test]
fn degraded_env_runs_resize_without_guard() {
    let (result, _) = grow(&empty_layout(), degraded, false);
    assert!(result.is_ok());
}

#[test]
fn degraded_env_with_data_layout_absorbs_tool_error() {
    let (result, outcome) = grow(&layout_with_data(), degraded, false);
    assert!(
        result.is_ok(),
        "tool errors must be absorbed; got: {result:?}"
    );
    assert!(
        outcome.is_some(),
        "ods_status.resize_data must be set after a tool error"
    );
}

#[test]
fn fsck_requires_reboot_propagates_through_handle_result() {
    let err = InitramfsError::ResizeData(ResizeDataError::Filesystem(
        FilesystemError::FsckRequiresReboot {
            device: "/dev/sda5".to_string(),
            code: code(FsckExitCode::REBOOT_REQUIRED),
            output: String::new(),
        },
    ));
    let mut ods = OdsStatus::new();
    let result = handle_result(Err(err), &mut ods);
    assert!(result.is_err(), "FsckRequiresReboot must propagate as Err");
    assert!(
        ods.resize_data.is_none(),
        "FsckRequiresReboot must not record a resize_data indicator"
    );
}

#[test]
fn non_resize_data_error_propagates() {
    let err = InitramfsError::Bootloader(BootEnvError::CommandFailed {
        command: "boot-env-tool".into(),
        reason: "transient failure".into(),
    });
    let mut ods = OdsStatus::new();
    let result = handle_result(Err(err), &mut ods);
    assert!(
        result.is_err(),
        "non-ResizeData errors must propagate as Err"
    );
    assert!(
        ods.resize_data.is_none(),
        "non-ResizeData errors must not set a resize_data indicator"
    );
}

#[test]
fn invalid_layout_error_maps_to_invalid_layout_outcome() {
    let e = ResizeDataError::InvalidDevicePath("/dev/sda".to_string());
    assert_eq!(outcome_for(&e), ResizeOutcome::InvalidLayout);
}

#[test]
fn fsck_failed_maps_to_skipped_fsck_outcome() {
    let e = ResizeDataError::Filesystem(FilesystemError::FsckFailed {
        device: "/dev/sda5".to_string(),
        code: code(FsckExitCode::ERRORS_UNCORRECTED),
        output: "some errors".into(),
    });
    assert_eq!(outcome_for(&e), ResizeOutcome::SkippedFsck);
}

#[test]
fn command_failed_maps_to_tool_error_outcome() {
    let e = ResizeDataError::CommandFailed {
        command: "resize2fs".into(),
        code: 1,
        output: "failed".into(),
    };
    assert_eq!(outcome_for(&e), ResizeOutcome::ToolError);
}

#[test]
fn io_error_maps_to_tool_error_outcome() {
    let e = ResizeDataError::Io(IoError {
        kind: IoErrorKind::PermissionDenied,
        message: "permission denied".to_string(),
    });
    assert_eq!(outcome_for(&e), ResizeOutcome::ToolError);
}

fn preflight(
    layout: &PartitionLayout,
    make: impl Fn() -> BootEnvState<MockBootEnv>,
) -> Result<(), InitramfsError> {
    toolless().drive(|sys| {
        let mut ctx = PreflightCtx {
            layout,
            table: PartitionTable::Gpt,
            boot_env: make(),
            resize_data: true,
        };
        preflight_step::run(&mut ctx, sys)
    })
}

#[test]
fn skips_when_guard_present() {
    let make = || BootEnvState::Available(MockBootEnv::new().with_env(BootEnvKey::ResizedData, "1"));
    assert!(preflight(&layout_with_data(), make).is_ok());
}

fn degraded_grub() -> BootEnvState<MockBootEnv> {
    BootEnvState::Degraded(BootEnvError::CommandFailed {
        command: "grub-editenv".into(),
        reason: "test".into(),
    })
}

#[test]
fn degraded_env_skips_guard_write() {
    assert!(preflight(&empty_layout(), degraded_grub).is_ok());
}

#[test]
fn degraded_env_with_data_layout_guard_not_written() {
    match preflight(&layout_with_data(), degraded_grub) {
        Ok(()) => {}
        Err(InitramfsError::ResizeData(_)) => {}
        Err(InitramfsError::Filesystem(_)) => {}
        Err(e) => panic!("unexpected error — guard-write was reached: {}", e.to_string()),
    }
}
