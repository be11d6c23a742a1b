//! Filesystem operations
//!
//! This module handles:
//! - Mounting and unmounting filesystems
//! - Running fsck before mounting
//! - Overlayfs setup for etc and home

pub mod boot_sequence;
pub mod fsck;
pub mod fsck_code;
pub mod mount;
pub mod mount_points;
pub mod overlayfs;
pub mod paths;
pub mod resize_data;

pub use self::boot_sequence::{
    drain_fsck_env, fsck_and_record, mount_core_partitions, mount_remaining_partitions, persist_fsck_results,
};
pub use self::fsck::{check_filesystem, check_filesystem_lenient, FsckResult};
pub use self::fsck_code::FsckExitCode;
pub use self::mount::{
    is_path_mounted, mount, mount_bind, mount_bind_private, mount_readwrite, mount_tmpfs, umount, FsType, MountOptions,
    MountPoint,
};
pub use self::overlayfs::{setup_data_overlay, setup_etc_overlay, setup_raw_rootfs_mount};
