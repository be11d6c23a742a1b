//! Partition management for omnect-os initramfs.
//!
//! Handles root device detection, partition layout, and symlink creation.

pub mod device;
pub mod layout;
pub mod symlinks;

pub use crate::error::PartitionError;

pub use self::device::{
    detect_root_device, device_from_path, parse_device_path, root_device_from_blkid, RootDevice,
};
pub use self::layout::{PartitionLayout, PartitionName, PartitionTable};
pub use self::symlinks::{create_omnect_symlinks, remove_omnect_symlinks, verify_symlinks};
