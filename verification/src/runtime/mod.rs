//! Runtime setup and integration modules
//!
//! This module handles:
//! - omnect-device-service runtime file creation
//! - fs-link symbolic link creation
//! - switch_root to final rootfs

pub mod fs_link;
pub mod omnect_device_service;
pub mod status;
pub mod switch_root;

pub use self::fs_link::{create_fs_links, FsLinkConfig, LinkEntry};
pub use self::omnect_device_service::{create_ods_runtime_files, ODS_RUNTIME_DIR};

pub use self::switch_root::switch_root;
pub use self::status::{
    DegradedBootStatus, ExtraBootArgsOutcome, ExtraBootArgsStatus, FactoryResetStatus, FactoryResetStatusCode,
    FsckStatus, OdsStatus, ResizeOutcome, ResizeStatus,
};
