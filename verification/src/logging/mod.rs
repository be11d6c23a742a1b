//! Logging infrastructure for initramfs
//!
//! This module provides the format of messages to /dev/kmsg with kernel log levels.

pub mod kmsg;

pub use self::kmsg::{disable_kmsg_ratelimit, disable_printk_ratelimit, KmsgRatelimitGuard};
