//! Standard paths relative to rootfs

use vstd::prelude::*;

verus! {

pub const ETC: &'static str = "etc";

pub const HOME: &'static str = "home";

pub const VAR_LIB: &'static str = "var/lib";

/// Subdirectory on the data partition that is bind-mounted to /usr/local.
/// The data partition layout omits the "usr/" prefix.
pub const DATA_LOCAL_DIR: &'static str = "local";

pub const USR_LOCAL: &'static str = "usr/local";

pub const VAR_LOG: &'static str = "var/log";

} // verus!
