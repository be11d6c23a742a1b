//! Mount point paths for partitions relative to rootfs

use vstd::prelude::*;

verus! {

pub const BOOT: &'static str = "boot";

pub const CERT_PARTITION: &'static str = "mnt/cert";

pub const DATA_PARTITION: &'static str = "mnt/data";

pub const ETC_PARTITION: &'static str = "mnt/etc";

pub const FACTORY_PARTITION: &'static str = "mnt/factory";

pub const ROOT_CURRENT_PRIVATE: &'static str = "mnt/rootCurrentPrivate";

pub const VAR_VOLATILE: &'static str = "var/volatile";

} // verus!
