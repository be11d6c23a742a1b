//! Preflight: conditional one-time prep steps that run after core mount
//! and the bootloader env is open, but before mode dispatch.
//!
//! Each step is idempotent — guarded by bootloader env or filesystem state so it
//! runs at most once per trigger.

pub mod resize_data;

use vstd::prelude::*;

use crate::bootloader::{BootEnv, BootEnvState};
use crate::error::InitramfsError;
use crate::partition::layout::PartitionTable;
use crate::partition::PartitionLayout;
use crate::system::{outcome, Session, Stop};

verus! {

/// Context passed to each preflight step.
pub struct PreflightCtx<'a, B: BootEnv> {
    pub layout: &'a PartitionLayout,
    pub table: PartitionTable,
    pub boot_env: BootEnvState<B>,
    /// Whether the image grows its data partition.
    pub resize_data: bool,
}

impl<'a, B: BootEnv> PreflightCtx<'a, B> {
    /// What no step changes: everything but the state of an open environment.
    pub open spec fn same_frame(self, earlier: Self) -> bool {
        &&& self.layout == earlier.layout
        &&& self.table == earlier.table
        &&& self.resize_data == earlier.resize_data
        &&& (earlier.boot_env is Degraded ==> self.boot_env == earlier.boot_env)
    }
}

/// Run all enabled preflight steps in order.
///
/// Steps are independent and idempotent. Order is intentional: resize-data
/// must run before any partition is mounted read-write.
pub fn run<B: BootEnv>(ctx: &mut PreflightCtx<B>, sys: &mut Session) -> (r: Result<(), Stop<InitramfsError>>)
    ensures
        final(ctx).same_frame(*old(ctx)),
        (final(sys)@, final(ctx).boot_env.state(), outcome(r)) == if old(ctx).resize_data {
            resize_data::guarded_resize::<B>(
                old(sys)@,
                old(ctx).boot_env.state(),
                old(ctx).layout@,
                old(ctx).table,
            )
        } else {
            (old(sys)@, old(ctx).boot_env.state(), Ok(()))
        },
{
    if ctx.resize_data {
        return resize_data::run(ctx, sys);
    }
    Ok(())
}

} // verus!
