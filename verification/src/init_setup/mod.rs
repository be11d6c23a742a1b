//! Init setup: conditional one-time prep steps that run after core mount
//! and the bootloader env is open, but before mode dispatch.
//!
//! Steps are idempotent — guarded by bootloader env or filesystem state so each
//! runs at most once per trigger.

pub mod extra_bootargs;
pub mod resize_data;

use vstd::prelude::*;
use vstd::string::*;

use crate::bootloader::session_env::SessionEnv;
use crate::bootloader::{BootEnv, BootEnvState};
use crate::error::{InitOutcome, InitramfsError};
use crate::partition::layout::LayoutView;
use crate::partition::layout::PartitionTable;
use crate::partition::PartitionLayout;
use crate::runtime::status::{OdsStatus, OdsView};
use crate::system::{outcome, Session, Stop, Transcript};

verus! {

/// Context passed to each init setup step.
pub struct InitSetupCtx<'a, B: BootEnv> {
    pub layout: &'a PartitionLayout,
    pub table: PartitionTable,
    pub boot_env: BootEnvState<B>,
    pub ods_status: OdsStatus,
    pub rootfs: &'a str,
    /// OTA update in flight (`omnect_validate_update` set).
    pub update_pending: bool,
    /// Whether the image grows its data partition.
    pub resize_data: bool,
}

impl<'a, B: BootEnv> InitSetupCtx<'a, B> {
    /// What no step changes: everything but the status and the state of an open
    /// environment.
    pub open spec fn same_frame(self, earlier: Self) -> bool {
        &&& self.layout == earlier.layout
        &&& self.table == earlier.table
        &&& self.rootfs == earlier.rootfs
        &&& self.update_pending == earlier.update_pending
        &&& self.resize_data == earlier.resize_data
        &&& (earlier.boot_env is Degraded ==> self.boot_env == earlier.boot_env)
    }
}

/// All steps in order: the extra boot arguments first, which may ask for a reboot before the
/// data partition is touched.
#[verifier::opaque]
pub open spec fn set_up<B: BootEnv>(
    t: Transcript,
    s: Option<B::State>,
    o: OdsView,
    rootfs: Seq<char>,
    update_pending: bool,
    resize: bool,
    layout: LayoutView,
    table: PartitionTable,
) -> (Transcript, Option<B::State>, OdsView, InitOutcome<()>) {
    match extra_bootargs::synced::<B>(t, s, o, rootfs, update_pending) {
        (t1, s1, o1, Err(e)) => (t1, s1, o1, Err(e)),
        (t1, s1, o1, Ok(_)) => if resize {
            let r = resize_data::stepped(t1, s1 is Some, o1, layout, table);
            (r.0, s1, r.1, r.2)
        } else {
            (t1, s1, o1, Ok(()))
        },
    }
}

/// Run all enabled init setup steps in order.
///
/// Steps are independent and idempotent. Order is intentional: extra-bootargs
/// may reboot before resize-data touches any partition read-write.
pub fn run<B: BootEnv>(ctx: &mut InitSetupCtx<B>, sys: &mut Session) -> (r: Result<(), Stop<InitramfsError>>)
    ensures
        final(ctx).same_frame(*old(ctx)),
        (final(sys)@, final(ctx).boot_env.state(), final(ctx).ods_status@, outcome(r)) == set_up::<B>(
            old(sys)@,
            old(ctx).boot_env.state(),
            old(ctx).ods_status@,
            old(ctx).rootfs@,
            old(ctx).update_pending,
            old(ctx).resize_data,
            old(ctx).layout@,
            old(ctx).table,
        ),
{
    reveal(set_up::<SessionEnv>);
    match extra_bootargs::run(ctx, sys) {
        Err(e) => {
            return Err(e);
        },
        Ok(()) => {},
    }
    if ctx.resize_data {
        return resize_data::run(ctx, sys);
    }
    Ok(())
}

} // verus!
