//! Preflight step: data partition auto-resize
//!
//! With boot env available: checks the `omnect_resized_data` guard and, if
//! absent, expands the data partition via `filesystem::resize_data`.
//!
//! On a degraded boot (boot env unavailable): runs resize without the
//! guard. Only reached on release-images; debug-images abort
//! before preflight executes.

use vstd::prelude::*;

use crate::bootloader::{env_lifted, lift_env, BootEnv, BootEnvKey};
use crate::error::{InitOutcome, InitramfsError};
use crate::filesystem::resize_data::{resize_if_needed, resized_and_guarded};
use crate::partition::layout::{LayoutView, PartitionTable};
use crate::preflight::PreflightCtx;
use crate::system::{outcome, Session, Stop, Transcript};

verus! {

/// Grows the data partition unless the guard is set.
pub open spec fn guarded_resize<B: BootEnv>(
    t: Transcript,
    s: Option<B::State>,
    layout: LayoutView,
    table: PartitionTable,
) -> (Transcript, Option<B::State>, InitOutcome<()>) {
    match s {
        None => resized_and_guarded::<B>(t, None, layout, table),
        Some(s0) => match B::reads(t, s0, BootEnvKey::ResizedData) {
            (t1, s1, Err(e)) => (t1, Some(s1), env_lifted(Err::<(), _>(e))),
            (t1, s1, Ok(Some(_))) => (t1, Some(s1), Ok(())),
            (t1, s1, Ok(None)) => resized_and_guarded::<B>(t1, Some(s1), layout, table),
        },
    }
}

pub fn run<B: BootEnv>(ctx: &mut PreflightCtx<B>, sys: &mut Session) -> (r: Result<(), Stop<InitramfsError>>)
    ensures
        final(ctx).same_frame(*old(ctx)),
        (final(sys)@, final(ctx).boot_env.state(), outcome(r)) == guarded_resize::<B>(
            old(sys)@,
            old(ctx).boot_env.state(),
            old(ctx).layout@,
            old(ctx).table,
        ),
{
    let layout = ctx.layout;
    let table = ctx.table;
    match ctx.boot_env.available_mut() {
        Some(bl) => match bl.get_env(BootEnvKey::ResizedData, sys) {
            Err(e) => lift_env(Err(e)),
            Ok(Some(_)) => Ok(()),
            Ok(None) => resize_if_needed(layout, table, Some(bl), sys),
        },
        None => resize_if_needed(layout, table, None::<&mut B>, sys),
    }
}

/// With the guard set, nothing is done but to read it, whatever the layout is.
pub proof fn law_guard_skips_resize<B: BootEnv>(t: Transcript, s: B::State, layout: LayoutView, table: PartitionTable)
    requires
        B::reads(t, s, BootEnvKey::ResizedData).2 matches Ok(Some(_)),
    ensures
        guarded_resize::<B>(t, Some(s), layout, table).0 == B::reads(t, s, BootEnvKey::ResizedData).0,
        guarded_resize::<B>(t, Some(s), layout, table).2 == InitOutcome::Ok(()),
{
}

} // verus!
