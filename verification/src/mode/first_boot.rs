//! The first boot of a device

use vstd::prelude::*;
use vstd::string::*;

use crate::bootloader::BootEnv;
use crate::error::{BootEnvError, InitErrorView, InitOutcome, InitramfsError};
use crate::filesystem::resize_data::{resize_if_needed, resized_and_guarded};
use crate::mode::{normal, BootContext};
use crate::partition::layout::{LayoutView, PartitionTable};
use crate::runtime::status::OdsView;
use crate::system::{outcome, Session, Stop, Transcript};

verus! {

/// The error of a first boot without a boot environment.
pub open spec fn no_bootloader() -> InitErrorView {
    InitramfsError::Bootloader(
        BootEnvError::CommandFailed {
            command: "first_boot::run"@,
            reason: "bootloader unavailable on first boot"@,
        },
    )
}

/// The first boot: grows the data partition and goes on with a normal boot.
pub open spec fn first_booted<B: BootEnv>(
    t: Transcript,
    s: Option<B::State>,
    o: OdsView,
    layout: LayoutView,
    table: PartitionTable,
    rootfs: Seq<char>,
    persistent_var_log: bool,
    init: Option<Seq<char>>,
    resize_data: bool,
) -> (Transcript, Option<B::State>, OdsView, InitOutcome<()>) {
    if s is None {
        (t, s, o, Err(Stop::Failed(no_bootloader())))
    } else {
        match resized_and_guarded::<B>(t, s, layout, table) {
            (t1, s1, Err(e)) => (t1, s1, o, Err(e)),
            (t1, s1, Ok(_)) => normal::booted::<B>(
                t1,
                s1,
                o,
                layout,
                rootfs,
                persistent_var_log,
                init,
                resize_data,
            ),
        }
    }
}

/// Grows the data partition, and goes on with a normal boot once that succeeded.
pub fn run<B: BootEnv>(ctx: &mut BootContext<B>, table: PartitionTable, sys: &mut Session) -> (r: Result<
    (),
    Stop<InitramfsError>,
>)
    ensures
        final(ctx).same_frame(*old(ctx)),
        (final(sys)@, final(ctx).boot_env.state(), final(ctx).ods_status@, outcome(r)) == first_booted::<B>(
            old(sys)@,
            old(ctx).boot_env.state(),
            old(ctx).ods_status@,
            old(ctx).layout@,
            table,
            old(ctx).rootfs@,
            old(ctx).config.overlay.persistent_var_log,
            old(ctx).wanted_init(),
            old(ctx).resize_data,
        ),
{
    let layout = ctx.layout;
    match ctx.boot_env.available_mut() {
        None => {
            return Err(
                Stop::Failed(
                    InitramfsError::Bootloader(
                        BootEnvError::CommandFailed {
                            command: String::from_str("first_boot::run"),
                            reason: String::from_str("bootloader unavailable on first boot"),
                        },
                    ),
                ),
            );
        },
        Some(bl) => match resize_if_needed(layout, table, Some(bl), sys) {
            Err(e) => {
                return Err(e);
            },
            Ok(()) => {},
        },
    }
    normal::run(ctx, sys)
}

} // verus!
