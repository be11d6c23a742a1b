//! The boot modes, run again

use vstd::prelude::*;

use crate::bootloader::session_env::{BootloaderKind, SessionEnv};
use crate::bootloader::BootEnvKey;
use crate::config::cmdline_loaded;
use crate::early_init::{essential, essential_mounted, mounted_early};
use crate::init_setup::extra_bootargs::{args_file_read, args_read, replaced, stored, synced};
use crate::init_setup::resize_data::{attempted, stepped};
use crate::init_setup::set_up;
use crate::mode::first_boot::first_booted;
use crate::mode::mode_detected;
use crate::mode::normal::{booted, concluded, layers_set_up, marker_written};
use crate::mode::resize_data::{
    cmd_ran, contents_grown, e2fsck_ran, expanded, mtab_ensured, mtab_found, resize_step, resized_once,
};
use crate::partition::layout::{LayoutView, PartitionTable};
use crate::preflight::resize_data::guarded_resize;
use crate::replay::bootloader::{replay_env_reads, replay_env_writes, replay_noted};
use crate::replay::filesystem::{
    replay_data_overlaid, replay_drained, replay_etc_overlaid, replay_grown, replay_persisted,
    replay_raw_rootfs_mounted, replay_remaining_mounted, replay_resized, replay_resized_and_guarded, replay_room_made,
};
use crate::replay::partition::{replay_all_linked, replay_detected};
use crate::replay::runtime::{replay_configured_links_created, replay_created, replay_switched};
use crate::replay::steps::replay_warned;
use crate::replay::{group_extends, group_replay, replayable};
use crate::runtime::status::OdsView;
use crate::system::{RequestView, Transcript};
use crate::{first_boot_in, judged, located, mode_in, pending_in};

verus! {

pub broadcast proof fn replay_cmdline_loaded(t: Transcript)
    ensures
        #![trigger cmdline_loaded(t)]
        replayable(t, |u: Transcript| cmdline_loaded(u)),
{
    broadcast use group_replay;

}

pub broadcast proof fn replay_mounted_early(t: Transcript, fstype: Seq<char>, target: Seq<char>)
    ensures
        #![trigger mounted_early(t, fstype, target)]
        replayable(t, |u: Transcript| mounted_early(u, fstype, target)),
{
    broadcast use group_replay;

}

pub broadcast proof fn replay_essential_mounted(t: Transcript, i: int)
    ensures
        #![trigger essential_mounted(t, i)]
        replayable(t, |u: Transcript| essential_mounted(u, i)),
    decreases 4 - i,
{
    broadcast use {group_replay, replay_mounted_early};

    if 0 <= i < 4 {
        let (fstype, target) = essential()[i];
        assert forall|u: Transcript|
            #![trigger mounted_early(u, fstype, target)]
            replayable(mounted_early(u, fstype, target).0, |v: Transcript| essential_mounted(v, i + 1)) by {
            replay_essential_mounted(mounted_early(u, fstype, target).0, i + 1);
        }
    }
}

pub broadcast proof fn replay_args_file_read(t: Transcript, path: Seq<char>)
    ensures
        #![trigger args_file_read(t, path)]
        replayable(t, |u: Transcript| args_file_read(u, path)),
{
    broadcast use group_replay;

}

pub broadcast proof fn replay_args_read(t: Transcript, boot_dir: Seq<char>)
    ensures
        #![trigger args_read(t, boot_dir)]
        replayable(t, |u: Transcript| args_read(u, boot_dir)),
{
    broadcast use {group_extends, replay_args_file_read};

}

pub broadcast proof fn replay_stored(t: Transcript, s: BootloaderKind, args: Seq<char>)
    ensures
        #![trigger stored::<SessionEnv>(t, s, args)]
        replayable(t, |u: Transcript| stored::<SessionEnv>(u, s, args)),
{
    broadcast use {group_extends, replay_env_writes, replay_env_reads};

}

pub broadcast proof fn replay_replaced(t: Transcript, s: BootloaderKind, args: Seq<char>)
    ensures
        #![trigger replaced::<SessionEnv>(t, s, args)]
        replayable(t, |u: Transcript| replaced::<SessionEnv>(u, s, args)),
{
    broadcast use {group_extends, replay_env_reads, replay_stored};

}

pub broadcast proof fn replay_synced(
    t: Transcript,
    s: Option<BootloaderKind>,
    o: OdsView,
    rootfs: Seq<char>,
    update_pending: bool,
)
    ensures
        #![trigger synced::<SessionEnv>(t, s, o, rootfs, update_pending)]
        replayable(t, |u: Transcript| synced::<SessionEnv>(u, s, o, rootfs, update_pending)),
{
    broadcast use {group_replay, replay_args_read, replay_replaced};

}

pub broadcast proof fn replay_attempted(
    t: Transcript,
    env_available: bool,
    o: OdsView,
    layout: LayoutView,
    table: PartitionTable,
)
    ensures
        #![trigger attempted(t, env_available, o, layout, table)]
        replayable(t, |u: Transcript| attempted(u, env_available, o, layout, table)),
{
    broadcast use {group_extends, replay_resized};

}

pub broadcast proof fn replay_stepped(
    t: Transcript,
    env_available: bool,
    o: OdsView,
    layout: LayoutView,
    table: PartitionTable,
)
    ensures
        #![trigger stepped(t, env_available, o, layout, table)]
        replayable(t, |u: Transcript| stepped(u, env_available, o, layout, table)),
{
    broadcast use {group_extends, replay_attempted, replay_warned};

}

pub broadcast proof fn replay_set_up(
    t: Transcript,
    s: Option<BootloaderKind>,
    o: OdsView,
    rootfs: Seq<char>,
    update_pending: bool,
    resize: bool,
    layout: LayoutView,
    table: PartitionTable,
)
    ensures
        #![trigger set_up::<SessionEnv>(t, s, o, rootfs, update_pending, resize, layout, table)]
        replayable(t, |u: Transcript| set_up::<SessionEnv>(u, s, o, rootfs, update_pending, resize, layout, table)),
{
    broadcast use {group_extends, replay_synced, replay_stepped};

    reveal(set_up::<SessionEnv>);
}

pub broadcast proof fn replay_judged(
    t: Transcript,
    s: Option<BootloaderKind>,
    key: BootEnvKey,
    verdict: spec_fn(Option<Seq<char>>) -> bool,
)
    ensures
        #![trigger judged::<SessionEnv>(t, s, key, verdict)]
        replayable(t, |u: Transcript| judged::<SessionEnv>(u, s, key, verdict)),
{
    broadcast use {group_extends, replay_env_reads};

}

pub broadcast proof fn replay_pending_in(t: Transcript, s: Option<BootloaderKind>)
    ensures
        #![trigger pending_in::<SessionEnv>(t, s)]
        replayable(t, |u: Transcript| pending_in::<SessionEnv>(u, s)),
{
    broadcast use {group_extends, replay_judged};

}

pub broadcast proof fn replay_first_boot_in(t: Transcript, s: Option<BootloaderKind>)
    ensures
        #![trigger first_boot_in::<SessionEnv>(t, s)]
        replayable(t, |u: Transcript| first_boot_in::<SessionEnv>(u, s)),
{
    broadcast use {group_extends, replay_judged};

}

pub broadcast proof fn replay_located(t: Transcript, table: PartitionTable)
    ensures
        #![trigger located(t, table)]
        replayable(t, |u: Transcript| located(u, table)),
{
    broadcast use {group_extends, replay_cmdline_loaded, replay_detected, replay_all_linked};

    reveal(located);
}

pub broadcast proof fn replay_mode_detected(t: Transcript, s: Option<BootloaderKind>)
    ensures
        #![trigger mode_detected::<SessionEnv>(t, s)]
        replayable(t, |u: Transcript| mode_detected::<SessionEnv>(u, s)),
{
    broadcast use {group_extends, replay_env_reads};

}

pub broadcast proof fn replay_mode_in(t: Transcript, s: Option<BootloaderKind>, factory_reset: bool)
    ensures
        #![trigger mode_in::<SessionEnv>(t, s, factory_reset)]
        replayable(t, |u: Transcript| mode_in::<SessionEnv>(u, s, factory_reset)),
{
    broadcast use {group_extends, replay_mode_detected};

    reveal(mode_in::<SessionEnv>);
}

pub broadcast proof fn replay_layers_set_up(t: Transcript, rootfs: Seq<char>, persistent_var_log: bool)
    ensures
        #![trigger layers_set_up(t, rootfs, persistent_var_log)]
        replayable(t, |u: Transcript| layers_set_up(u, rootfs, persistent_var_log)),
{
    broadcast use {
        group_extends,
        replay_raw_rootfs_mounted,
        replay_etc_overlaid,
        replay_data_overlaid,
        replay_configured_links_created,
    };

}

pub broadcast proof fn replay_marker_written(t: Transcript, s: Option<BootloaderKind>, due: bool)
    ensures
        #![trigger marker_written::<SessionEnv>(t, s, due)]
        replayable(t, |u: Transcript| marker_written::<SessionEnv>(u, s, due)),
{
    broadcast use {group_extends, replay_noted};

}

pub broadcast proof fn replay_concluded(
    t: Transcript,
    s: Option<BootloaderKind>,
    o: OdsView,
    rootfs: Seq<char>,
    init: Option<Seq<char>>,
    resize_data: bool,
)
    ensures
        #![trigger concluded::<SessionEnv>(t, s, o, rootfs, init, resize_data)]
        replayable(t, |u: Transcript| concluded::<SessionEnv>(u, s, o, rootfs, init, resize_data)),
{
    broadcast use {group_extends, replay_drained, replay_created, replay_marker_written, replay_switched};

}

pub broadcast proof fn replay_booted(
    t: Transcript,
    s: Option<BootloaderKind>,
    o: OdsView,
    layout: LayoutView,
    rootfs: Seq<char>,
    persistent_var_log: bool,
    init: Option<Seq<char>>,
    resize_data: bool,
)
    ensures
        #![trigger booted::<SessionEnv>(t, s, o, layout, rootfs, persistent_var_log, init, resize_data)]
        replayable(
            t,
            |u: Transcript| booted::<SessionEnv>(u, s, o, layout, rootfs, persistent_var_log, init, resize_data),
        ),
{
    broadcast use {group_extends, replay_remaining_mounted, replay_persisted, replay_layers_set_up, replay_concluded};

}

pub broadcast proof fn replay_first_booted(
    t: Transcript,
    s: Option<BootloaderKind>,
    o: OdsView,
    layout: LayoutView,
    table: PartitionTable,
    rootfs: Seq<char>,
    persistent_var_log: bool,
    init: Option<Seq<char>>,
    resize_data: bool,
)
    ensures
        #![trigger first_booted::<SessionEnv>(t, s, o, layout, table, rootfs, persistent_var_log, init, resize_data)]
        replayable(
            t,
            |u: Transcript|
                first_booted::<SessionEnv>(u, s, o, layout, table, rootfs, persistent_var_log, init, resize_data),
        ),
{
    broadcast use {group_extends, replay_resized_and_guarded, replay_booted};

}

pub broadcast proof fn replay_resize_step(t: Transcript, request: RequestView)
    ensures
        #![trigger resize_step(t, request)]
        replayable(t, |u: Transcript| resize_step(u, request)),
{
    broadcast use group_replay;

}

pub broadcast proof fn replay_mtab_found(t: Transcript)
    ensures
        #![trigger mtab_found(t)]
        replayable(t, |u: Transcript| mtab_found(u)),
{
    broadcast use group_replay;

}

pub broadcast proof fn replay_mtab_ensured(t: Transcript)
    ensures
        #![trigger mtab_ensured(t)]
        replayable(t, |u: Transcript| mtab_ensured(u)),
{
    broadcast use {group_replay, replay_mtab_found, replay_resize_step};

}

pub broadcast proof fn replay_e2fsck_ran(t: Transcript, dev: Seq<char>)
    ensures
        #![trigger e2fsck_ran(t, dev)]
        replayable(t, |u: Transcript| e2fsck_ran(u, dev)),
{
    broadcast use group_replay;

}

pub broadcast proof fn replay_cmd_ran(t: Transcript, program: Seq<char>, args: Seq<Seq<char>>)
    ensures
        #![trigger cmd_ran(t, program, args)]
        replayable(t, |u: Transcript| cmd_ran(u, program, args)),
{
    broadcast use group_replay;

}

pub broadcast proof fn replay_contents_grown(t: Transcript, dev: Seq<char>)
    ensures
        #![trigger contents_grown(t, dev)]
        replayable(t, |u: Transcript| contents_grown(u, dev)),
{
    broadcast use {group_extends, replay_mtab_ensured, replay_e2fsck_ran, replay_cmd_ran};

}

pub broadcast proof fn replay_expanded(t: Transcript, base: Seq<char>, dev: Seq<char>, table: PartitionTable)
    ensures
        #![trigger expanded(t, base, dev, table)]
        replayable(t, |u: Transcript| expanded(u, base, dev, table)),
{
    broadcast use {group_extends, replay_room_made, replay_grown, replay_contents_grown};

}

pub broadcast proof fn replay_resized_once(t: Transcript, s: BootloaderKind, layout: LayoutView, table: PartitionTable)
    ensures
        #![trigger resized_once::<SessionEnv>(t, s, layout, table)]
        replayable(t, |u: Transcript| resized_once::<SessionEnv>(u, s, layout, table)),
{
    broadcast use {group_extends, replay_env_reads, replay_expanded, replay_env_writes};

}

pub broadcast proof fn replay_guarded_resize(
    t: Transcript,
    s: Option<BootloaderKind>,
    layout: LayoutView,
    table: PartitionTable,
)
    ensures
        #![trigger guarded_resize::<SessionEnv>(t, s, layout, table)]
        replayable(t, |u: Transcript| guarded_resize::<SessionEnv>(u, s, layout, table)),
{
    broadcast use {group_extends, replay_resized_and_guarded, replay_env_reads};

}

} // verus!
