//! The filesystem setup, run again

use vstd::prelude::*;

use crate::bootloader::session_env::{BootloaderKind, SessionEnv};
use crate::filesystem::boot_sequence::{
    boot_mounted, checked_and_mounted, checked_and_recorded, core_mounted, drained, drained_from, drained_one,
    fsck_partitions, log_written, logged, mounted_and_tracked, mounted_unless_there, persisted, persisted_from,
    readonly_options, remaining, remaining_mounted, rest_mounted, saved_in, writable_options,
};
use crate::filesystem::fsck::{checked, checked_leniently, fsck_ran};
use crate::filesystem::fsck_code::FsckExitCode;
use crate::filesystem::mount::{
    all_unmounted, bound_private, mount_checked, mounted, unmounted, FsErrorView, FsType, MountOptionsView,
    MountPointView,
};
use crate::filesystem::overlayfs::{
    bound, contents_copied, data_overlaid, dir_ensured, dirs_ensured, emptiness, etc_overlaid, home_overlaid, overlaid,
    raw_rootfs_mounted, upper_seeded,
};
use crate::filesystem::resize_data::{
    extended_found, filesystem_grown, grown, guarded, resized, resized_and_guarded, room_made, tool_ran,
};
use crate::logging::kmsg::{lifted, limits_written, restored};
use crate::partition::layout::{LayoutView, PartitionName, PartitionTable};
use crate::replay::bootloader::{replay_env_clears, replay_env_recalls, replay_env_saves, replay_noted};
use crate::replay::steps::{replay_io_step, replay_warned};
use crate::replay::{group_extends, group_replay, replayable};
use crate::runtime::status::{FsckView, OdsView};
use crate::system::Transcript;

verus! {

pub broadcast proof fn replay_limits_written(t: Transcript, ratelimit: Seq<char>, burst: Seq<char>)
    ensures
        #![trigger limits_written(t, ratelimit, burst)]
        replayable(t, |u: Transcript| limits_written(u, ratelimit, burst)),
{
    broadcast use group_replay;

}

pub broadcast proof fn replay_lifted(t: Transcript)
    ensures
        #![trigger lifted(t)]
        replayable(t, |u: Transcript| lifted(u)),
{
    broadcast use {group_replay, replay_limits_written};

}

pub broadcast proof fn replay_restored(t: Transcript, saved: Option<(Seq<char>, Seq<char>)>)
    ensures
        #![trigger restored(t, saved)]
        replayable(t, |u: Transcript| restored(u, saved)),
{
    broadcast use {group_extends, replay_limits_written};

}

pub broadcast proof fn replay_fsck_ran(t: Transcript, device: Seq<char>, fstype: FsType)
    ensures
        #![trigger fsck_ran(t, device, fstype)]
        replayable(t, |u: Transcript| fsck_ran(u, device, fstype)),
{
    broadcast use {group_replay, replay_lifted, replay_restored};

}

pub broadcast proof fn replay_checked_leniently(t: Transcript, device: Seq<char>, fstype: FsType)
    ensures
        #![trigger checked_leniently(t, device, fstype)]
        replayable(t, |u: Transcript| checked_leniently(u, device, fstype)),
{
    broadcast use {group_extends, replay_fsck_ran, replay_warned};

}

pub broadcast proof fn replay_checked_and_recorded(
    t: Transcript,
    o: OdsView,
    dev: Seq<char>,
    name: PartitionName,
    fstype: FsType,
)
    ensures
        #![trigger checked_and_recorded(t, o, dev, name, fstype)]
        replayable(t, |u: Transcript| checked_and_recorded(u, o, dev, name, fstype)),
{
    broadcast use {group_extends, replay_checked_leniently};

}

pub broadcast proof fn replay_mounted(t: Transcript, mp: MountPointView)
    ensures
        #![trigger mounted(t, mp)]
        replayable(t, |u: Transcript| mounted(u, mp)),
{
    broadcast use group_replay;

}

pub broadcast proof fn replay_checked_and_mounted(
    t: Transcript,
    o: OdsView,
    dev: Seq<char>,
    name: PartitionName,
    fstype: FsType,
    target: Seq<char>,
    options: MountOptionsView,
)
    ensures
        #![trigger checked_and_mounted(t, o, dev, name, fstype, target, options)]
        replayable(t, |u: Transcript| checked_and_mounted(u, o, dev, name, fstype, target, options)),
{
    broadcast use {group_extends, replay_checked_and_recorded, replay_mounted};

}

pub broadcast proof fn replay_mount_checked(t: Transcript, path: Seq<char>)
    ensures
        #![trigger mount_checked(t, path)]
        replayable(t, |u: Transcript| mount_checked(u, path)),
{
    broadcast use group_replay;

}

pub broadcast proof fn replay_boot_mounted(t: Transcript, o: OdsView, layout: LayoutView, rootfs: Seq<char>)
    ensures
        #![trigger boot_mounted(t, o, layout, rootfs)]
        replayable(t, |u: Transcript| boot_mounted(u, o, layout, rootfs)),
{
    broadcast use {group_extends, replay_mount_checked, replay_checked_and_mounted};

}

pub broadcast proof fn replay_core_mounted(t: Transcript, o: OdsView, layout: LayoutView, rootfs: Seq<char>)
    ensures
        #![trigger core_mounted(t, o, layout, rootfs)]
        replayable(t, |u: Transcript| core_mounted(u, o, layout, rootfs)),
{
    broadcast use {group_extends, replay_io_step, replay_mounted, replay_boot_mounted};

}

pub broadcast proof fn replay_mounted_and_tracked(
    t: Transcript,
    o: OdsView,
    mounts: Seq<Seq<char>>,
    layout: LayoutView,
    rootfs: Seq<char>,
    name: PartitionName,
    point: Seq<char>,
    options: MountOptionsView,
    fstype: FsType,
)
    ensures
        #![trigger mounted_and_tracked(t, o, mounts, layout, rootfs, name, point, options, fstype)]
        replayable(t, |u: Transcript| mounted_and_tracked(u, o, mounts, layout, rootfs, name, point, options, fstype)),
{
    broadcast use {group_extends, replay_checked_and_mounted};

}

pub broadcast proof fn replay_mounted_unless_there(
    t: Transcript,
    o: OdsView,
    layout: LayoutView,
    rootfs: Seq<char>,
    name: PartitionName,
    point: Seq<char>,
    options: MountOptionsView,
)
    ensures
        #![trigger mounted_unless_there(t, o, layout, rootfs, name, point, options)]
        replayable(t, |u: Transcript| mounted_unless_there(u, o, layout, rootfs, name, point, options)),
{
    broadcast use {group_extends, replay_mount_checked, replay_checked_and_mounted, replay_warned};

    reveal(mounted_unless_there);
}

pub broadcast proof fn replay_rest_mounted(t: Transcript, o: OdsView, layout: LayoutView, rootfs: Seq<char>, i: int)
    ensures
        #![trigger rest_mounted(t, o, layout, rootfs, i)]
        replayable(t, |u: Transcript| rest_mounted(u, o, layout, rootfs, i)),
    decreases 4 - i,
{
    broadcast use {group_extends, replay_mounted_unless_there};

    if 0 <= i < 4 {
        let (name, point, writable) = remaining()[i];
        let options = if writable {
            writable_options()
        } else {
            readonly_options()
        };
        assert forall|u: Transcript|
            #![trigger mounted_unless_there(u, o, layout, rootfs, name, point, options)]
            {
                let x = mounted_unless_there(u, o, layout, rootfs, name, point, options);
                replayable(x.0, |v: Transcript| rest_mounted(v, x.1, layout, rootfs, i + 1))
            } by {
            let x = mounted_unless_there(u, o, layout, rootfs, name, point, options);
            replay_rest_mounted(x.0, x.1, layout, rootfs, i + 1);
        }
    }
}

pub broadcast proof fn replay_remaining_mounted(t: Transcript, o: OdsView, layout: LayoutView, rootfs: Seq<char>)
    ensures
        #![trigger remaining_mounted(t, o, layout, rootfs)]
        replayable(t, |u: Transcript| remaining_mounted(u, o, layout, rootfs)),
{
    broadcast use {group_extends, replay_rest_mounted, replay_mounted};

}

pub broadcast proof fn replay_log_written(
    t: Transcript,
    log_dir: Seq<char>,
    partition: PartitionName,
    output: Seq<char>,
)
    ensures
        #![trigger log_written(t, log_dir, partition, output)]
        replayable(t, |u: Transcript| log_written(u, log_dir, partition, output)),
{
    broadcast use group_replay;

}

pub broadcast proof fn replay_logged(
    t: Transcript,
    log_dir: Seq<char>,
    data_mounted: bool,
    name: PartitionName,
    output: Seq<char>,
)
    ensures
        #![trigger logged(t, log_dir, data_mounted, name, output)]
        replayable(t, |u: Transcript| logged(u, log_dir, data_mounted, name, output)),
{
    broadcast use {group_replay, replay_log_written, replay_warned};

    reveal(logged);
}

pub broadcast proof fn replay_saved_in(
    t: Transcript,
    s: Option<BootloaderKind>,
    name: PartitionName,
    code: FsckExitCode,
    output: Seq<char>,
)
    ensures
        #![trigger saved_in::<SessionEnv>(t, s, name, code, output)]
        replayable(t, |u: Transcript| saved_in::<SessionEnv>(u, s, name, code, output)),
{
    broadcast use {group_extends, replay_env_saves, replay_warned};

}

pub broadcast proof fn replay_persisted_from(
    t: Transcript,
    s: Option<BootloaderKind>,
    fsck: Seq<(PartitionName, FsckView)>,
    log_dir: Seq<char>,
    data_mounted: bool,
    i: int,
)
    ensures
        #![trigger persisted_from::<SessionEnv>(t, s, fsck, log_dir, data_mounted, i)]
        replayable(t, |u: Transcript| persisted_from::<SessionEnv>(u, s, fsck, log_dir, data_mounted, i)),
    decreases fsck.len() - i,
{
    broadcast use {group_extends, replay_saved_in, replay_logged};

    if 0 <= i < fsck.len() {
        let (name, result) = fsck[i];
        let code = FsckExitCode(result.code);
        replay_persisted_from(t, s, fsck, log_dir, data_mounted, i + 1);
        assert forall|u: Transcript|
            #![trigger saved_in::<SessionEnv>(u, s, name, code, result.output)]
            {
                let x = saved_in::<SessionEnv>(u, s, name, code, result.output);
                let y = logged(x.0, log_dir, data_mounted, name, result.output);
                replayable(
                    y.0,
                    |v: Transcript| persisted_from::<SessionEnv>(v, x.1, fsck, log_dir, data_mounted, i + 1),
                )
            } by {
            let x = saved_in::<SessionEnv>(u, s, name, code, result.output);
            let y = logged(x.0, log_dir, data_mounted, name, result.output);
            replay_persisted_from(y.0, x.1, fsck, log_dir, data_mounted, i + 1);
        }
    }
}

pub broadcast proof fn replay_persisted(t: Transcript, s: Option<BootloaderKind>, o: OdsView, rootfs: Seq<char>)
    ensures
        #![trigger persisted::<SessionEnv>(t, s, o, rootfs)]
        replayable(t, |u: Transcript| persisted::<SessionEnv>(u, s, o, rootfs)),
{
    broadcast use {group_extends, replay_mount_checked, replay_persisted_from};

}

pub broadcast proof fn replay_drained_one(t: Transcript, o: OdsView, s: BootloaderKind, partition: PartitionName)
    ensures
        #![trigger drained_one::<SessionEnv>(t, o, s, partition)]
        replayable(t, |u: Transcript| drained_one::<SessionEnv>(u, o, s, partition)),
{
    broadcast use {group_extends, replay_env_recalls, replay_env_clears, replay_warned};

}

pub broadcast proof fn replay_drained_from(t: Transcript, o: OdsView, s: BootloaderKind, i: int)
    ensures
        #![trigger drained_from::<SessionEnv>(t, o, s, i)]
        replayable(t, |u: Transcript| drained_from::<SessionEnv>(u, o, s, i)),
    decreases 5 - i,
{
    broadcast use {group_extends, replay_drained_one};

    if 0 <= i < 5 {
        let partition = fsck_partitions()[i];
        assert forall|u: Transcript|
            #![trigger drained_one::<SessionEnv>(u, o, s, partition)]
            {
                let x = drained_one::<SessionEnv>(u, o, s, partition);
                replayable(x.0, |v: Transcript| drained_from::<SessionEnv>(v, x.1, x.2, i + 1))
            } by {
            let x = drained_one::<SessionEnv>(u, o, s, partition);
            replay_drained_from(x.0, x.1, x.2, i + 1);
        }
    }
}

pub broadcast proof fn replay_drained(t: Transcript, o: OdsView, s: Option<BootloaderKind>)
    ensures
        #![trigger drained::<SessionEnv>(t, o, s)]
        replayable(t, |u: Transcript| drained::<SessionEnv>(u, o, s)),
{
    broadcast use {group_extends, replay_drained_from};

}

pub broadcast proof fn replay_checked(t: Transcript, device: Seq<char>, fstype: FsType)
    ensures
        #![trigger checked(t, device, fstype)]
        replayable(t, |u: Transcript| checked(u, device, fstype)),
{
    broadcast use {group_extends, replay_fsck_ran};

}

pub broadcast proof fn replay_bound_private(t: Transcript, source: Seq<char>, target: Seq<char>)
    ensures
        #![trigger bound_private(t, source, target)]
        replayable(t, |u: Transcript| bound_private(u, source, target)),
{
    broadcast use {group_replay, replay_mounted};

}

pub broadcast proof fn replay_unmounted(t: Transcript, target: Seq<char>)
    ensures
        #![trigger unmounted(t, target)]
        replayable(t, |u: Transcript| unmounted(u, target)),
{
    broadcast use group_replay;

}

pub broadcast proof fn replay_all_unmounted(t: Transcript, mounts: Seq<Seq<char>>, first: Option<FsErrorView>)
    ensures
        #![trigger all_unmounted(t, mounts, first)]
        replayable(t, |u: Transcript| all_unmounted(u, mounts, first)),
    decreases mounts.len(),
{
    broadcast use {group_extends, replay_unmounted};

    if mounts.len() > 0 {
        let target = mounts.last();
        let fewer = mounts.drop_last();
        assert forall|u: Transcript|
            #![trigger unmounted(u, target)]
            {
                let x = unmounted(u, target);
                let e = if first is Some {
                    first
                } else {
                    Some(x.1->Err_0->Failed_0)
                };
                &&& replayable(x.0, |v: Transcript| all_unmounted(v, fewer, first))
                &&& replayable(x.0, |v: Transcript| all_unmounted(v, fewer, e))
            } by {
            let x = unmounted(u, target);
            let e = if first is Some {
                first
            } else {
                Some(x.1->Err_0->Failed_0)
            };
            replay_all_unmounted(x.0, fewer, first);
            replay_all_unmounted(x.0, fewer, e);
        }
    }
}

pub broadcast proof fn replay_dir_ensured(t: Transcript, path: Seq<char>)
    ensures
        #![trigger dir_ensured(t, path)]
        replayable(t, |u: Transcript| dir_ensured(u, path)),
{
    broadcast use group_replay;

}

pub broadcast proof fn replay_dirs_ensured(t: Transcript, first: Seq<char>, second: Seq<char>)
    ensures
        #![trigger dirs_ensured(t, first, second)]
        replayable(t, |u: Transcript| dirs_ensured(u, first, second)),
{
    broadcast use {group_extends, replay_dir_ensured};

}

pub broadcast proof fn replay_emptiness(t: Transcript, path: Seq<char>)
    ensures
        #![trigger emptiness(t, path)]
        replayable(t, |u: Transcript| emptiness(u, path)),
{
    broadcast use group_replay;

}

pub broadcast proof fn replay_contents_copied(t: Transcript, src: Seq<char>, dst: Seq<char>)
    ensures
        #![trigger contents_copied(t, src, dst)]
        replayable(t, |u: Transcript| contents_copied(u, src, dst)),
{
    broadcast use group_replay;

}

pub broadcast proof fn replay_overlaid(
    t: Transcript,
    lower: Seq<char>,
    upper: Seq<char>,
    work: Seq<char>,
    target: Seq<char>,
)
    ensures
        #![trigger overlaid(t, lower, upper, work, target)]
        replayable(t, |u: Transcript| overlaid(u, lower, upper, work, target)),
{
    broadcast use {group_extends, replay_mounted};

}

pub broadcast proof fn replay_upper_seeded(t: Transcript, upper: Seq<char>, factory: Seq<char>)
    ensures
        #![trigger upper_seeded(t, upper, factory)]
        replayable(t, |u: Transcript| upper_seeded(u, upper, factory)),
{
    broadcast use {group_extends, replay_emptiness, replay_contents_copied};

}

pub broadcast proof fn replay_etc_overlaid(t: Transcript, mounts: Seq<Seq<char>>, rootfs: Seq<char>)
    ensures
        #![trigger etc_overlaid(t, mounts, rootfs)]
        replayable(t, |u: Transcript| etc_overlaid(u, mounts, rootfs)),
{
    broadcast use {group_extends, replay_dirs_ensured, replay_upper_seeded, replay_overlaid};

    reveal(etc_overlaid);
}

pub broadcast proof fn replay_home_overlaid(t: Transcript, mounts: Seq<Seq<char>>, rootfs: Seq<char>, data: Seq<char>)
    ensures
        #![trigger home_overlaid(t, mounts, rootfs, data)]
        replayable(t, |u: Transcript| home_overlaid(u, mounts, rootfs, data)),
{
    broadcast use {group_extends, replay_dir_ensured, replay_dirs_ensured, replay_overlaid};

}

pub broadcast proof fn replay_bound(t: Transcript, mounts: Seq<Seq<char>>, source: Seq<char>, target: Seq<char>)
    ensures
        #![trigger bound(t, mounts, source, target)]
        replayable(t, |u: Transcript| bound(u, mounts, source, target)),
{
    broadcast use {group_extends, replay_dirs_ensured, replay_mounted};

}

pub broadcast proof fn replay_data_overlaid(
    t: Transcript,
    mounts: Seq<Seq<char>>,
    rootfs: Seq<char>,
    persistent_var_log: bool,
)
    ensures
        #![trigger data_overlaid(t, mounts, rootfs, persistent_var_log)]
        replayable(t, |u: Transcript| data_overlaid(u, mounts, rootfs, persistent_var_log)),
{
    broadcast use {group_extends, replay_home_overlaid, replay_bound};

    reveal(data_overlaid);
}

pub broadcast proof fn replay_raw_rootfs_mounted(t: Transcript, rootfs: Seq<char>)
    ensures
        #![trigger raw_rootfs_mounted(t, rootfs)]
        replayable(t, |u: Transcript| raw_rootfs_mounted(u, rootfs)),
{
    broadcast use {group_extends, replay_dir_ensured, replay_bound_private};

}

pub broadcast proof fn replay_tool_ran(t: Transcript, program: Seq<char>, args: Seq<Seq<char>>)
    ensures
        #![trigger tool_ran(t, program, args)]
        replayable(t, |u: Transcript| tool_ran(u, program, args)),
{
    broadcast use group_replay;

}

pub broadcast proof fn replay_extended_found(t: Transcript, rootblk: Seq<char>)
    ensures
        #![trigger extended_found(t, rootblk)]
        replayable(t, |u: Transcript| extended_found(u, rootblk)),
{
    broadcast use group_replay;

}

pub broadcast proof fn replay_grown(t: Transcript, rootblk: Seq<char>, number: nat)
    ensures
        #![trigger grown(t, rootblk, number)]
        replayable(t, |u: Transcript| grown(u, rootblk, number)),
{
    broadcast use {group_extends, replay_tool_ran};

}

pub broadcast proof fn replay_room_made(t: Transcript, rootblk: Seq<char>, table: PartitionTable)
    ensures
        #![trigger room_made(t, rootblk, table)]
        replayable(t, |u: Transcript| room_made(u, rootblk, table)),
{
    broadcast use {group_extends, replay_tool_ran, replay_extended_found, replay_grown};

}

pub broadcast proof fn replay_filesystem_grown(t: Transcript, dev: Seq<char>)
    ensures
        #![trigger filesystem_grown(t, dev)]
        replayable(t, |u: Transcript| filesystem_grown(u, dev)),
{
    broadcast use {group_extends, replay_checked, replay_tool_ran};

}

pub broadcast proof fn replay_resized(t: Transcript, layout: LayoutView, table: PartitionTable)
    ensures
        #![trigger resized(t, layout, table)]
        replayable(t, |u: Transcript| resized(u, layout, table)),
{
    broadcast use {group_extends, replay_room_made, replay_grown, replay_filesystem_grown};

}

pub broadcast proof fn replay_guarded(t: Transcript, s: Option<BootloaderKind>)
    ensures
        #![trigger guarded::<SessionEnv>(t, s)]
        replayable(t, |u: Transcript| guarded::<SessionEnv>(u, s)),
{
    broadcast use {group_extends, replay_noted};

}

pub broadcast proof fn replay_resized_and_guarded(
    t: Transcript,
    s: Option<BootloaderKind>,
    layout: LayoutView,
    table: PartitionTable,
)
    ensures
        #![trigger resized_and_guarded::<SessionEnv>(t, s, layout, table)]
        replayable(t, |u: Transcript| resized_and_guarded::<SessionEnv>(u, s, layout, table)),
{
    broadcast use {group_extends, replay_resized, replay_guarded};

}

} // verus!
