//! The stand-alone steps, run again

use vstd::prelude::*;

use crate::e2fsck::{all_checked, devices};
use crate::finish::finished;
use crate::mount::{all_mounted, etc_copied, etc_filled, looked};
use crate::partition::layout::PartitionTable;
use crate::replay::{group_extends, group_replay, replayable, replays, steady};
use crate::resizefs::{data_grown, grown, part_grown, required, resized};
use crate::rootblk::{all_linked, awaited, disk_found};
use crate::system::{ReplyView, Request, Transcript};
use crate::util::{script_ran, tool_code, uboot_read, uboot_written, StepView};

verus! {

pub broadcast proof fn replay_tool_code(t: Transcript, program: Seq<char>, args: Seq<Seq<char>>)
    ensures
        #![trigger tool_code(t, program, args)]
        replayable(t, |u: Transcript| tool_code(u, program, args)),
{
    broadcast use group_replay;

}

pub broadcast proof fn replay_all_checked(t: Transcript, i: int)
    ensures
        #![trigger all_checked(t, i)]
        replayable(t, |u: Transcript| all_checked(u, i)),
    decreases 5 - i,
{
    broadcast use {group_extends, replay_tool_code};

    if 0 <= i < 5 {
        let args = seq!["-y"@, devices()[i]];
        assert forall|u: Transcript|
            #![trigger tool_code(u, "/sbin/e2fsck"@, args)]
            replayable(tool_code(u, "/sbin/e2fsck"@, args).0, |v: Transcript| all_checked(v, i + 1)) by {
            replay_all_checked(tool_code(u, "/sbin/e2fsck"@, args).0, i + 1);
        }
    }
}

pub broadcast proof fn replay_script_ran(t: Transcript, steps: Seq<StepView>)
    ensures
        #![trigger script_ran(t, steps)]
        replayable(t, |u: Transcript| script_ran(u, steps)),
    decreases steps.len(),
{
    broadcast use group_replay;

    if steps.len() > 0 {
        let request = steps[0].request;
        let left = steps.drop_first();
        assert forall|u: Transcript|
            #![trigger u.ask(request)]
            replayable(u.ask(request), |v: Transcript| script_ran(v, left)) by {
            replay_script_ran(u.ask(request), left);
        }
    }
}

pub broadcast proof fn replay_finished(t: Transcript, init: Seq<char>)
    ensures
        #![trigger finished(t, init)]
        replayable(t, |u: Transcript| finished(u, init)),
{
    broadcast use {group_replay, replay_script_ran};

}

pub broadcast proof fn replay_looked(t: Transcript, path: Seq<char>)
    ensures
        #![trigger looked(t, path)]
        replayable(t, |u: Transcript| looked(u, path)),
{
    broadcast use group_replay;

}

pub broadcast proof fn replay_etc_copied(t: Transcript)
    ensures
        #![trigger etc_copied(t)]
        replayable(t, |u: Transcript| etc_copied(u)),
{
    broadcast use {group_extends, replay_looked, replay_tool_code};

}

pub broadcast proof fn replay_etc_filled(t: Transcript)
    ensures
        #![trigger etc_filled(t)]
        replayable(t, |u: Transcript| etc_filled(u)),
{
    broadcast use {group_extends, replay_looked, replay_script_ran, replay_etc_copied};

}

pub broadcast proof fn replay_all_mounted(t: Transcript, persistent_var_log: bool)
    ensures
        #![trigger all_mounted(t, persistent_var_log)]
        replayable(t, |u: Transcript| all_mounted(u, persistent_var_log)),
{
    broadcast use {group_extends, replay_script_ran, replay_etc_filled};

}

pub broadcast proof fn replay_required(t: Transcript, program: Seq<char>, args: Seq<Seq<char>>, message: Seq<char>)
    ensures
        #![trigger required(t, program, args, message)]
        replayable(t, |u: Transcript| required(u, program, args, message)),
{
    broadcast use {group_extends, replay_tool_code};

}

pub broadcast proof fn replay_part_grown(t: Transcript, number: Seq<char>, message: Seq<char>)
    ensures
        #![trigger part_grown(t, number, message)]
        replayable(t, |u: Transcript| part_grown(u, number, message)),
{
    broadcast use {group_extends, replay_tool_code};

}

pub broadcast proof fn replay_data_grown(t: Transcript, table: PartitionTable)
    ensures
        #![trigger data_grown(t, table)]
        replayable(t, |u: Transcript| data_grown(u, table)),
{
    broadcast use {group_extends, replay_required, replay_part_grown};

}

pub broadcast proof fn replay_grown(t: Transcript, table: PartitionTable)
    ensures
        #![trigger grown(t, table)]
        replayable(t, |u: Transcript| grown(u, table)),
{
    broadcast use {group_extends, replay_required, replay_data_grown};

}

pub broadcast proof fn replay_uboot_read(t: Transcript, key: Seq<char>)
    ensures
        #![trigger uboot_read(t, key)]
        replayable(t, |u: Transcript| uboot_read(u, key)),
{
    broadcast use group_replay;

}

pub broadcast proof fn replay_uboot_written(t: Transcript, key: Seq<char>, value: Seq<char>)
    ensures
        #![trigger uboot_written(t, key, value)]
        replayable(t, |u: Transcript| uboot_written(u, key, value)),
{
    broadcast use {group_extends, replay_tool_code};

}

pub broadcast proof fn replay_resized(t: Transcript, table: PartitionTable)
    ensures
        #![trigger resized(t, table)]
        replayable(t, |u: Transcript| resized(u, table)),
{
    broadcast use {group_extends, replay_uboot_read, replay_grown, replay_uboot_written};

}

/// The transcript after one round of `awaited`.
spec fn after_awaited(t: Transcript, path: Seq<char>) -> Transcript {
    t.ask(Request::TryExists(path)).ask(Request::Sleep(100))
}

proof fn steady_awaited(t: Transcript, path: Seq<char>)
    ensures
        steady(t, awaited(t, path)),
    decreases t.rest.len(),
{
    broadcast use group_replay;

    if t.rest.len() > 1 {
        steady_awaited(after_awaited(t, path), path);
    }
}

pub broadcast proof fn replay_awaited(t: Transcript, path: Seq<char>)
    ensures
        #![trigger awaited(t, path)]
        replayable(t, |u: Transcript| awaited(u, path)),
    decreases t.rest.len(),
{
    broadcast use group_replay;

    steady_awaited(t, path);
    if t.rest.len() > 1 {
        replay_awaited(after_awaited(t, path), path);
    }
    assert forall|more: Seq<ReplyView>|
        #![trigger t.plus(more)]
        replays(awaited(t, path), awaited(t.plus(more), path), more) by {
        if t.plus(more).rest.len() > 1 {
            steady_awaited(after_awaited(t.plus(more), path), path);
        }
    }
}

pub broadcast proof fn replay_disk_found(t: Transcript, root: Seq<char>)
    ensures
        #![trigger disk_found(t, root)]
        replayable(t, |u: Transcript| disk_found(u, root)),
{
    broadcast use {group_extends, replay_looked};

}

pub broadcast proof fn replay_all_linked(t: Transcript, root: Option<Seq<char>>, table: PartitionTable)
    ensures
        #![trigger all_linked(t, root, table)]
        replayable(t, |u: Transcript| all_linked(u, root, table)),
{
    broadcast use {group_extends, replay_awaited, replay_disk_found, replay_script_ran};

}

} // verus!
