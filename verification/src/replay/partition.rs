//! The partition management, run again

use vstd::prelude::*;

use crate::partition::device::{
    blkid_request, detected, detected_from, from_path, polling, resolved, waited, waiting, DEVICE_POLL_INTERVAL_MS,
    PartitionErrorView,
};
use crate::partition::layout::PartitionName;
use crate::partition::symlinks::{
    all_linked, all_removed, all_verified, link_cleared, link_dir_made, link_removed, link_step, link_verified, linked,
    names_removed, partitions_linked, partitions_verified, OMNECT_DEV_DIR,
};
use crate::path::joined;
use crate::replay::{group_extends, group_replay, replayable, replays, steady};
use crate::system::{IoErrorView, ReplyView, Request, RequestView, Transcript};

verus! {

/// The transcript after one round of `polling`.
spec fn after_polling(t: Transcript) -> Transcript {
    t.ask(blkid_request()).ask(Request::Clock).ask(Request::Sleep(DEVICE_POLL_INTERVAL_MS))
}

proof fn steady_polling(t: Transcript, fsuuid: Seq<char>, start: u64)
    ensures
        steady(t, polling(t, fsuuid, start)),
    decreases t.rest.len(),
{
    broadcast use group_replay;

    if t.rest.len() > 2 {
        steady_polling(after_polling(t), fsuuid, start);
    }
}

pub broadcast proof fn replay_polling(t: Transcript, fsuuid: Seq<char>, start: u64)
    ensures
        #![trigger polling(t, fsuuid, start)]
        replayable(t, |u: Transcript| polling(u, fsuuid, start)),
    decreases t.rest.len(),
{
    broadcast use group_replay;

    steady_polling(t, fsuuid, start);
    if t.rest.len() > 2 {
        replay_polling(after_polling(t), fsuuid, start);
    }
    assert forall|more: Seq<ReplyView>|
        #![trigger t.plus(more)]
        replays(polling(t, fsuuid, start), polling(t.plus(more), fsuuid, start), more) by {
        if t.plus(more).rest.len() > 2 {
            steady_polling(after_polling(t.plus(more)), fsuuid, start);
        }
    }
}

/// The transcript after one round of `waiting`.
spec fn after_waiting(t: Transcript, device: Seq<char>) -> Transcript {
    t.ask(Request::Exists(device)).ask(Request::Clock).ask(Request::Sleep(DEVICE_POLL_INTERVAL_MS))
}

proof fn steady_waiting(t: Transcript, device: Seq<char>, start: u64)
    ensures
        steady(t, waiting(t, device, start)),
    decreases t.rest.len(),
{
    broadcast use group_replay;

    if t.rest.len() > 2 {
        steady_waiting(after_waiting(t, device), device, start);
    }
}

pub broadcast proof fn replay_waiting(t: Transcript, device: Seq<char>, start: u64)
    ensures
        #![trigger waiting(t, device, start)]
        replayable(t, |u: Transcript| waiting(u, device, start)),
    decreases t.rest.len(),
{
    broadcast use group_replay;

    steady_waiting(t, device, start);
    if t.rest.len() > 2 {
        replay_waiting(after_waiting(t, device), device, start);
    }
    assert forall|more: Seq<ReplyView>|
        #![trigger t.plus(more)]
        replays(waiting(t, device, start), waiting(t.plus(more), device, start), more) by {
        if t.plus(more).rest.len() > 2 {
            steady_waiting(after_waiting(t.plus(more), device), device, start);
        }
    }
}

pub broadcast proof fn replay_waited(t: Transcript, device: Seq<char>)
    ensures
        #![trigger waited(t, device)]
        replayable(t, |u: Transcript| waited(u, device)),
{
    broadcast use {group_replay, replay_waiting};

}

pub broadcast proof fn replay_resolved(t: Transcript, fsuuid: Seq<char>, part_num: nat)
    ensures
        #![trigger resolved(t, fsuuid, part_num)]
        replayable(t, |u: Transcript| resolved(u, fsuuid, part_num)),
{
    broadcast use {group_replay, replay_polling, replay_waited};

}

pub broadcast proof fn replay_from_path(t: Transcript, path: Seq<char>)
    ensures
        #![trigger from_path(t, path)]
        replayable(t, |u: Transcript| from_path(u, path)),
{
    broadcast use {group_extends, replay_waited};

}

pub broadcast proof fn replay_detected_from(t: Transcript, cmdline: Seq<char>)
    ensures
        #![trigger detected_from(t, cmdline)]
        replayable(t, |u: Transcript| detected_from(u, cmdline)),
{
    broadcast use {group_extends, replay_resolved, replay_from_path};

}

pub broadcast proof fn replay_detected(t: Transcript, cmdline_path: Seq<char>)
    ensures
        #![trigger detected(t, cmdline_path)]
        replayable(t, |u: Transcript| detected(u, cmdline_path)),
{
    broadcast use {group_replay, replay_detected_from};

}

pub broadcast proof fn replay_link_step(
    t: Transcript,
    request: RequestView,
    failed: spec_fn(Seq<char>) -> PartitionErrorView,
)
    ensures
        #![trigger link_step(t, request, failed)]
        replayable(t, |u: Transcript| link_step(u, request, failed)),
{
    broadcast use group_replay;

}

pub broadcast proof fn replay_link_dir_made(t: Transcript)
    ensures
        #![trigger link_dir_made(t)]
        replayable(t, |u: Transcript| link_dir_made(u)),
{
    broadcast use {group_replay, replay_link_step};

}

pub broadcast proof fn replay_link_removed(t: Transcript, link: Seq<char>)
    ensures
        #![trigger link_removed(t, link)]
        replayable(t, |u: Transcript| link_removed(u, link)),
{
    broadcast use {group_extends, replay_link_step};

}

pub broadcast proof fn replay_link_cleared(t: Transcript, link: Seq<char>)
    ensures
        #![trigger link_cleared(t, link)]
        replayable(t, |u: Transcript| link_cleared(u, link)),
{
    broadcast use {group_replay, replay_link_removed};

}

pub broadcast proof fn replay_linked(t: Transcript, target: Seq<char>, link: Seq<char>)
    ensures
        #![trigger linked(t, target, link)]
        replayable(t, |u: Transcript| linked(u, target, link)),
{
    broadcast use {group_extends, replay_link_cleared, replay_link_step};

}

pub broadcast proof fn replay_partitions_linked(t: Transcript, devices: Seq<(PartitionName, Seq<char>)>, i: int)
    ensures
        #![trigger partitions_linked(t, devices, i)]
        replayable(t, |u: Transcript| partitions_linked(u, devices, i)),
    decreases devices.len() - i,
{
    broadcast use {group_extends, replay_linked};

    if 0 <= i < devices.len() {
        let link = joined(OMNECT_DEV_DIR@, devices[i].0.text());
        let target = devices[i].1;
        assert forall|u: Transcript|
            #![trigger linked(u, target, link)]
            replayable(linked(u, target, link).0, |v: Transcript| partitions_linked(v, devices, i + 1)) by {
            replay_partitions_linked(linked(u, target, link).0, devices, i + 1);
        }
    }
}

pub broadcast proof fn replay_all_linked(
    t: Transcript,
    base: Seq<char>,
    devices: Seq<(PartitionName, Seq<char>)>,
    root_current: Seq<char>,
)
    ensures
        #![trigger all_linked(t, base, devices, root_current)]
        replayable(t, |u: Transcript| all_linked(u, base, devices, root_current)),
{
    broadcast use {group_extends, replay_link_dir_made, replay_linked, replay_partitions_linked};

}

pub broadcast proof fn replay_names_removed(t: Transcript, names: Seq<Seq<char>>, failed: Option<IoErrorView>, i: int)
    ensures
        #![trigger names_removed(t, names, failed, i)]
        replayable(t, |u: Transcript| names_removed(u, names, failed, i)),
    decreases names.len() - i,
{
    broadcast use {group_replay, replay_link_removed};

    if 0 <= i < names.len() {
        let path = joined(OMNECT_DEV_DIR@, names[i]);
        let x = t.ask(Request::IsSymlink(path));
        replay_names_removed(x, names, failed, i + 1);
        replay_names_removed(link_removed(x, path).0, names, failed, i + 1);
        assert forall|more: Seq<ReplyView>|
            #![trigger t.plus(more)]
            replays(names_removed(t, names, failed, i), names_removed(t.plus(more), names, failed, i), more) by {
            let x = t.plus(more).ask(Request::IsSymlink(path));
            replay_names_removed(x, names, failed, i + 1);
            replay_names_removed(link_removed(x, path).0, names, failed, i + 1);
        }
    }
}

pub broadcast proof fn replay_all_removed(t: Transcript)
    ensures
        #![trigger all_removed(t)]
        replayable(t, |u: Transcript| all_removed(u)),
{
    broadcast use {group_replay, replay_names_removed};

}

pub broadcast proof fn replay_link_verified(t: Transcript, link: Seq<char>, expected: Seq<char>)
    ensures
        #![trigger link_verified(t, link, expected)]
        replayable(t, |u: Transcript| link_verified(u, link, expected)),
{
    broadcast use group_replay;

}

pub broadcast proof fn replay_partitions_verified(t: Transcript, devices: Seq<(PartitionName, Seq<char>)>, i: int)
    ensures
        #![trigger partitions_verified(t, devices, i)]
        replayable(t, |u: Transcript| partitions_verified(u, devices, i)),
    decreases devices.len() - i,
{
    broadcast use {group_extends, replay_link_verified};

    if 0 <= i < devices.len() {
        let link = joined(OMNECT_DEV_DIR@, devices[i].0.text());
        let target = devices[i].1;
        assert forall|u: Transcript|
            #![trigger link_verified(u, link, target)]
            replayable(link_verified(u, link, target).0, |v: Transcript| partitions_verified(v, devices, i + 1)) by {
            replay_partitions_verified(link_verified(u, link, target).0, devices, i + 1);
        }
    }
}

pub broadcast proof fn replay_all_verified(
    t: Transcript,
    base: Seq<char>,
    devices: Seq<(PartitionName, Seq<char>)>,
    root_current: Seq<char>,
)
    ensures
        #![trigger all_verified(t, base, devices, root_current)]
        replayable(t, |u: Transcript| all_verified(u, base, devices, root_current)),
{
    broadcast use {group_extends, replay_link_verified, replay_partitions_verified};

}

} // verus!
