//! The factory reset, run again

use vstd::prelude::*;

use crate::bootloader::session_env::{BootloaderKind, SessionEnv};
use crate::error::InitErrorView;
use crate::json::JsonView;
use crate::mode::factory_reset::backup_restore::{
    all_backed_up, backed_up_from, backup_of, path_backed_up, path_restored, restored_from, sync_ran,
};
use crate::mode::factory_reset::config::{
    application_added, applications_added, applications_collected, file_read, key_added, keys_added, preserve_list,
    FACTORY_RESET_CONFIG_FILE,
};
use crate::mode::factory_reset::reformat::{reformatted, tool_ran};
use crate::mode::factory_reset::retry::{ReportView, SignalView};
use crate::mode::factory_reset::{
    backed_up_all, cleaned_up, mounted_or_cleaned_up, one_mounted, partitions_mounted, prepared, reset_mounted,
    restored_and_unmounted, signal_persisted, trigger_cleared,
};
use crate::partition::layout::{LayoutView, PartitionName};
use crate::path::{joined, without_root};
use crate::replay::bootloader::replay_noted;
use crate::replay::filesystem::{
    replay_all_unmounted, replay_data_overlaid, replay_etc_overlaid, replay_mounted_and_tracked,
};
use crate::replay::{group_extends, group_replay, replayable, replays};
use crate::runtime::status::OdsView;
use crate::replay::steps::replay_warned;
use crate::system::{text_of, IoErrorView, MountFlags, ReplyView, Request, RequestView, Transcript};

verus! {

pub broadcast proof fn replay_trigger_cleared(t: Transcript, s: Option<BootloaderKind>)
    ensures
        #![trigger trigger_cleared::<SessionEnv>(t, s)]
        replayable(t, |u: Transcript| trigger_cleared::<SessionEnv>(u, s)),
{
    broadcast use {group_extends, replay_noted};

}

pub broadcast proof fn replay_one_mounted(
    t: Transcript,
    o: OdsView,
    mounts: Seq<Seq<char>>,
    layout: LayoutView,
    rootfs: Seq<char>,
    name: PartitionName,
    point: Seq<char>,
    flags: MountFlags,
)
    ensures
        #![trigger one_mounted(t, o, mounts, layout, rootfs, name, point, flags)]
        replayable(t, |u: Transcript| one_mounted(u, o, mounts, layout, rootfs, name, point, flags)),
{
    broadcast use {group_extends, replay_mounted_and_tracked};

}

pub broadcast proof fn replay_partitions_mounted(
    t: Transcript,
    o: OdsView,
    mounts: Seq<Seq<char>>,
    layout: LayoutView,
    rootfs: Seq<char>,
)
    ensures
        #![trigger partitions_mounted(t, o, mounts, layout, rootfs)]
        replayable(t, |u: Transcript| partitions_mounted(u, o, mounts, layout, rootfs)),
{
    broadcast use {group_extends, replay_one_mounted};

    reveal(partitions_mounted);
}

pub broadcast proof fn replay_reset_mounted(
    t: Transcript,
    o: OdsView,
    mounts: Seq<Seq<char>>,
    layout: LayoutView,
    rootfs: Seq<char>,
    persistent_var_log: bool,
)
    ensures
        #![trigger reset_mounted(t, o, mounts, layout, rootfs, persistent_var_log)]
        replayable(t, |u: Transcript| reset_mounted(u, o, mounts, layout, rootfs, persistent_var_log)),
{
    broadcast use {group_extends, replay_partitions_mounted, replay_etc_overlaid, replay_data_overlaid};

}

pub broadcast proof fn replay_cleaned_up(t: Transcript, mounts: Seq<Seq<char>>, e: InitErrorView)
    ensures
        #![trigger cleaned_up(t, mounts, e)]
        replayable(t, |u: Transcript| cleaned_up(u, mounts, e)),
{
    broadcast use {group_extends, replay_all_unmounted};

}

pub broadcast proof fn replay_mounted_or_cleaned_up(
    t: Transcript,
    o: OdsView,
    mounts: Seq<Seq<char>>,
    layout: LayoutView,
    rootfs: Seq<char>,
    persistent_var_log: bool,
)
    ensures
        #![trigger mounted_or_cleaned_up(t, o, mounts, layout, rootfs, persistent_var_log)]
        replayable(t, |u: Transcript| mounted_or_cleaned_up(u, o, mounts, layout, rootfs, persistent_var_log)),
{
    broadcast use {group_extends, replay_reset_mounted, replay_cleaned_up};

    reveal(mounted_or_cleaned_up);
}

pub broadcast proof fn replay_file_read(t: Transcript, rootfs: Seq<char>)
    ensures
        #![trigger file_read(t, rootfs)]
        replayable(t, |u: Transcript| file_read(u, rootfs)),
{
    broadcast use group_replay;

}

pub broadcast proof fn replay_applications_added(
    t: Transcript,
    list: Seq<Seq<char>>,
    dir: Seq<char>,
    names: Seq<Seq<char>>,
    failed: Option<IoErrorView>,
    i: int,
)
    ensures
        #![trigger applications_added(t, list, dir, names, failed, i)]
        replayable(t, |u: Transcript| applications_added(u, list, dir, names, failed, i)),
    decreases names.len() - i,
{
    broadcast use group_replay;

    if 0 <= i < names.len() {
        let path = joined(dir, names[i]);
        let request = RequestView::ReadText(path);
        replay_applications_added(t, list, dir, names, failed, i + 1);
        assert forall|u: Transcript|
            #![trigger u.ask(request)]
            {
                let more = application_added(list, path, text_of(u.next()->Some_0)->Ok_0)->Ok_0;
                replayable(u.ask(request), |v: Transcript| applications_added(v, more, dir, names, failed, i + 1))
            } by {
            let more = application_added(list, path, text_of(u.next()->Some_0)->Ok_0)->Ok_0;
            replay_applications_added(u.ask(request), more, dir, names, failed, i + 1);
        }
    }
}

pub broadcast proof fn replay_applications_collected(t: Transcript, list: Seq<Seq<char>>, rootfs: Seq<char>)
    ensures
        #![trigger applications_collected(t, list, rootfs)]
        replayable(t, |u: Transcript| applications_collected(u, list, rootfs)),
{
    broadcast use {group_replay, replay_applications_added};

}

pub broadcast proof fn replay_keys_added(
    t: Transcript,
    list: Seq<Seq<char>>,
    config: Option<JsonView>,
    rootfs: Seq<char>,
    keys: Seq<Seq<char>>,
    i: int,
)
    ensures
        #![trigger keys_added(t, list, config, rootfs, keys, i)]
        replayable(t, |u: Transcript| keys_added(u, list, config, rootfs, keys, i)),
    decreases keys.len() - i,
{
    broadcast use {group_extends, replay_applications_collected};

    if 0 <= i < keys.len() {
        let file = joined(rootfs, FACTORY_RESET_CONFIG_FILE@);
        replay_keys_added(t, key_added(list, config->Some_0, file, keys[i])->Ok_0, config, rootfs, keys, i + 1);
        assert forall|u: Transcript|
            #![trigger applications_collected(u, list, rootfs)]
            {
                let x = applications_collected(u, list, rootfs);
                replayable(x.0, |v: Transcript| keys_added(v, x.1->Ok_0, config, rootfs, keys, i + 1))
            } by {
            let x = applications_collected(u, list, rootfs);
            replay_keys_added(x.0, x.1->Ok_0, config, rootfs, keys, i + 1);
        }
    }
}

pub broadcast proof fn replay_preserve_list(t: Transcript, keys: Seq<Seq<char>>, rootfs: Seq<char>)
    ensures
        #![trigger preserve_list(t, keys, rootfs)]
        replayable(t, |u: Transcript| preserve_list(u, keys, rootfs)),
{
    broadcast use {group_extends, replay_file_read, replay_keys_added};

}

pub broadcast proof fn replay_sync_ran(t: Transcript)
    ensures
        #![trigger sync_ran(t)]
        replayable(t, |u: Transcript| sync_ran(u)),
{
    broadcast use group_replay;

}

pub broadcast proof fn replay_path_backed_up(t: Transcript, rootfs: Seq<char>, path: Seq<char>, backup_dir: Seq<char>)
    ensures
        #![trigger path_backed_up(t, rootfs, path, backup_dir)]
        replayable(t, |u: Transcript| path_backed_up(u, rootfs, path, backup_dir)),
{
    broadcast use {group_replay, replay_sync_ran};

}

pub broadcast proof fn replay_backed_up_from(
    t: Transcript,
    rootfs: Seq<char>,
    paths: Seq<Seq<char>>,
    backup_dir: Seq<char>,
    done: Seq<Seq<char>>,
    i: int,
)
    ensures
        #![trigger backed_up_from(t, rootfs, paths, backup_dir, done, i)]
        replayable(t, |u: Transcript| backed_up_from(u, rootfs, paths, backup_dir, done, i)),
    decreases paths.len() - i,
{
    broadcast use {group_extends, replay_path_backed_up};

    if 0 <= i < paths.len() {
        let path = paths[i];
        assert forall|u: Transcript|
            #![trigger path_backed_up(u, rootfs, path, backup_dir)]
            {
                let x = path_backed_up(u, rootfs, path, backup_dir);
                &&& replayable(
                    x.0,
                    |v: Transcript| backed_up_from(v, rootfs, paths, backup_dir, done.push(path), i + 1),
                )
                &&& replayable(x.0, |v: Transcript| backed_up_from(v, rootfs, paths, backup_dir, done, i + 1))
            } by {
            let x = path_backed_up(u, rootfs, path, backup_dir);
            replay_backed_up_from(x.0, rootfs, paths, backup_dir, done.push(path), i + 1);
            replay_backed_up_from(x.0, rootfs, paths, backup_dir, done, i + 1);
        }
    }
}

pub broadcast proof fn replay_all_backed_up(
    t: Transcript,
    rootfs: Seq<char>,
    paths: Seq<Seq<char>>,
    backup_dir: Seq<char>,
)
    ensures
        #![trigger all_backed_up(t, rootfs, paths, backup_dir)]
        replayable(t, |u: Transcript| all_backed_up(u, rootfs, paths, backup_dir)),
{
    broadcast use {group_replay, replay_backed_up_from};

}

pub broadcast proof fn replay_backed_up_all(t: Transcript, rootfs: Seq<char>, keys: Seq<Seq<char>>)
    ensures
        #![trigger backed_up_all(t, rootfs, keys)]
        replayable(t, |u: Transcript| backed_up_all(u, rootfs, keys)),
{
    broadcast use {group_extends, replay_preserve_list, replay_all_backed_up};

    reveal(backed_up_all);
}

pub broadcast proof fn replay_prepared(
    t: Transcript,
    o: OdsView,
    layout: LayoutView,
    rootfs: Seq<char>,
    persistent_var_log: bool,
    keys: Seq<Seq<char>>,
)
    ensures
        #![trigger prepared(t, o, layout, rootfs, persistent_var_log, keys)]
        replayable(t, |u: Transcript| prepared(u, o, layout, rootfs, persistent_var_log, keys)),
{
    broadcast use {
        group_extends,
        replay_mounted_or_cleaned_up,
        replay_backed_up_all,
        replay_cleaned_up,
        replay_all_unmounted,
    };

    reveal(prepared);
}

pub broadcast proof fn replay_signal_persisted(t: Transcript, s: Option<BootloaderKind>, signal: Option<SignalView>)
    ensures
        #![trigger signal_persisted::<SessionEnv>(t, s, signal)]
        replayable(t, |u: Transcript| signal_persisted::<SessionEnv>(u, s, signal)),
{
    broadcast use {group_extends, replay_noted, replay_warned};

}

pub broadcast proof fn replay_path_restored(t: Transcript, rootfs: Seq<char>, path: Seq<char>, backup_dir: Seq<char>)
    ensures
        #![trigger path_restored(t, rootfs, path, backup_dir)]
        replayable(t, |u: Transcript| path_restored(u, rootfs, path, backup_dir)),
{
    broadcast use {group_replay, replay_sync_ran};

}

pub broadcast proof fn replay_restored_from(
    t: Transcript,
    rootfs: Seq<char>,
    paths: Seq<Seq<char>>,
    backup_dir: Seq<char>,
    context: Seq<Seq<char>>,
    last: Option<Seq<char>>,
    i: int,
)
    ensures
        #![trigger restored_from(t, rootfs, paths, backup_dir, context, last, i)]
        replayable(t, |u: Transcript| restored_from(u, rootfs, paths, backup_dir, context, last, i)),
    decreases paths.len() - i,
{
    broadcast use {group_replay, replay_path_restored};

    if 0 <= i < paths.len() {
        let path = paths[i];
        let missing = context.push(without_root(path) + ":missing-backup"@);
        let failed = context.push(without_root(path) + ":restore"@);
        let note = Some("backup missing for "@ + path);
        let x = t.ask(Request::Exists(backup_of(rootfs, path, backup_dir)));
        let y = path_restored(x, rootfs, path, backup_dir);
        let e = Some(y.1->Err_0->Failed_0.text());
        replay_restored_from(x, rootfs, paths, backup_dir, missing, note, i + 1);
        replay_restored_from(y.0, rootfs, paths, backup_dir, failed, e, i + 1);
        replay_restored_from(y.0, rootfs, paths, backup_dir, context, last, i + 1);
        assert forall|more: Seq<ReplyView>|
            #![trigger t.plus(more)]
            replays(
                restored_from(t, rootfs, paths, backup_dir, context, last, i),
                restored_from(t.plus(more), rootfs, paths, backup_dir, context, last, i),
                more,
            ) by {
            let x = t.plus(more).ask(Request::Exists(backup_of(rootfs, path, backup_dir)));
            let y = path_restored(x, rootfs, path, backup_dir);
            let e = Some(y.1->Err_0->Failed_0.text());
            replay_restored_from(x, rootfs, paths, backup_dir, missing, note, i + 1);
            replay_restored_from(y.0, rootfs, paths, backup_dir, failed, e, i + 1);
            replay_restored_from(y.0, rootfs, paths, backup_dir, context, last, i + 1);
        }
    }
}

pub broadcast proof fn replay_restored_and_unmounted(
    t: Transcript,
    mounts: Seq<Seq<char>>,
    rootfs: Seq<char>,
    report: ReportView,
    backed_up: Seq<Seq<char>>,
    backup_dir: Seq<char>,
    preserve: Seq<Seq<char>>,
)
    ensures
        #![trigger restored_and_unmounted(t, mounts, rootfs, report, backed_up, backup_dir, preserve)]
        replayable(
            t,
            |u: Transcript| restored_and_unmounted(u, mounts, rootfs, report, backed_up, backup_dir, preserve),
        ),
{
    broadcast use {group_extends, replay_restored_from, replay_cleaned_up, replay_all_unmounted};

}

pub broadcast proof fn replay_tool_ran(
    t: Transcript,
    device: Seq<char>,
    program: Seq<char>,
    name: Seq<char>,
    args: Seq<Seq<char>>,
)
    ensures
        #![trigger tool_ran(t, device, program, name, args)]
        replayable(t, |u: Transcript| tool_ran(u, device, program, name, args)),
{
    broadcast use group_replay;

}

pub broadcast proof fn replay_reformatted(t: Transcript, device: Seq<char>, label: Seq<char>)
    ensures
        #![trigger reformatted(t, device, label)]
        replayable(t, |u: Transcript| reformatted(u, device, label)),
{
    broadcast use {group_extends, replay_tool_ran};

}

} // verus!
