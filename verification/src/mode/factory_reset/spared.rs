//! Nothing is wiped before it was backed up
//!
//! Up to the end of the backup no request of a factory reset runs `mkfs.ext4` or `tune2fs`. The
//! destructive phase is reached only where the backup succeeded.

use vstd::prelude::*;

use crate::error::InitErrorView;
use crate::filesystem::boot_sequence::{checked_and_mounted, checked_and_recorded, mounted_and_tracked};
use crate::filesystem::fsck::{checked_leniently, fsck_ran};
use crate::filesystem::mount::{
    all_unmounted, mounted, unmounted, FsErrorView, FsType, MountOptionsView, MountPointView,
};
use crate::filesystem::overlayfs::{
    bound, contents_copied, data_overlaid, dir_ensured, dirs_ensured, emptiness, etc_overlaid, home_overlaid, overlaid,
    upper_seeded, CP_CMD,
};
use crate::json::JsonView;
use crate::logging::kmsg::{lifted, limits_written, restored};
use crate::mode::factory_reset::backup_restore::{all_backed_up, backed_up_from, path_backed_up, sync_ran, SYNC_CMD};
use crate::mode::factory_reset::config::{
    application_added, applications_added, applications_collected, file_read, key_added, keys_added, preserve_list,
    FACTORY_RESET_CONFIG_FILE,
};
use crate::mode::factory_reset::reformat::{MKFS_EXT4_CMD, TUNE2FS_CMD};
use crate::mode::factory_reset::{
    backed_up_all, cleaned_up, destroyed, mounted_or_cleaned_up, one_mounted, partitions_mounted, prepared, reset_done,
    reset_mounted, ResetState, FACTORY_RESET_BACKUP_DIR,
};
use crate::partition::layout::{LayoutView, PartitionName};
use crate::path::joined;
use crate::replay::destruction::{at, replay_destroyed};
use crate::replay::{extends, steady};
use crate::runtime::status::OdsView;
use crate::system::{text_of, warned, IoErrorView, MountFlags, Request, RequestView, Transcript};

verus! {

/// A request to make a new filesystem, or to relabel one: `mkfs.ext4` or `tune2fs`.
pub open spec fn wipes(request: RequestView) -> bool {
    request matches Request::Run { program, .. } && (program == MKFS_EXT4_CMD@ || program == TUNE2FS_CMD@)
}

/// The requests `later` begin with the requests `earlier`, and none of the others wipes.
#[verifier::opaque]
pub open spec fn spared(earlier: Seq<RequestView>, later: Seq<RequestView>) -> bool {
    &&& earlier.is_prefix_of(later)
    &&& forall|i: int| earlier.len() <= i < later.len() ==> !wipes(#[trigger] later[i])
}

broadcast proof fn lemma_spared_itself(asked: Seq<RequestView>)
    ensures
        #[trigger] spared(asked, asked),
{
    reveal(spared);
}

broadcast proof fn lemma_spared_further(a: Seq<RequestView>, b: Seq<RequestView>, c: Seq<RequestView>)
    requires
        #[trigger] spared(a, b),
        #[trigger] spared(b, c),
    ensures
        spared(a, c),
{
    reveal(spared);
    assert(a =~= c.take(a.len() as int));
    assert forall|i: int| a.len() <= i < c.len() implies !wipes(#[trigger] c[i]) by {
        if i < b.len() {
            assert(c[i] == b[i]);
        }
    }
}

broadcast proof fn lemma_spared_ask(t: Transcript, request: RequestView)
    requires
        !wipes(request),
    ensures
        spared(t.asked, (#[trigger] t.ask(request)).asked),
{
    reveal(spared);
}

broadcast group group_spared {
    lemma_spared_itself,
    lemma_spared_further,
}

broadcast group group_asked {
    group_spared,
    lemma_spared_ask,
}

/// The programs that run before the destructive phase do not wipe.
proof fn lemma_other_programs()
    ensures
        "/sbin/fsck"@ != MKFS_EXT4_CMD@,
        "/sbin/fsck"@ != TUNE2FS_CMD@,
        CP_CMD@ != MKFS_EXT4_CMD@,
        CP_CMD@ != TUNE2FS_CMD@,
        SYNC_CMD@ != MKFS_EXT4_CMD@,
        SYNC_CMD@ != TUNE2FS_CMD@,
{
    reveal_strlit("/sbin/fsck");
    reveal_strlit("/sbin/mkfs.ext4");
    reveal_strlit("/sbin/tune2fs");
    reveal_strlit("/bin/cp");
    reveal_strlit("/bin/sync");
    assert("/sbin/fsck"@.len() == 10);
    assert(CP_CMD@.len() == 7);
    assert(SYNC_CMD@.len() == 9);
    assert(MKFS_EXT4_CMD@.len() == 15);
    assert(TUNE2FS_CMD@.len() == 13);
}

broadcast proof fn spared_limits_written(t: Transcript, ratelimit: Seq<char>, burst: Seq<char>)
    ensures
        spared(t.asked, (#[trigger] limits_written(t, ratelimit, burst)).0.asked),
{
    broadcast use group_asked;

    lemma_other_programs();
}

broadcast proof fn spared_lifted(t: Transcript)
    ensures
        spared(t.asked, (#[trigger] lifted(t)).0.asked),
{
    broadcast use {group_asked, spared_limits_written};

    lemma_other_programs();
}

broadcast proof fn spared_restored(t: Transcript, saved: Option<(Seq<char>, Seq<char>)>)
    ensures
        spared(t.asked, (#[trigger] restored(t, saved)).0.asked),
{
    broadcast use {group_spared, spared_limits_written};

}

broadcast proof fn spared_fsck_ran(t: Transcript, device: Seq<char>, fstype: FsType)
    ensures
        spared(t.asked, (#[trigger] fsck_ran(t, device, fstype)).0.asked),
{
    broadcast use {group_asked, spared_lifted, spared_restored};

    lemma_other_programs();
}

broadcast proof fn spared_warned(t: Transcript, message: Seq<char>)
    ensures
        spared(t.asked, (#[trigger] warned(t, message)).0.asked),
{
    broadcast use group_asked;

}

broadcast proof fn spared_checked_leniently(t: Transcript, device: Seq<char>, fstype: FsType)
    ensures
        spared(t.asked, (#[trigger] checked_leniently(t, device, fstype)).0.asked),
{
    broadcast use {group_spared, spared_fsck_ran, spared_warned};

}

broadcast proof fn spared_checked_and_recorded(
    t: Transcript,
    o: OdsView,
    dev: Seq<char>,
    name: PartitionName,
    fstype: FsType,
)
    ensures
        spared(t.asked, (#[trigger] checked_and_recorded(t, o, dev, name, fstype)).0.asked),
{
    broadcast use {group_spared, spared_checked_leniently};

}

broadcast proof fn spared_mounted(t: Transcript, mp: MountPointView)
    ensures
        spared(t.asked, (#[trigger] mounted(t, mp)).0.asked),
{
    broadcast use group_asked;

    lemma_other_programs();
}

broadcast proof fn spared_checked_and_mounted(
    t: Transcript,
    o: OdsView,
    dev: Seq<char>,
    name: PartitionName,
    fstype: FsType,
    target: Seq<char>,
    options: MountOptionsView,
)
    ensures
        spared(t.asked, (#[trigger] checked_and_mounted(t, o, dev, name, fstype, target, options)).0.asked),
{
    broadcast use {group_spared, spared_checked_and_recorded, spared_mounted};

}

broadcast proof fn spared_mounted_and_tracked(
    t: Transcript,
    o: OdsView,
    mounts: Seq<Seq<char>>,
    layout: LayoutView,
    rootfs: Seq<char>,
    name: PartitionName,
    point: Seq<char>,
    options: MountOptionsView,
    fstype: FsType,
)
    ensures
        #![trigger mounted_and_tracked(t, o, mounts, layout, rootfs, name, point, options, fstype)]
        spared(t.asked, mounted_and_tracked(t, o, mounts, layout, rootfs, name, point, options, fstype).0.asked),
{
    broadcast use {group_spared, spared_checked_and_mounted};

}

broadcast proof fn spared_one_mounted(
    t: Transcript,
    o: OdsView,
    mounts: Seq<Seq<char>>,
    layout: LayoutView,
    rootfs: Seq<char>,
    name: PartitionName,
    point: Seq<char>,
    flags: MountFlags,
)
    ensures
        spared(t.asked, (#[trigger] one_mounted(t, o, mounts, layout, rootfs, name, point, flags)).0.asked),
{
    broadcast use {group_spared, spared_mounted_and_tracked};

}

broadcast proof fn spared_partitions_mounted(
    t: Transcript,
    o: OdsView,
    mounts: Seq<Seq<char>>,
    layout: LayoutView,
    rootfs: Seq<char>,
)
    ensures
        spared(t.asked, (#[trigger] partitions_mounted(t, o, mounts, layout, rootfs)).0.asked),
{
    broadcast use {group_spared, spared_one_mounted};

    reveal(partitions_mounted);
}

broadcast proof fn spared_dir_ensured(t: Transcript, path: Seq<char>)
    ensures
        spared(t.asked, (#[trigger] dir_ensured(t, path)).0.asked),
{
    broadcast use group_asked;

    lemma_other_programs();
}

broadcast proof fn spared_dirs_ensured(t: Transcript, first: Seq<char>, second: Seq<char>)
    ensures
        spared(t.asked, (#[trigger] dirs_ensured(t, first, second)).0.asked),
{
    broadcast use {group_spared, spared_dir_ensured};

}

broadcast proof fn spared_emptiness(t: Transcript, path: Seq<char>)
    ensures
        spared(t.asked, (#[trigger] emptiness(t, path)).0.asked),
{
    broadcast use group_asked;

    lemma_other_programs();
}

broadcast proof fn spared_contents_copied(t: Transcript, src: Seq<char>, dst: Seq<char>)
    ensures
        spared(t.asked, (#[trigger] contents_copied(t, src, dst)).0.asked),
{
    broadcast use group_asked;

    lemma_other_programs();
}

broadcast proof fn spared_upper_seeded(t: Transcript, upper: Seq<char>, factory: Seq<char>)
    ensures
        spared(t.asked, (#[trigger] upper_seeded(t, upper, factory)).0.asked),
{
    broadcast use {group_spared, spared_emptiness, spared_contents_copied};

}

broadcast proof fn spared_overlaid(
    t: Transcript,
    lower: Seq<char>,
    upper: Seq<char>,
    work: Seq<char>,
    target: Seq<char>,
)
    ensures
        spared(t.asked, (#[trigger] overlaid(t, lower, upper, work, target)).0.asked),
{
    broadcast use {group_spared, spared_mounted};

}

broadcast proof fn spared_etc_overlaid(t: Transcript, mounts: Seq<Seq<char>>, rootfs: Seq<char>)
    ensures
        spared(t.asked, (#[trigger] etc_overlaid(t, mounts, rootfs)).0.asked),
{
    broadcast use {group_spared, spared_dirs_ensured, spared_upper_seeded, spared_overlaid};

    reveal(etc_overlaid);
}

broadcast proof fn spared_home_overlaid(t: Transcript, mounts: Seq<Seq<char>>, rootfs: Seq<char>, data: Seq<char>)
    ensures
        spared(t.asked, (#[trigger] home_overlaid(t, mounts, rootfs, data)).0.asked),
{
    broadcast use {group_spared, spared_dir_ensured, spared_dirs_ensured, spared_overlaid};

}

broadcast proof fn spared_bound(t: Transcript, mounts: Seq<Seq<char>>, source: Seq<char>, target: Seq<char>)
    ensures
        spared(t.asked, (#[trigger] bound(t, mounts, source, target)).0.asked),
{
    broadcast use {group_spared, spared_dirs_ensured, spared_mounted};

}

broadcast proof fn spared_data_overlaid(
    t: Transcript,
    mounts: Seq<Seq<char>>,
    rootfs: Seq<char>,
    persistent_var_log: bool,
)
    ensures
        spared(t.asked, (#[trigger] data_overlaid(t, mounts, rootfs, persistent_var_log)).0.asked),
{
    broadcast use {group_spared, spared_home_overlaid, spared_bound};

    reveal(data_overlaid);
}

broadcast proof fn spared_reset_mounted(
    t: Transcript,
    o: OdsView,
    mounts: Seq<Seq<char>>,
    layout: LayoutView,
    rootfs: Seq<char>,
    persistent_var_log: bool,
)
    ensures
        spared(t.asked, (#[trigger] reset_mounted(t, o, mounts, layout, rootfs, persistent_var_log)).0.asked),
{
    broadcast use {group_spared, spared_partitions_mounted, spared_etc_overlaid, spared_data_overlaid};

}

broadcast proof fn spared_unmounted(t: Transcript, target: Seq<char>)
    ensures
        spared(t.asked, (#[trigger] unmounted(t, target)).0.asked),
{
    broadcast use group_asked;

    lemma_other_programs();
}

broadcast proof fn spared_all_unmounted(t: Transcript, mounts: Seq<Seq<char>>, first: Option<FsErrorView>)
    ensures
        spared(t.asked, (#[trigger] all_unmounted(t, mounts, first)).0.asked),
    decreases mounts.len(),
{
    broadcast use {group_spared, spared_unmounted};

    if mounts.len() > 0 {
        let x = unmounted(t, mounts.last());
        let e = if first is Some {
            first
        } else {
            Some(x.1->Err_0->Failed_0)
        };
        spared_all_unmounted(x.0, mounts.drop_last(), first);
        spared_all_unmounted(x.0, mounts.drop_last(), e);
    }
}

broadcast proof fn spared_cleaned_up(t: Transcript, mounts: Seq<Seq<char>>, e: InitErrorView)
    ensures
        spared(t.asked, (#[trigger] cleaned_up(t, mounts, e)).0.asked),
{
    broadcast use {group_spared, spared_all_unmounted};

}

broadcast proof fn spared_mounted_or_cleaned_up(
    t: Transcript,
    o: OdsView,
    mounts: Seq<Seq<char>>,
    layout: LayoutView,
    rootfs: Seq<char>,
    persistent_var_log: bool,
)
    ensures
        spared(t.asked, (#[trigger] mounted_or_cleaned_up(t, o, mounts, layout, rootfs, persistent_var_log)).0.asked),
{
    broadcast use {group_spared, spared_reset_mounted, spared_cleaned_up};

    reveal(mounted_or_cleaned_up);
}

broadcast proof fn spared_file_read(t: Transcript, rootfs: Seq<char>)
    ensures
        spared(t.asked, (#[trigger] file_read(t, rootfs)).0.asked),
{
    broadcast use group_asked;

    lemma_other_programs();
}

broadcast proof fn spared_applications_added(
    t: Transcript,
    list: Seq<Seq<char>>,
    dir: Seq<char>,
    names: Seq<Seq<char>>,
    failed: Option<IoErrorView>,
    i: int,
)
    ensures
        spared(t.asked, (#[trigger] applications_added(t, list, dir, names, failed, i)).0.asked),
    decreases names.len() - i,
{
    broadcast use group_asked;

    lemma_other_programs();
    if 0 <= i < names.len() {
        let path = joined(dir, names[i]);
        let more = application_added(list, path, text_of(t.next()->Some_0)->Ok_0)->Ok_0;
        spared_applications_added(t, list, dir, names, failed, i + 1);
        spared_applications_added(t.ask(Request::ReadText(path)), more, dir, names, failed, i + 1);
    }
}

broadcast proof fn spared_applications_collected(t: Transcript, list: Seq<Seq<char>>, rootfs: Seq<char>)
    ensures
        spared(t.asked, (#[trigger] applications_collected(t, list, rootfs)).0.asked),
{
    broadcast use {group_asked, spared_applications_added};

    lemma_other_programs();
}

broadcast proof fn spared_keys_added(
    t: Transcript,
    list: Seq<Seq<char>>,
    config: Option<JsonView>,
    rootfs: Seq<char>,
    keys: Seq<Seq<char>>,
    i: int,
)
    ensures
        spared(t.asked, (#[trigger] keys_added(t, list, config, rootfs, keys, i)).0.asked),
    decreases keys.len() - i,
{
    broadcast use {group_spared, spared_applications_collected};

    if 0 <= i < keys.len() {
        let x = applications_collected(t, list, rootfs);
        let file = joined(rootfs, FACTORY_RESET_CONFIG_FILE@);
        let more = key_added(list, config->Some_0, file, keys[i])->Ok_0;
        spared_keys_added(x.0, x.1->Ok_0, config, rootfs, keys, i + 1);
        spared_keys_added(t, more, config, rootfs, keys, i + 1);
    }
}

broadcast proof fn spared_preserve_list(t: Transcript, keys: Seq<Seq<char>>, rootfs: Seq<char>)
    ensures
        spared(t.asked, (#[trigger] preserve_list(t, keys, rootfs)).0.asked),
{
    broadcast use {group_spared, spared_file_read, spared_keys_added};

}

broadcast proof fn spared_sync_ran(t: Transcript)
    ensures
        spared(t.asked, (#[trigger] sync_ran(t)).0.asked),
{
    broadcast use group_asked;

    lemma_other_programs();
}

broadcast proof fn spared_path_backed_up(t: Transcript, rootfs: Seq<char>, path: Seq<char>, backup_dir: Seq<char>)
    ensures
        spared(t.asked, (#[trigger] path_backed_up(t, rootfs, path, backup_dir)).0.asked),
{
    broadcast use {group_asked, spared_sync_ran};

    lemma_other_programs();
}

broadcast proof fn spared_backed_up_from(
    t: Transcript,
    rootfs: Seq<char>,
    paths: Seq<Seq<char>>,
    backup_dir: Seq<char>,
    done: Seq<Seq<char>>,
    i: int,
)
    ensures
        spared(t.asked, (#[trigger] backed_up_from(t, rootfs, paths, backup_dir, done, i)).0.asked),
    decreases paths.len() - i,
{
    broadcast use {group_spared, spared_path_backed_up};

    if 0 <= i < paths.len() {
        let x = path_backed_up(t, rootfs, paths[i], backup_dir);
        spared_backed_up_from(x.0, rootfs, paths, backup_dir, done.push(paths[i]), i + 1);
        spared_backed_up_from(x.0, rootfs, paths, backup_dir, done, i + 1);
    }
}

broadcast proof fn spared_all_backed_up(t: Transcript, rootfs: Seq<char>, paths: Seq<Seq<char>>, backup_dir: Seq<char>)
    ensures
        spared(t.asked, (#[trigger] all_backed_up(t, rootfs, paths, backup_dir)).0.asked),
{
    broadcast use {group_asked, spared_backed_up_from};

    lemma_other_programs();
}

broadcast proof fn spared_backed_up_all(t: Transcript, rootfs: Seq<char>, keys: Seq<Seq<char>>)
    ensures
        spared(t.asked, (#[trigger] backed_up_all(t, rootfs, keys)).0.asked),
{
    broadcast use {group_spared, spared_preserve_list, spared_all_backed_up};

    reveal(backed_up_all);
}

broadcast proof fn spared_prepared(
    t: Transcript,
    o: OdsView,
    layout: LayoutView,
    rootfs: Seq<char>,
    persistent_var_log: bool,
    keys: Seq<Seq<char>>,
)
    ensures
        spared(t.asked, (#[trigger] prepared(t, o, layout, rootfs, persistent_var_log, keys)).0.asked),
{
    broadcast use {
        group_spared,
        spared_mounted_or_cleaned_up,
        spared_backed_up_all,
        spared_cleaned_up,
        spared_all_unmounted,
    };

    reveal(prepared);
}

/// A request of a factory reset that wipes comes after every request up to the end of the
/// backup, and only where that backup succeeded.
pub proof fn law_no_wipe_before_backup(
    t: Transcript,
    o: OdsView,
    layout: LayoutView,
    rootfs: Seq<char>,
    persistent_var_log: bool,
    keys: Seq<Seq<char>>,
)
    ensures
        ({
            let before = prepared(t, o, layout, rootfs, persistent_var_log, keys);
            let whole = reset_done(t, o, layout, rootfs, persistent_var_log, keys);
            &&& before.0.asked.is_prefix_of(whole.0.asked)
            &&& forall|i: int|
                t.asked.len() <= i < whole.0.asked.len() && wipes(#[trigger] whole.0.asked[i]) ==> before.3 is Ok && i
                    >= before.0.asked.len()
        }),
{
    let before = prepared(t, o, layout, rootfs, persistent_var_log, keys);
    let whole = reset_done(t, o, layout, rootfs, persistent_var_log, keys);
    spared_prepared(t, o, layout, rootfs, persistent_var_log, keys);
    reveal(spared);
    reveal(extends);
    if before.3 is Ok {
        let (preserve, backed_up) = before.3->Ok_0;
        if layout.at(PartitionName::Data) is Some && layout.at(PartitionName::Etc) is Some {
            let s = ResetState { layout, rootfs, persistent_var_log, ods: before.1, mounts: before.2, t: before.0 };
            let data = layout.at(PartitionName::Data)->Some_0;
            let etc = layout.at(PartitionName::Etc)->Some_0;
            replay_destroyed(s, data, etc, backed_up, FACTORY_RESET_BACKUP_DIR@, preserve);
            assert(at(s, s.t) == s);
            assert(steady(s.t, destroyed(s, data, etc, backed_up, FACTORY_RESET_BACKUP_DIR@, preserve)));
        }
    }
    assert forall|i: int|
        t.asked.len() <= i < whole.0.asked.len() && wipes(#[trigger] whole.0.asked[i]) implies before.3 is Ok && i
        >= before.0.asked.len() by {
        if i < before.0.asked.len() {
            assert(before.0.asked[i] == whole.0.asked[i]);
        }
    }
}

} // verus!
