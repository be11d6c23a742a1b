//! What a boot does as a whole

use vstd::prelude::*;

use crate::bootloader::session_env::{env_opened, BootloaderKind, SessionEnv};
use crate::bootloader::{BootEnv, BootEnvKey};
use crate::config::cmdline_loaded;
use crate::error::InitOutcome;
use crate::filesystem::boot_sequence::{core_mounted, persisted};
use crate::filesystem::fsck_code::FsckExitCode;
use crate::filesystem::mount::{all_unmounted, FsErrorView};
use crate::filesystem::overlayfs::etc_overlaid;
use crate::init_setup::extra_bootargs::{args_read, replaced, synced};
use crate::init_setup::resize_data::stepped;
use crate::init_setup::set_up;
use crate::json::JsonView;
use crate::laws::boot::{boots, law_boot, lemma_data_stays, lemma_env_stays, lemma_persisted_stays};
use crate::laws::devices::{law_wait, waits_for};
use crate::laws::mounts::{check_of, law_core_partitions, mount_of, mounts_core, read_only};
use crate::laws::overlay::{law_etc_overlay, lays};
use crate::laws::reset::law_unmount;
use crate::laws::switch::stays;
use crate::laws::{
    achieves, asks_only, group_asks, lemma_asks_further, lemma_asks_next, lemma_asks_nothing, lemma_asks_weaker, under,
    unflagged,
};
use crate::mode::factory_reset::backup_restore::{backed_up_from, path_backed_up, path_restored, restored_from};
use crate::mode::factory_reset::config::{
    application_added, applications_added, applications_collected, file_read, key_added, keys_added, needs_file,
    preserve_list,
};
use crate::mode::factory_reset::retry::{formatted, reformatted_and_mounted};
use crate::mode::factory_reset::{
    backed_up_all, destroyed, mounted_or_cleaned_up, one_mounted, partitions_mounted, prepared, reset_booted,
    reset_done, reset_mounted, settled, signal_persisted, trigger_cleared, RealReformatOps, ResetState,
};
use crate::mode::normal::booted;
use crate::mode::ModeView;
use crate::partition::device::{detected, detected_from, polling, resolved, waited, waiting};
use crate::partition::layout::{built_map, devices_for, LayoutView, PartitionName};
use crate::partition::symlinks::{all_linked, link_dir_made, linked, partitions_linked};
use crate::path::{extension_of, joined};
use crate::runtime::status::OdsView;
use crate::system::{IoErrorView, MountFlags, ReplyView, RequestView, Stop, Transcript};
use crate::{continued, first_boot_in, init_of, initialised, located, mode_in, mode_run, pending_in, ImageConfig};

verus! {

proof fn lemma_poll_stays(t: Transcript, fsuuid: Seq<char>, start: u64)
    ensures
        asks_only(t, polling(t, fsuuid, start).0, stays()),
    decreases t.rest.len(),
{
    lemma_asks_nothing(t, stays());
    let t1 = t.ask(crate::partition::device::blkid_request());
    let t2 = t1.ask(RequestView::Clock);
    let t3 = t2.ask(RequestView::Sleep(100));
    assert(asks_only(t, t1, stays()) && asks_only(t, t2, stays()) && asks_only(t, t3, stays())) by {
        broadcast use group_asks;

    }
    if t.next() is Some && t1.next() is Some && t2.next() is Some {
        lemma_poll_stays(t3, fsuuid, start);
        lemma_asks_further(t, t3, polling(t3, fsuuid, start).0, stays());
    }
}

proof fn lemma_waited_stays(t: Transcript, device: Seq<char>)
    ensures
        asks_only(t, waited(t, device).0, stays()),
{
    lemma_asks_nothing(t, stays());
    let t1 = t.ask(RequestView::Clock);
    lemma_asks_next(t, t, RequestView::Clock, stays());
    if t.next() is Some {
        let start = crate::system::millis_of(t.next()->0);
        law_wait(t1, device, start);
        let end = waiting(t1, device, start).0;
        lemma_asks_weaker(t1, end, waits_for(device), stays());
        lemma_asks_further(t, t1, end, stays());
    }
}

proof fn lemma_detected_stays(t: Transcript, path: Seq<char>)
    ensures
        asks_only(t, detected(t, path).0, stays()),
{
    lemma_asks_nothing(t, stays());
    let t1 = t.ask(RequestView::ReadText(path));
    lemma_asks_next(t, t, RequestView::ReadText(path), stays());
    if t.next() is Some && t.next()->0 is Text {
        lemma_asks_nothing(t1, stays());
        lemma_detection_stays(t1, t.next()->0->Text_0);
        lemma_asks_further(t, t1, detected(t, path).0, stays());
    }
}

proof fn lemma_detection_stays(t: Transcript, cmdline: Seq<char>)
    ensures
        asks_only(t, detected_from(t, cmdline).0, stays()),
{
    lemma_asks_nothing(t, stays());
    let root = crate::partition::device::param_of(cmdline, "root"@);
    if root is Some {
        lemma_waited_stays(t, root->0);
    }
    let fsuuid = crate::partition::device::param_of(cmdline, "bootpart_fsuuid"@);
    let part = crate::partition::device::param_of(cmdline, "rootpart"@);
    if fsuuid is Some && part is Some {
        if let Ok(number) = crate::text::parse_u32_of(part->0) {
            lemma_resolved_stays(t, fsuuid->0, number);
        }
    }
}

proof fn lemma_resolved_stays(t: Transcript, fsuuid: Seq<char>, number: nat)
    ensures
        asks_only(t, resolved(t, fsuuid, number).0, stays()),
{
    lemma_asks_nothing(t, stays());
    let t1 = t.ask(RequestView::Clock);
    lemma_asks_next(t, t, RequestView::Clock, stays());
    if t.next() is Some {
        let start = crate::system::millis_of(t.next()->0);
        lemma_poll_stays(t1, fsuuid, start);
        let (t2, found) = polling(t1, fsuuid, start);
        lemma_asks_further(t, t1, t2, stays());
        if found is Ok {
            if let Ok(device) = crate::partition::device::device_beside(found->Ok_0, number) {
                lemma_waited_stays(t2, device.root_partition);
                lemma_asks_further(t, t2, waited(t2, device.root_partition).0, stays());
            }
        }
    }
}

proof fn lemma_linked_stays(t: Transcript, target: Seq<char>, link: Seq<char>)
    ensures
        asks_only(t, linked(t, target, link).0, stays()),
{
    broadcast use group_asks;

    lemma_asks_nothing(t, stays());
}

proof fn lemma_devices_stay(t0: Transcript, t: Transcript, devices: Seq<(PartitionName, Seq<char>)>, i: int)
    requires
        asks_only(t0, t, stays()),
    ensures
        asks_only(t0, partitions_linked(t, devices, i).0, stays()),
    decreases devices.len() - i,
{
    if 0 <= i < devices.len() {
        let link = joined("/dev/omnect"@, devices[i].0.text());
        let (t1, r) = linked(t, devices[i].1, link);
        lemma_linked_stays(t, devices[i].1, link);
        lemma_asks_further(t0, t, t1, stays());
        if r is Ok {
            lemma_devices_stay(t0, t1, devices, i + 1);
        }
    }
}

proof fn lemma_all_linked_stays(
    t: Transcript,
    base: Seq<char>,
    devices: Seq<(PartitionName, Seq<char>)>,
    root: Seq<char>,
)
    ensures
        asks_only(t, all_linked(t, base, devices, root).0, stays()),
{
    lemma_asks_nothing(t, stays());
    let (t1, r1) = link_dir_made(t);
    assert(asks_only(t, t1, stays())) by {
        broadcast use group_asks;

    }
    let disk = joined("/dev/omnect"@, "rootblk"@);
    let (t2, r2) = linked(t1, base, disk);
    lemma_linked_stays(t1, base, disk);
    lemma_asks_further(t, t1, t2, stays());
    lemma_devices_stay(t, t2, devices, 0);
    let (t3, r3) = partitions_linked(t2, devices, 0);
    let current = joined("/dev/omnect"@, PartitionName::RootCurrent.text());
    lemma_linked_stays(t3, root, current);
    lemma_asks_further(t, t3, linked(t3, root, current).0, stays());
}

proof fn lemma_located_stays(t: Transcript, table: crate::partition::PartitionTable)
    ensures
        asks_only(t, located(t, table).0, stays()),
{
    reveal(located);
    lemma_asks_nothing(t, stays());
    let (t1, r1) = cmdline_loaded(t);
    assert(asks_only(t, t1, stays())) by {
        broadcast use group_asks;

    }
    let (t2, r2) = detected(t1, "/proc/cmdline"@);
    lemma_detected_stays(t1, "/proc/cmdline"@);
    lemma_asks_further(t, t1, t2, stays());
    if r2 is Ok {
        let device = r2->Ok_0;
        if let Ok(partitions) = built_map(device, table) {
            let layout = LayoutView { partitions, device };
            let devices = devices_for(device, table);
            lemma_all_linked_stays(t2, device.base, devices, layout.current_root());
            lemma_asks_further(
                t,
                t2,
                all_linked(t2, device.base, devices, layout.current_root()).0,
                stays(),
            );
        }
    }
}

proof fn lemma_resize_stays(t: Transcript, layout: LayoutView, table: crate::partition::PartitionTable)
    ensures
        asks_only(t, crate::filesystem::resize_data::resized(t, layout, table).0, stays()),
{
    lemma_asks_nothing(t, stays());
    if layout.at(PartitionName::Data) is Some {
        let device = layout.at(PartitionName::Data)->0;
        let disk = layout.device.base;
        let (t1, r1) = crate::filesystem::resize_data::room_made(t, disk, table);
        assert(asks_only(t, t1, stays())) by {
            broadcast use group_asks;

        }
        if crate::partition::layout::suffix_of(device) is Some {
            let number = crate::partition::layout::suffix_of(device)->0;
            let (t2, r2) = crate::filesystem::resize_data::grown(t1, disk, number);
            lemma_asks_next(t, t1, t2.asked.last(), stays());
            let (t3, r3) = crate::filesystem::fsck::checked(t2, device, crate::filesystem::mount::FsType::Ext4);
            crate::laws::mounts::law_strict_check(t2, device, crate::filesystem::mount::FsType::Ext4);
            lemma_asks_weaker(t2, t3, crate::laws::mounts::checks("ext4"@, device), stays());
            lemma_asks_further(t, t2, t3, stays());
            assert(asks_only(t, crate::filesystem::resize_data::filesystem_grown(t2, device).0, stays())) by {
                broadcast use group_asks;

            }
        }
    }
}

proof fn lemma_replaced_stays(t: Transcript, s: BootloaderKind, args: Seq<char>)
    ensures
        asks_only(t, replaced::<SessionEnv>(t, s, args).0, stays()),
{
    let key = BootEnvKey::ExtraBootArgs;
    let value = crate::init_setup::extra_bootargs::value_for(args);
    let (p, c, none) = (PartitionName::Boot, FsckExitCode(0), Seq::<char>::empty());
    lemma_env_stays(t, s, key, value, p, c, none);
    let t1 = SessionEnv::reads(t, s, key).0;
    lemma_env_stays(t1, s, key, value, p, c, none);
    let t2 = SessionEnv::writes(t1, s, key, value).0;
    lemma_env_stays(t2, s, key, value, p, c, none);
    let t3 = SessionEnv::reads(t2, s, key).0;
    lemma_asks_further(t, t1, t2, stays());
    lemma_asks_further(t, t2, t3, stays());
}

proof fn lemma_set_up_stays(
    t: Transcript,
    s: Option<BootloaderKind>,
    o: OdsView,
    rootfs: Seq<char>,
    pending: bool,
    resize: bool,
    layout: LayoutView,
    table: crate::partition::PartitionTable,
)
    ensures
        asks_only(t, set_up::<SessionEnv>(t, s, o, rootfs, pending, resize, layout, table).0, stays()),
{
    reveal(set_up::<SessionEnv>);
    lemma_asks_nothing(t, stays());
    let (t1, r1) = args_read(t, joined(rootfs, "boot"@));
    assert(asks_only(t, t1, stays())) by {
        broadcast use group_asks;

    }
    if s is Some && r1 is Ok {
        let t2 = replaced::<SessionEnv>(t1, s->0, r1->Ok_0).0;
        lemma_replaced_stays(t1, s->0, r1->Ok_0);
        lemma_asks_further(t, t1, t2, stays());
        lemma_asks_next(t, t2, RequestView::Sync, stays());
    }
    let (t3, s3, o3, r3) = synced::<SessionEnv>(t, s, o, rootfs, pending);
    assert(asks_only(t, t3, stays()));
    let (t4, r4) = crate::filesystem::resize_data::resized(t3, layout, table);
    lemma_resize_stays(t3, layout, table);
    lemma_asks_further(t, t3, t4, stays());
    let end = stepped(t3, s3 is Some, o3, layout, table).0;
    assert(asks_only(t, end, stays())) by {
        broadcast use group_asks;

    }
}

proof fn lemma_applications_stay(
    t0: Transcript,
    t: Transcript,
    list: Seq<Seq<char>>,
    dir: Seq<char>,
    names: Seq<Seq<char>>,
    failed: Option<IoErrorView>,
    i: int,
)
    requires
        asks_only(t0, t, stays()),
    ensures
        asks_only(t0, applications_added(t, list, dir, names, failed, i).0, stays()),
    decreases names.len() - i,
{
    if 0 <= i < names.len() {
        if extension_of(names[i]) != Some("json"@) {
            lemma_applications_stay(t0, t, list, dir, names, failed, i + 1);
        } else {
            let path = joined(dir, names[i]);
            let read = RequestView::ReadText(path);
            lemma_asks_next(t0, t, read, stays());
            if t.next() is Some && t.next()->0 is Text {
                if let Ok(more) = application_added(list, path, t.next()->0->Text_0) {
                    lemma_applications_stay(t0, t.ask(read), more, dir, names, failed, i + 1);
                }
            }
        }
    }
}

proof fn lemma_keys_stay(
    t0: Transcript,
    t: Transcript,
    list: Seq<Seq<char>>,
    config: Option<JsonView>,
    rootfs: Seq<char>,
    keys: Seq<Seq<char>>,
    i: int,
)
    requires
        asks_only(t0, t, stays()),
    ensures
        asks_only(t0, keys_added(t, list, config, rootfs, keys, i).0, stays()),
    decreases keys.len() - i,
{
    if 0 <= i < keys.len() {
        if keys[i] == "applications"@ {
            let dir = joined(rootfs, "etc/omnect/factory-reset.d"@);
            let ask = RequestView::Exists(dir);
            let look = RequestView::ListDir(dir);
            let t1 = t.ask(ask);
            lemma_asks_next(t0, t, ask, stays());
            lemma_asks_next(t0, t1, look, stays());
            if t1.next() is Some {
                if let ReplyView::Names { names, failed } = t1.next()->0 {
                    lemma_applications_stay(t0, t1.ask(look), list, dir, names, failed, 0);
                }
            }
            let (t2, r) = applications_collected(t, list, rootfs);
            if r is Ok {
                lemma_keys_stay(t0, t2, r->Ok_0, config, rootfs, keys, i + 1);
            }
        } else if config is Some {
            let file = joined(rootfs, "etc/omnect/factory-reset.json"@);
            if let Ok(more) = key_added(list, config->0, file, keys[i]) {
                lemma_keys_stay(t0, t, more, config, rootfs, keys, i + 1);
            }
        }
    }
}

proof fn lemma_list_stays(t: Transcript, keys: Seq<Seq<char>>, rootfs: Seq<char>)
    ensures
        asks_only(t, preserve_list(t, keys, rootfs).0, stays()),
{
    let first = seq!["/etc/omnect/factory-reset.d/"@];
    lemma_asks_nothing(t, stays());
    if needs_file(keys) {
        let (t1, r) = file_read(t, rootfs);
        lemma_asks_next(t, t, RequestView::ReadText(joined(rootfs, "etc/omnect/factory-reset.json"@)), stays());
        if r is Ok {
            lemma_keys_stay(t, t1, first, Some(r->Ok_0), rootfs, keys, 0);
        }
    } else {
        lemma_keys_stay(t, t, first, None, rootfs, keys, 0);
    }
}

proof fn lemma_backups_stay(
    t0: Transcript,
    t: Transcript,
    rootfs: Seq<char>,
    paths: Seq<Seq<char>>,
    backup: Seq<char>,
    done: Seq<Seq<char>>,
    i: int,
)
    requires
        asks_only(t0, t, stays()),
    ensures
        asks_only(t0, backed_up_from(t, rootfs, paths, backup, done, i).0, stays()),
    decreases paths.len() - i,
{
    if 0 <= i < paths.len() {
        let (t1, r) = path_backed_up(t, rootfs, paths[i], backup);
        assert(asks_only(t0, t1, stays())) by {
            broadcast use group_asks;

        }
        match r {
            Ok(true) => lemma_backups_stay(t0, t1, rootfs, paths, backup, done.push(paths[i]), i + 1),
            Ok(false) => lemma_backups_stay(t0, t1, rootfs, paths, backup, done, i + 1),
            Err(_) => {},
        }
    }
}

proof fn lemma_restores_stay(
    t0: Transcript,
    t: Transcript,
    rootfs: Seq<char>,
    paths: Seq<Seq<char>>,
    backup: Seq<char>,
    context: Seq<Seq<char>>,
    last: Option<Seq<char>>,
    i: int,
)
    requires
        asks_only(t0, t, stays()),
    ensures
        asks_only(t0, restored_from(t, rootfs, paths, backup, context, last, i).0, stays()),
    decreases paths.len() - i,
{
    if 0 <= i < paths.len() {
        let path = paths[i];
        let ask = RequestView::Exists(crate::mode::factory_reset::backup_restore::backup_of(rootfs, path, backup));
        let t1 = t.ask(ask);
        lemma_asks_next(t0, t, ask, stays());
        let (t2, r) = path_restored(t1, rootfs, path, backup);
        assert(asks_only(t0, t2, stays())) by {
            broadcast use group_asks;

        }
        if t.next() is Some {
            let bare = crate::path::without_root(path);
            if t.next()->0 != ReplyView::Flag(true) {
                lemma_restores_stay(
                    t0,
                    t1,
                    rootfs,
                    paths,
                    backup,
                    context.push(bare + ":missing-backup"@),
                    Some("backup missing for "@ + path),
                    i + 1,
                );
            } else {
                match r {
                    Ok(_) => lemma_restores_stay(t0, t2, rootfs, paths, backup, context, last, i + 1),
                    Err(Stop::Failed(e)) => lemma_restores_stay(
                        t0,
                        t2,
                        rootfs,
                        paths,
                        backup,
                        context.push(bare + ":restore"@),
                        Some(e.text()),
                        i + 1,
                    ),
                    Err(Stop::Pending) => {},
                }
            }
        }
    }
}

proof fn lemma_unmounts_stay(t: Transcript, mounts: Seq<Seq<char>>, first: Option<FsErrorView>)
    ensures
        asks_only(t, all_unmounted(t, mounts, first).0, stays()),
{
    law_unmount(t, mounts, first);
    lemma_asks_weaker(t, all_unmounted(t, mounts, first).0, |q: RequestView| q is Unmount, stays());
}

proof fn lemma_one_stays(
    t: Transcript,
    o: OdsView,
    mounts: Seq<Seq<char>>,
    layout: LayoutView,
    rootfs: Seq<char>,
    name: PartitionName,
    point: Seq<char>,
    flags: MountFlags,
)
    ensures
        asks_only(t, one_mounted(t, o, mounts, layout, rootfs, name, point, flags).0, stays()),
{
    lemma_asks_nothing(t, stays());
    if layout.at(name) is Some {
        let device = layout.at(name)->0;
        let target = joined(rootfs, point);
        let fstype = crate::filesystem::mount::FsType::Ext4;
        crate::laws::mounts::law_checked_before_mounted(t, o, device, name, fstype, target, flags);
        lemma_asks_weaker(
            t,
            one_mounted(t, o, mounts, layout, rootfs, name, point, flags).0,
            crate::laws::mounts::checks_and_mounts(
                "ext4"@,
                device,
                crate::laws::mounts::mount_of(device, target, "ext4"@, flags),
            ),
            stays(),
        );
    }
}

proof fn lemma_reset_mounts_stay(
    t: Transcript,
    o: OdsView,
    mounts: Seq<Seq<char>>,
    layout: LayoutView,
    rootfs: Seq<char>,
    persistent: bool,
)
    ensures
        asks_only(t, mounted_or_cleaned_up(t, o, mounts, layout, rootfs, persistent).0, stays()),
{
    reveal(mounted_or_cleaned_up);
    lemma_asks_nothing(t, stays());
    let (t1, o1, m1, r1) = partitions_mounted(t, o, mounts, layout, rootfs);
    lemma_partitions_stay(t, o, mounts, layout, rootfs);
    let (t2, m2, r2) = etc_overlaid(t1, m1, rootfs);
    law_etc_overlay(t1, m1, rootfs);
    lemma_asks_weaker(
        t1,
        t2,
        lays(
            under(rootfs, "etc"@),
            under(under(rootfs, "mnt/etc"@), "upper"@),
            under(under(rootfs, "mnt/etc"@), "work"@),
            under(under(rootfs, "mnt/factory"@), "etc"@),
        ),
        stays(),
    );
    lemma_asks_further(t, t1, t2, stays());
    let t3 = crate::filesystem::overlayfs::data_overlaid(t2, m2, rootfs, persistent).0;
    lemma_data_stays(t2, m2, rootfs, persistent);
    lemma_asks_further(t, t2, t3, stays());
    let (t4, o4, m4, r4) = reset_mounted(t, o, mounts, layout, rootfs, persistent);
    assert(asks_only(t, t4, stays()));
    lemma_unmounts_stay(t4, m4, None);
    lemma_asks_further(t, t4, all_unmounted(t4, m4, None).0, stays());
}

proof fn lemma_partitions_stay(
    t: Transcript,
    o: OdsView,
    mounts: Seq<Seq<char>>,
    layout: LayoutView,
    rootfs: Seq<char>,
)
    ensures
        asks_only(t, partitions_mounted(t, o, mounts, layout, rootfs).0, stays()),
{
    reveal(partitions_mounted);
    let flags = MountFlags::none().plus(crate::system::MountFlag::RdOnly);
    let none = MountFlags::none();
    let (pa, pb, pc) = (PartitionName::Factory, PartitionName::Etc, PartitionName::Data);
    let (t1, o1, m1, r1) = one_mounted(t, o, mounts, layout, rootfs, pa, "mnt/factory"@, flags);
    let (t2, o2, m2, r2) = one_mounted(t1, o1, m1, layout, rootfs, pb, "mnt/etc"@, none);
    let (t3, o3, m3, r3) = one_mounted(t2, o2, m2, layout, rootfs, pc, "mnt/data"@, none);
    lemma_one_stays(t, o, mounts, layout, rootfs, pa, "mnt/factory"@, flags);
    lemma_one_stays(t1, o1, m1, layout, rootfs, pb, "mnt/etc"@, none);
    lemma_one_stays(t2, o2, m2, layout, rootfs, pc, "mnt/data"@, none);
    lemma_asks_further(t, t1, t2, stays());
    lemma_asks_further(t, t2, t3, stays());
}

proof fn lemma_prepared_stays(
    t: Transcript,
    o: OdsView,
    layout: LayoutView,
    rootfs: Seq<char>,
    persistent: bool,
    keys: Seq<Seq<char>>,
)
    ensures
        asks_only(t, prepared(t, o, layout, rootfs, persistent, keys).0, stays()),
{
    reveal(prepared);
    reveal(backed_up_all);
    let (t1, o1, m1, r1) = mounted_or_cleaned_up(t, o, Seq::empty(), layout, rootfs, persistent);
    lemma_reset_mounts_stay(t, o, Seq::empty(), layout, rootfs, persistent);
    let (t2, r2) = preserve_list(t1, keys, rootfs);
    lemma_list_stays(t1, keys, rootfs);
    lemma_asks_further(t, t1, t2, stays());
    let backup = "/tmp/factory_reset/backup"@;
    let list = r2->Ok_0;
    let made = RequestView::CreateDir(backup);
    lemma_asks_next(t, t2, made, stays());
    lemma_backups_stay(t, t2.ask(made), rootfs, list, backup, Seq::empty(), 0);
    let (t3, r3) = backed_up_all(t1, rootfs, keys);
    assert(asks_only(t, t3, stays()));
    lemma_unmounts_stay(t3, m1, None);
    lemma_asks_further(t, t3, all_unmounted(t3, m1, None).0, stays());
}

proof fn lemma_formatted_stays(s: ResetState, partition: PartitionName, device: Seq<char>, label: Seq<char>)
    ensures
        asks_only(s.t, formatted::<RealReformatOps>(s, partition, device, label).0.t, stays()),
{
    broadcast use group_asks;

    lemma_asks_nothing(s.t, stays());
}

proof fn lemma_destroyed_stays(
    s: ResetState,
    data_dev: Seq<char>,
    etc_dev: Seq<char>,
    manifest: Seq<Seq<char>>,
    backup: Seq<char>,
    preserve: Seq<Seq<char>>,
)
    ensures
        asks_only(s.t, destroyed(s, data_dev, etc_dev, manifest, backup, preserve).0, stays()),
{
    let (s1, data) = formatted::<RealReformatOps>(s, PartitionName::Data, data_dev, "data"@);
    let (s2, etc) = formatted::<RealReformatOps>(s1, PartitionName::Etc, etc_dev, "etc"@);
    lemma_formatted_stays(s, PartitionName::Data, data_dev, "data"@);
    lemma_formatted_stays(s1, PartitionName::Etc, etc_dev, "etc"@);
    lemma_asks_further(s.t, s1.t, s2.t, stays());
    lemma_reset_mounts_stay(s2.t, s2.ods, s2.mounts, s2.layout, s2.rootfs, s2.persistent_var_log);
    let (s3, whole) = reformatted_and_mounted::<RealReformatOps>(s, s.rootfs, data_dev, etc_dev);
    let u = mounted_or_cleaned_up(s2.t, s2.ods, s2.mounts, s2.layout, s2.rootfs, s2.persistent_var_log).0;
    lemma_asks_further(s.t, s2.t, u, stays());
    assert(asks_only(s.t, s3.t, stays()));
    if let Ok(report) = whole {
        match report.exhausted {
            Some(signal) => {
                let message = crate::mode::factory_reset::exhausted_warning(signal);
                let t4 = s3.t.ask(RequestView::Warn(message));
                lemma_asks_next(s.t, s3.t, RequestView::Warn(message), stays());
                lemma_unmounts_stay(t4, s3.mounts, None);
                lemma_asks_further(s.t, t4, all_unmounted(t4, s3.mounts, None).0, stays());
            },
            None => {
                lemma_restores_stay(s.t, s3.t, s.rootfs, manifest, backup, Seq::empty(), None, 0);
                let t4 = restored_from(s3.t, s.rootfs, manifest, backup, Seq::empty(), None, 0).0;
                lemma_unmounts_stay(t4, s3.mounts, None);
                lemma_asks_further(s.t, t4, all_unmounted(t4, s3.mounts, None).0, stays());
            },
        }
    }
}

proof fn lemma_reset_stays(
    t: Transcript,
    o: OdsView,
    layout: LayoutView,
    rootfs: Seq<char>,
    persistent: bool,
    keys: Seq<Seq<char>>,
)
    ensures
        asks_only(t, reset_done(t, o, layout, rootfs, persistent, keys).0, stays()),
{
    let (t1, o1, m1, r1) = prepared(t, o, layout, rootfs, persistent, keys);
    lemma_prepared_stays(t, o, layout, rootfs, persistent, keys);
    if r1 is Ok && layout.at(PartitionName::Data) is Some && layout.at(PartitionName::Etc) is Some {
        let (preserve, manifest) = r1->Ok_0;
        let s = ResetState { layout, rootfs, persistent_var_log: persistent, ods: o1, mounts: m1, t: t1 };
        let data_dev = layout.at(PartitionName::Data)->0;
        let etc_dev = layout.at(PartitionName::Etc)->0;
        let backup = "/tmp/factory_reset/backup"@;
        lemma_destroyed_stays(s, data_dev, etc_dev, manifest, backup, preserve);
        lemma_asks_further(t, t1, destroyed(s, data_dev, etc_dev, manifest, backup, preserve).0, stays());
    }
}

/// A reset first takes back the request for it, so that a reset that is cut short is not tried
/// again and again, and goes on as a normal boot that reports what became of it.
pub proof fn law_reset_boot(
    t: Transcript,
    s: Option<BootloaderKind>,
    o: OdsView,
    layout: LayoutView,
    rootfs: Seq<char>,
    persistent: bool,
    init: Option<Seq<char>>,
    resize: bool,
    keys: Seq<Seq<char>>,
)
    ensures
        ({
            let (end, after, status, r) = reset_booted::<SessionEnv>(
                t,
                s,
                o,
                layout,
                rootfs,
                persistent,
                init,
                resize,
                keys,
            );
            &&& s matches Some(kind) ==> SessionEnv::writes(t, kind, BootEnvKey::FactoryReset, None).0.asked.is_prefix_of(
                end.asked,
            )
            &&& asks_only(t, end, stays()) || exists|u: Transcript, reported: OdsView|
                {
                    &&& asks_only(t, u, stays())
                    &&& reported.factory_reset is Some
                    &&& end == (#[trigger] booted::<SessionEnv>(
                        u,
                        s,
                        reported,
                        layout,
                        rootfs,
                        persistent,
                        init,
                        resize,
                    )).0
                }
        }),
{
    let (end, after, status, r) = reset_booted::<SessionEnv>(t, s, o, layout, rootfs, persistent, init, resize, keys);
    let (t1, s1, r1) = trigger_cleared::<SessionEnv>(t, s);
    lemma_asks_nothing(t, stays());
    let none = Seq::<char>::empty();
    if s is Some {
        lemma_env_stays(t, s->0, BootEnvKey::FactoryReset, None, PartitionName::Boot, FsckExitCode(0), none);
    }
    assert(asks_only(t, t1, stays())) by {
        broadcast use group_asks;

    }
    let written = SessionEnv::writes(t, s->0, BootEnvKey::FactoryReset, None).0;
    if s is Some {
        assert(written.asked.is_prefix_of(t1.asked));
        assert(s1 == s);
    }
    if r1 is Some {
        let (t2, o2, done) = reset_done(t1, o, layout, rootfs, persistent, keys);
        lemma_reset_stays(t1, o, layout, rootfs, persistent, keys);
        lemma_asks_further(t, t1, t2, stays());
        if settled(done) is Some {
            let (report, signal) = settled(done)->0;
            let (t3, s3, r3) = signal_persisted::<SessionEnv>(t2, s1, signal);
            if s is Some && signal is Some {
                let text = crate::bootloader::failure_text(signal->0.partition, signal->0.reason);
                lemma_env_stays(
                    t2,
                    s->0,
                    BootEnvKey::FactoryResetLastError,
                    Some(text),
                    PartitionName::Boot,
                    FsckExitCode(0),
                    none,
                );
            }
            lemma_asks_nothing(t2, stays());
            assert(asks_only(t, t3, stays())) by {
                broadcast use group_asks;

            }
            if r3 is Some {
                let reported = OdsView { factory_reset: Some(report), ..o2 };
                assert(s3 == s);
                assert(end == booted::<SessionEnv>(t3, s, reported, layout, rootfs, persistent, init, resize).0);
                lemma_booted_extends(t3, s, reported, layout, rootfs, persistent, init, resize);
            }
            assert(t1.asked.is_prefix_of(t2.asked) && t2.asked.is_prefix_of(t3.asked)) by {
                reveal(asks_only);
                crate::replay::factory_reset::replay_signal_persisted(t2, s1, signal);
                reveal(crate::replay::extends);
            }
        }
        assert(t1.asked.is_prefix_of(t2.asked)) by {
            reveal(asks_only);
        }
    }
    assert(s is Some ==> written.asked.is_prefix_of(end.asked));
}

proof fn lemma_booted_extends(
    t: Transcript,
    s: Option<BootloaderKind>,
    o: OdsView,
    layout: LayoutView,
    rootfs: Seq<char>,
    persistent: bool,
    init: Option<Seq<char>>,
    resize: bool,
)
    ensures
        t.asked.is_prefix_of(booted::<SessionEnv>(t, s, o, layout, rootfs, persistent, init, resize).0.asked),
{
    crate::replay::boot::replay_booted(t, s, o, layout, rootfs, persistent, init, resize);
    reveal(crate::replay::extends);
}

/// The root filesystem and the boot partition are mounted under /rootfs.
pub open spec fn core_up(t: Transcript, end: Transcript, layout: LayoutView) -> bool {
    let root = mount_of(layout.at(PartitionName::RootCurrent)->0, "/rootfs"@, "ext4"@, read_only());
    let check = check_of("vfat"@, layout.at(PartitionName::Boot)->0);
    let boot = mount_of(layout.at(PartitionName::Boot)->0, "/rootfs/boot"@, "vfat"@, unflagged());
    layout.at(PartitionName::RootCurrent) is Some && if layout.at(PartitionName::Boot) is Some {
        achieves(t, end, seq![RequestView::CreateDir("/rootfs"@), root, check, boot])
    } else {
        achieves(t, end, seq![RequestView::CreateDir("/rootfs"@), root])
    }
}

/// Where the process is replaced, the devices were found and linked and the root filesystem and
/// the boot partition were mounted before, and the boot went through all of its steps with the
/// options of the image; the init is that of the kernel command line.
pub proof fn law_whole_boot(t: Transcript, image: ImageConfig, pending: bool)
    ensures
        ({
            let end = initialised(t, image, pending).0;
            ||| asks_only(t, end, stays())
            ||| exists|
                cmdline: Map<Seq<char>, Seq<char>>,
                layout: LayoutView,
                begun: Transcript,
                mounted: Transcript,
                u: Transcript,
                s: Option<BootloaderKind>,
                o: OdsView,
                left: Transcript,
            |
                {
                    &&& located(t, image.table) == #[trigger] found(begun, cmdline, layout)
                    &&& #[trigger] core_up(begun, mounted, layout)
                    &&& asks_only(mounted, u, stays())
                    &&& s == Some(image.bootloader) || s is None && image.release
                    &&& #[trigger] boots(
                        u,
                        left,
                        s,
                        o,
                        layout,
                        "/rootfs"@,
                        image.persistent_var_log,
                        image.resize_data,
                    )
                    &&& end == crate::runtime::switch_root::switched(
                        left,
                        "/rootfs"@,
                        if cmdline.dom().contains("init"@) {
                            Some(cmdline["init"@])
                        } else {
                            None
                        },
                    ).0
                }
        }),
{
    let end = initialised(t, image, pending).0;
    let (t1, r1) = located(t, image.table);
    lemma_located_stays(t, image.table);
    if r1 is Ok {
        let (cmdline, layout) = r1->Ok_0;
        let rootfs = "/rootfs"@;
        let (t2, o2, core) = core_mounted(t1, OdsView::empty(), layout, rootfs);
        law_core_partitions(t1, OdsView::empty(), layout, rootfs);
        reveal_strlit("/rootfs");
        reveal_strlit("boot");
        reveal_strlit("/rootfs/boot");
        assert(under(rootfs, "boot"@) =~= "/rootfs/boot"@);
        lemma_asks_weaker(t1, t2, mounts_core(layout, rootfs), stays());
        lemma_asks_further(t, t1, t2, stays());
        lemma_asks_nothing(t2, stays());
        let (t3, opened) = env_opened(t2, image.bootloader);
        assert(asks_only(t2, t3, stays())) by {
            broadcast use group_asks;

        }
        lemma_asks_further(t, t2, t3, stays());
        if !(core matches Err(Stop::Pending)) && !(opened matches Err(Stop::Pending)) {
            let s = if opened is Ok {
                Some(image.bootloader)
            } else {
                None
            };
            let (t4, s4, r4) = persisted::<SessionEnv>(t3, s, o2, rootfs);
            lemma_persisted_stays(t3, s, o2, rootfs);
            crate::laws::boot::lemma_persisted_follows(t3, s, o2, rootfs);
            lemma_asks_further(t2, t3, t4, stays());
            lemma_asks_further(t, t2, t4, stays());
            if (opened is Ok || image.release) && r4 is Some && core is Ok {
                assert(core_up(t1, t2, layout));
                let o4 = match opened {
                    Err(Stop::Failed(e)) => OdsView {
                        degraded_boot: Some(crate::runtime::status::DegradedBootStatus { reason: e.text() }),
                        ..o2
                    },
                    _ => o2,
                };
                assert(end == continued::<SessionEnv>(t4, s, o4, layout, cmdline, image, pending).0);
                lemma_continued(t4, s, o4, layout, cmdline, image, pending);
                if !asks_only(t4, end, stays()) {
                    let (u, o, left) = choose|u: Transcript, o: OdsView, left: Transcript|
                        #[trigger] goes_on(t4, u, s, o, left, layout, cmdline, image, end);
                    lemma_asks_further(t2, t4, u, stays());
                    assert(located(t, image.table) == found(t1, cmdline, layout));
                } else {
                    lemma_asks_further(t, t4, end, stays());
                }
            }
        }
    }
}

/// The devices were found.
pub open spec fn found(begun: Transcript, cmdline: Map<Seq<char>, Seq<char>>, layout: LayoutView) -> (
    Transcript,
    InitOutcome<(Map<Seq<char>, Seq<char>>, LayoutView)>,
) {
    (begun, Ok((cmdline, layout)))
}

spec fn goes_on(
    t: Transcript,
    u: Transcript,
    s: Option<BootloaderKind>,
    o: OdsView,
    left: Transcript,
    layout: LayoutView,
    cmdline: Map<Seq<char>, Seq<char>>,
    image: ImageConfig,
    end: Transcript,
) -> bool {
    &&& asks_only(t, u, stays())
    &&& boots(u, left, s, o, layout, "/rootfs"@, image.persistent_var_log, image.resize_data)
    &&& end == crate::runtime::switch_root::switched(left, "/rootfs"@, init_of(cmdline)).0
}

proof fn lemma_continued(
    t: Transcript,
    s: Option<BootloaderKind>,
    o: OdsView,
    layout: LayoutView,
    cmdline: Map<Seq<char>, Seq<char>>,
    image: ImageConfig,
    pending: bool,
)
    ensures
        ({
            let end = continued::<SessionEnv>(t, s, o, layout, cmdline, image, pending).0;
            asks_only(t, end, stays()) || exists|u: Transcript, o: OdsView, left: Transcript|
                #[trigger] goes_on(t, u, s, o, left, layout, cmdline, image, end)
        }),
{
    let end = continued::<SessionEnv>(t, s, o, layout, cmdline, image, pending).0;
    let rootfs = "/rootfs"@;
    reveal_strlit("/rootfs");
    let (p, c, none) = (PartitionName::Boot, FsckExitCode(0), Seq::<char>::empty());
    lemma_asks_nothing(t, stays());
    let (t1, s1, r1) = first_boot_in::<SessionEnv>(t, s);
    let (t2, s2, r2) = pending_in::<SessionEnv>(t1, s1);
    if s is Some {
        lemma_env_stays(t, s->0, BootEnvKey::FirstBootDone, None, p, c, none);
        lemma_env_stays(t1, s->0, BootEnvKey::ValidateUpdate, None, p, c, none);
        lemma_asks_further(t, t1, t2, stays());
    }
    assert(s1 == s && s2 == s);
    if r1 is Some && r2 is Some {
        let o2 = OdsView { first_boot: r1->0, ..o };
        let (t3, s3, o3, r3) = set_up::<SessionEnv>(
            t2,
            s2,
            o2,
            rootfs,
            r2->0,
            image.resize_data,
            layout,
            image.table,
        );
        lemma_set_up_stays(t2, s2, o2, rootfs, r2->0, image.resize_data, layout, image.table);
        lemma_set_up_keeps_kind(t2, s2, o2, rootfs, r2->0, image.resize_data, layout, image.table);
        lemma_asks_further(t, t2, t3, stays());
        reveal(mode_in::<SessionEnv>);
        reveal(mode_run::<SessionEnv>);
        let (t4, s4, r4) = mode_in::<SessionEnv>(t3, s3, image.factory_reset);
        if s is Some {
            lemma_env_stays(t3, s->0, BootEnvKey::FactoryReset, None, p, c, none);
        }
        lemma_asks_nothing(t3, stays());
        assert(asks_only(t3, t4, stays()));
        assert(s4 == s);
        lemma_asks_further(t, t3, t4, stays());
        if r3 is Ok && r4 is Ok {
            let (persistent, init, resize) = (image.persistent_var_log, init_of(cmdline), image.resize_data);
            match r4->Ok_0 {
                ModeView::Normal => {
                    lemma_onward(t, t4, s, o3, layout, cmdline, image);
                },
                ModeView::FactoryReset(config) => {
                    law_reset_boot(t4, s, o3, layout, rootfs, persistent, init, resize, config.preserve);
                    if asks_only(t4, end, stays()) {
                        lemma_asks_further(t, t4, end, stays());
                    } else {
                        let (u, reported) = choose|u: Transcript, reported: OdsView|
                            {
                                &&& asks_only(t4, u, stays())
                                &&& reported.factory_reset is Some
                                &&& end == (#[trigger] booted::<SessionEnv>(
                                    u,
                                    s,
                                    reported,
                                    layout,
                                    rootfs,
                                    persistent,
                                    init,
                                    resize,
                                )).0
                            };
                        lemma_asks_further(t, t4, u, stays());
                        lemma_onward(t, u, s, reported, layout, cmdline, image);
                    }
                },
            }
        }
    }
}

proof fn lemma_onward(
    t: Transcript,
    u: Transcript,
    s: Option<BootloaderKind>,
    o: OdsView,
    layout: LayoutView,
    cmdline: Map<Seq<char>, Seq<char>>,
    image: ImageConfig,
)
    requires
        asks_only(t, u, stays()),
    ensures
        ({
            let end = booted::<SessionEnv>(
                u,
                s,
                o,
                layout,
                "/rootfs"@,
                image.persistent_var_log,
                init_of(cmdline),
                image.resize_data,
            ).0;
            asks_only(t, end, stays()) || exists|u: Transcript, o: OdsView, left: Transcript|
                #[trigger] goes_on(t, u, s, o, left, layout, cmdline, image, end)
        }),
{
    reveal_strlit("/rootfs");
    let rootfs = "/rootfs"@;
    let (persistent, init, resize) = (image.persistent_var_log, init_of(cmdline), image.resize_data);
    let (end, after, status, r) = booted::<SessionEnv>(u, s, o, layout, rootfs, persistent, init, resize);
    law_boot(u, s, o, layout, rootfs, persistent, init, resize);
    if asks_only(u, end, stays()) {
        lemma_asks_further(t, u, end, stays());
    } else {
        let left = choose|left: Transcript|
            boots(u, left, s, o, layout, rootfs, persistent, resize) && (end, r)
                == #[trigger] crate::runtime::switch_root::switched(left, rootfs, init);
        assert(goes_on(t, u, s, o, left, layout, cmdline, image, end));
    }
}

proof fn lemma_set_up_keeps_kind(
    t: Transcript,
    s: Option<BootloaderKind>,
    o: OdsView,
    rootfs: Seq<char>,
    pending: bool,
    resize: bool,
    layout: LayoutView,
    table: crate::partition::PartitionTable,
)
    ensures
        set_up::<SessionEnv>(t, s, o, rootfs, pending, resize, layout, table).1 == s,
{
    reveal(set_up::<SessionEnv>);
}

} // verus!
