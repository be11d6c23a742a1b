//! In which order a boot does its work

use vstd::prelude::*;

use crate::bootloader::session_env::{BootloaderKind, SessionEnv};
use crate::bootloader::{BootEnv, BootEnvKey};
use crate::filesystem::boot_sequence::{
    drained, drained_from, drained_one, fsck_log_dir, fsck_partitions, logged, mounted_unless_there, persisted,
    persisted_from, readonly_options, remaining, remaining_mounted, rest_mounted, saved_in, writable_options,
};
use crate::filesystem::fsck_code::FsckExitCode;
use crate::filesystem::mount::mount_checked;
use crate::filesystem::overlayfs::{bound, data_overlaid, etc_overlaid, home_overlaid, raw_rootfs_mounted};
use crate::laws::links::{law_links, makes_links};
use crate::laws::mounts::{found_all, law_remaining_partitions, mounts_remaining, partition_steps, volatile_mount};
use crate::laws::overlay::{
    bind_of, law_etc_overlay, law_raw_rootfs, lays, lays_data, lays_etc, lemma_layers, only_if, private_at,
};
use crate::laws::records::{draws_all, lemma_draws_all};
use crate::laws::reset::lemma_and_asks;
use crate::laws::runtime::{law_service_files, serves};
use crate::laws::switch::stays;
use crate::laws::{
    achieves, asks_only, follows, group_asks, lemma_achieves_further, lemma_achieves_nothing, lemma_asks_nothing,
    lemma_asks_weaker, lemma_follows, lemma_follows_itself, under,
};
use crate::mode::normal::{booted, concluded, layers_set_up, marker_due, marker_written};
use crate::partition::layout::{LayoutView, PartitionName};
use crate::path::joined;
use crate::replay::filesystem::{replay_drained, replay_persisted};
use crate::replay::replayable;
use crate::runtime::fs_link::{
    all_loaded, config_loaded, directory_loaded, files_loaded, link_created, links_created, LinkView,
};
use crate::runtime::omnect_device_service::{
    created, gid_looked_up, marked, status_created, uid_looked_up, validated, validation_marker, FilePermission,
};
use crate::runtime::status::{FsckView, OdsView};
use crate::runtime::switch_root::switched;
use crate::system::{ReplyView, RequestView, Transcript};

verus! {

/// The configuration of links is found by reading alone.
proof fn lemma_config(t0: Transcript, t: Transcript, path: Seq<char>)
    requires
        achieves(t0, t, Seq::empty()),
    ensures
        config_loaded(t, path).1 is Ok ==> achieves(t0, config_loaded(t, path).0, Seq::empty()),
{
    if config_loaded(t, path).1 is Ok {
        lemma_and_asks(t0, t, RequestView::ReadText(path), Seq::empty());
    }
}

proof fn lemma_files(
    t0: Transcript,
    t: Transcript,
    links: Seq<LinkView>,
    dir: Seq<char>,
    names: Seq<Seq<char>>,
    i: int,
)
    requires
        achieves(t0, t, Seq::empty()),
    ensures
        files_loaded(t, links, dir, names, i).1 is Ok ==> achieves(
            t0,
            files_loaded(t, links, dir, names, i).0,
            Seq::empty(),
        ),
    decreases names.len() - i,
{
    if 0 <= i < names.len() {
        let path = joined(dir, names[i]);
        lemma_config(t0, t, path);
        let (t1, r) = config_loaded(t, path);
        if r is Ok {
            lemma_files(t0, t1, links + r->Ok_0, dir, names, i + 1);
        }
    }
}

proof fn lemma_all_loaded(t: Transcript, rootfs: Seq<char>)
    ensures
        all_loaded(t, rootfs).1 is Ok ==> achieves(t, all_loaded(t, rootfs).0, Seq::empty()),
{
    let none = Seq::<RequestView>::empty();
    let main = joined(rootfs, "etc/omnect/fs-link.json"@);
    let dir = joined(rootfs, "etc/omnect/fs-link.d"@);
    lemma_achieves_nothing(t);
    if all_loaded(t, rootfs).1 is Ok {
        lemma_and_asks(t, t, RequestView::Exists(main), none);
        let t1 = t.ask(RequestView::Exists(main));
        lemma_config(t, t1, main);
        let there = t.rest[0] == ReplyView::Flag(true);
        let t2 = if there {
            config_loaded(t1, main).0
        } else {
            t1
        };
        let links = if there {
            config_loaded(t1, main).1->Ok_0
        } else {
            Seq::empty()
        };
        assert(all_loaded(t, rootfs) == directory_loaded(t2, links, rootfs));
        lemma_and_asks(t, t2, RequestView::IsDir(dir), none);
        let t3 = t2.ask(RequestView::IsDir(dir));
        if t2.next()->0 == ReplyView::Flag(true) {
            lemma_and_asks(t, t3, RequestView::ListDir(dir), none);
            let t4 = t3.ask(RequestView::ListDir(dir));
            if let ReplyView::Names { names, failed } = t3.next()->0 {
                let sorted = crate::order::ordering_of(crate::runtime::fs_link::json_names(names));
                lemma_files(t, t4, links, dir, sorted, 0);
            }
        }
    }
}

/// `list` shows the bare root filesystem at its place, lays etc and the data partition over it,
/// and makes links.
pub open spec fn lays_all(list: Seq<RequestView>, rootfs: Seq<char>, persistent: bool) -> bool {
    let raw = under(rootfs, "mnt/rootCurrentPrivate"@);
    exists|made: bool, a: Seq<RequestView>, b: Seq<RequestView>, c: Seq<RequestView>, links: Seq<LinkView>|
        list == #[trigger] only_if(made, RequestView::CreateDir(raw)) + only_if(true, bind_of(rootfs, raw)) + only_if(
            true,
            private_at(raw),
        ) + (a + b) + c && #[trigger] lays_etc(a, rootfs) && #[trigger] lays_data(b, rootfs, persistent)
            && #[trigger] makes_links(c, rootfs, links)
}

/// The layers of a normal boot.
pub proof fn law_layers(t: Transcript, rootfs: Seq<char>, persistent: bool)
    requires
        rootfs.len() > 0,
    ensures
        layers_set_up(t, rootfs, persistent).1 is Ok ==> exists|list: Seq<RequestView>|
            #[trigger] achieves(t, layers_set_up(t, rootfs, persistent).0, list) && lays_all(list, rootfs, persistent),
{
    let (end, r) = layers_set_up(t, rootfs, persistent);
    if r is Ok {
        let raw = under(rootfs, "mnt/rootCurrentPrivate"@);
        law_raw_rootfs(t, rootfs);
        let t1 = raw_rootfs_mounted(t, rootfs).0;
        let made = choose|made: bool| #[trigger] achieves(
            t,
            t1,
            only_if(made, RequestView::CreateDir(raw)) + only_if(true, bind_of(rootfs, raw)) + only_if(
                true,
                private_at(raw),
            ),
        );
        let first = only_if(made, RequestView::CreateDir(raw)) + only_if(true, bind_of(rootfs, raw)) + only_if(
            true,
            private_at(raw),
        );
        let none = Seq::<Seq<char>>::empty();
        lemma_data_ignores_mounts(etc_overlaid(t1, none, rootfs).0, etc_overlaid(t1, none, rootfs).1, none, rootfs, persistent);
        lemma_layers(t1, none, rootfs, persistent);
        let t2 = etc_overlaid(t1, none, rootfs).0;
        let t3 = data_overlaid(t2, none, rootfs, persistent).0;
        let (a, b) = choose|a: Seq<RequestView>, b: Seq<RequestView>|
            #[trigger] achieves(t1, t3, a + b) && lays_etc(a, rootfs) && lays_data(b, rootfs, persistent);
        lemma_all_loaded(t3, rootfs);
        let (t4, loaded) = all_loaded(t3, rootfs);
        let links = loaded->Ok_0;
        law_links(t4, rootfs, links);
        let c = choose|list: Seq<RequestView>| #[trigger] achieves(t4, end, list) && makes_links(list, rootfs, links);
        lemma_achieves_further(t, t1, t3, first, a + b);
        lemma_achieves_further(t, t3, t4, first + (a + b), Seq::empty());
        assert(first + (a + b) + Seq::<RequestView>::empty() =~= first + (a + b));
        lemma_achieves_further(t, t4, end, first + (a + b), c);
        assert(lays_all(first + (a + b) + c, rootfs, persistent));
    }
}

/// What is asked for the layers does not depend on what is tracked already.
proof fn lemma_data_ignores_mounts(
    t: Transcript,
    one: Seq<Seq<char>>,
    other: Seq<Seq<char>>,
    rootfs: Seq<char>,
    persistent: bool,
)
    ensures
        data_overlaid(t, one, rootfs, persistent).0 == data_overlaid(t, other, rootfs, persistent).0,
        data_overlaid(t, one, rootfs, persistent).2 == data_overlaid(t, other, rootfs, persistent).2,
{
    reveal(data_overlaid);
}

/// `list` checks and mounts the remaining partitions that are not there yet, and the tmpfs.
pub open spec fn mounts_all(list: Seq<RequestView>, layout: LayoutView, rootfs: Seq<char>) -> bool {
    exists|a: bool, b: bool, c: bool, d: bool|
        list == (#[trigger] partition_steps(layout, rootfs, PartitionName::Factory, a) + #[trigger] partition_steps(
            layout,
            rootfs,
            PartitionName::Cert,
            b,
        ) + #[trigger] partition_steps(layout, rootfs, PartitionName::Etc, c) + #[trigger] partition_steps(
            layout,
            rootfs,
            PartitionName::Data,
            d,
        )).push(volatile_mount(rootfs))
}

/// Only the fsck results differ.
pub open spec fn same_but_fsck(one: OdsView, other: OdsView) -> bool {
    one == OdsView { fsck: one.fsck, ..other }
}

proof fn lemma_mounts_keep_status(t: Transcript, o: OdsView, layout: LayoutView, rootfs: Seq<char>, i: int)
    ensures
        same_but_fsck(rest_mounted(t, o, layout, rootfs, i).1, o),
    decreases 4 - i,
{
    reveal(mounted_unless_there);
    if 0 <= i < 4 {
        let (name, point, writable) = remaining()[i];
        let options = if writable {
            writable_options()
        } else {
            readonly_options()
        };
        let (t1, o1, r1) = mounted_unless_there(t, o, layout, rootfs, name, point, options);
        assert(same_but_fsck(o1, o));
        lemma_mounts_keep_status(t1, o1, layout, rootfs, i + 1);
    }
}

proof fn lemma_drain_keeps_status(t: Transcript, o: OdsView, s: BootloaderKind, i: int)
    ensures
        same_but_fsck(drained_from::<SessionEnv>(t, o, s, i).1, o),
        drained_from::<SessionEnv>(t, o, s, i).2 == s,
    decreases 5 - i,
{
    if 0 <= i < 5 {
        let (t1, o1, s1, r1) = drained_one::<SessionEnv>(t, o, s, fsck_partitions()[i]);
        lemma_drain_keeps_status(t1, o1, s1, i + 1);
    }
}

proof fn lemma_persist_keeps_kind(
    t: Transcript,
    s: Option<BootloaderKind>,
    fsck: Seq<(PartitionName, FsckView)>,
    log_dir: Seq<char>,
    data_mounted: bool,
    i: int,
)
    ensures
        persisted_from::<SessionEnv>(t, s, fsck, log_dir, data_mounted, i).1 == s,
    decreases fsck.len() - i,
{
    if 0 <= i < fsck.len() {
        let (name, result) = fsck[i];
        if result.code == 0 {
            lemma_persist_keeps_kind(t, s, fsck, log_dir, data_mounted, i + 1);
        } else {
            let (t1, s1, r1) = saved_in::<SessionEnv>(t, s, name, FsckExitCode(result.code), result.output);
            let (t2, r2) = logged(t1, log_dir, data_mounted, name, result.output);
            lemma_persist_keeps_kind(t2, s1, fsck, log_dir, data_mounted, i + 1);
        }
    }
}

/// The first boot is marked as done when nothing of it is left to do.
pub open spec fn first_boot_over(status: OdsView, resize: bool) -> bool {
    status.first_boot && (resize ==> status.resize_data is None) && status.extra_bootargs is None
}

/// A boot came to the point where init takes over at `left`: the partitions were mounted, the
/// layers were laid, the records of the checks were drawn, the service found its files, and the
/// first boot was marked as done where it was, in this order.
pub open spec fn boots(
    t: Transcript,
    left: Transcript,
    s: Option<BootloaderKind>,
    o: OdsView,
    layout: LayoutView,
    rootfs: Seq<char>,
    persistent: bool,
    resize: bool,
) -> bool {
    exists|
        mounting: Seq<RequestView>,
        layering: Seq<RequestView>,
        mounted: Transcript,
        noted: Transcript,
        layered: Transcript,
        drawn: Transcript,
        served: Transcript,
        status: OdsView,
        uid: u32,
        gid: u32,
        reported: Transcript,
    |
        {
            &&& #[trigger] achieves(t, mounted, mounting) && mounts_all(mounting, layout, rootfs)
            &&& follows(mounted, noted)
            &&& #[trigger] achieves(noted, layered, layering) && lays_all(layering, rootfs, persistent)
            &&& follows(layered, drawn)
            &&& s matches Some(kind) ==> draws_all(layered, drawn, kind)
            &&& same_but_fsck(status, o)
            &&& #[trigger] serves(
                drawn,
                served,
                s,
                status,
                rootfs,
                "/run/omnect-device-service"@,
                uid,
                gid,
                reported,
            )
            &&& if s is Some && first_boot_over(status, resize) {
                follows(SessionEnv::writes(served, s->0, BootEnvKey::FirstBootDone, Some("1"@)).0, left)
            } else {
                left == served
            }
        }
}

/// A boot that reaches init went through all of its steps before, in their order.
pub proof fn law_boot(
    t: Transcript,
    s: Option<BootloaderKind>,
    o: OdsView,
    layout: LayoutView,
    rootfs: Seq<char>,
    persistent: bool,
    init: Option<Seq<char>>,
    resize: bool,
)
    requires
        rootfs.len() > 0,
    ensures
        ({
            let (end, after, status, r) = booted::<SessionEnv>(t, s, o, layout, rootfs, persistent, init, resize);
            ||| asks_only(t, end, stays())
            ||| exists|left: Transcript|
                boots(t, left, s, o, layout, rootfs, persistent, resize) && (end, r) == #[trigger] switched(left, rootfs, init)
        }),
{
    let (end, after, status, r) = booted::<SessionEnv>(t, s, o, layout, rootfs, persistent, init, resize);
    lemma_boot_stays(t, s, o, layout, rootfs, persistent, init, resize);
    if !asks_only(t, end, stays()) {
        let (mounted, o1, r1) = remaining_mounted(t, o, layout, rootfs);
        law_remaining_partitions(t, o, layout, rootfs);
        let (a, b, c, d) = choose|a: bool, b: bool, c: bool, d: bool|
            achieves(
                t,
                mounted,
                (#[trigger] partition_steps(layout, rootfs, PartitionName::Factory, a)
                    + #[trigger] partition_steps(layout, rootfs, PartitionName::Cert, b)
                    + #[trigger] partition_steps(layout, rootfs, PartitionName::Etc, c)
                    + #[trigger] partition_steps(layout, rootfs, PartitionName::Data, d)).push(volatile_mount(rootfs)),
            ) && found_all(t, mounted, layout, rootfs, a, b, c, d);
        let mounting = (partition_steps(layout, rootfs, PartitionName::Factory, a) + partition_steps(
            layout,
            rootfs,
            PartitionName::Cert,
            b,
        ) + partition_steps(layout, rootfs, PartitionName::Etc, c) + partition_steps(
            layout,
            rootfs,
            PartitionName::Data,
            d,
        )).push(volatile_mount(rootfs));
        assert(mounts_all(mounting, layout, rootfs));
        lemma_mounts_keep_status(t, o, layout, rootfs, 0);
        let (noted, s2, r2) = persisted::<SessionEnv>(mounted, s, o1, rootfs);
        lemma_persisted_follows(mounted, s, o1, rootfs);
        let (layered, r3) = layers_set_up(noted, rootfs, persistent);
        law_layers(noted, rootfs, persistent);
        let layering = choose|list: Seq<RequestView>|
            #[trigger] achieves(noted, layered, list) && lays_all(list, rootfs, persistent);
        assert((end, after, status, r) == concluded::<SessionEnv>(layered, s, o1, rootfs, init, resize));
        let left = lemma_concluded(layered, s, o1, rootfs, init, resize);
        let (drawn, o2, s3, r4) = drained::<SessionEnv>(layered, o1, s);
        let (served, s4, r5) = created::<SessionEnv>(drawn, s3, o2, rootfs, "/run/omnect-device-service"@);
        if s is Some {
            lemma_draws_all(layered, o1, s->0);
        }
        law_service_files(drawn, s, o2, rootfs, "/run/omnect-device-service"@);
        let (uid, gid, reported) = choose|uid: u32, gid: u32, reported: Transcript|
            #[trigger] serves(
                drawn,
                served,
                s,
                o2,
                rootfs,
                "/run/omnect-device-service"@,
                uid,
                gid,
                reported,
            );
        assert(boots(t, left, s, o, layout, rootfs, persistent, resize));
    }
}

pub proof fn lemma_persisted_follows(t: Transcript, s: Option<BootloaderKind>, o: OdsView, rootfs: Seq<char>)
    ensures
        follows(t, persisted::<SessionEnv>(t, s, o, rootfs).0),
        persisted::<SessionEnv>(t, s, o, rootfs).1 == s,
{
    let procedure = |u: Transcript| persisted::<SessionEnv>(u, s, o, rootfs);
    assert forall|u: Transcript| #[trigger] replayable(u, procedure) by {
        replay_persisted(u, s, o, rootfs);
    }
    lemma_follows(t, procedure);
    let t1 = mount_checked(t, joined(rootfs, "mnt/data"@)).0;
    lemma_persist_keeps_kind(t1, s, o.fsck, fsck_log_dir(rootfs), false, 0);
    lemma_persist_keeps_kind(t1, s, o.fsck, fsck_log_dir(rootfs), true, 0);
}

proof fn lemma_drained_follows(t: Transcript, o: OdsView, s: Option<BootloaderKind>)
    ensures
        follows(t, drained::<SessionEnv>(t, o, s).0),
        drained::<SessionEnv>(t, o, s).2 == s,
        same_but_fsck(drained::<SessionEnv>(t, o, s).1, o),
{
    let procedure = |u: Transcript| drained::<SessionEnv>(u, o, s);
    assert forall|u: Transcript| #[trigger] replayable(u, procedure) by {
        replay_drained(u, o, s);
    }
    lemma_follows(t, procedure);
    if s is Some {
        lemma_drain_keeps_status(t, o, s->0, 0);
    }
}

/// A boot comes to its end.
spec fn concludes(t: Transcript, s: Option<BootloaderKind>, o: OdsView, rootfs: Seq<char>, resize: bool) -> bool {
    let (drawn, o2, s3, r4) = drained::<SessionEnv>(t, o, s);
    let (served, s4, r5) = created::<SessionEnv>(drawn, s3, o2, rootfs, "/run/omnect-device-service"@);
    &&& r4 is Some
    &&& r5 is Ok
    &&& marker_written::<SessionEnv>(served, s4, marker_due(o2, resize)).2 is Some
}

pub proof fn lemma_env_stays(
    t: Transcript,
    s: BootloaderKind,
    key: BootEnvKey,
    value: Option<Seq<char>>,
    name: PartitionName,
    code: FsckExitCode,
    output: Seq<char>,
)
    ensures
        asks_only(t, SessionEnv::reads(t, s, key).0, stays()),
        asks_only(t, SessionEnv::writes(t, s, key, value).0, stays()),
        asks_only(t, SessionEnv::saves(t, s, name, code, output).0, stays()),
        asks_only(t, SessionEnv::recalls(t, s, name).0, stays()),
        asks_only(t, SessionEnv::clears(t, s, name).0, stays()),
{
    broadcast use group_asks;

    lemma_asks_nothing(t, stays());
}

proof fn lemma_persist_stays(
    t0: Transcript,
    t: Transcript,
    s: Option<BootloaderKind>,
    fsck: Seq<(PartitionName, FsckView)>,
    log_dir: Seq<char>,
    data_mounted: bool,
    i: int,
)
    requires
        asks_only(t0, t, stays()),
    ensures
        asks_only(t0, persisted_from::<SessionEnv>(t, s, fsck, log_dir, data_mounted, i).0, stays()),
    decreases fsck.len() - i,
{
    if 0 <= i < fsck.len() {
        let (name, result) = fsck[i];
        if result.code == 0 {
            lemma_persist_stays(t0, t, s, fsck, log_dir, data_mounted, i + 1);
        } else {
            reveal(logged);
            let code = FsckExitCode(result.code);
            let (t1, s1, r1) = saved_in::<SessionEnv>(t, s, name, code, result.output);
            let (t2, r2) = logged(t1, log_dir, data_mounted, name, result.output);
            if s is Some {
                lemma_env_stays(t, s->0, BootEnvKey::ResizedData, None, name, code, result.output);
            }
            assert(asks_only(t0, t1, stays())) by {
                broadcast use group_asks;

            }
            assert(asks_only(t0, t2, stays())) by {
                broadcast use group_asks;

            }
            lemma_persist_stays(t0, t2, s1, fsck, log_dir, data_mounted, i + 1);
        }
    }
}

proof fn lemma_drain_stays(t0: Transcript, t: Transcript, o: OdsView, s: BootloaderKind, i: int)
    requires
        asks_only(t0, t, stays()),
    ensures
        asks_only(t0, drained_from::<SessionEnv>(t, o, s, i).0, stays()),
    decreases 5 - i,
{
    if 0 <= i < 5 {
        let name = fsck_partitions()[i];
        let (t1, o1, s1, r1) = drained_one::<SessionEnv>(t, o, s, name);
        let (a, sa, ra) = SessionEnv::recalls(t, s, name);
        lemma_env_stays(t, s, BootEnvKey::ResizedData, None, name, FsckExitCode(0), Seq::empty());
        lemma_env_stays(a, sa, BootEnvKey::ResizedData, None, name, FsckExitCode(0), Seq::empty());
        assert(asks_only(t0, t1, stays())) by {
            broadcast use group_asks;

        }
        lemma_drain_stays(t0, t1, o1, s1, i + 1);
    }
}

proof fn lemma_created_stays(t: Transcript, s: Option<BootloaderKind>, status: OdsView, rootfs: Seq<char>, dir: Seq<char>)
    ensures
        asks_only(t, created::<SessionEnv>(t, s, status, rootfs, dir).0, stays()),
{
    lemma_asks_nothing(t, stays());
    let name = "omnect_device_service"@;
    let (t1, u) = uid_looked_up(t, rootfs, name);
    let (t2, g) = gid_looked_up(t1, rootfs, name);
    let (t3, r) = status_created(t2, status, dir, u->Ok_0, g->Ok_0);
    assert(asks_only(t, t1, stays()) && asks_only(t, t2, stays()) && asks_only(t, t3, stays())) by {
        broadcast use group_asks;

    }
    if s is Some {
        lemma_markers_stay(t3, s->0, dir, u->Ok_0, g->Ok_0);
    }
    assert(asks_only(t, created::<SessionEnv>(t, s, status, rootfs, dir).0, stays())) by {
        broadcast use group_asks;

    }
}

proof fn lemma_markers_stay(t: Transcript, s: BootloaderKind, dir: Seq<char>, uid: u32, gid: u32)
    ensures
        asks_only(t, validated::<SessionEnv>(t, s, dir, uid, gid).0, stays()),
{
    let (t1, s1, v) = SessionEnv::reads(t, s, BootEnvKey::ValidateUpdate);
    let code = FsckExitCode(0);
    lemma_env_stays(t, s, BootEnvKey::ValidateUpdate, None, PartitionName::Boot, code, Seq::empty());
    let file = validation_marker(v->Ok_0);
    let (t2, r2) = marked(t1, joined(dir, file->0), uid, gid, FilePermission::FileReadable);
    assert(asks_only(t, t2, stays())) by {
        broadcast use group_asks;

    }
    let middle = if file is Some {
        t2
    } else {
        t1
    };
    lemma_env_stays(middle, s, BootEnvKey::BootloaderUpdated, None, PartitionName::Boot, code, Seq::empty());
    assert(asks_only(t, validated::<SessionEnv>(t, s, dir, uid, gid).0, stays())) by {
        broadcast use group_asks;

    }
}

proof fn lemma_files_stay(
    t0: Transcript,
    t: Transcript,
    links: Seq<LinkView>,
    dir: Seq<char>,
    names: Seq<Seq<char>>,
    i: int,
)
    requires
        asks_only(t0, t, stays()),
    ensures
        asks_only(t0, files_loaded(t, links, dir, names, i).0, stays()),
    decreases names.len() - i,
{
    broadcast use group_asks;

    if 0 <= i < names.len() {
        let (t1, r) = config_loaded(t, joined(dir, names[i]));
        if r is Ok {
            lemma_files_stay(t0, t1, links + r->Ok_0, dir, names, i + 1);
        }
    }
}

proof fn lemma_links_stay(t0: Transcript, t: Transcript, rootfs: Seq<char>, links: Seq<LinkView>, i: int)
    requires
        asks_only(t0, t, stays()),
    ensures
        asks_only(t0, links_created(t, rootfs, links, i).0, stays()),
    decreases links.len() - i,
{
    if 0 <= i < links.len() {
        let (t1, r) = link_created(t, rootfs, links[i]);
        assert(asks_only(t0, t1, stays())) by {
            broadcast use group_asks;

        }
        if r is Ok {
            lemma_links_stay(t0, t1, rootfs, links, i + 1);
        }
    }
}

proof fn lemma_layers_stay(t: Transcript, rootfs: Seq<char>, persistent: bool)
    ensures
        asks_only(t, layers_set_up(t, rootfs, persistent).0, stays()),
{
    let none = Seq::<Seq<char>>::empty();
    lemma_asks_nothing(t, stays());
    let (t1, r1) = raw_rootfs_mounted(t, rootfs);
    assert(asks_only(t, t1, stays())) by {
        broadcast use group_asks;

    }
    let (t2, m2, r2) = etc_overlaid(t1, none, rootfs);
    law_etc_overlay(t1, none, rootfs);
    lemma_asks_weaker(
        t1,
        t2,
        lays(
            under(rootfs, "etc"@),
            under(under(rootfs, "mnt/etc"@), "upper"@),
            under(under(rootfs, "mnt/etc"@), "work"@),
            under(under(rootfs, "mnt/factory"@), "etc"@),
        ),
        stays(),
    );
    let (t3, m3, r3) = data_overlaid(t2, none, rootfs, persistent);
    lemma_data_stays(t2, none, rootfs, persistent);
    lemma_asks_nothing(t3, stays());
    let (t4, r4) = all_loaded(t3, rootfs);
    lemma_loading_stays(t3, rootfs);
    if r4 is Ok {
        lemma_links_stay(t3, t4, rootfs, r4->Ok_0, 0);
    }
    assert(asks_only(t, layers_set_up(t, rootfs, persistent).0, stays())) by {
        broadcast use group_asks;

    }
}

proof fn lemma_loading_stays(t: Transcript, rootfs: Seq<char>)
    ensures
        asks_only(t, all_loaded(t, rootfs).0, stays()),
{
    let main = joined(rootfs, "etc/omnect/fs-link.json"@);
    let dir = joined(rootfs, "etc/omnect/fs-link.d"@);
    lemma_asks_nothing(t, stays());
    let t1 = t.ask(RequestView::Exists(main));
    let there = t.next() == Some(ReplyView::Flag(true));
    let t2 = if there {
        config_loaded(t1, main).0
    } else {
        t1
    };
    let links = if there {
        config_loaded(t1, main).1->Ok_0
    } else {
        Seq::empty()
    };
    let t3 = t2.ask(RequestView::IsDir(dir));
    let t4 = t3.ask(RequestView::ListDir(dir));
    assert(asks_only(t, t2, stays()) && asks_only(t, t3, stays()) && asks_only(t, t4, stays()) && asks_only(
        t,
        t1,
        stays(),
    )) by {
        broadcast use group_asks;

    }
    if t3.next() is Some {
        if let ReplyView::Names { names, failed } = t3.next()->0 {
            let sorted = crate::order::ordering_of(crate::runtime::fs_link::json_names(names));
            lemma_files_stay(t, t4, links, dir, sorted, 0);
        }
    }
}

pub proof fn lemma_data_stays(t: Transcript, mounts: Seq<Seq<char>>, rootfs: Seq<char>, persistent: bool)
    ensures
        asks_only(t, data_overlaid(t, mounts, rootfs, persistent).0, stays()),
{
    reveal(data_overlaid);
    let data = joined(rootfs, "mnt/data"@);
    lemma_asks_nothing(t, stays());
    let (t1, m1, r1) = home_overlaid(t, mounts, rootfs, data);
    assert(asks_only(t, t1, stays())) by {
        broadcast use group_asks;

    }
    let (t2, m2, r2) = bound(t1, m1, joined(data, "var/lib"@), joined(rootfs, "var/lib"@));
    assert(asks_only(t, t2, stays())) by {
        broadcast use group_asks;

    }
    let (t3, m3, r3) = bound(t2, m2, joined(data, "local"@), joined(rootfs, "usr/local"@));
    assert(asks_only(t, t3, stays())) by {
        broadcast use group_asks;

    }
    let (t4, m4, r4) = bound(t3, m3, joined(data, "var/log"@), joined(rootfs, "var/log"@));
    assert(asks_only(t, t4, stays())) by {
        broadcast use group_asks;

    }
}

/// Before a boot comes to its end, nothing replaces the process.
proof fn lemma_boot_stays(
    t: Transcript,
    s: Option<BootloaderKind>,
    o: OdsView,
    layout: LayoutView,
    rootfs: Seq<char>,
    persistent: bool,
    init: Option<Seq<char>>,
    resize: bool,
)
    ensures
        ({
            let (end, after, status, r) = booted::<SessionEnv>(t, s, o, layout, rootfs, persistent, init, resize);
            let (mounted, o1, r1) = remaining_mounted(t, o, layout, rootfs);
            let (noted, s2, r2) = persisted::<SessionEnv>(mounted, s, o1, rootfs);
            let (layered, r3) = layers_set_up(noted, rootfs, persistent);
            asks_only(t, end, stays()) || (r1 is Ok && r2 is Some && r3 is Ok && concludes(layered, s2, o1, rootfs, resize))
        }),
{
    let (end, after, status, r) = booted::<SessionEnv>(t, s, o, layout, rootfs, persistent, init, resize);
    let (mounted, o1, r1) = remaining_mounted(t, o, layout, rootfs);
    let (noted, s2, r2) = persisted::<SessionEnv>(mounted, s, o1, rootfs);
    let (layered, r3) = layers_set_up(noted, rootfs, persistent);
    law_remaining_partitions(t, o, layout, rootfs);
    lemma_asks_weaker(t, mounted, mounts_remaining(layout, rootfs), stays());
    lemma_persisted_stays(mounted, s, o1, rootfs);
    lemma_layers_stay(noted, rootfs, persistent);
    assert(asks_only(t, noted, stays()) && asks_only(t, layered, stays())) by {
        broadcast use group_asks;

    }
    if r1 is Ok && r2 is Some && r3 is Ok {
        let (drawn, o2, s3, r4) = drained::<SessionEnv>(layered, o1, s2);
        let (served, s4, r5) = created::<SessionEnv>(drawn, s3, o2, rootfs, "/run/omnect-device-service"@);
        lemma_asks_nothing(layered, stays());
        if s2 is Some {
            lemma_drain_stays(layered, layered, o1, s2->0, 0);
        }
        lemma_created_stays(drawn, s3, o2, rootfs, "/run/omnect-device-service"@);
        if s4 is Some {
            lemma_env_stays(
                served,
                s4->0,
                BootEnvKey::FirstBootDone,
                Some("1"@),
                PartitionName::Boot,
                FsckExitCode(0),
                Seq::empty(),
            );
        }
        if !concludes(layered, s2, o1, rootfs, resize) {
            assert(asks_only(t, end, stays())) by {
                broadcast use group_asks;

            }
        }
    }
}

pub proof fn lemma_persisted_stays(t: Transcript, s: Option<BootloaderKind>, o: OdsView, rootfs: Seq<char>)
    ensures
        asks_only(t, persisted::<SessionEnv>(t, s, o, rootfs).0, stays()),
{
    lemma_asks_nothing(t, stays());
    let t1 = mount_checked(t, joined(rootfs, "mnt/data"@)).0;
    assert(asks_only(t, t1, stays())) by {
        broadcast use group_asks;

    }
    lemma_persist_stays(t, t1, s, o.fsck, fsck_log_dir(rootfs), false, 0);
    lemma_persist_stays(t, t1, s, o.fsck, fsck_log_dir(rootfs), true, 0);
}

proof fn lemma_concluded(
    t: Transcript,
    s: Option<BootloaderKind>,
    o: OdsView,
    rootfs: Seq<char>,
    init: Option<Seq<char>>,
    resize: bool,
) -> (left: Transcript)
    requires
        concludes(t, s, o, rootfs, resize),
    ensures
        ({
            let (end, after, status, r) = concluded::<SessionEnv>(t, s, o, rootfs, init, resize);
            let (drawn, o2, s3, r4) = drained::<SessionEnv>(t, o, s);
            let (served, s4, r5) = created::<SessionEnv>(drawn, s3, o2, rootfs, "/run/omnect-device-service"@);
            &&& (end, r) == switched(left, rootfs, init)
            &&& follows(t, drawn)
            &&& same_but_fsck(o2, o)
            &&& s3 == s
            &&& r5 is Ok
            &&& if s is Some && first_boot_over(o2, resize) {
                follows(SessionEnv::writes(served, s->0, BootEnvKey::FirstBootDone, Some("1"@)).0, left)
            } else {
                left == served
            }
        }),
{
    let (drawn, o2, s3, r4) = drained::<SessionEnv>(t, o, s);
    let (served, s4, r5) = created::<SessionEnv>(drawn, s3, o2, rootfs, "/run/omnect-device-service"@);
    lemma_drained_follows(t, o, s);
    lemma_created_keeps_kind(drawn, s, o2, rootfs, "/run/omnect-device-service"@);
    let due = first_boot_over(o2, resize);
    let (left, s5, r6) = marker_written::<SessionEnv>(served, s4, due);
    if s is Some && due {
        let (t1, s6, r7) = SessionEnv::writes(served, s->0, BootEnvKey::FirstBootDone, Some("1"@));
        lemma_follows_itself(t1);
        if left != t1 {
            crate::laws::lemma_follows_ask(t1, left.asked.last());
            assert(left == t1.ask(left.asked.last()));
        }
    }
    left
}

proof fn lemma_created_keeps_kind(t: Transcript, s: Option<BootloaderKind>, status: OdsView, rootfs: Seq<char>, dir: Seq<char>)
    ensures
        created::<SessionEnv>(t, s, status, rootfs, dir).1 == s,
{
}

} // verus!
