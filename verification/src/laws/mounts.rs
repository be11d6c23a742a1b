//! Which partition is mounted where

use vstd::prelude::*;

use crate::error::FilesystemError;
use crate::filesystem::boot_sequence::{
    boot_mounted, checked_and_mounted, core_mounted, mounted_unless_there, readonly_options, remaining_mounted,
    rest_mounted, writable_options,
};
use crate::filesystem::fsck::{checked, checked_leniently, fsck_ran};
use crate::filesystem::fsck_code::FsckExitCode;
use crate::filesystem::mount::{lists_mount, FsType, MountOptionsView};
use crate::laws::{
    achieves, answered, answered_at, asked_in, asks_only, follows, group_achieves, group_asks, lemma_achieves_further,
    lemma_achieves_next, lemma_achieves_nothing, lemma_answered_further, lemma_asks_nothing, lemma_follows_further,
    lemma_places, lemma_programs, quiet, under, unflagged,
};
use crate::logging::kmsg::lifted;
use crate::partition::layout::{LayoutView, PartitionName};
use crate::runtime::status::OdsView;
use crate::system::{MountFlags, ReplyView, RequestView, Stop, Transcript};

verus! {

/// The check of a filesystem.
pub open spec fn check_of(fstype: Seq<char>, device: Seq<char>) -> RequestView {
    RequestView::Run { program: "/sbin/fsck"@, args: seq!["-y"@, "-t"@, fstype, device] }
}

/// What a check asks: the check itself, and nothing else that changes something.
pub open spec fn checks(fstype: Seq<char>, device: Seq<char>) -> spec_fn(RequestView) -> bool {
    |q: RequestView| quiet(q) || q == check_of(fstype, device)
}

pub proof fn lemma_ran(t: Transcript, device: Seq<char>, fstype: FsType)
    ensures
        ({
            let (end, r) = fsck_ran(t, device, fstype);
            let check = check_of(fstype.text(), device);
            &&& asks_only(t, end, checks(fstype.text(), device))
            &&& r is Some ==> achieves(t, end, seq![check])
            &&& r is Some ==> exists|reply: ReplyView|
                #[trigger] answered(t, end, check, reply) && r->0 == crate::system::output_of(reply)
        }),
{
    let (end, r) = fsck_ran(t, device, fstype);
    let check = check_of(fstype.text(), device);
    let p = checks(fstype.text(), device);
    let none = Seq::<RequestView>::empty();
    lemma_asks_nothing(t, p);
    assert(asks_only(t, end, p)) by {
        broadcast use group_asks;

    }
    if r is Some {
        broadcast use group_achieves;

        lemma_programs();

        assert(achieves(t, t, none));
        let (t1, saved) = lifted(t);
        assert(achieves(t, t1, none));
        let t2 = t1.ask(check);
        assert(none.push(check) =~= seq![check]);
        assert(achieves(t, t2, seq![check]));
        assert(achieves(t, end, seq![check]));
        assert(follows(t, t1)) by {
            reveal(achieves);
        }
        let n = asked_in(t, t1).len() as int;
        assert(t.rest.len() > n && t.rest[n] == t1.rest[0]) by {
            reveal(follows);
        }
        assert(answered_at(t, end, n, check, t.rest[n]));
        assert(answered(t, end, check, t.rest[n]));
    }
}

/// The exit code of fsck; a check that a signal ended counts as an operational error, and one
/// that could not be run as unknown.
pub open spec fn code_of(reply: ReplyView) -> i32 {
    match reply {
        ReplyView::Output(out) => match out.code {
            Some(code) => code,
            None => 8,
        },
        _ => -1i32,
    }
}

/// A filesystem is checked with fsck before it is mounted. Where fsck asks for a reboot (the
/// second bit of its exit code), the boot ends with what it wrote; every other exit code is
/// handed on with the result.
pub proof fn law_check(t: Transcript, device: Seq<char>, fstype: FsType)
    ensures
        ({
            let (end, r) = checked_leniently(t, device, fstype);
            let check = check_of(fstype.text(), device);
            &&& asks_only(t, end, checks(fstype.text(), device))
            &&& r is Ok ==> achieves(t, end, seq![check])
            &&& r matches Ok(found) ==> found.device == device && exists|reply: ReplyView|
                #[trigger] answered(t, end, check, reply) && found.exit_code.0 == code_of(reply) && (
                reply is Output ==> code_of(reply) & 2 == 0)
            &&& r matches Err(Stop::Failed(e)) ==> e is FsckRequiresReboot && exists|reply: ReplyView|
                #[trigger] answered(t, end, check, reply) && reply is Output && code_of(reply) & 2 != 0 && e
                    == (FilesystemError::FsckRequiresReboot {
                    device,
                    code: FsckExitCode(code_of(reply)),
                    output: reply->Output_0.stdout + reply->Output_0.stderr,
                })
        }),
{
    let (end, r) = checked_leniently(t, device, fstype);
    let check = check_of(fstype.text(), device);
    let (t1, ran) = fsck_ran(t, device, fstype);
    lemma_ran(t, device, fstype);
    assert(asks_only(t, end, checks(fstype.text(), device))) by {
        broadcast use group_asks;

    }
    if !(r matches Err(Stop::Pending)) {
        let reply = choose|reply: ReplyView|
            #[trigger] answered(t, t1, check, reply) && ran->0 == crate::system::output_of(reply);
        assert(achieves(t, end, seq![check])) by {
            broadcast use group_achieves;

        }
        let i = choose|i: int| answered_at(t, t1, i, check, reply);
        assert(end.asked.take(t1.asked.len() as int) =~= t1.asked);
        assert(asked_in(t, end)[i] == asked_in(t, t1)[i]);
        assert(answered_at(t, end, i, check, reply));
        assert(answered(t, end, check, reply));
    }
}

/// A strict check succeeds if and only if fsck found no error or corrected every error.
pub proof fn law_strict_check(t: Transcript, device: Seq<char>, fstype: FsType)
    ensures
        ({
            let (end, r) = checked(t, device, fstype);
            let check = check_of(fstype.text(), device);
            &&& asks_only(t, end, checks(fstype.text(), device))
            &&& !(r matches Err(Stop::Pending)) ==> exists|reply: ReplyView|
                #[trigger] answered(t, end, check, reply) && (r is Ok <==> code_of(reply) == 0 || code_of(reply) == 1)
                    && (r matches Ok(found) ==> found.exit_code.0 == code_of(reply)) && (r matches Err(Stop::Failed(e))
                    && e is FsckRequiresReboot <==> reply is Output && code_of(reply) & 2 != 0)
        }),
{
    let (end, r) = checked(t, device, fstype);
    let check = check_of(fstype.text(), device);
    lemma_ran(t, device, fstype);
    if !(r matches Err(Stop::Pending)) {
        let ran = fsck_ran(t, device, fstype).1;
        let reply = choose|reply: ReplyView|
            #[trigger] answered(t, end, check, reply) && ran->0 == crate::system::output_of(reply);
        assert(0i32 & 2 == 0 && 1i32 & 2 == 0) by (bit_vector);
        assert(answered(t, end, check, reply));
    }
}

/// The source of a mount; an empty device path counts as none.
pub open spec fn source_of(device: Seq<char>) -> Option<Seq<char>> {
    if device.len() == 0 {
        None
    } else {
        Some(device)
    }
}

/// A mount of a device.
pub open spec fn mount_of(device: Seq<char>, target: Seq<char>, fstype: Seq<char>, flags: MountFlags) -> RequestView {
    RequestView::Mount { source: source_of(device), target, fstype: Some(fstype), flags, data: None }
}

/// The flags of what must not be written to.
pub open spec fn read_only() -> MountFlags {
    MountFlags { rd_only: true, no_atime: true, no_dir_atime: true, ..unflagged() }
}

/// The flags of what may be written to.
pub open spec fn read_write() -> MountFlags {
    MountFlags { no_atime: true, no_dir_atime: true, ..unflagged() }
}

/// What is asked to check a filesystem and mount it.
pub open spec fn checks_and_mounts(fstype: Seq<char>, device: Seq<char>, mount: RequestView) -> spec_fn(
    RequestView,
) -> bool {
    |q: RequestView| quiet(q) || q == check_of(fstype, device) || q == mount
}

/// A filesystem is mounted only after it was checked and fsck asked for no reboot.
pub proof fn law_checked_before_mounted(
    t: Transcript,
    o: OdsView,
    device: Seq<char>,
    name: PartitionName,
    fstype: FsType,
    target: Seq<char>,
    flags: MountFlags,
)
    ensures
        ({
            let (end, after, r) = checked_and_mounted(
                t,
                o,
                device,
                name,
                fstype,
                target,
                MountOptionsView { fstype: Some(fstype), flags, data: None },
            );
            let mount = mount_of(device, target, fstype.text(), flags);
            &&& r is Ok ==> achieves(t, end, seq![check_of(fstype.text(), device), mount])
            &&& asks_only(t, end, checks_and_mounts(fstype.text(), device, mount))
        }),
{
    let options = MountOptionsView { fstype: Some(fstype), flags, data: None };
    let (end, after, r) = checked_and_mounted(t, o, device, name, fstype, target, options);
    let check = check_of(fstype.text(), device);
    let mount = mount_of(device, target, fstype.text(), flags);
    let p = checks_and_mounts(fstype.text(), device, mount);
    law_check(t, device, fstype);
    let t1 = checked_leniently(t, device, fstype).0;
    assert(asks_only(t, t1, p)) by {
        crate::laws::lemma_asks_weaker(t, t1, checks(fstype.text(), device), p);
    }
    assert(asks_only(t, end, p)) by {
        broadcast use group_asks;

    }
    if r is Ok {
        lemma_achieves_next(t, t1, mount, seq![check]);
        assert(seq![check].push(mount) =~= seq![check, mount]);
    }
}

/// Where a partition is mounted, under the root filesystem.
pub open spec fn place_of(name: PartitionName) -> Seq<char> {
    match name {
        PartitionName::Boot => "boot"@,
        PartitionName::Factory => "mnt/factory"@,
        PartitionName::Cert => "mnt/cert"@,
        PartitionName::Etc => "mnt/etc"@,
        PartitionName::Data => "mnt/data"@,
        _ => ""@,
    }
}

/// How a partition is mounted: of the partitions beside the root filesystem, factory alone is not
/// to be written to.
pub open spec fn partition_mount(layout: LayoutView, rootfs: Seq<char>, name: PartitionName) -> RequestView {
    mount_of(
        layout.at(name)->0,
        under(rootfs, place_of(name)),
        "ext4"@,
        if name == PartitionName::Factory {
            read_only()
        } else {
            read_write()
        },
    )
}

/// The tmpfs of what need not persist.
pub open spec fn volatile_mount(rootfs: Seq<char>) -> RequestView {
    RequestView::Mount {
        source: Some("tmpfs"@),
        target: under(rootfs, "var/volatile"@),
        fstype: Some("tmpfs"@),
        flags: unflagged(),
        data: None,
    }
}

/// What is done for a partition that is `there` already, or not.
pub open spec fn partition_steps(layout: LayoutView, rootfs: Seq<char>, name: PartitionName, there: bool) -> Seq<
    RequestView,
> {
    if layout.at(name) is Some && !there {
        seq![check_of("ext4"@, layout.at(name)->0), partition_mount(layout, rootfs, name)]
    } else {
        Seq::empty()
    }
}

/// The table of mounts was read, and said whether something is mounted at `target`.
pub open spec fn found_there(t: Transcript, end: Transcript, target: Seq<char>, there: bool) -> bool {
    exists|table: Seq<char>|
        #[trigger] answered(t, end, RequestView::ReadText("/proc/mounts"@), ReplyView::Text(table)) && lists_mount(
            table,
            target,
        ) == there
}

/// What is asked for one of the remaining partitions.
pub open spec fn mounts_one(layout: LayoutView, rootfs: Seq<char>, name: PartitionName) -> spec_fn(RequestView) -> bool {
    |q: RequestView|
        quiet(q) || (layout.at(name) is Some && (q == check_of("ext4"@, layout.at(name)->0) || q == partition_mount(
            layout,
            rootfs,
            name,
        )))
}

/// What is asked for all of them.
pub open spec fn mounts_remaining(layout: LayoutView, rootfs: Seq<char>) -> spec_fn(RequestView) -> bool {
    |q: RequestView|
        {
            ||| mounts_one(layout, rootfs, PartitionName::Factory)(q)
            ||| mounts_one(layout, rootfs, PartitionName::Cert)(q)
            ||| mounts_one(layout, rootfs, PartitionName::Etc)(q)
            ||| mounts_one(layout, rootfs, PartitionName::Data)(q)
            ||| q == volatile_mount(rootfs)
        }
}

proof fn lemma_unless_there(
    t: Transcript,
    o: OdsView,
    layout: LayoutView,
    rootfs: Seq<char>,
    name: PartitionName,
    options: MountOptionsView,
)
    requires
        name == PartitionName::Factory || name == PartitionName::Cert || name == PartitionName::Etc || name
            == PartitionName::Data,
        options == (if name == PartitionName::Factory {
            readonly_options()
        } else {
            writable_options()
        }),
    ensures
        ({
            let (end, after, r) = mounted_unless_there(t, o, layout, rootfs, name, place_of(name), options);
            &&& r is Ok ==> exists|there: bool|
                #[trigger] achieves(t, end, partition_steps(layout, rootfs, name, there)) && (layout.at(name) is Some
                    ==> found_there(t, end, under(rootfs, place_of(name)), there))
            &&& asks_only(t, end, mounts_one(layout, rootfs, name))
        }),
{
    reveal(mounted_unless_there);
    let (end, after, r) = mounted_unless_there(t, o, layout, rootfs, name, place_of(name), options);
    let target = under(rootfs, place_of(name));
    let p = mounts_one(layout, rootfs, name);
    let none = Seq::<RequestView>::empty();
    lemma_places(rootfs);
    lemma_asks_nothing(t, p);
    lemma_achieves_nothing(t);
    if layout.at(name) is Some {
        let device = layout.at(name)->0;
        let read = RequestView::ReadText("/proc/mounts"@);
        let t1 = t.ask(read);
        assert(asks_only(t, t1, p)) by {
            broadcast use group_asks;

        }
        if t.next() is Some && t.rest[0] is Text {
            let table = t.rest[0]->Text_0;
            let there = lists_mount(table, target);
            lemma_achieves_next(t, t, read, none);
            if there {
                assert(asks_only(t, end, p)) by {
                    broadcast use group_asks;

                }
                if r is Ok {
                    lemma_achieves_next(t, t1, asked_in(t1, end)[0], none);
                    assert(answered_at(t, end, 0, read, t.rest[0]));
                    assert(answered(t, end, read, ReplyView::Text(table)));
                    assert(achieves(t, end, partition_steps(layout, rootfs, name, true)));
                }
            } else {
                law_checked_before_mounted(t1, o, device, name, FsType::Ext4, target, options.flags);
                assert(options == MountOptionsView { fstype: Some(FsType::Ext4), flags: options.flags, data: None });
                crate::laws::lemma_asks_weaker(
                    t1,
                    end,
                    checks_and_mounts("ext4"@, device, partition_mount(layout, rootfs, name)),
                    p,
                );
                assert(asks_only(t, end, p)) by {
                    broadcast use group_asks;

                }
                if r is Ok {
                    let steps = partition_steps(layout, rootfs, name, false);
                    lemma_achieves_further(t, t1, end, none, steps);
                    assert(none + steps =~= steps);
                    assert(asked_in(t, end)[0] == read) by {
                        reveal(achieves);
                        reveal(follows);
                        assert(end.asked[t.asked.len() as int] == t1.asked[t.asked.len() as int]);
                    }
                    assert(asked_in(t, end).len() > 0) by {
                        reveal(achieves);
                        reveal(follows);
                    }
                    assert(answered_at(t, end, 0, read, t.rest[0]));
                    assert(answered(t, end, read, ReplyView::Text(table)));
                }
            }
        }
    } else {
        assert(achieves(t, end, partition_steps(layout, rootfs, name, true)));
    }
}

proof fn lemma_there_further(t: Transcript, u: Transcript, v: Transcript, target: Seq<char>, there: bool)
    requires
        follows(t, u),
        follows(u, v),
    ensures
        found_there(t, u, target, there) || found_there(u, v, target, there) ==> found_there(t, v, target, there),
{
    let read = RequestView::ReadText("/proc/mounts"@);
    if found_there(t, u, target, there) {
        let table = choose|table: Seq<char>|
            #[trigger] answered(t, u, read, ReplyView::Text(table)) && lists_mount(table, target) == there;
        lemma_answered_further(t, u, v, read, ReplyView::Text(table));
    }
    if found_there(u, v, target, there) {
        let table = choose|table: Seq<char>|
            #[trigger] answered(u, v, read, ReplyView::Text(table)) && lists_mount(table, target) == there;
        lemma_answered_further(t, u, v, read, ReplyView::Text(table));
    }
}

proof fn lemma_rest(t: Transcript, o: OdsView, layout: LayoutView, rootfs: Seq<char>)
    ensures
        ({
            let (end, after, r) = rest_mounted(t, o, layout, rootfs, 0);
            &&& r is Ok ==> exists|a: bool, b: bool, c: bool, d: bool|
                #[trigger] achieves(
                    t,
                    end,
                    partition_steps(layout, rootfs, PartitionName::Factory, a) + partition_steps(
                        layout,
                        rootfs,
                        PartitionName::Cert,
                        b,
                    ) + partition_steps(layout, rootfs, PartitionName::Etc, c) + partition_steps(
                        layout,
                        rootfs,
                        PartitionName::Data,
                        d,
                    ),
                ) && found_all(t, end, layout, rootfs, a, b, c, d)
            &&& asks_only(t, end, mounts_remaining(layout, rootfs))
        }),
{
    let p = mounts_remaining(layout, rootfs);
    let (t1, o1, r1) = mounted_unless_there(
        t,
        o,
        layout,
        rootfs,
        PartitionName::Factory,
        "mnt/factory"@,
        readonly_options(),
    );
    let (t2, o2, r2) = mounted_unless_there(
        t1,
        o1,
        layout,
        rootfs,
        PartitionName::Cert,
        "mnt/cert"@,
        writable_options(),
    );
    let (t3, o3, r3) = mounted_unless_there(t2, o2, layout, rootfs, PartitionName::Etc, "mnt/etc"@, writable_options());
    let (t4, o4, r4) = mounted_unless_there(
        t3,
        o3,
        layout,
        rootfs,
        PartitionName::Data,
        "mnt/data"@,
        writable_options(),
    );
    lemma_unless_there(t, o, layout, rootfs, PartitionName::Factory, readonly_options());
    lemma_unless_there(t1, o1, layout, rootfs, PartitionName::Cert, writable_options());
    lemma_unless_there(t2, o2, layout, rootfs, PartitionName::Etc, writable_options());
    lemma_unless_there(t3, o3, layout, rootfs, PartitionName::Data, writable_options());
    crate::laws::lemma_asks_weaker(t, t1, mounts_one(layout, rootfs, PartitionName::Factory), p);
    crate::laws::lemma_asks_weaker(t1, t2, mounts_one(layout, rootfs, PartitionName::Cert), p);
    crate::laws::lemma_asks_weaker(t2, t3, mounts_one(layout, rootfs, PartitionName::Etc), p);
    crate::laws::lemma_asks_weaker(t3, t4, mounts_one(layout, rootfs, PartitionName::Data), p);
    let (end, after, r) = rest_mounted(t, o, layout, rootfs, 0);
    assert(rest_mounted(t4, o4, layout, rootfs, 4) == (t4, o4, Ok::<(), Stop<crate::error::InitErrorView>>(())));
    assert(rest_mounted(t3, o3, layout, rootfs, 3).0 == t4);
    assert(rest_mounted(t2, o2, layout, rootfs, 2).0 == if r3 is Ok {
        t4
    } else {
        t3
    });
    assert(rest_mounted(t1, o1, layout, rootfs, 1).0 == if r2 is Err {
        t2
    } else if r3 is Err {
        t3
    } else {
        t4
    });
    assert(asks_only(t, end, p)) by {
        broadcast use group_asks;

    }
    if r is Ok {
        let (pa, pb, pc, pd) = (PartitionName::Factory, PartitionName::Cert, PartitionName::Etc, PartitionName::Data);
        assert(r1 is Ok && r2 is Ok && r3 is Ok && r4 is Ok && end == t4);
        let a = choose|there: bool| #[trigger] achieves(t, t1, partition_steps(layout, rootfs, pa, there)) && (
        layout.at(pa) is Some ==> found_there(t, t1, under(rootfs, place_of(pa)), there));
        let b = choose|there: bool| #[trigger] achieves(t1, t2, partition_steps(layout, rootfs, pb, there)) && (
        layout.at(pb) is Some ==> found_there(t1, t2, under(rootfs, place_of(pb)), there));
        let c = choose|there: bool| #[trigger] achieves(t2, t3, partition_steps(layout, rootfs, pc, there)) && (
        layout.at(pc) is Some ==> found_there(t2, t3, under(rootfs, place_of(pc)), there));
        let d = choose|there: bool| #[trigger] achieves(t3, t4, partition_steps(layout, rootfs, pd, there)) && (
        layout.at(pd) is Some ==> found_there(t3, t4, under(rootfs, place_of(pd)), there));
        let sa = partition_steps(layout, rootfs, pa, a);
        let sb = partition_steps(layout, rootfs, pb, b);
        let sc = partition_steps(layout, rootfs, pc, c);
        let sd = partition_steps(layout, rootfs, pd, d);
        lemma_achieves_further(t, t1, t2, sa, sb);
        lemma_achieves_further(t, t2, t3, sa + sb, sc);
        lemma_achieves_further(t, t3, t4, sa + sb + sc, sd);
        assert(follows(t, t1) && follows(t1, t2) && follows(t2, t3) && follows(t3, t4)) by {
            reveal(achieves);
        }
        lemma_follows_further(t, t1, t2);
        lemma_follows_further(t, t2, t3);
        lemma_follows_further(t1, t2, t3);
        lemma_follows_further(t1, t3, t4);
        lemma_follows_further(t2, t3, t4);
        lemma_there_further(t, t1, t4, under(rootfs, place_of(pa)), a);
        lemma_there_further(t1, t2, t4, under(rootfs, place_of(pb)), b);
        lemma_there_further(t, t1, t4, under(rootfs, place_of(pb)), b);
        lemma_there_further(t2, t3, t4, under(rootfs, place_of(pc)), c);
        lemma_there_further(t, t2, t4, under(rootfs, place_of(pc)), c);
        lemma_there_further(t, t3, t4, under(rootfs, place_of(pd)), d);
    }
}

/// Of each partition of the layout, the table of mounts said whether it is there.
pub open spec fn found_all(
    t: Transcript,
    end: Transcript,
    layout: LayoutView,
    rootfs: Seq<char>,
    a: bool,
    b: bool,
    c: bool,
    d: bool,
) -> bool {
    &&& layout.at(PartitionName::Factory) is Some ==> found_there(t, end, under(rootfs, "mnt/factory"@), a)
    &&& layout.at(PartitionName::Cert) is Some ==> found_there(t, end, under(rootfs, "mnt/cert"@), b)
    &&& layout.at(PartitionName::Etc) is Some ==> found_there(t, end, under(rootfs, "mnt/etc"@), c)
    &&& layout.at(PartitionName::Data) is Some ==> found_there(t, end, under(rootfs, "mnt/data"@), d)
}

/// The partitions factory, cert, etc and data are checked and mounted in this order, each on its
/// device and at its place, except where something is mounted there already; factory alone is
/// read-only. A tmpfs at var/volatile comes last. Whatever the outcome, nothing else is mounted.
pub proof fn law_remaining_partitions(t: Transcript, o: OdsView, layout: LayoutView, rootfs: Seq<char>)
    ensures
        ({
            let (end, after, r) = remaining_mounted(t, o, layout, rootfs);
            &&& r is Ok ==> exists|a: bool, b: bool, c: bool, d: bool|
                achieves(
                    t,
                    end,
                    (#[trigger] partition_steps(layout, rootfs, PartitionName::Factory, a)
                        + #[trigger] partition_steps(layout, rootfs, PartitionName::Cert, b)
                        + #[trigger] partition_steps(layout, rootfs, PartitionName::Etc, c)
                        + #[trigger] partition_steps(layout, rootfs, PartitionName::Data, d)).push(
                        volatile_mount(rootfs),
                    ),
                ) && found_all(t, end, layout, rootfs, a, b, c, d)
            &&& asks_only(t, end, mounts_remaining(layout, rootfs))
        }),
{
    let (end, after, r) = remaining_mounted(t, o, layout, rootfs);
    let (t1, o1, r1) = rest_mounted(t, o, layout, rootfs, 0);
    let last = volatile_mount(rootfs);
    reveal_strlit("tmpfs");
    lemma_places(rootfs);
    lemma_rest(t, o, layout, rootfs);
    assert(asks_only(t, end, mounts_remaining(layout, rootfs))) by {
        broadcast use group_asks;

    }
    if r is Ok {
        let (pa, pb, pc, pd) = (PartitionName::Factory, PartitionName::Cert, PartitionName::Etc, PartitionName::Data);
        let (a, b, c, d) = choose|a: bool, b: bool, c: bool, d: bool|
            #[trigger] achieves(
                t,
                t1,
                partition_steps(layout, rootfs, pa, a) + partition_steps(layout, rootfs, pb, b) + partition_steps(
                    layout,
                    rootfs,
                    pc,
                    c,
                ) + partition_steps(layout, rootfs, pd, d),
            ) && found_all(t, t1, layout, rootfs, a, b, c, d);
        let steps = partition_steps(layout, rootfs, pa, a) + partition_steps(layout, rootfs, pb, b) + partition_steps(
            layout,
            rootfs,
            pc,
            c,
        ) + partition_steps(layout, rootfs, pd, d);
        lemma_achieves_next(t, t1, last, steps);
        assert(follows(t, t1)) by {
            reveal(achieves);
        }
        crate::laws::lemma_follows_ask(t1, last);
        lemma_there_further(t, t1, end, under(rootfs, "mnt/factory"@), a);
        lemma_there_further(t, t1, end, under(rootfs, "mnt/cert"@), b);
        lemma_there_further(t, t1, end, under(rootfs, "mnt/etc"@), c);
        lemma_there_further(t, t1, end, under(rootfs, "mnt/data"@), d);
    }
}

/// What is asked to mount the root filesystem and the boot partition.
pub open spec fn mounts_core(layout: LayoutView, rootfs: Seq<char>) -> spec_fn(RequestView) -> bool {
    |q: RequestView|
        {
            ||| quiet(q)
            ||| q == RequestView::CreateDir(rootfs)
            ||| layout.at(PartitionName::RootCurrent) is Some && q == mount_of(
                layout.at(PartitionName::RootCurrent)->0,
                rootfs,
                "ext4"@,
                read_only(),
            )
            ||| layout.at(PartitionName::Boot) is Some && (q == check_of("vfat"@, layout.at(PartitionName::Boot)->0)
                || q == mount_of(
                layout.at(PartitionName::Boot)->0,
                under(rootfs, "boot"@),
                "vfat"@,
                unflagged(),
            ))
        }
}

/// The current root is mounted read-only on the directory of the root filesystem; the boot
/// partition is checked and mounted at boot under it, writable, unless the layout has none.
pub proof fn law_core_partitions(t: Transcript, o: OdsView, layout: LayoutView, rootfs: Seq<char>)
    ensures
        ({
            let (end, after, r) = core_mounted(t, o, layout, rootfs);
            let root = mount_of(layout.at(PartitionName::RootCurrent)->0, rootfs, "ext4"@, read_only());
            let check = check_of("vfat"@, layout.at(PartitionName::Boot)->0);
            let boot = mount_of(
                layout.at(PartitionName::Boot)->0,
                under(rootfs, "boot"@),
                "vfat"@,
                unflagged(),
            );
            &&& r is Ok ==> layout.at(PartitionName::RootCurrent) is Some && if layout.at(PartitionName::Boot) is Some {
                achieves(t, end, seq![RequestView::CreateDir(rootfs), root, check, boot])
            } else {
                achieves(t, end, seq![RequestView::CreateDir(rootfs), root])
            }
            &&& asks_only(t, end, mounts_core(layout, rootfs))
        }),
{
    let (end, after, r) = core_mounted(t, o, layout, rootfs);
    let p = mounts_core(layout, rootfs);
    let none = Seq::<RequestView>::empty();
    let made = RequestView::CreateDir(rootfs);
    let root = mount_of(layout.at(PartitionName::RootCurrent)->0, rootfs, "ext4"@, read_only());
    let t1 = t.ask(made);
    let t2 = t1.ask(root);
    lemma_places(rootfs);
    lemma_asks_nothing(t, p);
    lemma_achieves_nothing(t);
    if layout.at(PartitionName::RootCurrent) is Some {
        assert(asks_only(t, t2, p) && asks_only(t, t1, p)) by {
            broadcast use group_asks;

        }
        let (end2, after2, r2) = boot_mounted(t2, o, layout, rootfs);
        lemma_boot(t2, o, layout, rootfs);
        assert(asks_only(t, end, p)) by {
            broadcast use group_asks;

        }
        if r is Ok {
            lemma_achieves_next(t, t, made, none);
            lemma_achieves_next(t, t1, root, none.push(made));
            assert(none.push(made).push(root) =~= seq![made, root]);
            if layout.at(PartitionName::Boot) is Some {
                let check = check_of("vfat"@, layout.at(PartitionName::Boot)->0);
                let boot = mount_of(
                    layout.at(PartitionName::Boot)->0,
                    under(rootfs, "boot"@),
                    "vfat"@,
                    unflagged(),
                );
                lemma_achieves_further(t, t2, end, seq![made, root], seq![check, boot]);
                assert(seq![made, root] + seq![check, boot] =~= seq![made, root, check, boot]);
            }
        }
    }
}

proof fn lemma_boot(t: Transcript, o: OdsView, layout: LayoutView, rootfs: Seq<char>)
    ensures
        ({
            let (end, after, r) = boot_mounted(t, o, layout, rootfs);
            let check = check_of("vfat"@, layout.at(PartitionName::Boot)->0);
            let boot = mount_of(
                layout.at(PartitionName::Boot)->0,
                under(rootfs, "boot"@),
                "vfat"@,
                unflagged(),
            );
            &&& layout.at(PartitionName::Boot) is None ==> end == t
            &&& r is Ok && layout.at(PartitionName::Boot) is Some ==> achieves(t, end, seq![check, boot])
            &&& asks_only(t, end, mounts_core(layout, rootfs))
        }),
{
    let (end, after, r) = boot_mounted(t, o, layout, rootfs);
    let p = mounts_core(layout, rootfs);
    let none = Seq::<RequestView>::empty();
    let read = RequestView::ReadText("/proc/mounts"@);
    lemma_places(rootfs);
    lemma_asks_nothing(t, p);
    lemma_achieves_nothing(t);
    if layout.at(PartitionName::Boot) is Some {
        let device = layout.at(PartitionName::Boot)->0;
        let check = check_of("vfat"@, device);
        let target = under(rootfs, "boot"@);
        let boot = mount_of(device, target, "vfat"@, unflagged());
        let t1 = t.ask(read);
        assert(asks_only(t, t1, p)) by {
            broadcast use group_asks;

        }
        law_checked_before_mounted(t1, o, device, PartitionName::Boot, FsType::Vfat, target, unflagged());
        let (t2, o2, r2) = checked_and_mounted(
            t1,
            o,
            device,
            PartitionName::Boot,
            FsType::Vfat,
            target,
            MountOptionsView { fstype: Some(FsType::Vfat), flags: unflagged(), data: None },
        );
        crate::laws::lemma_asks_weaker(t1, t2, checks_and_mounts("vfat"@, device, boot), p);
        assert(asks_only(t, end, p)) by {
            broadcast use group_asks;

        }
        if r is Ok {
            lemma_achieves_next(t, t, read, none);
            lemma_achieves_further(t, t1, end, none, seq![check, boot]);
            assert(none + seq![check, boot] =~= seq![check, boot]);
        }
    }
}

} // verus!
