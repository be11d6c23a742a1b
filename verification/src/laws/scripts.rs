//! What the steps of the small boot programs do

use vstd::prelude::*;

use crate::e2fsck::all_checked;
use crate::finish::finished;
use crate::laws::mounts::read_write;
use crate::laws::overlay::{bind_of, only_if};
use crate::laws::reset::call;
use crate::laws::{answered, answered_at, asked_in, exited_well, lemma_asked_further, unflagged};
use crate::mount::{all_mounted, etc_dirs, etc_filled, first_steps, later_steps};
use crate::partition::PartitionTable;
use crate::resizefs::{grown, resized};
use crate::rootblk::{all_linked, awaited, disk_found, links};
use crate::system::{MountFlags, ReplyView, RequestView, Transcript};
use crate::util::{script_ran, StepView};

verus! {

/// The requests of a script.
pub open spec fn requests_of(steps: Seq<StepView>) -> Seq<RequestView> {
    steps.map_values(|s: StepView| s.request)
}

/// A script makes its requests one after the other, and ends at the first that is refused.
pub proof fn law_script(t: Transcript, steps: Seq<StepView>)
    ensures
        ({
            let (end, r) = script_ran(t, steps);
            &&& asked_in(t, end).is_prefix_of(requests_of(steps))
            &&& crate::laws::follows(t, end)
            &&& r is Ok ==> asked_in(t, end) == requests_of(steps) && t.rest.len() >= steps.len() && forall|i: int|
                0 <= i < steps.len() ==> !(#[trigger] t.rest[i] is Failed)
        }),
    decreases steps.len(),
{
    let (end, r) = script_ran(t, steps);
    if steps.len() == 0 {
        assert(asked_in(t, end) =~= requests_of(steps));
        crate::laws::lemma_follows_itself(t);
    } else {
        let t1 = t.ask(steps[0].request);
        let rest = steps.drop_first();
        crate::laws::lemma_follows_ask(t, steps[0].request);
        assert(asked_in(t, t1) =~= seq![steps[0].request]);
        assert(requests_of(steps) =~= seq![steps[0].request] + requests_of(rest));
        if t.next() is Some && !(t.next()->0 is Failed) {
            law_script(t1, rest);
            lemma_asked_further(t, t1, end);
            assert(asked_in(t, end) == seq![steps[0].request] + asked_in(t1, end));
            if r is Ok {
                assert(t1.rest =~= t.rest.skip(1));
                assert forall|i: int| 0 <= i < steps.len() implies !(#[trigger] t.rest[i] is Failed) by {
                    if i > 0 {
                        assert(t.rest[i] == t1.rest[i - 1]);
                    }
                }
            }
        } else {
            assert(asked_in(t, end) =~= requests_of(steps).take(1));
        }
    }
}

/// The last step of the boot: what is mounted is moved along, the root filesystem is entered, and
/// switch_root hands over to init in it. Nothing replaces the process before all of that was
/// granted.
pub proof fn law_finish(t: Transcript, init: Seq<char>)
    ensures
        ({
            let (end, r) = finished(t, init);
            let moved = |source: Seq<char>, target: Seq<char>|
                RequestView::Mount {
                    source: Some(source),
                    target,
                    fstype: None,
                    flags: MountFlags { relocate: true, ..unflagged() },
                    data: None,
                };
            let list = seq![
                moved("/sys"@, "/rootfs/sys"@),
                moved("/dev"@, "/rootfs/dev"@),
                moved("/proc"@, "/rootfs/proc"@),
                RequestView::ChangeDir("/rootfs"@),
                RequestView::ExecWith { program: "/sbin/switch_root"@, args: seq!["/rootfs"@, init] },
            ];
            &&& asked_in(t, end).is_prefix_of(list)
            &&& r is Ok ==> asked_in(t, end) == list
            &&& asked_in(t, end).len() == 5 ==> t.rest.len() >= 4 && forall|i: int|
                0 <= i < 4 ==> !(#[trigger] t.rest[i] is Failed)
        }),
{
    let (end, r) = finished(t, init);
    let moved = |source: Seq<char>, target: Seq<char>|
        RequestView::Mount {
            source: Some(source),
            target,
            fstype: None,
            flags: MountFlags { relocate: true, ..unflagged() },
            data: None,
        };
    let exec = RequestView::ExecWith { program: "/sbin/switch_root"@, args: seq!["/rootfs"@, init] };
    let list = seq![
        moved("/sys"@, "/rootfs/sys"@),
        moved("/dev"@, "/rootfs/dev"@),
        moved("/proc"@, "/rootfs/proc"@),
        RequestView::ChangeDir("/rootfs"@),
        exec,
    ];
    let steps = crate::finish::moves();
    law_script(t, steps);
    let (t1, r1) = script_ran(t, steps);
    assert(requests_of(steps) =~= list.take(4));
    if r1 is Ok {
        crate::laws::lemma_follows_ask(t1, exec);
        lemma_asked_further(t, t1, end);
        assert(asked_in(t1, end) =~= seq![exec]);
        assert(asked_in(t, end) =~= list);
    } else {
        assert(asked_in(t, end).len() <= 4);
        assert(asked_in(t, end).is_prefix_of(list));
    }
}

/// The partitions are checked with e2fsck one after the other, whatever it finds.
pub proof fn law_checks(t: Transcript)
    ensures
        ({
            let (end, r) = all_checked(t, 0);
            let check = |device: Seq<char>| call("/sbin/e2fsck"@, seq!["-y"@, device]);
            let list = seq![
                check("/dev/omnect/rootCurrent"@),
                check("/dev/omnect/etc"@),
                check("/dev/omnect/cert"@),
                check("/dev/omnect/factory"@),
                check("/dev/omnect/data"@),
            ];
            &&& asked_in(t, end).is_prefix_of(list)
            &&& r is Ok ==> asked_in(t, end) == list
            &&& t.rest.len() >= 5 && (forall|i: int| 0 <= i < 5 ==> #[trigger] t.rest[i] is Output) ==> r is Ok
        }),
{
    let (end, r) = all_checked(t, 0);
    let check = |device: Seq<char>| call("/sbin/e2fsck"@, seq!["-y"@, device]);
    let list = seq![
        check("/dev/omnect/rootCurrent"@),
        check("/dev/omnect/etc"@),
        check("/dev/omnect/cert"@),
        check("/dev/omnect/factory"@),
        check("/dev/omnect/data"@),
    ];
    let t1 = t.ask(list[0]);
    let t2 = t1.ask(list[1]);
    let t3 = t2.ask(list[2]);
    let t4 = t3.ask(list[3]);
    let t5 = t4.ask(list[4]);
    reveal_with_fuel(all_checked, 6);
    assert(asked_in(t, t1) =~= list.take(1));
    assert(asked_in(t, t2) =~= list.take(2));
    assert(asked_in(t, t3) =~= list.take(3));
    assert(asked_in(t, t4) =~= list.take(4));
    assert(asked_in(t, t5) =~= list);
    assert(end == t1 || end == t2 || end == t3 || end == t4 || end == t5);
    if t.rest.len() >= 5 && (forall|i: int| 0 <= i < 5 ==> #[trigger] t.rest[i] is Output) {
        assert(t.rest[0] is Output);
        assert(t1.rest[0] == t.rest[1] && t2.rest[0] == t.rest[2] && t3.rest[0] == t.rest[3] && t4.rest[0] == t.rest[4]);
    }
}

/// What grows the data partition: on a GPT the second header is moved to the end of the disk and
/// partition 7 is grown, on a DOS table partitions 4 and 8 are.
pub open spec fn growing(table: PartitionTable) -> Seq<RequestView> {
    let disk = "/dev/omnect/rootblk"@;
    match table {
        PartitionTable::Gpt => seq![
            call("/usr/sbin/sgdisk"@, seq![disk, "-e"@]),
            call("/usr/bin/growpart"@, seq![disk, "7"@]),
        ],
        PartitionTable::Dos => seq![
            call("/usr/bin/growpart"@, seq![disk, "4"@]),
            call("/usr/bin/growpart"@, seq![disk, "8"@]),
        ],
    }
}

/// The data partition is resized once: where the variable resized-data is not set, the filesystem
/// is checked, the partition is grown, the filesystem is grown to it, and the variable is set.
pub proof fn law_resized_once(t: Transcript, table: PartitionTable)
    ensures
        ({
            let (end, r) = resized(t, table);
            let read = RequestView::Pipe { program: "/usr/bin/fw_printenv"@, args: seq!["resized-data"@], input: Seq::empty() };
            let list = seq![read, call("/sbin/e2fsck"@, seq!["-y"@, "-f"@, "/dev/omnect/data"@])] + growing(table) + seq![
                call("/sbin/resize2fs"@, seq!["/dev/omnect/data"@]),
                call("/usr/bin/fw_setenv"@, seq!["resized-data"@, "1"@]),
            ];
            &&& asked_in(t, end).is_prefix_of(list)
            &&& r is Ok ==> asked_in(t, end) == list || asked_in(t, end) == seq![read]
            &&& asked_in(t, end).len() >= 3 ==> t.rest.len() >= 2 && exited_well(t.rest[1])
            &&& asked_in(t, end).len() == 6 ==> t.rest.len() >= 5 && exited_well(t.rest[4])
        }),
{
    let (end, r) = resized(t, table);
    let read = RequestView::Pipe { program: "/usr/bin/fw_printenv"@, args: seq!["resized-data"@], input: Seq::empty() };
    let list = seq![read, call("/sbin/e2fsck"@, seq!["-y"@, "-f"@, "/dev/omnect/data"@])] + growing(table) + seq![
        call("/sbin/resize2fs"@, seq!["/dev/omnect/data"@]),
        call("/usr/bin/fw_setenv"@, seq!["resized-data"@, "1"@]),
    ];
    let t1 = t.ask(list[0]);
    let t2 = t1.ask(list[1]);
    let t3 = t2.ask(list[2]);
    let t4 = t3.ask(list[3]);
    let t5 = t4.ask(list[4]);
    let t6 = t5.ask(list[5]);
    assert(asked_in(t, t1) =~= list.take(1));
    assert(asked_in(t, t2) =~= list.take(2));
    assert(asked_in(t, t3) =~= list.take(3));
    assert(asked_in(t, t4) =~= list.take(4));
    assert(asked_in(t, t5) =~= list.take(5));
    assert(asked_in(t, t6) =~= list);
    assert(list.take(1) =~= seq![read]);
    assert(end == t1 || end == t2 || end == t3 || end == t4 || end == t5 || end == t6);
    assert(t.rest.len() > 1 ==> t1.rest[0] == t.rest[1]);
    assert(t.rest.len() > 4 ==> t4.rest[0] == t.rest[4]);
}

/// A mount of the boot program.
pub open spec fn mounted_on(
    source: Seq<char>,
    target: Seq<char>,
    fstype: Seq<char>,
    flags: MountFlags,
    data: Option<Seq<char>>,
) -> RequestView {
    RequestView::Mount { source: Some(source), target, fstype: Some(fstype), flags, data }
}

/// What comes before etc is filled: the root filesystem and the factory partition are not to be
/// written to.
pub open spec fn first_mounts() -> Seq<RequestView> {
    seq![
        mounted_on("/dev/omnect/rootCurrent"@, "/rootfs"@, "ext4"@, MountFlags { rd_only: true, ..unflagged() }, None),
        mounted_on("/dev/omnect/cert"@, "/rootfs/mnt/cert"@, "ext4"@, read_write(), None),
        RequestView::CreateDir("/rootfs/mnt/cert/ca"@),
        RequestView::CreateDir("/rootfs/mnt/cert/priv"@),
        mounted_on("/dev/omnect/factory"@, "/rootfs/mnt/factory"@, "ext4"@, MountFlags { rd_only: true, ..unflagged() }, None),
        mounted_on("/dev/omnect/etc"@, "/rootfs/mnt/etc"@, "ext4"@, read_write(), None),
    ]
}

/// What fills etc: where its upper directory is not there, both directories are made, and the
/// factory settings are copied into the upper one where there are any.
pub open spec fn etc_filling(there: bool, factory: bool) -> Seq<RequestView> {
    let look = RequestView::TryExists("/rootfs/mnt/etc/upper"@);
    if there {
        seq![look]
    } else {
        seq![
            look,
            RequestView::CreateDir("/rootfs/mnt/etc/upper"@),
            RequestView::CreateDir("/rootfs/mnt/etc/work"@),
            RequestView::TryExists("/rootfs/mnt/factory/etc"@),
        ] + only_if(factory, call("cp"@, seq!["-a"@, "/rootfs/mnt/factory/etc/."@, "/rootfs/mnt/etc/upper"@]))
    }
}

/// What comes after it: the overlay of etc, the data partition with the overlay of home and what
/// it shows elsewhere, the logs where they are to persist, and two filesystems in memory.
pub open spec fn later_mounts(persistent: bool) -> Seq<RequestView> {
    seq![
        mounted_on(
            "overlay"@,
            "/rootfs/etc"@,
            "overlay"@,
            read_write(),
            Some("lowerdir=/rootfs/etc,upperdir=/rootfs/mnt/etc/upper,workdir=/rootfs/mnt/etc/work,index=off"@),
        ),
        mounted_on("/dev/omnect/data"@, "/rootfs/mnt/data"@, "ext4"@, read_write(), None),
        RequestView::CreateDir("/rootfs/mnt/data/home/upper"@),
        RequestView::CreateDir("/rootfs/mnt/data/home/work"@),
        RequestView::CreateDir("/rootfs/mnt/data/var/lib"@),
        RequestView::CreateDir("/rootfs/mnt/data/local"@),
        mounted_on(
            "overlay"@,
            "/rootfs/home"@,
            "overlay"@,
            read_write(),
            Some("lowerdir=/rootfs/home,upperdir=/rootfs/mnt/data/home/upper,workdir=/rootfs/mnt/data/home/work,index=off"@),
        ),
        bind_of("/rootfs/mnt/data/var/lib"@, "/rootfs/var/lib"@),
        bind_of("/rootfs/mnt/data/local"@, "/rootfs/usr/local"@),
    ] + (if persistent {
        seq![
            RequestView::CreateDir("/rootfs/mnt/data/log"@),
            bind_of("/rootfs/mnt/data/log"@, "/rootfs/var/log"@),
        ]
    } else {
        Seq::empty()
    }) + seq![
        mounted_on(
            "tmpfs"@,
            "/rootfs/run"@,
            "tmpfs"@,
            MountFlags { no_dev: true, no_suid: true, strict_atime: true, ..unflagged() },
            Some("mode=0755"@),
        ),
        mounted_on("tmpfs"@, "/rootfs/var/volatile"@, "tmpfs"@, unflagged(), None),
    ]
}

proof fn lemma_filling(t: Transcript)
    ensures
        ({
            let (end, r) = etc_filled(t);
            &&& r is Ok ==> crate::laws::follows(t, end)
            &&& r is Ok ==> t.rest.len() >= 1 && exists|there: bool, factory: bool|
                asked_in(t, end) == #[trigger] etc_filling(there, factory) && t.rest[0] == ReplyView::Flag(there) && (!there
                    ==> t.rest.len() >= 4 && t.rest[3] == ReplyView::Flag(factory) && (factory ==> t.rest.len() >= 5
                    && exited_well(t.rest[4])))
        }),
{
    let (end, r) = etc_filled(t);
    if r is Ok {
        let look = RequestView::TryExists("/rootfs/mnt/etc/upper"@);
        let t1 = t.ask(look);
        crate::laws::lemma_follows_ask(t, look);
        let there = t.rest[0] == ReplyView::Flag(true);
        if there {
            assert(asked_in(t, end) =~= etc_filling(true, false));
        } else {
            assert(t.rest[0] == ReplyView::Flag(false));
            let (t2, r2) = script_ran(t1, etc_dirs());
            law_script(t1, etc_dirs());
            crate::laws::lemma_follows_further(t, t1, t2);
            lemma_asked_further(t, t1, t2);
            assert(asked_in(t, t1) =~= seq![look]);
            assert(requests_of(etc_dirs()) =~= seq![
                RequestView::CreateDir("/rootfs/mnt/etc/upper"@),
                RequestView::CreateDir("/rootfs/mnt/etc/work"@),
            ]);
            let ask = RequestView::TryExists("/rootfs/mnt/factory/etc"@);
            let copy = call("cp"@, seq!["-a"@, "/rootfs/mnt/factory/etc/."@, "/rootfs/mnt/etc/upper"@]);
            let t3 = t2.ask(ask);
            let t4 = t3.ask(copy);
            crate::laws::lemma_follows_ask(t2, ask);
            crate::laws::lemma_follows_ask(t3, copy);
            crate::laws::lemma_follows_further(t, t2, t3);
            crate::laws::lemma_follows_further(t, t3, t4);
            assert(asked_in(t, t2).len() == 3);
            assert(t2.rest =~= t.rest.skip(3)) by {
                reveal(crate::laws::follows);
            }
            assert(t2.rest[0] == t.rest[3]);
            lemma_asked_further(t, t2, t3);
            lemma_asked_further(t, t3, t4);
            assert(asked_in(t2, t3) =~= seq![ask]);
            assert(asked_in(t3, t4) =~= seq![copy]);
            let factory = t.rest[3] == ReplyView::Flag(true);
            if factory {
                assert(end == t4);
                assert(t3.rest[0] == t.rest[4]);
                assert(asked_in(t, end) =~= etc_filling(false, true));
            } else {
                assert(end == t3);
                assert(t.rest[3] == ReplyView::Flag(false));
                assert(asked_in(t, end) =~= etc_filling(false, false));
            }
        }
    }
}

/// The boot program mounts the partitions, fills etc where that is due, and lays out the rest, in
/// this order and with these options.
pub proof fn law_mounts(t: Transcript, persistent: bool)
    ensures
        ({
            let (end, r) = all_mounted(t, persistent);
            r is Ok ==> exists|there: bool, factory: bool|
                asked_in(t, end) == first_mounts() + #[trigger] etc_filling(there, factory) + later_mounts(persistent)
                    && t.rest.len() >= 7 && t.rest[6] == ReplyView::Flag(there) && (!there ==> t.rest.len() >= 10
                    && t.rest[9] == ReplyView::Flag(factory))
        }),
{
    let (end, r) = all_mounted(t, persistent);
    law_script(t, first_steps());
    let (t1, r1) = script_ran(t, first_steps());
    lemma_filling(t1);
    let (t2, r2) = etc_filled(t1);
    law_script(t2, later_steps(persistent));
    if r is Ok {
        assert(requests_of(first_steps()) =~= first_mounts());
        assert(requests_of(later_steps(persistent)) =~= later_mounts(persistent));
        let (there, factory) = choose|there: bool, factory: bool|
            asked_in(t1, t2) == #[trigger] etc_filling(there, factory) && t1.rest[0] == ReplyView::Flag(there) && (!there
                ==> t1.rest.len() >= 4 && t1.rest[3] == ReplyView::Flag(factory) && (factory ==> t1.rest.len() >= 5
                && exited_well(t1.rest[4])));
        lemma_asked_further(t, t1, t2);
        lemma_asked_further(t, t2, end);
        assert(t1.rest =~= t.rest.skip(6)) by {
            reveal(crate::laws::follows);
        }
        assert(asked_in(t, end) =~= first_mounts() + etc_filling(there, factory) + later_mounts(persistent));
    }
}

/// The links of the disk and of its partitions.
pub open spec fn disk_links(disk: Seq<char>, part: Seq<char>, root: Seq<char>, table: PartitionTable) -> Seq<RequestView> {
    let link = |target: Seq<char>, link: Seq<char>| RequestView::Symlink { target, link };
    seq![
        RequestView::CreateDir("/dev/omnect"@),
        link(disk, "/dev/omnect/rootblk"@),
        link(part + "1"@, "/dev/omnect/boot"@),
        link(part + "2"@, "/dev/omnect/rootA"@),
        link(part + "3"@, "/dev/omnect/rootB"@),
        link(root, "/dev/omnect/rootCurrent"@),
    ] + match table {
        PartitionTable::Gpt => seq![
            link(part + "4"@, "/dev/omnect/factory"@),
            link(part + "5"@, "/dev/omnect/cert"@),
            link(part + "6"@, "/dev/omnect/etc"@),
            link(part + "7"@, "/dev/omnect/data"@),
        ],
        PartitionTable::Dos => seq![
            link(part + "4"@, "/dev/omnect/extended"@),
            link(part + "5"@, "/dev/omnect/factory"@),
            link(part + "6"@, "/dev/omnect/cert"@),
            link(part + "7"@, "/dev/omnect/etc"@),
            link(part + "8"@, "/dev/omnect/data"@),
        ],
    }
}

/// The disk of a root partition is its path without the digit at its end, or without the `p`
/// before it where the shorter path alone is there; its partitions are numbered from there.
pub proof fn law_root_disk(t: Transcript, root: Seq<char>, table: PartitionTable)
    ensures
        all_linked(t, Some(root), table).1 is Ok ==> exists|disk: Seq<char>, separator: Seq<char>, found: Transcript|
            {
                &&& crate::laws::follows(t, found)
                &&& crate::laws::follows(found, all_linked(t, Some(root), table).0)
                &&& asked_in(found, all_linked(t, Some(root), table).0) == #[trigger] disk_links(
                    disk,
                    disk + separator,
                    root,
                    table,
                )
                &&& #[trigger] answered(t, found, RequestView::TryExists(disk), ReplyView::Flag(true))
                &&& root.len() > 0 && disk + separator == root.drop_last()
                &&& separator == ""@ || separator == "p"@ && answered(
                    t,
                    found,
                    RequestView::TryExists(root.drop_last()),
                    ReplyView::Flag(false),
                )
            },
{
    let (end, r) = all_linked(t, Some(root), table);
    reveal_strlit("");
    reveal_strlit("p");
    if r is Ok {
        let (t1, r1) = awaited(t, root);
        lemma_awaited_follows(t, root);
        let (t2, r2) = disk_found(t1, root);
        let (disk, separator) = r2->Ok_0;
        let whole = root.drop_last();
        let ask = RequestView::TryExists(whole);
        let a = t1.ask(ask);
        crate::laws::lemma_follows_ask(t1, ask);
        crate::laws::lemma_follows_further(t, t1, a);
        assert(answered_at(t1, a, 0, ask, t1.rest[0]));
        crate::laws::lemma_answered_further(t, t1, a, ask, t1.rest[0]);
        if t1.rest[0] == ReplyView::Flag(true) {
            assert(t2 == a);
            assert(separator =~= ""@);
            assert(disk + separator =~= whole);
        } else {
            let shorter = whole.drop_last();
            let again = RequestView::TryExists(shorter);
            let b = a.ask(again);
            assert(t2 == b);
            crate::laws::lemma_follows_ask(a, again);
            crate::laws::lemma_follows_further(t, a, b);
            assert(answered_at(a, b, 0, again, a.rest[0]));
            crate::laws::lemma_answered_further(t, a, b, again, a.rest[0]);
            crate::laws::lemma_answered_further(t, a, b, ask, t1.rest[0]);
            assert(disk + separator =~= whole);
        }
        law_script(t2, links(disk, separator, root, table));
        assert(requests_of(links(disk, separator, root, table)) =~= disk_links(disk, disk + separator, root, table));
    }
}

proof fn lemma_awaited_follows(t: Transcript, path: Seq<char>)
    ensures
        crate::laws::follows(t, awaited(t, path).0),
    decreases t.rest.len(),
{
    let look = RequestView::TryExists(path);
    let t1 = t.ask(look);
    let t2 = t1.ask(RequestView::Sleep(100));
    crate::laws::lemma_follows_ask(t, look);
    crate::laws::lemma_follows_ask(t1, RequestView::Sleep(100));
    crate::laws::lemma_follows_further(t, t1, t2);
    if t.next() is Some && t1.next() is Some {
        lemma_awaited_follows(t2, path);
        crate::laws::lemma_follows_further(t, t2, awaited(t2, path).0);
    }
}

} // verus!
