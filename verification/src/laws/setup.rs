//! What is set up before the boot goes on

use vstd::prelude::*;

use crate::config::{cmdline_loaded, setting_of};
use crate::early_init::essential_mounted;
use crate::filesystem::fsck::checked;
use crate::filesystem::mount::FsType;
use crate::filesystem::resize_data::{extended_found, extended_from, grown, resized, room_made, tool_ran, ResizeFlow};
use crate::init_setup::extra_bootargs::args_read;
use crate::laws::environment::lemma_split_at;
use crate::laws::mounts::check_of;
use crate::laws::overlay::only_if;
use crate::laws::reset::{call, lemma_and_asks, lemma_once_more};
use crate::laws::{
    achieves, asked_in, law_joined, lemma_achieves_further, lemma_achieves_nothing, lemma_programs, quiet, under,
    unflagged,
};
use crate::mode::resize_data::{expanded, mtab_ensured, mtab_found};
use crate::partition::layout::{suffix_of, LayoutView, PartitionName};
use crate::partition::PartitionTable;
use crate::system::{ReplyView, RequestView, Transcript};
use crate::text::{dec_of, lemma_run_back_is, lemma_run_len_is, lines_of, only, trim_char_of};

verus! {

/// What grows a partition to the end of the disk.
pub open spec fn grow(disk: Seq<char>, number: nat) -> RequestView {
    call("/sbin/parted"@, seq![disk, "resizepart"@, dec_of(number), "100%"@])
}

/// What makes room at the end of the disk: on a GPT the second header is moved there, on a DOS
/// table the extended partition is grown.
pub open spec fn makes_room(disk: Seq<char>, table: PartitionTable, extended: nat) -> RequestView {
    match table {
        PartitionTable::Gpt => call("/sbin/sgdisk"@, seq![disk, "-e"@]),
        PartitionTable::Dos => grow(disk, extended),
    }
}

proof fn lemma_tool(t0: Transcript, t: Transcript, program: Seq<char>, args: Seq<Seq<char>>, list: Seq<RequestView>)
    requires
        achieves(t0, t, list),
        !quiet(call(program, args)),
    ensures
        tool_ran(t, program, args).1 is Ok ==> achieves(
            t0,
            tool_ran(t, program, args).0,
            list.push(call(program, args)),
        ),
{
    if tool_ran(t, program, args).1 is Ok {
        lemma_once_more(t0, t, call(program, args), list);
    }
}

proof fn lemma_room(t: Transcript, disk: Seq<char>, table: PartitionTable)
    ensures
        room_made(t, disk, table).1 is Ok ==> exists|extended: nat|
            #[trigger] achieves(t, room_made(t, disk, table).0, Seq::empty().push(makes_room(disk, table, extended))) && (
            table == PartitionTable::Dos ==> t.rest[0] is Output && extended_from(
                lines_of(t.rest[0]->Output_0.stdout),
                0,
            ) == Some(extended) && asked_in(t, room_made(t, disk, table).0)[0] == call(
                "/sbin/parted"@,
                seq![disk, "print"@],
            )),
{
    let none = Seq::<RequestView>::empty();
    lemma_programs();
    lemma_achieves_nothing(t);
    let (end, r) = room_made(t, disk, table);
    if r is Ok {
        match table {
            PartitionTable::Gpt => {
                lemma_tool(t, t, "/sbin/sgdisk"@, seq![disk, "-e"@], none);
                assert(achieves(t, end, none.push(makes_room(disk, table, 0))));
            },
            PartitionTable::Dos => {
                let print = call("/sbin/parted"@, seq![disk, "print"@]);
                let (t1, found) = extended_found(t, disk);
                let extended = found->Ok_0;
                lemma_and_asks(t, t, print, none);
                lemma_tool(
                    t,
                    t1,
                    "/sbin/parted"@,
                    seq![disk, "resizepart"@, dec_of(extended), "100%"@],
                    none,
                );
                assert(achieves(t, end, none.push(makes_room(disk, table, extended))));
            },
        }
    }
}

/// The data partition is grown to the end of the disk: room is made, the partition is grown by
/// its own number, its filesystem is checked strictly and grown to it, and the disks are written
/// back. Without a data partition nothing is done.
pub proof fn law_resize(t: Transcript, layout: LayoutView, table: PartitionTable)
    ensures
        ({
            let (end, r) = resized(t, layout, table);
            let device = layout.at(PartitionName::Data)->0;
            let disk = layout.device.base;
            &&& layout.at(PartitionName::Data) is None ==> end == t && r == ResizeFlow::<bool>::Ok(false)
            &&& r == ResizeFlow::<bool>::Ok(true) ==> layout.at(PartitionName::Data) is Some && exists|number: nat, extended: nat|
                suffix_of(device) == Some(number) && (table == PartitionTable::Dos ==> t.rest[0] is Output
                    && extended_from(lines_of(t.rest[0]->Output_0.stdout), 0) == Some(extended)) && #[trigger] achieves(
                    t,
                    end,
                    resize_steps(disk, table, extended, number, device),
                )
        }),
{
    let (end, r) = resized(t, layout, table);
    let device = layout.at(PartitionName::Data)->0;
    let disk = layout.device.base;
    let none = Seq::<RequestView>::empty();
    lemma_programs();
    if r matches Ok(true) {
        let number = suffix_of(device)->0;
        let (t1, r1) = room_made(t, disk, table);
        lemma_room(t, disk, table);
        let extended = choose|extended: nat|
            #[trigger] achieves(t, t1, none.push(makes_room(disk, table, extended))) && (table == PartitionTable::Dos
                ==> t.rest[0] is Output && extended_from(lines_of(t.rest[0]->Output_0.stdout), 0) == Some(extended)
                && asked_in(t, t1)[0] == call("/sbin/parted"@, seq![disk, "print"@]));
        let a = none.push(makes_room(disk, table, extended));
        let args = seq![disk, "resizepart"@, dec_of(number), "100%"@];
        lemma_tool(t, t1, "/sbin/parted"@, args, a);
        let (t2, r2) = grown(t1, disk, number);
        let b = a.push(grow(disk, number));
        let (t3, r3) = checked(t2, device, FsType::Ext4);
        lemma_strictly(t2, device);
        lemma_achieves_further(t, t2, t3, b, seq![check_of("ext4"@, device)]);
        let c = b + seq![check_of("ext4"@, device)];
        lemma_tool(t, t3, "/sbin/resize2fs"@, seq!["-f"@, device], c);
        let (t4, r4) = tool_ran(t3, "/sbin/resize2fs"@, seq!["-f"@, device]);
        let d = c.push(call("/sbin/resize2fs"@, seq!["-f"@, device]));
        lemma_tool(t, t4, "/bin/sync"@, Seq::empty(), d);
        assert(d.push(call("/bin/sync"@, Seq::empty())) =~= resize_steps(disk, table, extended, number, device));
        assert(achieves(t, end, resize_steps(disk, table, extended, number, device)));
    }
}

/// The steps of a resize.
pub open spec fn resize_steps(disk: Seq<char>, table: PartitionTable, extended: nat, number: nat, device: Seq<char>) -> Seq<
    RequestView,
> {
    seq![
        makes_room(disk, table, extended),
        grow(disk, number),
        check_of("ext4"@, device),
        call("/sbin/resize2fs"@, seq!["-f"@, device]),
        call("/bin/sync"@, Seq::empty()),
    ]
}

proof fn lemma_strictly(t: Transcript, device: Seq<char>)
    ensures
        checked(t, device, FsType::Ext4).1 is Ok ==> achieves(
            t,
            checked(t, device, FsType::Ext4).0,
            seq![check_of("ext4"@, device)],
        ),
{
    crate::laws::mounts::lemma_ran(t, device, FsType::Ext4);
}

/// The first mounts: devices, processes, the system and what runs, in this order; the kernel log
/// is opened for writing after them.
pub proof fn law_early_mounts(t: Transcript)
    ensures
        ({
            let (end, r) = essential_mounted(t, 0);
            let mount = |fstype: Seq<char>, target: Seq<char>|
                RequestView::Mount {
                    source: Some(fstype),
                    target,
                    fstype: Some(fstype),
                    flags: unflagged(),
                    data: None,
                };
            let list = seq![
                mount("devtmpfs"@, "/dev"@),
                mount("proc"@, "/proc"@),
                mount("sysfs"@, "/sys"@),
                mount("tmpfs"@, "/run"@),
                RequestView::WriteText { path: "/proc/sys/kernel/printk_devkmsg"@, text: "on\n"@ },
            ];
            &&& asked_in(t, end).is_prefix_of(list)
            &&& r is Ok ==> asked_in(t, end) == list && t.rest.len() >= 5 && forall|i: int|
                0 <= i < 4 ==> !(#[trigger] t.rest[i] is Failed)
        }),
{
    let (end, r) = essential_mounted(t, 0);
    let mount = |fstype: Seq<char>, target: Seq<char>|
        RequestView::Mount { source: Some(fstype), target, fstype: Some(fstype), flags: unflagged(), data: None };
    let list = seq![
        mount("devtmpfs"@, "/dev"@),
        mount("proc"@, "/proc"@),
        mount("sysfs"@, "/sys"@),
        mount("tmpfs"@, "/run"@),
        RequestView::WriteText { path: "/proc/sys/kernel/printk_devkmsg"@, text: "on\n"@ },
    ];
    let t1 = t.ask(list[0]);
    let t2 = t1.ask(list[1]);
    let t3 = t2.ask(list[2]);
    let t4 = t3.ask(list[3]);
    let t5 = t4.ask(list[4]);
    reveal_with_fuel(essential_mounted, 6);
    assert(asked_in(t, t1) =~= list.take(1));
    assert(asked_in(t, t2) =~= list.take(2));
    assert(asked_in(t, t3) =~= list.take(3));
    assert(asked_in(t, t4) =~= list.take(4));
    assert(asked_in(t, t5) =~= list);
    assert(end == t1 || end == t2 || end == t3 || end == t4 || end == t5);
    if r is Ok {
        assert(end == t5);
        assert(t1.rest[0] == t.rest[1]);
        assert(t2.rest[0] == t.rest[2]);
        assert(t3.rest[0] == t.rest[3]);
    }
}

/// A word of the kernel command line: what stands before the first equals sign is the name, the
/// rest without the quotes around it is the value; a word without one is a name with no value.
pub proof fn law_setting(name: Seq<char>, value: Seq<char>)
    requires
        !name.contains('='),
        value.len() > 0 ==> value[0] != '"' && value.last() != '"',
    ensures
        setting_of(name.push('=') + value) == (name, value),
        setting_of(name.push('=') + (seq!['"'] + value).push('"')) == (name, value),
        setting_of(name) == (name, Seq::<char>::empty()),
{
    lemma_split_at(name, '=', value);
    let quoted = (seq!['"'] + value).push('"');
    lemma_split_at(name, '=', quoted);
    lemma_unquoted(value, 0);
    if value.len() > 0 {
        lemma_run_len_is(quoted, only('"'), 1);
        let rest = quoted.skip(1);
        assert(rest =~= value.push('"'));
        lemma_run_back_is(rest, only('"'), 1);
        assert(rest.take(rest.len() - 1) =~= value);
    } else {
        assert(quoted =~= seq!['"', '"']);
        lemma_run_len_is(quoted, only('"'), 2);
        let rest = quoted.skip(2);
        lemma_run_back_is(rest, only('"'), 0);
        assert(rest.take(0) =~= value);
    }
    assert forall|i: int| 0 <= i < name.len() implies crate::text::other_than('=')(#[trigger] name[i]) by {}
    lemma_run_len_is(name, crate::text::other_than('='), name.len());
}

proof fn lemma_unquoted(value: Seq<char>, n: int)
    requires
        value.len() > 0 ==> value[0] != '"' && value.last() != '"',
    ensures
        trim_char_of(value, '"') == value,
{
    lemma_run_len_is(value, only('"'), 0);
    assert(value.skip(0) =~= value);
    lemma_run_back_is(value, only('"'), 0);
    assert(value.take(value.len() as int) =~= value);
}

/// The command line is read from /proc/cmdline.
pub proof fn law_command_line(t: Transcript)
    ensures
        asked_in(t, cmdline_loaded(t).0) == seq![RequestView::ReadText("/proc/cmdline"@)],
        t.rest.len() > 0 && t.rest[0] is Text ==> cmdline_loaded(t).1 is Ok,
{
    assert(asked_in(t, cmdline_loaded(t).0) =~= seq![RequestView::ReadText("/proc/cmdline"@)]);
}

/// The extra arguments of the kernel are read from the two files of the boot partition.
pub proof fn law_argument_files(t: Transcript, boot: Seq<char>)
    ensures
        args_read(t, boot).1 is Ok ==> asked_in(t, args_read(t, boot).0) == seq![
            RequestView::ReadText(under(boot, "omnect_extra_bootargs_omnect"@)),
            RequestView::ReadText(under(boot, "omnect_extra_bootargs_custom"@)),
        ],
{
    reveal_strlit("omnect_extra_bootargs_omnect");
    reveal_strlit("omnect_extra_bootargs_custom");
    law_joined(boot, "omnect_extra_bootargs_omnect"@);
    law_joined(boot, "omnect_extra_bootargs_custom"@);
    if args_read(t, boot).1 is Ok {
        assert(asked_in(t, args_read(t, boot).0) =~= seq![
            RequestView::ReadText(under(boot, "omnect_extra_bootargs_omnect"@)),
            RequestView::ReadText(under(boot, "omnect_extra_bootargs_custom"@)),
        ]);
    }
}

/// What makes the table of mounts appear at /etc/mtab, for the tools that look for it there.
pub open spec fn mtab_steps(removed: bool, linked: bool) -> Seq<RequestView> {
    only_if(removed, RequestView::RemoveFile("/etc/mtab"@)) + only_if(
        linked,
        RequestView::Symlink { target: "/proc/self/mounts"@, link: "/etc/mtab"@ },
    )
}

proof fn lemma_mtab(t: Transcript)
    ensures
        mtab_ensured(t).1 is Ok ==> exists|removed: bool, linked: bool|
            #[trigger] achieves(t, mtab_ensured(t).0, mtab_steps(removed, linked)) && (removed ==> linked),
{
    let (end, r) = mtab_ensured(t);
    let none = Seq::<RequestView>::empty();
    let path = "/etc/mtab"@;
    let remove = RequestView::RemoveFile(path);
    let link = RequestView::Symlink { target: "/proc/self/mounts"@, link: path };
    lemma_achieves_nothing(t);
    if r is Ok {
        let (t1, found) = mtab_found(t);
        lemma_and_asks(t, t, RequestView::Exists(path), none);
        let a = t.ask(RequestView::Exists(path));
        if t.rest[0] == ReplyView::Flag(true) {
            lemma_and_asks(t, a, RequestView::IsSymlink(path), none);
        }
        assert(achieves(t, t1, none));
        if found == Some(true) {
            assert(mtab_steps(false, false) =~= none);
            assert(achieves(t, end, mtab_steps(false, false)));
        } else {
            let t2 = t1.ask(RequestView::IsSymlink(path));
            lemma_and_asks(t, t1, RequestView::IsSymlink(path), none);
            if t1.next()->0 == ReplyView::Flag(true) {
                lemma_once_more(t, t2, remove, none);
                lemma_once_more(t, t2.ask(remove), link, none.push(remove));
                assert(none.push(remove).push(link) =~= mtab_steps(true, true));
                assert(achieves(t, end, mtab_steps(true, true)));
            } else {
                lemma_once_more(t, t2, link, none);
                assert(none.push(link) =~= mtab_steps(false, true));
                assert(achieves(t, end, mtab_steps(false, true)));
            }
        }
    }
}

/// The steps of an expansion.
pub open spec fn expand_steps(
    disk: Seq<char>,
    table: PartitionTable,
    extended: nat,
    number: nat,
    device: Seq<char>,
    removed: bool,
    linked: bool,
) -> Seq<RequestView> {
    seq![makes_room(disk, table, extended), grow(disk, number)] + mtab_steps(removed, linked) + seq![
        call("/sbin/e2fsck"@, seq!["-y"@, device]),
        call("/sbin/resize2fs"@, seq!["-f"@, device]),
        call("/bin/sync"@, Seq::empty()),
    ]
}

/// A partition is expanded: room is made, it is grown by its number, its filesystem is checked
/// and grown to it, and the disks are written back.
pub proof fn law_expand(t: Transcript, disk: Seq<char>, device: Seq<char>, table: PartitionTable)
    ensures
        expanded(t, disk, device, table).1 is Ok ==> exists|
            number: nat,
            extended: nat,
            removed: bool,
            linked: bool,
        |
            suffix_of(device) == Some(number) && #[trigger] achieves(
                t,
                expanded(t, disk, device, table).0,
                expand_steps(disk, table, extended, number, device, removed, linked),
            ),
{
    let (end, r) = expanded(t, disk, device, table);
    let none = Seq::<RequestView>::empty();
    lemma_programs();
    if r is Ok {
        let number = suffix_of(device)->0;
        let (t1, r1) = room_made(t, disk, table);
        lemma_room(t, disk, table);
        let extended = choose|extended: nat|
            #[trigger] achieves(t, t1, none.push(makes_room(disk, table, extended))) && (table == PartitionTable::Dos
                ==> t.rest[0] is Output && extended_from(lines_of(t.rest[0]->Output_0.stdout), 0) == Some(extended)
                && asked_in(t, t1)[0] == call("/sbin/parted"@, seq![disk, "print"@]));
        let a = none.push(makes_room(disk, table, extended));
        lemma_tool(t, t1, "/sbin/parted"@, seq![disk, "resizepart"@, dec_of(number), "100%"@], a);
        let (t2, r2) = grown(t1, disk, number);
        let b = a.push(grow(disk, number));
        let (t3, r3) = mtab_ensured(t2);
        lemma_mtab(t2);
        let (removed, linked) = choose|removed: bool, linked: bool|
            #[trigger] achieves(t2, t3, mtab_steps(removed, linked)) && (removed ==> linked);
        lemma_achieves_further(t, t2, t3, b, mtab_steps(removed, linked));
        let c = b + mtab_steps(removed, linked);
        let check = call("/sbin/e2fsck"@, seq!["-y"@, device]);
        let resize = call("/sbin/resize2fs"@, seq!["-f"@, device]);
        let sync = call("/bin/sync"@, Seq::empty());
        let t4 = t3.ask(check);
        let t5 = t4.ask(resize);
        lemma_once_more(t, t3, check, c);
        lemma_once_more(t, t4, resize, c.push(check));
        lemma_once_more(t, t5, sync, c.push(check).push(resize));
        let whole = expand_steps(disk, table, extended, number, device, removed, linked);
        assert(c.push(check).push(resize).push(sync) =~= whole);
        assert(achieves(t, end, whole));
    }
}

} // verus!
