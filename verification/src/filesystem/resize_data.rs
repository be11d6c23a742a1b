//! Data partition auto-resize
//!
//! Expands the data partition and its ext4 filesystem to fill available disk
//! space on first boot. Called from the init setup phase.

use vstd::prelude::*;
use vstd::string::*;

use crate::bootloader::{note, noted, BootEnv, BootEnvKey};
use crate::error::{concat3, or_pending, step_of, InitOutcome, InitramfsError, ResizeDataError};
use crate::filesystem::fsck::{check_filesystem, checked};
use crate::filesystem::mount::FsType;
use crate::partition::layout::{partition_suffix, suffix_of, LayoutView, PartitionTable};
use crate::partition::{PartitionLayout, PartitionName};
use crate::system::{outcome, output_of, warned, ReplyView, Request, RequestView, Session, Stop, Transcript};
use crate::text::{
    contains, contains_text, dec_of, decimal, join, join_of, lines, lines_of, list2, list4, parse_u32, parse_u32_of,
    slice, to_chars, words, words_of,
};

verus! {

pub const SGDISK_CMD: &'static str = "/sbin/sgdisk";

pub const PARTED_CMD: &'static str = "/sbin/parted";

pub const RESIZE2FS_CMD: &'static str = "/sbin/resize2fs";

pub const SYNC_CMD: &'static str = "/bin/sync";

pub const SGDISK_MOVE_BACKUP_HEADER: &'static str = "-e";

pub const PARTED_RESIZEPART: &'static str = "resizepart";

pub const PARTED_RESIZE_FULL: &'static str = "100%";

pub const PARTED_PRINT: &'static str = "print";

pub const RESIZE2FS_FORCE: &'static str = "-f";

/// An error of the resize by view.
pub type ResizeErrorView = ResizeDataError<Seq<char>>;

/// How a step of the resize ended, by view.
pub type ResizeFlow<T> = Result<T, Stop<ResizeErrorView>>;

/// Extract the trailing partition number from a block device path.
///
/// Works for all common Linux naming conventions:
/// - SATA/SCSI: `/dev/sda8` → 8
/// - NVMe: `/dev/nvme0n1p7` → 7
/// - eMMC: `/dev/mmcblk0p8` → 8
pub fn partition_number(dev: &str) -> (r: Option<u32>)
    ensures
        match suffix_of(dev@) {
            Some(n) => n <= u32::MAX && r == Some(n as u32),
            None => r is None,
        },
{
    partition_suffix(dev)
}

/// A letter of the word "extended" in lower case, any other character as it is.
pub open spec fn lowered(c: char) -> char {
    match c {
        'E' => 'e',
        'X' => 'x',
        'T' => 't',
        'N' => 'n',
        'D' => 'd',
        other => other,
    }
}

/// The text holds the word "extended" in any mix of upper and lower case.
pub open spec fn says_extended(text: Seq<char>) -> bool {
    contains_text(text.map_values(|c: char| lowered(c)), "extended"@)
}

fn mentions_extended(text: &str) -> (r: bool)
    ensures
        r == says_extended(text@),
{
    let chars = to_chars(text);
    let mut low: Vec<char> = Vec::new();
    let mut i: usize = 0;
    while i < chars.len()
        invariant
            i <= chars@.len(),
            low@.len() == i,
            forall|k: int| 0 <= k < i ==> #[trigger] low@[k] == lowered(chars@[k]),
        decreases chars.len() - i,
    {
        let c = match chars[i] {
            'E' => 'e',
            'X' => 'x',
            'T' => 't',
            'N' => 'n',
            'D' => 'd',
            other => other,
        };
        low.push(c);
        i = i + 1;
    }
    assert(low@ =~= text@.map_values(|c: char| lowered(c)));
    assert(low@.subrange(0, low@.len() as int) =~= low@);
    let lower = slice(&low, 0, low.len());
    contains(lower.as_str(), "extended")
}

/// The number at the start of a line.
pub open spec fn leading_number(line: Seq<char>) -> Option<nat> {
    if words_of(line).len() == 0 {
        None
    } else {
        match parse_u32_of(words_of(line)[0]) {
            Ok(n) => Some(n),
            Err(_) => None,
        }
    }
}

/// The column of `parted print` with the type of a partition, behind its number, start, end
/// and size.
pub const TYPE_COLUMN: usize = 4;

/// The line is about an extended partition: its type column says so.
pub open spec fn is_extended(line: Seq<char>) -> bool {
    words_of(line).len() > TYPE_COLUMN && says_extended(words_of(line)[TYPE_COLUMN as int])
}

/// The number of the first line from position `i` on that is about an extended partition
/// and starts with a number.
pub open spec fn extended_from(ls: Seq<Seq<char>>, i: int) -> Option<nat>
    decreases ls.len() - i,
{
    if i < 0 || i >= ls.len() {
        None
    } else if is_extended(ls[i]) && leading_number(ls[i]) is Some {
        leading_number(ls[i])
    } else {
        extended_from(ls, i + 1)
    }
}

/// Finds the number of the extended partition in what `parted print` wrote.
pub fn parse_extended_partition_nr(parted_output: &str) -> (r: Option<u32>)
    ensures
        match r {
            Some(n) => extended_from(lines_of(parted_output@), 0) == Some(n as nat),
            None => extended_from(lines_of(parted_output@), 0) is None,
        },
{
    let ls = lines(parted_output);
    let mut i: usize = 0;
    while i < ls.len()
        invariant
            i <= ls@.len(),
            ls.deep_view() == lines_of(parted_output@),
            extended_from(lines_of(parted_output@), i as int) == extended_from(lines_of(parted_output@), 0),
        decreases ls.len() - i,
    {
        assert(lines_of(parted_output@)[i as int] == ls@[i as int]@);
        let ws = words(ls[i].as_str());
        assert(ws.deep_view() == words_of(ls@[i as int]@));
        if ws.len() > TYPE_COLUMN {
            assert(ws.deep_view()[TYPE_COLUMN as int] == ws@[TYPE_COLUMN as int]@);
            if mentions_extended(ws[TYPE_COLUMN].as_str()) {
                assert(ws.deep_view()[0] == ws@[0]@);
                match parse_u32(ws[0].as_str()) {
                    Ok(nr) => {
                        return Some(nr);
                    },
                    Err(_) => {},
                }
            }
        }
        i = i + 1;
    }
    None
}

/// A command in words.
pub open spec fn command_text(program: Seq<char>, args: Seq<Seq<char>>) -> Seq<char> {
    if args.len() == 0 {
        program
    } else {
        program + " "@ + join_of(args, " "@)
    }
}

/// The exit code of a program, -1 if a signal killed it.
pub open spec fn code_or_unknown(code: Option<i32>) -> i32 {
    match code {
        Some(c) => c,
        None => -1i32,
    }
}

/// What became of a run of a tool.
pub open spec fn tool_verdict(program: Seq<char>, args: Seq<Seq<char>>, reply: ReplyView) -> Result<
    (),
    ResizeErrorView,
> {
    match output_of(reply) {
        Err(e) => Err(ResizeDataError::Io(e)),
        Ok(out) => if out.succeeded() {
            Ok(())
        } else {
            Err(
                ResizeDataError::CommandFailed {
                    command: command_text(program, args),
                    code: code_or_unknown(out.code),
                    output: out.stdout + out.stderr,
                },
            )
        },
    }
}

/// Runs a tool.
pub open spec fn tool_ran(t: Transcript, program: Seq<char>, args: Seq<Seq<char>>) -> (Transcript, ResizeFlow<()>) {
    (
        t.ask(Request::Run { program, args }),
        match t.next() {
            None => Err(Stop::Pending),
            Some(reply) => match tool_verdict(program, args, reply) {
                Ok(_) => Ok(()),
                Err(e) => Err(Stop::Failed(e)),
            },
        },
    )
}

/// Run an external command and return an error if it exits non-zero.
pub fn run_cmd(program: &str, args: Vec<String>, sys: &mut Session) -> (r: Result<(), Stop<ResizeDataError>>)
    ensures
        (final(sys)@, outcome(r)) == tool_ran(old(sys)@, program@, args.deep_view()),
{
    let command = if args.len() == 0 {
        program.to_owned()
    } else {
        concat3(program, " ", join(&args, " ").as_str())
    };
    match sys.run(Request::Run { program: program.to_owned(), args }) {
        None => Err(Stop::Pending),
        Some(Err(e)) => Err(Stop::Failed(ResizeDataError::Io(e))),
        Some(Ok(out)) => {
            if out.success() {
                return Ok(());
            }
            let code: i32 = match out.code {
                Some(c) => c,
                None => -1,
            };
            let output = crate::error::concat2(out.stdout.as_str(), out.stderr.as_str());
            Err(Stop::Failed(ResizeDataError::CommandFailed { command, code, output }))
        },
    }
}

/// The request that prints the partition table of a disk.
pub open spec fn print_request(rootblk: Seq<char>) -> RequestView {
    Request::Run { program: PARTED_CMD@, args: seq![rootblk, PARTED_PRINT@] }
}

/// Finds the extended partition of a disk.
pub open spec fn extended_found(t: Transcript, rootblk: Seq<char>) -> (Transcript, ResizeFlow<nat>) {
    (
        t.ask(print_request(rootblk)),
        match t.next() {
            None => Err(Stop::Pending),
            Some(reply) => match output_of(reply) {
                Err(e) => Err(Stop::Failed(ResizeDataError::Io(e))),
                Ok(out) => match extended_from(lines_of(out.stdout), 0) {
                    Some(n) => Ok(n),
                    None => Err(Stop::Failed(ResizeDataError::ExtendedPartitionNotFound(rootblk))),
                },
            },
        },
    )
}

/// Find the extended partition number on a DOS/MBR disk.
///
/// Invokes `parted print` and scans its output for a line whose type column
/// contains "extended". Only relevant for `dos` partition layouts.
pub fn find_extended_partition(rootblk: &str, sys: &mut Session) -> (r: Result<u32, Stop<ResizeDataError>>)
    ensures
        final(sys)@ == extended_found(old(sys)@, rootblk@).0,
        match r {
            Ok(n) => extended_found(old(sys)@, rootblk@).1 == ResizeFlow::Ok(n as nat),
            Err(e) => extended_found(old(sys)@, rootblk@).1 == ResizeFlow::<nat>::Err(e@),
        },
{
    match sys.run(Request::Run { program: String::from_str(PARTED_CMD), args: list2(rootblk, PARTED_PRINT) }) {
        None => Err(Stop::Pending),
        Some(Err(e)) => Err(Stop::Failed(ResizeDataError::Io(e))),
        Some(Ok(out)) => match parse_extended_partition_nr(out.stdout.as_str()) {
            Some(n) => Ok(n),
            None => Err(Stop::Failed(ResizeDataError::ExtendedPartitionNotFound(rootblk.to_owned()))),
        },
    }
}

/// The arguments that make parted grow a partition to the end of the disk.
pub open spec fn grow_args(rootblk: Seq<char>, number: nat) -> Seq<Seq<char>> {
    seq![rootblk, PARTED_RESIZEPART@, dec_of(number), PARTED_RESIZE_FULL@]
}

/// Grows a partition to the end of the disk.
pub open spec fn grown(t: Transcript, rootblk: Seq<char>, number: nat) -> (Transcript, ResizeFlow<()>) {
    tool_ran(t, PARTED_CMD@, grow_args(rootblk, number))
}

pub(crate) fn grow_partition(rootblk: &str, number: u32, sys: &mut Session) -> (r: Result<(), Stop<ResizeDataError>>)
    ensures
        (final(sys)@, outcome(r)) == grown(old(sys)@, rootblk@, number as nat),
{
    let nr = decimal(number as u64);
    run_cmd(PARTED_CMD, list4(rootblk, PARTED_RESIZEPART, nr.as_str(), PARTED_RESIZE_FULL), sys)
}

/// Makes room behind the data partition.
pub open spec fn room_made(t: Transcript, rootblk: Seq<char>, table: PartitionTable) -> (Transcript, ResizeFlow<()>) {
    match table {
        PartitionTable::Gpt => tool_ran(t, SGDISK_CMD@, seq![rootblk, SGDISK_MOVE_BACKUP_HEADER@]),
        PartitionTable::Dos => match extended_found(t, rootblk) {
            (t1, Err(e)) => (t1, Err(e)),
            (t1, Ok(number)) => grown(t1, rootblk, number),
        },
    }
}

pub(crate) fn make_room(rootblk: &str, table: PartitionTable, sys: &mut Session) -> (r: Result<(), Stop<ResizeDataError>>)
    ensures
        (final(sys)@, outcome(r)) == room_made(old(sys)@, rootblk@, table),
{
    match table {
        // Move backup GPT header to end of disk before resizing — required when
        // the disk was grown after the image was written (e.g. flash → larger medium).
        PartitionTable::Gpt => run_cmd(SGDISK_CMD, list2(rootblk, SGDISK_MOVE_BACKUP_HEADER), sys),
        // The logical data partition lives inside an extended container; resize
        // the container first so there is free space to expand the logical partition.
        PartitionTable::Dos => match find_extended_partition(rootblk, sys) {
            Err(e) => Err(e),
            Ok(ext_nr) => grow_partition(rootblk, ext_nr, sys),
        },
    }
}

/// Checks the data partition and grows its filesystem.
pub open spec fn filesystem_grown(t: Transcript, dev: Seq<char>) -> (Transcript, ResizeFlow<()>) {
    match checked(t, dev, FsType::Ext4) {
        (t1, Err(Stop::Pending)) => (t1, Err(Stop::Pending)),
        (t1, Err(Stop::Failed(e))) => (t1, Err(Stop::Failed(ResizeDataError::Filesystem(e)))),
        (t1, Ok(_)) => match tool_ran(t1, RESIZE2FS_CMD@, seq![RESIZE2FS_FORCE@, dev]) {
            (t2, Err(e)) => (t2, Err(e)),
            (t2, Ok(_)) => tool_ran(t2, SYNC_CMD@, Seq::empty()),
        },
    }
}

fn grow_filesystem(data_dev: &str, sys: &mut Session) -> (r: Result<(), Stop<ResizeDataError>>)
    ensures
        (final(sys)@, outcome(r)) == filesystem_grown(old(sys)@, data_dev@),
{
    // Run fsck on the (unmounted) data partition before expanding the filesystem.
    // If this returns FsckRequiresReboot, the error propagates without persisting
    // to ods_status. This is intentional: the data partition is fscked again in
    // mount_remaining_partitions on the next boot, so the diagnostic is not lost.
    match check_filesystem(data_dev, FsType::Ext4, sys) {
        Err(Stop::Pending) => {
            return Err(Stop::Pending);
        },
        Err(Stop::Failed(e)) => {
            return Err(Stop::Failed(ResizeDataError::Filesystem(e)));
        },
        Ok(_) => {},
    }
    match run_cmd(RESIZE2FS_CMD, list2(RESIZE2FS_FORCE, data_dev), sys) {
        Err(e) => {
            return Err(e);
        },
        Ok(()) => {},
    }
    let none: Vec<String> = Vec::new();
    assert(none.deep_view() =~= Seq::<Seq<char>>::empty());
    run_cmd(SYNC_CMD, none, sys)
}

/// Grows the data partition of a layout. `Ok(false)` means that there is none.
pub open spec fn resized(t: Transcript, layout: LayoutView, table: PartitionTable) -> (Transcript, ResizeFlow<bool>) {
    match layout.at(PartitionName::Data) {
        None => (t, Ok(false)),
        Some(dev) => match suffix_of(dev) {
            None => (t, Err(Stop::Failed(ResizeDataError::InvalidDevicePath(dev)))),
            Some(number) => match room_made(t, layout.device.base, table) {
                (t1, Err(e)) => (t1, Err(e)),
                (t1, Ok(_)) => match grown(t1, layout.device.base, number) {
                    (t2, Err(e)) => (t2, Err(e)),
                    (t2, Ok(_)) => match filesystem_grown(t2, dev) {
                        (t3, Err(e)) => (t3, Err(e)),
                        (t3, Ok(_)) => (t3, Ok(true)),
                    },
                },
            },
        },
    }
}

fn resize(layout: &PartitionLayout, table: PartitionTable, sys: &mut Session) -> (r: Result<
    bool,
    Stop<ResizeDataError>,
>)
    ensures
        (final(sys)@, outcome(r)) == resized(old(sys)@, layout@, table),
{
    let data_dev = match layout.get(PartitionName::Data) {
        None => {
            return Ok(false);
        },
        Some(dev) => dev,
    };
    let rootblk = layout.device.base.as_str();
    let part_nr = match partition_number(data_dev.as_str()) {
        None => {
            return Err(Stop::Failed(ResizeDataError::InvalidDevicePath(data_dev.clone())));
        },
        Some(n) => n,
    };
    match make_room(rootblk, table, sys) {
        Err(e) => {
            return Err(e);
        },
        Ok(()) => {},
    }
    match grow_partition(rootblk, part_nr, sys) {
        Err(e) => {
            return Err(e);
        },
        Ok(()) => {},
    }
    match grow_filesystem(data_dev.as_str(), sys) {
        Err(e) => Err(e),
        Ok(()) => Ok(true),
    }
}

/// Writes the guard, if there is an environment.
pub open spec fn guarded<B: BootEnv>(t: Transcript, s: Option<B::State>) -> (Transcript, Option<B::State>, Option<()>) {
    noted::<B>(
        t,
        s,
        BootEnvKey::ResizedData,
        Some("1"@),
        "data partition resize completed but guard write failed: "@,
        "; resize will run again on next boot (idempotent)"@,
    )
}

/// Write the resize guard to the bootloader environment if available.
///
/// Called after a successful resize. When the bootloader is unavailable
/// (degraded mode), the guard is intentionally not written — the resize
/// will run again on the next boot, which is idempotent. A failed write is only
/// warned about for the same reason. Returns `None` if an answer is missing.
pub fn write_resize_guard<B: BootEnv>(bootloader: Option<&mut B>, sys: &mut Session) -> (r: Option<()>)
    ensures
        match bootloader {
            Some(b) => (final(sys)@, Some(final(b).state()), r) == guarded::<B>(old(sys)@, Some(b.state())),
            None => (final(sys)@, None::<B::State>, r) == guarded::<B>(old(sys)@, None),
        },
{
    note(
        bootloader,
        BootEnvKey::ResizedData,
        Some("1"),
        "data partition resize completed but guard write failed: ",
        "; resize will run again on next boot (idempotent)",
        sys,
    )
}

/// How the resize ended, as the outcome of a boot procedure.
pub open spec fn resize_lifted<T>(r: ResizeFlow<T>) -> InitOutcome<T> {
    match r {
        Ok(x) => Ok(x),
        Err(Stop::Pending) => Err(Stop::Pending),
        Err(Stop::Failed(e)) => Err(Stop::Failed(InitramfsError::ResizeData(e))),
    }
}

/// Grows the data partition, if there is one, and writes the guard once that succeeded.
pub open spec fn resized_and_guarded<B: BootEnv>(
    t: Transcript,
    s: Option<B::State>,
    layout: LayoutView,
    table: PartitionTable,
) -> (Transcript, Option<B::State>, InitOutcome<()>) {
    match resized(t, layout, table) {
        (t1, Err(e)) => (t1, s, resize_lifted(Err::<(), _>(e))),
        (t1, Ok(false)) => (t1, s, Ok(())),
        (t1, Ok(true)) => {
            let (t2, s2, r) = guarded::<B>(t1, s);
            (t2, s2, step_of(r))
        },
    }
}

/// Expands the data partition to the end of the disk, and its filesystem with it.
///
/// A no-op when the layout has no data partition.
pub fn resize_if_needed<B: BootEnv>(
    layout: &PartitionLayout,
    table: PartitionTable,
    bootloader: Option<&mut B>,
    sys: &mut Session,
) -> (r: Result<(), Stop<InitramfsError>>)
    ensures
        match bootloader {
            Some(b) => (final(sys)@, Some(final(b).state()), outcome(r)) == resized_and_guarded::<B>(
                old(sys)@,
                Some(b.state()),
                layout@,
                table,
            ),
            None => (final(sys)@, None::<B::State>, outcome(r)) == resized_and_guarded::<B>(
                old(sys)@,
                None,
                layout@,
                table,
            ),
        },
{
    match resize(layout, table, sys) {
        Err(Stop::Pending) => Err(Stop::Pending),
        Err(Stop::Failed(e)) => Err(Stop::Failed(InitramfsError::ResizeData(e))),
        Ok(false) => Ok(()),
        Ok(true) => or_pending(write_resize_guard(bootloader, sys)),
    }
}

/// The guard is written only after a resize that succeeded, and after it. What follows the
/// write is at most a warning.
pub proof fn law_guard_only_after_resize<B: BootEnv>(
    t: Transcript,
    s: B::State,
    layout: LayoutView,
    table: PartitionTable,
)
    ensures
        ({
            let (t1, done) = resized(t, layout, table);
            let (t2, s2, r) = resized_and_guarded::<B>(t, Some(s), layout, table);
            &&& done != ResizeFlow::Ok(true) ==> t2 == t1 && s2 == Some(s)
            &&& done == ResizeFlow::Ok(true) ==> {
                let written = B::writes(t1, s, BootEnvKey::ResizedData, Some("1"@)).0;
                &&& layout.at(PartitionName::Data) is Some
                &&& t2 == written || exists|message: Seq<char>| t2 == (#[trigger] warned(written, message)).0
            }
        }),
{
}

} // verus!
