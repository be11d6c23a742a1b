//! Data partition auto-resize
//!
//! Expands the data partition and its ext4 filesystem to fill available disk
//! space on first boot. Guarded by the `omnect_resized_data` bootloader
//! variable so it runs exactly once.

use vstd::prelude::*;
use vstd::string::*;

use crate::bootloader::{env_lifted, lift_env, BootEnv, BootEnvKey};
use crate::error::{concat2, concat3, InitOutcome, InitramfsError, ResizeDataError};
pub use crate::filesystem::resize_data::{find_extended_partition, partition_number};
use crate::filesystem::resize_data::{
    code_or_unknown, grow_partition, grown, make_room, resize_lifted, room_made, ResizeErrorView,
    ResizeFlow, RESIZE2FS_CMD, RESIZE2FS_FORCE, SYNC_CMD,
};
use crate::partition::layout::{suffix_of, LayoutView, PartitionTable};
use crate::partition::{PartitionLayout, PartitionName};
use crate::system::{
    done_of, flag_of, outcome, output_of, CommandOutput, ReplyView, Request, Session, Stop, Transcript,
};
use crate::text::{join, join_of, list2};

verus! {

pub const E2FSCK_CMD: &'static str = "/sbin/e2fsck";

pub const E2FSCK_YES: &'static str = "-y";

pub const MTAB_PATH: &'static str = "/etc/mtab";

pub const PROC_MOUNTS_PATH: &'static str = "/proc/self/mounts";

/// An operation whose failure ends the resize.
pub open spec fn resize_step(t: Transcript, request: crate::system::RequestView) -> (Transcript, ResizeFlow<()>) {
    (
        t.ask(request),
        match t.next() {
            None => Err(Stop::Pending),
            Some(reply) => match done_of(reply) {
                Ok(_) => Ok(()),
                Err(e) => Err(Stop::Failed(ResizeDataError::Io(e))),
            },
        },
    )
}

fn step(request: Request, sys: &mut Session) -> (r: Result<(), Stop<ResizeDataError>>)
    ensures
        (final(sys)@, outcome(r)) == resize_step(old(sys)@, request@),
{
    match sys.perform(request) {
        None => Err(Stop::Pending),
        Some(Err(e)) => Err(Stop::Failed(ResizeDataError::Io(e))),
        Some(Ok(())) => Ok(()),
    }
}

/// Whether there is a regular mtab, which is left alone.
pub open spec fn mtab_found(t: Transcript) -> (Transcript, Option<bool>) {
    let t1 = t.ask(Request::Exists(MTAB_PATH@));
    match t.next() {
        None => (t1, None),
        Some(there) => if flag_of(there) {
            (
                t1.ask(Request::IsSymlink(MTAB_PATH@)),
                match t1.next() {
                    None => None,
                    Some(link) => Some(!flag_of(link)),
                },
            )
        } else {
            (t1, Some(false))
        },
    }
}

fn find_mtab(sys: &mut Session) -> (r: Option<bool>)
    ensures
        (final(sys)@, r) == mtab_found(old(sys)@),
{
    match sys.query(Request::Exists(String::from_str(MTAB_PATH))) {
        None => None,
        Some(false) => Some(false),
        Some(true) => match sys.query(Request::IsSymlink(String::from_str(MTAB_PATH))) {
            None => None,
            Some(link) => Some(!link),
        },
    }
}

/// Makes `/etc/mtab` a link to `/proc/self/mounts` unless there is a regular mtab.
pub open spec fn mtab_ensured(t: Transcript) -> (Transcript, ResizeFlow<()>) {
    match mtab_found(t) {
        (t1, None) => (t1, Err(Stop::Pending)),
        (t1, Some(true)) => (t1, Ok(())),
        (t1, Some(false)) => {
            let t2 = t1.ask(Request::IsSymlink(MTAB_PATH@));
            let link = Request::Symlink { target: PROC_MOUNTS_PATH@, link: MTAB_PATH@ };
            match t1.next() {
                None => (t2, Err(Stop::Pending)),
                Some(stale) => if flag_of(stale) {
                    match resize_step(t2, Request::RemoveFile(MTAB_PATH@)) {
                        (t3, Err(e)) => (t3, Err(e)),
                        (t3, Ok(_)) => resize_step(t3, link),
                    }
                } else {
                    resize_step(t2, link)
                },
            }
        },
    }
}

/// Ensure `/etc/mtab` exists and points to `/proc/self/mounts`.
///
/// Some tools (resize2fs, fsck) rely on mtab being present. In an initramfs
/// environment it often does not exist; a symlink to /proc/self/mounts is
/// functionally equivalent.
pub fn ensure_mtab(sys: &mut Session) -> (r: Result<(), Stop<ResizeDataError>>)
    ensures
        (final(sys)@, outcome(r)) == mtab_ensured(old(sys)@),
{
    match find_mtab(sys) {
        None => {
            return Err(Stop::Pending);
        },
        Some(true) => {
            return Ok(());
        },
        Some(false) => {},
    }
    match sys.query(Request::IsSymlink(String::from_str(MTAB_PATH))) {
        None => {
            return Err(Stop::Pending);
        },
        Some(false) => {},
        Some(true) => match step(Request::RemoveFile(String::from_str(MTAB_PATH)), sys) {
            Err(e) => {
                return Err(e);
            },
            Ok(()) => {},
        },
    }
    step(
        Request::Symlink { target: String::from_str(PROC_MOUNTS_PATH), link: String::from_str(MTAB_PATH) },
        sys,
    )
}

/// The failure of a tool.
pub open spec fn tool_failed(command: Seq<char>, out: crate::system::OutputView) -> ResizeErrorView {
    ResizeDataError::CommandFailed { command, code: code_or_unknown(out.code), output: out.stdout + out.stderr }
}

fn failure(command: String, out: CommandOutput) -> (e: ResizeDataError)
    ensures
        e@ == tool_failed(command@, out@),
{
    let code: i32 = match out.code {
        Some(c) => c,
        None => -1,
    };
    ResizeDataError::CommandFailed { command, code, output: concat2(out.stdout.as_str(), out.stderr.as_str()) }
}

/// What became of a run of e2fsck: exit codes 0 (clean) and 1 (errors corrected) are
/// tolerated, nothing else is.
pub open spec fn e2fsck_verdict(dev: Seq<char>, reply: ReplyView) -> Result<(), ResizeErrorView> {
    match output_of(reply) {
        Err(e) => Err(ResizeDataError::Io(e)),
        Ok(out) => if out.code == Some(0i32) || out.code == Some(1i32) {
            Ok(())
        } else {
            Err(tool_failed(E2FSCK_CMD@ + " -y "@ + dev, out))
        },
    }
}

/// Checks a filesystem with e2fsck.
pub open spec fn e2fsck_ran(t: Transcript, dev: Seq<char>) -> (Transcript, ResizeFlow<()>) {
    (
        t.ask(Request::Run { program: E2FSCK_CMD@, args: seq![E2FSCK_YES@, dev] }),
        match t.next() {
            None => Err(Stop::Pending),
            Some(reply) => match e2fsck_verdict(dev, reply) {
                Ok(_) => Ok(()),
                Err(e) => Err(Stop::Failed(e)),
            },
        },
    )
}

/// Run `e2fsck -y` on a device, tolerating exit codes 0 and 1.
///
/// e2fsck exit code 1 means "errors were corrected" — that is a success
/// outcome for our purposes; we just need the filesystem to be consistent
/// before resize2fs runs.
pub fn run_e2fsck(dev: &str, sys: &mut Session) -> (r: Result<(), Stop<ResizeDataError>>)
    ensures
        (final(sys)@, outcome(r)) == e2fsck_ran(old(sys)@, dev@),
{
    match sys.run(Request::Run { program: String::from_str(E2FSCK_CMD), args: list2(E2FSCK_YES, dev) }) {
        None => Err(Stop::Pending),
        Some(Err(e)) => Err(Stop::Failed(ResizeDataError::Io(e))),
        Some(Ok(out)) => {
            // 0 = clean, 1 = errors corrected; both are acceptable
            match out.code {
                Some(0) => Ok(()),
                Some(1) => Ok(()),
                _ => Err(Stop::Failed(failure(concat3(E2FSCK_CMD, " -y ", dev), out))),
            }
        },
    }
}

/// Runs a command.
pub open spec fn cmd_ran(t: Transcript, program: Seq<char>, args: Seq<Seq<char>>) -> (Transcript, ResizeFlow<()>) {
    (
        t.ask(Request::Run { program, args }),
        match t.next() {
            None => Err(Stop::Pending),
            Some(reply) => match output_of(reply) {
                Err(e) => Err(Stop::Failed(ResizeDataError::Io(e))),
                Ok(out) => if out.succeeded() {
                    Ok(())
                } else {
                    Err(Stop::Failed(tool_failed(program + " "@ + join_of(args, " "@), out)))
                },
            },
        },
    )
}

/// Run an external command and return an error if it exits non-zero.
pub fn run_cmd(program: &str, args: Vec<String>, sys: &mut Session) -> (r: Result<(), Stop<ResizeDataError>>)
    ensures
        (final(sys)@, outcome(r)) == cmd_ran(old(sys)@, program@, args.deep_view()),
{
    let command = concat3(program, " ", join(&args, " ").as_str());
    match sys.run(Request::Run { program: program.to_owned(), args }) {
        None => Err(Stop::Pending),
        Some(Err(e)) => Err(Stop::Failed(ResizeDataError::Io(e))),
        Some(Ok(out)) => {
            if out.success() {
                Ok(())
            } else {
                Err(Stop::Failed(failure(command, out)))
            }
        },
    }
}

/// Grows the filesystem on the data partition.
pub open spec fn contents_grown(t: Transcript, dev: Seq<char>) -> (Transcript, ResizeFlow<()>) {
    match mtab_ensured(t) {
        (t1, Err(e)) => (t1, Err(e)),
        (t1, Ok(_)) => match e2fsck_ran(t1, dev) {
            (t2, Err(e)) => (t2, Err(e)),
            (t2, Ok(_)) => match cmd_ran(t2, RESIZE2FS_CMD@, seq![RESIZE2FS_FORCE@, dev]) {
                (t3, Err(e)) => (t3, Err(e)),
                (t3, Ok(_)) => cmd_ran(t3, SYNC_CMD@, Seq::empty()),
            },
        },
    }
}

fn grow_contents(dev: &str, sys: &mut Session) -> (r: Result<(), Stop<ResizeDataError>>)
    ensures
        (final(sys)@, outcome(r)) == contents_grown(old(sys)@, dev@),
{
    // resize2fs requires a valid mtab entry; create a symlink to /proc/self/mounts
    // if one does not already exist.
    match ensure_mtab(sys) {
        Err(e) => {
            return Err(e);
        },
        Ok(()) => {},
    }
    match run_e2fsck(dev, sys) {
        Err(e) => {
            return Err(e);
        },
        Ok(()) => {},
    }
    match run_cmd(RESIZE2FS_CMD, list2(RESIZE2FS_FORCE, dev), sys) {
        Err(e) => {
            return Err(e);
        },
        Ok(()) => {},
    }
    let none: Vec<String> = Vec::new();
    assert(none.deep_view() =~= Seq::<Seq<char>>::empty());
    run_cmd(SYNC_CMD, none, sys)
}

/// Grows a data partition and its filesystem.
pub open spec fn expanded(t: Transcript, base: Seq<char>, dev: Seq<char>, table: PartitionTable) -> (
    Transcript,
    ResizeFlow<()>,
) {
    match suffix_of(dev) {
        None => (t, Err(Stop::Failed(ResizeDataError::InvalidDevicePath(dev)))),
        Some(number) => match room_made(t, base, table) {
            (t1, Err(e)) => (t1, Err(e)),
            (t1, Ok(_)) => match grown(t1, base, number) {
                (t2, Err(e)) => (t2, Err(e)),
                (t2, Ok(_)) => contents_grown(t2, dev),
            },
        },
    }
}

fn expand(rootblk: &str, data_dev: &str, table: PartitionTable, sys: &mut Session) -> (r: Result<
    (),
    Stop<ResizeDataError>,
>)
    ensures
        (final(sys)@, outcome(r)) == expanded(old(sys)@, rootblk@, data_dev@, table),
{
    let part_nr = match partition_number(data_dev) {
        None => {
            return Err(Stop::Failed(ResizeDataError::InvalidDevicePath(data_dev.to_owned())));
        },
        Some(n) => n,
    };
    match make_room(rootblk, table, sys) {
        Err(e) => {
            return Err(e);
        },
        Ok(()) => {},
    }
    match grow_partition(rootblk, part_nr, sys) {
        Err(e) => {
            return Err(e);
        },
        Ok(()) => {},
    }
    grow_contents(data_dev, sys)
}

/// Grows the data partition where the guard is not set, and sets it then.
pub open spec fn resized_once<B: BootEnv>(t: Transcript, s: B::State, layout: LayoutView, table: PartitionTable) -> (
    Transcript,
    B::State,
    InitOutcome<()>,
) {
    match B::reads(t, s, BootEnvKey::ResizedData) {
        (t1, s1, Err(e)) => (t1, s1, env_lifted(Err::<(), _>(e))),
        (t1, s1, Ok(Some(_))) => (t1, s1, Ok(())),
        (t1, s1, Ok(None)) => match layout.at(PartitionName::Data) {
            None => (t1, s1, Ok(())),
            Some(dev) => match expanded(t1, layout.device.base, dev, table) {
                (t2, Err(e)) => (t2, s1, resize_lifted(Err::<(), _>(e))),
                (t2, Ok(_)) => {
                    let (t3, s3, r) = B::writes(t2, s1, BootEnvKey::ResizedData, Some("1"@));
                    (t3, s3, env_lifted(r))
                },
            },
        },
    }
}

/// Expands the data partition to the end of the disk, and its filesystem with it, unless that
/// was done before.
///
/// Without a boot environment nothing is done, since nothing could be guarded.
pub fn resize_if_needed<B: BootEnv>(
    layout: &PartitionLayout,
    table: PartitionTable,
    bootloader: Option<&mut B>,
    sys: &mut Session,
) -> (r: Result<(), Stop<InitramfsError>>)
    ensures
        match bootloader {
            Some(b) => (final(sys)@, final(b).state(), outcome(r)) == resized_once::<B>(
                old(sys)@,
                b.state(),
                layout@,
                table,
            ),
            None => final(sys)@ == old(sys)@ && r is Ok,
        },
{
    let bl = match bootloader {
        None => {
            return Ok(());
        },
        Some(bl) => bl,
    };
    match bl.get_env(BootEnvKey::ResizedData, sys) {
        Err(e) => {
            return lift_env(Err(e));
        },
        Ok(Some(_)) => {
            return Ok(());
        },
        Ok(None) => {},
    }
    let data_dev = match layout.get(PartitionName::Data) {
        None => {
            return Ok(());
        },
        Some(dev) => dev,
    };
    match expand(layout.device.base.as_str(), data_dev.as_str(), table, sys) {
        Err(Stop::Pending) => {
            return Err(Stop::Pending);
        },
        Err(Stop::Failed(e)) => {
            return Err(Stop::Failed(InitramfsError::ResizeData(e)));
        },
        Ok(()) => {},
    }
    lift_env(bl.set_env(BootEnvKey::ResizedData, Some("1"), sys))
}

/// Once the guard is set, nothing is done but to read it, whatever the layout is.
pub proof fn law_resize_runs_once<B: BootEnv>(t: Transcript, s: B::State, layout: LayoutView, table: PartitionTable)
    requires
        B::reads(t, s, BootEnvKey::ResizedData).2 matches Ok(Some(_)),
    ensures
        ({
            let (t1, s1, guard) = B::reads(t, s, BootEnvKey::ResizedData);
            resized_once::<B>(t, s, layout, table) == (t1, s1, InitOutcome::<()>::Ok(()))
        }),
{
}

} // verus!
