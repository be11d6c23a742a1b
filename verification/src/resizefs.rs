//! Growth of the data filesystem

use vstd::prelude::*;
use vstd::string::*;

use crate::partition::PartitionTable;
use crate::system::{outcome, Session, Stop, Transcript};
use crate::text::{list1, list2, list3};
use crate::util::{
    get_uboot_env, run_tool, set_uboot_env, tool_code, uboot_read, uboot_written, StepError, StepFlow,
};

verus! {

pub const RESIZED_DATA: &'static str = "resized-data";

/// Runs a tool that has to succeed.
pub open spec fn required(t: Transcript, program: Seq<char>, args: Seq<Seq<char>>, message: Seq<char>) -> (
    Transcript,
    StepFlow<()>,
) {
    match tool_code(t, program, args) {
        (t1, Err(e)) => (t1, Err(e)),
        (t1, Ok(code)) => (
            t1,
            if code == Some(0i32) {
                Ok(())
            } else {
                Err(Stop::Failed(StepError::Message(message)))
            },
        ),
    }
}

fn require(program: &str, args: Vec<String>, message: &str, sys: &mut Session) -> (r: Result<(), Stop<StepError>>)
    ensures
        (final(sys)@, outcome(r)) == required(old(sys)@, program@, args.deep_view(), message@),
{
    match run_tool(program, args, sys) {
        Err(e) => Err(e),
        Ok(Some(0)) => Ok(()),
        Ok(_) => Err(Stop::Failed(StepError::Message(message.to_owned()))),
    }
}

/// Grows a partition. That there is nothing to grow is no failure; exit code 2 is one.
pub open spec fn part_grown(t: Transcript, number: Seq<char>, message: Seq<char>) -> (Transcript, StepFlow<()>) {
    match tool_code(t, "/usr/bin/growpart"@, seq!["/dev/omnect/rootblk"@, number]) {
        (t1, Err(e)) => (t1, Err(e)),
        (t1, Ok(code)) => (
            t1,
            if code == Some(2i32) {
                Err(Stop::Failed(StepError::Message(message)))
            } else {
                Ok(())
            },
        ),
    }
}

fn grow_part(number: &str, message: &str, sys: &mut Session) -> (r: Result<(), Stop<StepError>>)
    ensures
        (final(sys)@, outcome(r)) == part_grown(old(sys)@, number@, message@),
{
    match run_tool("/usr/bin/growpart", list2("/dev/omnect/rootblk", number), sys) {
        Err(e) => Err(e),
        Ok(Some(2)) => Err(Stop::Failed(StepError::Message(message.to_owned()))),
        Ok(_) => Ok(()),
    }
}

/// Makes room for the data partition and grows it.
pub open spec fn data_grown(t: Transcript, table: PartitionTable) -> (Transcript, StepFlow<()>) {
    match table {
        PartitionTable::Gpt => match required(
            t,
            "/usr/sbin/sgdisk"@,
            seq!["/dev/omnect/rootblk"@, "-e"@],
            "correcting gpt table failed"@,
        ) {
            (t1, Err(e)) => (t1, Err(e)),
            (t1, Ok(_)) => part_grown(t1, "7"@, "growpart data failed"@),
        },
        PartitionTable::Dos => match part_grown(t, "4"@, "growpart extended failed"@) {
            (t1, Err(e)) => (t1, Err(e)),
            (t1, Ok(_)) => part_grown(t1, "8"@, "growpart data failed"@),
        },
    }
}

fn grow_data(table: PartitionTable, sys: &mut Session) -> (r: Result<(), Stop<StepError>>)
    ensures
        (final(sys)@, outcome(r)) == data_grown(old(sys)@, table),
{
    match table {
        PartitionTable::Gpt => match require(
            "/usr/sbin/sgdisk",
            list2("/dev/omnect/rootblk", "-e"),
            "correcting gpt table failed",
            sys,
        ) {
            Err(e) => Err(e),
            Ok(()) => grow_part("7", "growpart data failed", sys),
        },
        PartitionTable::Dos => match grow_part("4", "growpart extended failed", sys) {
            Err(e) => Err(e),
            Ok(()) => grow_part("8", "growpart data failed", sys),
        },
    }
}

/// Checks the data filesystem, and grows its partition and the filesystem.
pub open spec fn grown(t: Transcript, table: PartitionTable) -> (Transcript, StepFlow<()>) {
    match required(t, "/sbin/e2fsck"@, seq!["-y"@, "-f"@, "/dev/omnect/data"@], "fsck data failed"@) {
        (t1, Err(e)) => (t1, Err(e)),
        (t1, Ok(_)) => match data_grown(t1, table) {
            (t2, Err(e)) => (t2, Err(e)),
            (t2, Ok(_)) => required(
                t2,
                "/sbin/resize2fs"@,
                seq!["/dev/omnect/data"@],
                "resize2fs data failed"@,
            ),
        },
    }
}

fn grow(table: PartitionTable, sys: &mut Session) -> (r: Result<(), Stop<StepError>>)
    ensures
        (final(sys)@, outcome(r)) == grown(old(sys)@, table),
{
    match require("/sbin/e2fsck", list3("-y", "-f", "/dev/omnect/data"), "fsck data failed", sys) {
        Err(e) => {
            return Err(e);
        },
        Ok(()) => {},
    }
    match grow_data(table, sys) {
        Err(e) => {
            return Err(e);
        },
        Ok(()) => {},
    }
    require("/sbin/resize2fs", list1("/dev/omnect/data"), "resize2fs data failed", sys)
}

/// Grows the data filesystem unless the variable says that it was done, and says so then.
pub open spec fn resized(t: Transcript, table: PartitionTable) -> (Transcript, StepFlow<()>) {
    match uboot_read(t, RESIZED_DATA@) {
        (t1, Err(e)) => (t1, Err(e)),
        (t1, Ok(Some(_))) => (t1, Ok(())),
        (t1, Ok(None)) => match grown(t1, table) {
            (t2, Err(e)) => (t2, Err(e)),
            (t2, Ok(_)) => uboot_written(t2, RESIZED_DATA@, "1"@),
        },
    }
}

pub fn run(table: PartitionTable, sys: &mut Session) -> (r: Result<(), Stop<StepError>>)
    ensures
        (final(sys)@, outcome(r)) == resized(old(sys)@, table),
{
    match get_uboot_env(RESIZED_DATA, sys) {
        Err(e) => {
            return Err(e);
        },
        Ok(Some(_)) => {
            return Ok(());
        },
        Ok(None) => {},
    }
    match grow(table, sys) {
        Err(e) => {
            return Err(e);
        },
        Ok(()) => {},
    }
    set_uboot_env(RESIZED_DATA, "1", sys)
}

} // verus!
