//! GRUB boot environment implementation
//!
//! This module provides access to GRUB bootloader environment variables
//! using the `grub-editenv` command.

use vstd::prelude::*;
use vstd::string::*;

use crate::bootloader::types::{decode_fsck_output, decoded, encode_fsck_output, encoded};
use crate::bootloader::{
    opt_text, record_outcome, BootEnv, BootEnvErrorView, BootEnvKey, EnvDone, EnvOutcome, EnvRead, EnvRecord, EnvResult,
    FsckRecord,
};
use crate::error::{concat2, concat3, BootEnvError};
use crate::filesystem::FsckExitCode;
use crate::partition::PartitionName;
use crate::path::{join, joined};
use crate::system::{
    done_of, flag_of, outcome, output_of, text_of, ReplyView, Request, RequestView, Session, Stop, Transcript,
};
use crate::text::{lines, lines_of, list2, list3, same, split_once, split_once_of};

verus! {

/// The request that runs `grub-editenv` on the grubenv file.
pub open spec fn editenv_request(args: Seq<Seq<char>>) -> RequestView {
    Request::Run { program: "/bin/grub-editenv"@, args: seq!["/rootfs/boot/EFI/BOOT/grubenv"@] + args }
}

/// The standard output of a tool, if it ran and exited with success.
pub open spec fn tool_output(command: Seq<char>, reply: ReplyView) -> Result<Seq<char>, BootEnvErrorView> {
    match output_of(reply) {
        Err(e) => Err(BootEnvError::CommandFailed { command, reason: e.text() }),
        Ok(out) => if out.succeeded() {
            Ok(out.stdout)
        } else {
            Err(BootEnvError::CommandExitCode { command, code: out.code, stderr: out.stderr })
        },
    }
}

/// Runs a tool and gives back its standard output.
pub fn run_tool(command: &str, args: Vec<String>, sys: &mut Session) -> (r: Result<String, Stop<BootEnvError>>)
    ensures
        final(sys)@ == old(sys)@.ask(Request::Run { program: command@, args: args.deep_view() }),
        outcome(r) == match old(sys)@.next() {
            None => Err(Stop::Pending),
            Some(reply) => match tool_output(command@, reply) {
                Ok(s) => Ok(s),
                Err(e) => Err(Stop::Failed(e)),
            },
        },
{
    match sys.run(Request::Run { program: command.to_owned(), args }) {
        None => Err(Stop::Pending),
        Some(Err(e)) => Err(
            Stop::Failed(BootEnvError::CommandFailed { command: command.to_owned(), reason: e.to_string() }),
        ),
        Some(Ok(out)) => {
            if out.success() {
                Ok(out.stdout)
            } else {
                Err(
                    Stop::Failed(
                        BootEnvError::CommandExitCode {
                            command: command.to_owned(),
                            code: out.code,
                            stderr: out.stderr,
                        },
                    ),
                )
            }
        },
    }
}

/// The value of the first of `ls` from position `i` on that is `key=value`.
pub open spec fn listed_from(ls: Seq<Seq<char>>, key: Seq<char>, i: int) -> Option<Seq<char>>
    decreases ls.len() - i,
{
    if i < 0 || i >= ls.len() {
        None
    } else {
        match split_once_of(ls[i], '=') {
            Some((k, v)) => if k == key {
                Some(v)
            } else {
                listed_from(ls, key, i + 1)
            },
            None => listed_from(ls, key, i + 1),
        }
    }
}

/// The value of a variable in the output of `grub-editenv list`.
pub open spec fn listed(output: Seq<char>, key: Seq<char>) -> Option<Seq<char>> {
    listed_from(lines_of(output), key, 0)
}

/// The value of a variable in the output of `grub-editenv list`.
pub fn find_listed(output: &str, key: &str) -> (r: Option<String>)
    ensures
        r.deep_view() == listed(output@, key@),
{
    let ls = lines(output);
    let mut i: usize = 0;
    while i < ls.len()
        invariant
            i <= ls@.len(),
            ls.deep_view() == lines_of(output@),
            listed_from(lines_of(output@), key@, i as int) == listed(output@, key@),
        decreases ls.len() - i,
    {
        assert(ls.deep_view()[i as int] == ls@[i as int]@);
        match split_once(ls[i].as_str(), '=') {
            Some((k, v)) => {
                if same(k.as_str(), key) {
                    return Some(v);
                }
            },
            None => {},
        }
        i = i + 1;
    }
    None
}

/// GRUB boot environment implementation
///
/// Uses `grub-editenv` to read/write environment variables from the grubenv file.
pub struct GrubBootEnv;

/// The file on the boot volume with the fsck status of a partition other than boot.
pub open spec fn fsck_file_of(partition: PartitionName) -> Seq<char> {
    joined("/rootfs/boot"@, "fsck."@ + partition.text())
}

/// Constructs the fsck status file path for a non-boot partition on the boot volume.
pub fn fsck_file_path(partition: PartitionName) -> (r: String)
    ensures
        r@ == fsck_file_of(partition),
{
    join("/rootfs/boot", concat2("fsck.", partition.as_str()).as_str())
}

/// Opens the environment: the grubenv file must be there.
pub open spec fn opened(t: Transcript) -> (Transcript, EnvOutcome<()>) {
    let path = "/rootfs/boot/EFI/BOOT/grubenv"@;
    let t1 = t.ask(Request::IsFile(path));
    (
        t1,
        match t.next() {
            None => Err(Stop::Pending),
            Some(there) => if flag_of(there) {
                Ok(())
            } else {
                Err(Stop::Failed(BootEnvError::EnvFileNotFound { path }))
            },
        },
    )
}

/// Reads a variable.
pub open spec fn got(t: Transcript, key: BootEnvKey) -> (Transcript, EnvOutcome<Option<Seq<char>>>) {
    let t1 = t.ask(editenv_request(seq!["list"@]));
    (
        t1,
        match t.next() {
            None => Err(Stop::Pending),
            Some(reply) => match tool_output("/bin/grub-editenv"@, reply) {
                Ok(output) => Ok(listed(output, key.text())),
                Err(e) => Err(Stop::Failed(e)),
            },
        },
    )
}

/// The arguments of `grub-editenv` that write or delete a variable.
pub open spec fn edit_args(key: BootEnvKey, value: Option<Seq<char>>) -> Seq<Seq<char>> {
    match value {
        Some(v) => seq!["set"@, key.text() + "="@ + v],
        None => seq!["unset"@, key.text()],
    }
}

/// Flushes pending writes to disk, then ends well.
pub open spec fn synced(t: Transcript) -> (Transcript, EnvOutcome<()>) {
    (
        t.ask(Request::Sync),
        match t.next() {
            None => Err(Stop::Pending),
            Some(_) => Ok(()),
        },
    )
}

/// Writes or deletes a variable and flushes the write to disk.
pub open spec fn edited(t: Transcript, key: BootEnvKey, value: Option<Seq<char>>) -> (Transcript, EnvOutcome<()>) {
    let t1 = t.ask(editenv_request(edit_args(key, value)));
    match t.next() {
        None => (t1, Err(Stop::Pending)),
        Some(reply) => match tool_output("/bin/grub-editenv"@, reply) {
            Err(e) => (t1, Err(Stop::Failed(e))),
            Ok(_) => synced(t1),
        },
    }
}

/// The error of a file operation.
pub open spec fn file_failed(verb: Seq<char>, path: Seq<char>, reason: Seq<char>) -> BootEnvErrorView {
    BootEnvError::CommandFailed { command: verb + path, reason }
}

/// Writes the status file of a partition and flushes it to disk.
pub open spec fn filed(t: Transcript, partition: PartitionName, text: Seq<char>) -> (Transcript, EnvOutcome<()>) {
    let path = fsck_file_of(partition);
    let t1 = t.ask(Request::WriteText { path, text });
    match t.next() {
        None => (t1, Err(Stop::Pending)),
        Some(reply) => match done_of(reply) {
            Err(e) => (t1, Err(Stop::Failed(file_failed("write "@, path, e.text())))),
            Ok(_) => synced(t1),
        },
    }
}

/// Saves a fsck result: of the boot partition in grubenv, unless its filesystem asks for
/// a reboot; of another partition in a file on the boot volume.
pub open spec fn saved(t: Transcript, partition: PartitionName, code: FsckExitCode, output: Seq<char>) -> (
    Transcript,
    EnvOutcome<()>,
) {
    match encoded(t, code.0 as int, output) {
        (t1, None) => (t1, Err(Stop::Pending)),
        (t1, Some(text)) => if partition != PartitionName::Boot {
            filed(t1, partition, text)
        } else if code.wants_reboot() {
            (t1, Ok(()))
        } else {
            edited(t1, BootEnvKey::FsckStatus(PartitionName::Boot), Some(text))
        },
    }
}

/// A stored text as a fsck record.
pub open spec fn record_of(t: Transcript, text: Seq<char>) -> (
    Transcript,
    EnvOutcome<Option<(FsckExitCode, Seq<char>)>>,
) {
    match decoded(t, text) {
        (t1, None) => (t1, Err(Stop::Pending)),
        (t1, Some(None)) => (t1, Ok(None)),
        (t1, Some(Some((code, output)))) => (t1, Ok(Some((FsckExitCode(code as i32), output)))),
    }
}

/// Reads a fsck result back. A status file is removed once it has been read.
pub open spec fn recalled(t: Transcript, partition: PartitionName) -> (
    Transcript,
    EnvOutcome<Option<(FsckExitCode, Seq<char>)>>,
) {
    if partition == PartitionName::Boot {
        match got(t, BootEnvKey::FsckStatus(PartitionName::Boot)) {
            (t1, Err(e)) => (t1, Err(e)),
            (t1, Ok(None)) => (t1, Ok(None)),
            (t1, Ok(Some(text))) => record_of(t1, text),
        }
    } else {
        let path = fsck_file_of(partition);
        let t1 = t.ask(Request::IsFile(path));
        match t.next() {
            None => (t1, Err(Stop::Pending)),
            Some(there) => if !flag_of(there) {
                (t1, Ok(None))
            } else {
                let t2 = t1.ask(Request::ReadText(path));
                match t1.next() {
                    None => (t2, Err(Stop::Pending)),
                    Some(reply) => match text_of(reply) {
                        Err(e) => (t2, Err(Stop::Failed(file_failed("read "@, path, e.text())))),
                        Ok(text) => {
                            let t3 = t2.ask(Request::RemoveFile(path));
                            match t2.next() {
                                None => (t3, Err(Stop::Pending)),
                                Some(_) => record_of(t3, text),
                            }
                        },
                    },
                }
            },
        }
    }
}

/// Clears a fsck result.
pub open spec fn cleared(t: Transcript, partition: PartitionName) -> (Transcript, EnvOutcome<()>) {
    if partition == PartitionName::Boot {
        edited(t, BootEnvKey::FsckStatus(PartitionName::Boot), None)
    } else {
        let path = fsck_file_of(partition);
        let t1 = t.ask(Request::Exists(path));
        match t.next() {
            None => (t1, Err(Stop::Pending)),
            Some(there) => if !flag_of(there) {
                (t1, Ok(()))
            } else {
                let t2 = t1.ask(Request::RemoveFile(path));
                match t1.next() {
                    None => (t2, Err(Stop::Pending)),
                    Some(reply) => match done_of(reply) {
                        Err(e) => (t2, Err(Stop::Failed(file_failed("remove "@, path, e.text())))),
                        Ok(_) => synced(t2),
                    },
                }
            },
        }
    }
}

/// Flush pending writes to disk.
///
/// Some callers persist state and then reboot or halt; neither reboot(2) nor the
/// halt loop syncs, so an unflushed write would be lost exactly there.
fn sync_disk(sys: &mut Session) -> (r: Result<(), Stop<BootEnvError>>)
    ensures
        (final(sys)@, outcome(r)) == synced(old(sys)@),
{
    match sys.ask(Request::Sync) {
        None => Err(Stop::Pending),
        Some(_) => Ok(()),
    }
}

/// A stored text as a fsck record.
pub fn decode_record(text: &str, sys: &mut Session) -> (r: Result<Option<FsckRecord>, Stop<BootEnvError>>)
    ensures
        (final(sys)@, record_outcome(r)) == record_of(old(sys)@, text@),
{
    match decode_fsck_output(text, sys) {
        None => Err(Stop::Pending),
        Some(None) => Ok(None),
        Some(Some((code, output))) => Ok(Some(FsckRecord { exit_code: FsckExitCode(code), output })),
    }
}

impl GrubBootEnv {
    /// Create a new GRUB boot environment accessor.
    ///
    /// # Errors
    /// Returns an error if the grubenv file doesn't exist (indicates a corrupted
    /// boot partition, not a missing file on first boot).
    pub fn new(sys: &mut Session) -> (r: Result<Self, Stop<BootEnvError>>)
        ensures
            final(sys)@ == opened(old(sys)@).0,
            match r {
                Ok(_) => opened(old(sys)@).1 is Ok,
                Err(e) => opened(old(sys)@).1 == Err::<(), Stop<BootEnvErrorView>>(e@),
            },
    {
        match sys.query(Request::IsFile(String::from_str("/rootfs/boot/EFI/BOOT/grubenv"))) {
            None => Err(Stop::Pending),
            Some(true) => Ok(GrubBootEnv),
            Some(false) => Err(
                Stop::Failed(
                    BootEnvError::EnvFileNotFound {
                        path: String::from_str("/rootfs/boot/EFI/BOOT/grubenv"),
                    },
                ),
            ),
        }
    }
}

impl BootEnv for GrubBootEnv {
    type State = ();

    open spec fn state(&self) -> () {
        ()
    }

    open spec fn reads(t: Transcript, s: (), key: BootEnvKey) -> (Transcript, (), EnvRead) {
        let r = got(t, key);
        (r.0, s, r.1)
    }

    open spec fn writes(t: Transcript, s: (), key: BootEnvKey, value: Option<Seq<char>>) -> (Transcript, (), EnvDone) {
        let r = edited(t, key, value);
        (r.0, s, r.1)
    }

    open spec fn saves(t: Transcript, s: (), partition: PartitionName, code: FsckExitCode, output: Seq<char>) -> (
        Transcript,
        (),
        EnvDone,
    ) {
        let r = saved(t, partition, code, output);
        (r.0, s, r.1)
    }

    open spec fn recalls(t: Transcript, s: (), partition: PartitionName) -> (Transcript, (), EnvRecord) {
        let r = recalled(t, partition);
        (r.0, s, r.1)
    }

    open spec fn clears(t: Transcript, s: (), partition: PartitionName) -> (Transcript, (), EnvDone) {
        let r = cleared(t, partition);
        (r.0, s, r.1)
    }

    fn get_env(&mut self, key: BootEnvKey, sys: &mut Session) -> (r: EnvResult<Option<String>>) {
        let args = list2("/rootfs/boot/EFI/BOOT/grubenv", "list");
        assert(args.deep_view() =~= seq!["/rootfs/boot/EFI/BOOT/grubenv"@] + seq!["list"@]);
        match run_tool("/bin/grub-editenv", args, sys) {
            Err(e) => Err(e),
            Ok(output) => Ok(find_listed(output.as_str(), key.to_string().as_str())),
        }
    }

    fn set_env(&mut self, key: BootEnvKey, value: Option<&str>, sys: &mut Session) -> (r: EnvResult<()>) {
        let key_str = key.to_string();
        let args = match value {
            Some(v) => list3(
                "/rootfs/boot/EFI/BOOT/grubenv",
                "set",
                concat3(key_str.as_str(), "=", v).as_str(),
            ),
            None => list3("/rootfs/boot/EFI/BOOT/grubenv", "unset", key_str.as_str()),
        };
        assert(args.deep_view() =~= seq!["/rootfs/boot/EFI/BOOT/grubenv"@] + edit_args(key, opt_text(value)));
        match run_tool("/bin/grub-editenv", args, sys) {
            Err(e) => Err(e),
            // grub-editenv leaves the write in the page cache.
            Ok(_) => sync_disk(sys),
        }
    }

    fn save_fsck_status(&mut self, partition: PartitionName, code: FsckExitCode, output: &str, sys: &mut Session) -> (r:
        EnvResult<()>) {
        let encoded = match encode_fsck_output(code.bits(), output, sys) {
            None => {
                return Err(Stop::Pending);
            },
            Some(encoded) => encoded,
        };
        if partition == PartitionName::Boot {
            // When the boot partition's own fsck requests a reboot, writing to
            // grubenv is unreliable — the filesystem is in an inconsistent state.
            // Skip; a clean check runs on next boot.
            if code.is_reboot_required() {
                return Ok(());
            }
            return self.set_env(BootEnvKey::FsckStatus(PartitionName::Boot), Some(encoded.as_str()), sys);
        }
        // Non-boot partitions: write diagnostic to a file on the boot partition
        // instead of grubenv. grubenv is a small, fixed-size block — storing multiple
        // large encoded blobs there would overflow it. Boot is healthy at this point
        // (its own fsck ran first), so this write is safe regardless of this
        // partition's exit code.
        let path = fsck_file_path(partition);
        match sys.perform(Request::WriteText { path: path.clone(), text: encoded }) {
            None => Err(Stop::Pending),
            Some(Err(e)) => Err(
                Stop::Failed(
                    BootEnvError::CommandFailed {
                        command: concat2("write ", path.as_str()),
                        reason: e.to_string(),
                    },
                ),
            ),
            Some(Ok(())) => sync_disk(sys),
        }
    }

    fn get_fsck_status(&mut self, partition: PartitionName, sys: &mut Session) -> (r: EnvResult<Option<FsckRecord>>) {
        if partition == PartitionName::Boot {
            return match self.get_env(BootEnvKey::FsckStatus(PartitionName::Boot), sys) {
                Err(e) => Err(e),
                Ok(None) => Ok(None),
                Ok(Some(text)) => decode_record(text.as_str(), sys),
            };
        }
        let path = fsck_file_path(partition);
        match sys.query(Request::IsFile(path.clone())) {
            None => {
                return Err(Stop::Pending);
            },
            Some(false) => {
                return Ok(None);
            },
            Some(true) => {},
        }
        let text = match sys.fetch(Request::ReadText(path.clone())) {
            None => {
                return Err(Stop::Pending);
            },
            Some(Err(e)) => {
                return Err(
                    Stop::Failed(
                        BootEnvError::CommandFailed {
                            command: concat2("read ", path.as_str()),
                            reason: e.to_string(),
                        },
                    ),
                );
            },
            Some(Ok(text)) => text,
        };
        // Remove file after reading; each fsck result is consumed once.
        match sys.ask(Request::RemoveFile(path)) {
            None => Err(Stop::Pending),
            Some(_) => decode_record(text.as_str(), sys),
        }
    }

    fn clear_fsck_status(&mut self, partition: PartitionName, sys: &mut Session) -> (r: EnvResult<()>) {
        if partition == PartitionName::Boot {
            return self.set_env(BootEnvKey::FsckStatus(PartitionName::Boot), None, sys);
        }
        let path = fsck_file_path(partition);
        match sys.query(Request::Exists(path.clone())) {
            None => {
                return Err(Stop::Pending);
            },
            Some(false) => {
                return Ok(());
            },
            Some(true) => {},
        }
        match sys.perform(Request::RemoveFile(path.clone())) {
            None => Err(Stop::Pending),
            Some(Err(e)) => Err(
                Stop::Failed(
                    BootEnvError::CommandFailed {
                        command: concat2("remove ", path.as_str()),
                        reason: e.to_string(),
                    },
                ),
            ),
            Some(Ok(())) => sync_disk(sys),
        }
    }
}

/// The grubenv file is left alone where the boot partition's own check asks for a
/// reboot: nothing but the two encoding filters is asked for.
pub proof fn law_no_grubenv_write_before_reboot(t: Transcript, code: FsckExitCode, output: Seq<char>)
    requires
        code.wants_reboot(),
    ensures
        saved(t, PartitionName::Boot, code, output).0 == encoded(t, code.0 as int, output).0,
        !(saved(t, PartitionName::Boot, code, output).1 matches Err(Stop::Failed(_))),
{
}

} // verus!
