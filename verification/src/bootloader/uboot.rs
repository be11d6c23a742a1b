//! U-Boot bootloader implementation
//!
//! This module provides access to U-Boot bootloader environment variables
//! using `fw_printenv` and `fw_setenv` commands.

use vstd::prelude::*;
use vstd::string::*;

use crate::bootloader::grub::{decode_record, record_of};
use crate::bootloader::types::{encode_fsck_output, encoded};
use crate::bootloader::{
    opt_text, BootEnv, BootEnvErrorView, BootEnvKey, EnvDone, EnvOutcome, EnvRead, EnvRecord, EnvResult, FsckRecord,
};
use crate::error::BootEnvError;
use crate::filesystem::FsckExitCode;
use crate::partition::PartitionName;
use crate::system::{outcome, output_of, ReplyView, Request, RequestView, Session, Stop, Transcript};
use crate::text::{list1, list2, trim, trim_of};

verus! {

/// The request that reads a variable.
pub open spec fn printenv_request(key: BootEnvKey) -> RequestView {
    Request::Run { program: "/bin/fw_printenv"@, args: seq!["-n"@, key.text()] }
}

/// The request that writes or deletes a variable.
pub open spec fn setenv_request(key: BootEnvKey, value: Option<Seq<char>>) -> RequestView {
    Request::Run {
        program: "/bin/fw_setenv"@,
        args: match value {
            Some(v) => seq![key.text(), v],
            None => seq![key.text()],
        },
    }
}

/// What `fw_printenv` says: exit code 1 means that the variable is not set, and so does
/// an empty value.
pub open spec fn printed(reply: ReplyView) -> Result<Option<Seq<char>>, BootEnvErrorView> {
    match output_of(reply) {
        Err(e) => Err(BootEnvError::CommandFailed { command: "/bin/fw_printenv"@, reason: e.text() }),
        Ok(out) => if out.code == Some(0i32) {
            let value = trim_of(out.stdout);
            if value.len() == 0 {
                Ok(None)
            } else {
                Ok(Some(value))
            }
        } else if out.code == Some(1i32) {
            Ok(None)
        } else {
            Err(
                BootEnvError::CommandExitCode {
                    command: "/bin/fw_printenv"@,
                    code: out.code,
                    stderr: out.stderr,
                },
            )
        },
    }
}

/// Reads a variable.
pub open spec fn got(t: Transcript, key: BootEnvKey) -> (Transcript, EnvOutcome<Option<Seq<char>>>) {
    (
        t.ask(printenv_request(key)),
        match t.next() {
            None => Err(Stop::Pending),
            Some(reply) => match printed(reply) {
                Ok(v) => Ok(v),
                Err(e) => Err(Stop::Failed(e)),
            },
        },
    )
}

/// Writes or deletes a variable.
pub open spec fn put(t: Transcript, key: BootEnvKey, value: Option<Seq<char>>) -> (Transcript, EnvOutcome<()>) {
    (
        t.ask(setenv_request(key, value)),
        match t.next() {
            None => Err(Stop::Pending),
            Some(reply) => match crate::bootloader::grub::tool_output("/bin/fw_setenv"@, reply) {
                Ok(_) => Ok(()),
                Err(e) => Err(Stop::Failed(e)),
            },
        },
    )
}

/// Saves a fsck result.
pub open spec fn saved(t: Transcript, partition: PartitionName, code: FsckExitCode, output: Seq<char>) -> (
    Transcript,
    EnvOutcome<()>,
) {
    match encoded(t, code.0 as int, output) {
        (t1, None) => (t1, Err(Stop::Pending)),
        (t1, Some(text)) => put(t1, BootEnvKey::FsckStatus(partition), Some(text)),
    }
}

/// Reads a fsck result back.
pub open spec fn recalled(t: Transcript, partition: PartitionName) -> (
    Transcript,
    EnvOutcome<Option<(FsckExitCode, Seq<char>)>>,
) {
    match got(t, BootEnvKey::FsckStatus(partition)) {
        (t1, Err(e)) => (t1, Err(e)),
        (t1, Ok(None)) => (t1, Ok(None)),
        (t1, Ok(Some(text))) => record_of(t1, text),
    }
}

/// The name that the rest of the crate uses for [`UBootBootloader`].
pub type UBootBootEnv = UBootBootloader;

/// U-Boot bootloader implementation
///
/// Uses `fw_printenv` and `fw_setenv` to access environment variables.
/// Fsck status is stored as gzip+base64 encoded `"exit_code\noutput"` string
/// via busybox subprocess commands to survive the reboot required after fsck.
pub struct UBootBootloader {}

impl UBootBootloader {
    /// Create a new U-Boot bootloader instance.
    ///
    /// Returns a `Result` for symmetry with `GrubBootEnv::new()`,
    /// even though this constructor cannot fail.
    pub fn new() -> (r: Result<Self, BootEnvError>)
        ensures
            r is Ok,
    {
        Ok(UBootBootloader {  })
    }
}

impl BootEnv for UBootBootloader {
    type State = ();

    open spec fn state(&self) -> () {
        ()
    }

    open spec fn reads(t: Transcript, s: (), key: BootEnvKey) -> (Transcript, (), EnvRead) {
        let r = got(t, key);
        (r.0, s, r.1)
    }

    open spec fn writes(t: Transcript, s: (), key: BootEnvKey, value: Option<Seq<char>>) -> (Transcript, (), EnvDone) {
        let r = put(t, key, value);
        (r.0, s, r.1)
    }

    open spec fn saves(t: Transcript, s: (), partition: PartitionName, code: FsckExitCode, output: Seq<char>) -> (
        Transcript,
        (),
        EnvDone,
    ) {
        let r = saved(t, partition, code, output);
        (r.0, s, r.1)
    }

    open spec fn recalls(t: Transcript, s: (), partition: PartitionName) -> (Transcript, (), EnvRecord) {
        let r = recalled(t, partition);
        (r.0, s, r.1)
    }

    open spec fn clears(t: Transcript, s: (), partition: PartitionName) -> (Transcript, (), EnvDone) {
        let r = put(t, BootEnvKey::FsckStatus(partition), None);
        (r.0, s, r.1)
    }

    /// Run fw_printenv to get a variable
    fn get_env(&mut self, key: BootEnvKey, sys: &mut Session) -> (r: EnvResult<Option<String>>) {
        let args = list2("-n", key.to_string().as_str());
        let out = match sys.run(Request::Run { program: String::from_str("/bin/fw_printenv"), args }) {
            None => {
                return Err(Stop::Pending);
            },
            Some(Err(e)) => {
                return Err(
                    Stop::Failed(
                        BootEnvError::CommandFailed {
                            command: String::from_str("/bin/fw_printenv"),
                            reason: e.to_string(),
                        },
                    ),
                );
            },
            Some(Ok(out)) => out,
        };
        // Match on exit code directly so every case is explicit.
        // Exit code 1 means "variable not set" — a normal condition in U-Boot env.
        // None means the process was killed by a signal.
        match out.code {
            Some(0) => {},
            Some(1) => {
                return Ok(None);
            },
            code => {
                return Err(
                    Stop::Failed(
                        BootEnvError::CommandExitCode {
                            command: String::from_str("/bin/fw_printenv"),
                            code,
                            stderr: out.stderr,
                        },
                    ),
                );
            },
        }
        let value = trim(out.stdout.as_str());
        if value.as_str().is_empty() {
            Ok(None)
        } else {
            Ok(Some(value))
        }
    }

    /// Run fw_setenv to set or unset a variable
    fn set_env(&mut self, key: BootEnvKey, value: Option<&str>, sys: &mut Session) -> (r: EnvResult<()>) {
        let key_str = key.to_string();
        let args = match value {
            Some(v) => list2(key_str.as_str(), v),
            None => list1(key_str.as_str()),
        };
        let ghost request = setenv_request(key, opt_text(value));
        assert(request->Run_args =~= args.deep_view());
        let ghost before = sys@;
        let r = match crate::bootloader::grub::run_tool("/bin/fw_setenv", args, sys) {
            Ok(_) => Ok(()),
            Err(e) => Err(e),
        };
        assert(Self::writes(before, (), key, opt_text(value)) == (before.ask(request), (), outcome(r)));
        r
    }

    fn save_fsck_status(&mut self, partition: PartitionName, code: FsckExitCode, output: &str, sys: &mut Session) -> (r:
        EnvResult<()>) {
        match encode_fsck_output(code.bits(), output, sys) {
            None => Err(Stop::Pending),
            Some(encoded) => self.set_env(BootEnvKey::FsckStatus(partition), Some(encoded.as_str()), sys),
        }
    }

    fn get_fsck_status(&mut self, partition: PartitionName, sys: &mut Session) -> (r: EnvResult<Option<FsckRecord>>) {
        match self.get_env(BootEnvKey::FsckStatus(partition), sys) {
            Err(e) => Err(e),
            Ok(None) => Ok(None),
            Ok(Some(text)) => decode_record(text.as_str(), sys),
        }
    }

    fn clear_fsck_status(&mut self, partition: PartitionName, sys: &mut Session) -> (r: EnvResult<()>) {
        self.set_env(BootEnvKey::FsckStatus(partition), None, sys)
    }
}

} // verus!
