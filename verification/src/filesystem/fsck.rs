//! Filesystem check (fsck) operations
//!
//! Runs fsck on partitions before mounting and handles exit codes appropriately.

use vstd::prelude::*;
use vstd::string::*;

use crate::error::{concat2, concat4, FilesystemError};
use crate::filesystem::mount::{FsErrorView, FsOutcome, FsType};
use crate::filesystem::FsckExitCode;
use crate::logging::kmsg::{disable_kmsg_ratelimit, lifted, restored};
use crate::system::{
    outcome, output_of, warned, IoErrorView, OutputView, Request, RequestView, Session, Stop, Transcript,
};
use crate::text::list4;

verus! {

/// Result of a filesystem check.
#[derive(Debug, Clone)]
pub struct FsckResult<S = String> {
    /// Device that was checked.
    pub device: S,
    /// Parsed exit code. Use predicate methods (`is_mount_safe`, `is_reboot_required`, …).
    pub exit_code: FsckExitCode,
    /// Combined stdout + stderr output from fsck.
    pub output: S,
}

/// The result of a filesystem check by view.
pub type FsckResultView = FsckResult<Seq<char>>;

impl View for FsckResult {
    type V = FsckResultView;

    open spec fn view(&self) -> FsckResultView {
        FsckResult { device: self.device@, exit_code: self.exit_code, output: self.output@ }
    }
}

impl FsckResult {
    /// Returns `true` if uncorrected filesystem errors remain.
    pub fn has_uncorrected_errors(&self) -> (r: bool)
        ensures
            r == (self.exit_code.0 & 4 != 0),
    {
        self.exit_code.has_uncorrected_errors()
    }

    /// Returns `true` if fsck encountered an operational (tool-level) error.
    pub fn has_operational_error(&self) -> (r: bool)
        ensures
            r == (self.exit_code.0 & 8 != 0),
    {
        self.exit_code.has_operational_error()
    }
}

/// The request that checks a filesystem. It always passes -y (auto-repair), since it runs
/// unattended, and names the type, so that the wrapper needs no probing.
pub open spec fn fsck_request(device: Seq<char>, fstype: FsType) -> RequestView {
    Request::Run { program: "/sbin/fsck"@, args: seq!["-y"@, "-t"@, fstype.text(), device] }
}

/// What a run of fsck says about a device.
pub open spec fn verdict(device: Seq<char>, ran: Result<OutputView, IoErrorView>) -> Result<
    FsckResultView,
    FsErrorView,
> {
    match ran {
        Err(e) => Err(
            FilesystemError::FsckFailed {
                device,
                code: FsckExitCode(FsckExitCode::UNKNOWN),
                output: "Failed to execute fsck: "@ + e.text(),
            },
        ),
        Ok(out) => {
            let code = FsckExitCode::of_status(out.code);
            let output = out.stdout + out.stderr;
            if code.wants_reboot() {
                Err(FilesystemError::FsckRequiresReboot { device, code, output })
            } else if code.mount_safe() {
                Ok(FsckResult { device, exit_code: code, output })
            } else {
                Err(FilesystemError::FsckFailed { device, code, output })
            }
        },
    }
}

/// Tolerates every failure but one that asks for a reboot.
pub open spec fn lenient(result: Result<FsckResultView, FsErrorView>) -> Result<FsckResultView, FsErrorView> {
    match result {
        Err(FilesystemError::FsckFailed { device, code, output }) => Ok(
            FsckResult { device, exit_code: code, output },
        ),
        other => other,
    }
}

/// Runs fsck on a device with the kernel's rate limits lifted.
pub open spec fn fsck_ran(t: Transcript, device: Seq<char>, fstype: FsType) -> (
    Transcript,
    Option<Result<OutputView, IoErrorView>>,
) {
    match lifted(t) {
        (t1, None) => (t1, None),
        (t1, Some(saved)) => {
            let t2 = t1.ask(fsck_request(device, fstype));
            match t1.next() {
                None => (t2, None),
                Some(reply) => match restored(t2, saved) {
                    (t3, None) => (t3, None),
                    (t3, Some(_)) => (t3, Some(output_of(reply))),
                },
            }
        },
    }
}

/// A verdict as the outcome of a procedure.
pub open spec fn settled<T, E>(r: Result<T, E>) -> Result<T, Stop<E>> {
    match r {
        Ok(x) => Ok(x),
        Err(e) => Err(Stop::Failed(e)),
    }
}

/// Checks a filesystem.
pub open spec fn checked(t: Transcript, device: Seq<char>, fstype: FsType) -> (
    Transcript,
    FsOutcome<FsckResultView>,
) {
    match fsck_ran(t, device, fstype) {
        (t1, None) => (t1, Err(Stop::Pending)),
        (t1, Some(ran)) => (t1, settled(verdict(device, ran))),
    }
}

/// The warning about errors that are passed over.
pub open spec fn fsck_warning(device: Seq<char>, code: FsckExitCode) -> Seq<char> {
    "fsck on "@ + device + " had errors ("@ + code.text() + "), continuing anyway"@
}

/// Checks a filesystem, tolerating what needs no reboot; errors that are passed over are warned
/// about.
pub open spec fn checked_leniently(t: Transcript, device: Seq<char>, fstype: FsType) -> (
    Transcript,
    FsOutcome<FsckResultView>,
) {
    match fsck_ran(t, device, fstype) {
        (t1, None) => (t1, Err(Stop::Pending)),
        (t1, Some(ran)) => {
            let result = settled(lenient(verdict(device, ran)));
            match verdict(device, ran) {
                Err(FilesystemError::FsckFailed { code, .. }) => match warned(t1, fsck_warning(device, code)) {
                    (t2, None) => (t2, Err(Stop::Pending)),
                    (t2, Some(_)) => (t2, result),
                },
                _ => (t1, result),
            }
        },
    }
}

/// Run fsck on a device
///
/// # Returns
/// * `Ok(FsckResult)` - Result of the check (including exit code 1: errors corrected, safe to mount)
/// * `Err(FilesystemError::FsckRequiresReboot)` - If fsck requests a reboot
/// * `Err(FilesystemError::FsckFailed)` - If check failed with uncorrectable errors
pub fn check_filesystem(device: &str, fstype: FsType, sys: &mut Session) -> (r: Result<
    FsckResult,
    Stop<FilesystemError>,
>)
    ensures
        (final(sys)@, outcome(r)) == checked(old(sys)@, device@, fstype),
{
    // Disable kernel message rate limiting during fsck; the guard restores it.
    let guard = match disable_kmsg_ratelimit(sys) {
        None => {
            return Err(Stop::Pending);
        },
        Some(guard) => guard,
    };
    let args = list4("-y", "-t", fstype.as_str(), device);
    let ran = match sys.run(Request::Run { program: String::from_str("/sbin/fsck"), args }) {
        None => {
            return Err(Stop::Pending);
        },
        Some(ran) => ran,
    };
    match guard.restore(sys) {
        None => {
            return Err(Stop::Pending);
        },
        Some(()) => {},
    }
    let out = match ran {
        Err(e) => {
            return Err(
                Stop::Failed(
                    FilesystemError::FsckFailed {
                        device: device.to_owned(),
                        code: FsckExitCode(FsckExitCode::UNKNOWN),
                        output: concat2("Failed to execute fsck: ", e.to_string().as_str()),
                    },
                ),
            );
        },
        Ok(out) => out,
    };
    let exit_code = FsckExitCode::from(out.code);
    let combined_output = concat2(out.stdout.as_str(), out.stderr.as_str());
    if exit_code.is_reboot_required() {
        return Err(
            Stop::Failed(
                FilesystemError::FsckRequiresReboot {
                    device: device.to_owned(),
                    code: exit_code,
                    output: combined_output,
                },
            ),
        );
    }
    if !exit_code.is_mount_safe() {
        return Err(
            Stop::Failed(
                FilesystemError::FsckFailed {
                    device: device.to_owned(),
                    code: exit_code,
                    output: combined_output,
                },
            ),
        );
    }
    Ok(FsckResult { device: device.to_owned(), exit_code, output: combined_output })
}

/// Run fsck on a device, tolerating non-critical errors.
///
/// Returns `Ok` even if fsck reports correctable errors, unless a reboot is required.
/// Useful for partitions where errors should be logged but boot should continue.
pub fn check_filesystem_lenient(device: &str, fstype: FsType, sys: &mut Session) -> (r: Result<
    FsckResult,
    Stop<FilesystemError>,
>)
    ensures
        (final(sys)@, outcome(r)) == checked_leniently(old(sys)@, device@, fstype),
{
    match check_filesystem(device, fstype, sys) {
        Ok(result) => Ok(result),
        Err(Stop::Failed(FilesystemError::FsckFailed { device, code, output })) => {
            let mut warning = concat4("fsck on ", device.as_str(), " had errors (", code.to_string().as_str());
            warning = concat2(warning.as_str(), "), continuing anyway");
            if sys.warn(warning.as_str()).is_none() {
                return Err(Stop::Pending);
            }
            Ok(FsckResult { device, exit_code: code, output })
        },
        Err(e) => Err(e),
    }
}

/// A lenient check never fails for anything but a reboot, and never passes over one
/// that fsck asked for.
pub proof fn law_lenient_fails_only_for_reboot(device: Seq<char>, ran: Result<OutputView, IoErrorView>)
    ensures
        lenient(verdict(device, ran)) matches Err(e) ==> e is FsckRequiresReboot,
        lenient(verdict(device, ran)) is Err <==> (ran is Ok && FsckExitCode::of_status(
            ran->Ok_0.code,
        ).wants_reboot()),
{
}

} // verus!
