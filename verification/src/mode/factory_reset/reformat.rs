//! Reformatting of a partition

use vstd::prelude::*;
use vstd::string::*;

use crate::error::{concat2, concat4, FactoryResetError, InitErrorView, InitOutcome, InitramfsError};
use crate::system::{outcome, output_of, ReplyView, Request, Session, Stop, Transcript};
use crate::text::{list3, list7};

verus! {

pub const MKFS_EXT4_CMD: &'static str = "/sbin/mkfs.ext4";

pub const TUNE2FS_CMD: &'static str = "/sbin/tune2fs";

pub const MKFS_FORCE_FLAG: &'static str = "-F";

pub const MKFS_QUIET_FLAG: &'static str = "-q";

pub const TUNE2FS_MAX_MOUNT_COUNT_FLAG: &'static str = "-c";

pub const TUNE2FS_CHECK_INTERVAL_FLAG: &'static str = "-i";

pub const TUNE2FS_LABEL_FLAG: &'static str = "-L";

pub const TUNE2FS_NO_LIMIT: &'static str = "-1";

pub const TUNE2FS_ZERO_INTERVAL: &'static str = "0";

/// What a run of a tool says about a device. `name` is the tool in an error.
pub open spec fn tool_verdict(device: Seq<char>, name: Seq<char>, reply: ReplyView) -> Result<(), InitErrorView> {
    match output_of(reply) {
        Err(e) => Err(
            InitramfsError::FactoryReset(
                FactoryResetError::ReformatFailed {
                    device,
                    reason: "Failed to run "@ + name + ": "@ + e.text(),
                },
            ),
        ),
        Ok(out) => if out.succeeded() {
            Ok(())
        } else {
            Err(
                InitramfsError::FactoryReset(
                    FactoryResetError::ReformatFailed {
                        device,
                        reason: name + " failed ("@ + out.status + ("): "@ + out.stderr),
                    },
                ),
            )
        },
    }
}

/// Runs a tool on a device.
pub open spec fn tool_ran(t: Transcript, device: Seq<char>, program: Seq<char>, name: Seq<char>, args: Seq<Seq<char>>) -> (
    Transcript,
    InitOutcome<()>,
) {
    (
        t.ask(Request::Run { program, args }),
        match t.next() {
            None => Err(Stop::Pending),
            Some(reply) => match tool_verdict(device, name, reply) {
                Ok(_) => Ok(()),
                Err(e) => Err(Stop::Failed(e)),
            },
        },
    )
}

fn run_tool(device: &str, program: &str, name: &str, args: Vec<String>, sys: &mut Session) -> (r: Result<
    (),
    Stop<InitramfsError>,
>)
    ensures
        (final(sys)@, outcome(r)) == tool_ran(old(sys)@, device@, program@, name@, args.deep_view()),
{
    match sys.run(Request::Run { program: program.to_owned(), args }) {
        None => Err(Stop::Pending),
        Some(Err(e)) => Err(
            Stop::Failed(
                InitramfsError::FactoryReset(
                    FactoryResetError::ReformatFailed {
                        device: device.to_owned(),
                        reason: concat4("Failed to run ", name, ": ", e.to_string().as_str()),
                    },
                ),
            ),
        ),
        Some(Ok(out)) => {
            if out.success() {
                return Ok(());
            }
            Err(
                Stop::Failed(
                    InitramfsError::FactoryReset(
                        FactoryResetError::ReformatFailed {
                            device: device.to_owned(),
                            reason: concat4(
                                name,
                                " failed (",
                                out.status.as_str(),
                                concat2("): ", out.stderr.as_str()).as_str(),
                            ),
                        },
                    ),
                ),
            )
        },
    }
}

/// Reformats a partition, then tunes it.
pub open spec fn reformatted(t: Transcript, device: Seq<char>, label: Seq<char>) -> (Transcript, InitOutcome<()>) {
    match tool_ran(
        t,
        device,
        MKFS_EXT4_CMD@,
        "mkfs.ext4"@,
        seq![MKFS_FORCE_FLAG@, MKFS_QUIET_FLAG@, device],
    ) {
        (t1, Err(e)) => (t1, Err(e)),
        (t1, Ok(_)) => tool_ran(
            t1,
            device,
            TUNE2FS_CMD@,
            "tune2fs"@,
            seq![
                device,
                TUNE2FS_MAX_MOUNT_COUNT_FLAG@,
                TUNE2FS_NO_LIMIT@,
                TUNE2FS_CHECK_INTERVAL_FLAG@,
                TUNE2FS_ZERO_INTERVAL@,
                TUNE2FS_LABEL_FLAG@,
                label,
            ],
        ),
    }
}

/// Reformat a partition as ext4 and apply omnect tunables.
///
/// Equivalent to:
/// ```sh
/// mkfs.ext4 -F -q <device>
/// tune2fs <device> -c -1 -i 0 -L <label>
/// ```
pub fn reformat_ext4(device: &str, label: &str, sys: &mut Session) -> (r: Result<(), Stop<InitramfsError>>)
    ensures
        (final(sys)@, outcome(r)) == reformatted(old(sys)@, device@, label@),
{
    match run_tool(
        device,
        MKFS_EXT4_CMD,
        "mkfs.ext4",
        list3(MKFS_FORCE_FLAG, MKFS_QUIET_FLAG, device),
        sys,
    ) {
        Err(e) => {
            return Err(e);
        },
        Ok(()) => {},
    }
    run_tool(
        device,
        TUNE2FS_CMD,
        "tune2fs",
        list7(
            device,
            TUNE2FS_MAX_MOUNT_COUNT_FLAG,
            TUNE2FS_NO_LIMIT,
            TUNE2FS_CHECK_INTERVAL_FLAG,
            TUNE2FS_ZERO_INTERVAL,
            TUNE2FS_LABEL_FLAG,
            label,
        ),
        sys,
    )
}

} // verus!
