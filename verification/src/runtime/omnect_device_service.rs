//! omnect-device-service integration
//!
//! Creates runtime files that omnect-device-service reads at startup.

use vstd::prelude::*;
use vstd::string::*;

use crate::bootloader::{BootEnv, BootEnvErrorView, BootEnvKey};
use crate::error::{
    concat2, concat3, concat4, io_failed, io_step, or_pending, perform_io, step_of, InitErrorView, InitOutcome,
    InitramfsError, IoError,
};
use crate::json::{pretty_of, print};
use crate::path::{join, joined};
use crate::runtime::status::{ods_json, OdsStatus, OdsView};
use crate::system::{outcome, text_of, warned, Request, Session, Stop, Transcript};
use crate::text::{lines, lines_of, parse_u32, parse_u32_of, same, split, split_of};

verus! {

/// Directory for ODS runtime files.
/// Written to the initramfs /run tmpfs; switch_root moves /run into the new
/// root via MS_MOVE, so these files appear at the same path after boot.
pub const ODS_RUNTIME_DIR: &'static str = "/run/omnect-device-service";

/// Main status file name
pub const ODS_STATUS_FILE: &'static str = "omnect-os-initramfs.json";

/// Update validation trigger file
pub const UPDATE_VALIDATE_FILE: &'static str = "omnect_validate_update";

/// Failed update validation marker
pub const UPDATE_VALIDATE_FAILED_FILE: &'static str = "omnect_validate_update_failed";

/// BootEnv updated marker
pub const BOOTLOADER_UPDATED_FILE: &'static str = "omnect_bootloader_updated";

/// Name of the omnect-device-service user and group in the rootfs
pub const ODS_USER: &'static str = "omnect_device_service";

pub const ODS_GROUP: &'static str = "omnect_device_service";

/// File and directory permission modes for ODS runtime files.
#[derive(Debug, Clone, Copy, PartialEq, Eq, Structural)]
pub enum FilePermission {
    /// `rwxrwxr-x` (0o775) — readable and executable by all, writable by owner and group
    DirStandard,
    /// `rw-------` (0o600) — readable and writable only by owner (ODS)
    FileRestricted,
    /// `rw-r--r--` (0o644) — readable by all, writable only by owner (ODS)
    FileReadable,
}

impl FilePermission {
    pub open spec fn mode(self) -> u32 {
        match self {
            FilePermission::DirStandard => 0o775,
            FilePermission::FileRestricted => 0o600,
            FilePermission::FileReadable => 0o644,
        }
    }

    pub fn bits(self) -> (r: u32)
        ensures
            r == self.mode(),
    {
        match self {
            FilePermission::DirStandard => 0o775,
            FilePermission::FileRestricted => 0o600,
            FilePermission::FileReadable => 0o644,
        }
    }
}

/// BootEnv env value meaning the flag is set / requested
pub const BOOTLOADER_FLAG_SET: &'static str = "1";

/// BootEnv env value meaning update validation previously failed
pub const VALIDATE_UPDATE_FAILED_VALUE: &'static str = "failed";

/// Parsed value of the `omnect_validate_update` bootloader env variable.
#[derive(Debug, Clone, Copy, PartialEq, Eq, Structural)]
pub enum ValidateUpdateState {
    /// Value `"1"` — update validation was requested before this boot.
    Requested,
    /// Value `"failed"` — the previous update validation failed.
    Failed,
    /// Any other value — no action required.
    Other,
}

impl ValidateUpdateState {
    /// What a value of the variable says.
    pub open spec fn said_by(value: Seq<char>) -> Self {
        if value == "1"@ {
            ValidateUpdateState::Requested
        } else if value == "failed"@ {
            ValidateUpdateState::Failed
        } else {
            ValidateUpdateState::Other
        }
    }

    pub open spec fn text(self) -> Seq<char> {
        match self {
            ValidateUpdateState::Requested => "requested"@,
            ValidateUpdateState::Failed => "failed"@,
            ValidateUpdateState::Other => "other"@,
        }
    }

    pub fn to_string(&self) -> (s: String)
        ensures
            s@ == self.text(),
    {
        match self {
            ValidateUpdateState::Requested => String::from_str("requested"),
            ValidateUpdateState::Failed => String::from_str("failed"),
            ValidateUpdateState::Other => String::from_str("other"),
        }
    }

    /// The name of the file that tells ODS about the state, if there is one.
    pub open spec fn marker(self) -> Option<Seq<char>> {
        match self {
            ValidateUpdateState::Requested => Some(UPDATE_VALIDATE_FILE@),
            ValidateUpdateState::Failed => Some(UPDATE_VALIDATE_FAILED_FILE@),
            ValidateUpdateState::Other => None,
        }
    }
}

impl From<&str> for ValidateUpdateState {
    fn from(s: &str) -> (r: Self) {
        if same(s, BOOTLOADER_FLAG_SET) {
            ValidateUpdateState::Requested
        } else if same(s, VALIDATE_UPDATE_FAILED_VALUE) {
            ValidateUpdateState::Failed
        } else {
            ValidateUpdateState::Other
        }
    }
}

impl vstd::std_specs::convert::FromSpecImpl<&str> for ValidateUpdateState {
    open spec fn obeys_from_spec() -> bool {
        true
    }

    open spec fn from_spec(s: &str) -> Self {
        ValidateUpdateState::said_by(s@)
    }
}

/// The third field of the first line from position `i` on that has one and whose first
/// field is `name`.
pub open spec fn id_from(ls: Seq<Seq<char>>, name: Seq<char>, i: int) -> Option<Seq<char>>
    decreases ls.len() - i,
{
    if i < 0 || i >= ls.len() {
        None
    } else {
        let fields = split_of(ls[i], ':');
        if fields[0] == name && fields.len() > 2 {
            Some(fields[2])
        } else {
            id_from(ls, name, i + 1)
        }
    }
}

/// The number that a file in the format of /etc/passwd or /etc/group gives for `name`.
/// `kind` and `id` say in an error what is looked up.
pub open spec fn id_in(content: Seq<char>, name: Seq<char>, kind: Seq<char>, id: Seq<char>, path: Seq<char>) -> Result<
    u32,
    InitErrorView,
> {
    match id_from(lines_of(content), name, 0) {
        None => Err(io_failed(kind + " "@ + name + (" not found in "@ + path))),
        Some(field) => match parse_u32_of(field) {
            Ok(n) => Ok(n as u32),
            Err(fault) => Err(io_failed("Invalid "@ + id + " for "@ + name + (": "@ + fault.text()))),
        },
    }
}

/// Looks up the number for `name` in a file of the rootfs.
pub open spec fn looked_up(
    t: Transcript,
    rootfs: Seq<char>,
    file: Seq<char>,
    name: Seq<char>,
    kind: Seq<char>,
    id: Seq<char>,
) -> (Transcript, InitOutcome<u32>) {
    let path = joined(rootfs, file);
    (
        t.ask(Request::ReadText(path)),
        match t.next() {
            None => Err(Stop::Pending),
            Some(reply) => match text_of(reply) {
                Err(e) => Err(Stop::Failed(io_failed("Failed to read "@ + path + ": "@ + e.text()))),
                Ok(content) => match id_in(content, name, kind, id, path) {
                    Ok(n) => Ok(n),
                    Err(e) => Err(Stop::Failed(e)),
                },
            },
        },
    )
}

/// The field of the first line that gives a number for `name`.
fn find_id(content: &str, name: &str) -> (r: Option<String>)
    ensures
        r.deep_view() == id_from(lines_of(content@), name@, 0),
{
    let ls = lines(content);
    let mut i: usize = 0;
    while i < ls.len()
        invariant
            i <= ls@.len(),
            ls.deep_view() == lines_of(content@),
            id_from(lines_of(content@), name@, i as int) == id_from(lines_of(content@), name@, 0),
        decreases ls.len() - i,
    {
        assert(lines_of(content@)[i as int] == ls@[i as int]@);
        let fields = split(ls[i].as_str(), ':');
        assert(fields.deep_view() == split_of(ls@[i as int]@, ':'));
        assert(fields.deep_view()[0] == fields@[0]@);
        if same(fields[0].as_str(), name) && fields.len() > 2 {
            assert(fields.deep_view()[2] == fields@[2]@);
            return Some(fields[2].clone());
        }
        i = i + 1;
    }
    None
}

fn lookup_id(rootfs_dir: &str, file: &str, name: &str, kind: &str, id: &str, sys: &mut Session) -> (r: Result<
    u32,
    Stop<InitramfsError>,
>)
    ensures
        (final(sys)@, outcome(r)) == looked_up(old(sys)@, rootfs_dir@, file@, name@, kind@, id@),
{
    let path = join(rootfs_dir, file);
    match sys.fetch(Request::ReadText(path.clone())) {
        None => Err(Stop::Pending),
        Some(Err(e)) => Err(
            Stop::Failed(
                InitramfsError::Io(
                    IoError::other(concat4("Failed to read ", path.as_str(), ": ", e.to_string().as_str())),
                ),
            ),
        ),
        Some(Ok(content)) => match find_id(content.as_str(), name) {
            None => Err(
                Stop::Failed(
                    InitramfsError::Io(
                        IoError::other(concat4(kind, " ", name, concat2(" not found in ", path.as_str()).as_str())),
                    ),
                ),
            ),
            Some(field) => match parse_u32(field.as_str()) {
                Ok(n) => Ok(n),
                Err(fault) => Err(
                    Stop::Failed(
                        InitramfsError::Io(
                            IoError::other(
                                concat2(
                                    concat4("Invalid ", id, " for ", name).as_str(),
                                    concat2(": ", fault.to_string().as_str()).as_str(),
                                ),
                            ),
                        ),
                    ),
                ),
            },
        },
    }
}

/// Looks up the UID for a user.
pub open spec fn uid_looked_up(t: Transcript, rootfs: Seq<char>, user: Seq<char>) -> (Transcript, InitOutcome<u32>) {
    looked_up(t, rootfs, "etc/passwd"@, user, "user"@, "UID"@)
}

/// Looks up the GID for a group.
pub open spec fn gid_looked_up(t: Transcript, rootfs: Seq<char>, group: Seq<char>) -> (Transcript, InitOutcome<u32>) {
    looked_up(t, rootfs, "etc/group"@, group, "group"@, "GID"@)
}

/// Look up the UID for a user in the rootfs /etc/passwd.
pub fn lookup_uid(rootfs_dir: &str, username: &str, sys: &mut Session) -> (r: Result<u32, Stop<InitramfsError>>)
    ensures
        (final(sys)@, outcome(r)) == uid_looked_up(old(sys)@, rootfs_dir@, username@),
{
    lookup_id(rootfs_dir, "etc/passwd", username, "user", "UID", sys)
}

/// Look up the numeric GID for a group in the rootfs /etc/group.
pub fn lookup_gid(rootfs_dir: &str, groupname: &str, sys: &mut Session) -> (r: Result<u32, Stop<InitramfsError>>)
    ensures
        (final(sys)@, outcome(r)) == gid_looked_up(old(sys)@, rootfs_dir@, groupname@),
{
    lookup_id(rootfs_dir, "etc/group", groupname, "group", "GID", sys)
}

/// Gives a file to a user and a group.
pub open spec fn owned(t: Transcript, path: Seq<char>, uid: u32, gid: u32) -> (Transcript, InitOutcome<()>) {
    io_step(t, Request::SetOwner { path, uid, gid }, "Failed to chown "@ + path + ": "@)
}

/// Sets the permissions of a file.
pub open spec fn permitted(t: Transcript, path: Seq<char>, permission: FilePermission) -> (
    Transcript,
    InitOutcome<()>,
) {
    io_step(t, Request::SetMode { path, mode: permission.mode() }, "Failed to chmod "@ + path + ": "@)
}

pub fn set_ownership(path: &str, uid: u32, gid: u32, sys: &mut Session) -> (r: Result<(), Stop<InitramfsError>>)
    ensures
        (final(sys)@, outcome(r)) == owned(old(sys)@, path@, uid, gid),
{
    perform_io(
        Request::SetOwner { path: path.to_owned(), uid, gid },
        concat3("Failed to chown ", path, ": ").as_str(),
        sys,
    )
}

pub fn set_mode(path: &str, mode: FilePermission, sys: &mut Session) -> (r: Result<(), Stop<InitramfsError>>)
    ensures
        (final(sys)@, outcome(r)) == permitted(old(sys)@, path@, mode),
{
    perform_io(
        Request::SetMode { path: path.to_owned(), mode: mode.bits() },
        concat3("Failed to chmod ", path, ": ").as_str(),
        sys,
    )
}

/// Hands a file over to ODS: its owner first, then its permissions.
pub open spec fn handed_over(t: Transcript, path: Seq<char>, uid: u32, gid: u32, permission: FilePermission) -> (
    Transcript,
    InitOutcome<()>,
) {
    match owned(t, path, uid, gid) {
        (t1, Err(e)) => (t1, Err(e)),
        (t1, Ok(_)) => permitted(t1, path, permission),
    }
}

fn hand_over(path: &str, uid: u32, gid: u32, mode: FilePermission, sys: &mut Session) -> (r: Result<
    (),
    Stop<InitramfsError>,
>)
    ensures
        (final(sys)@, outcome(r)) == handed_over(old(sys)@, path@, uid, gid, mode),
{
    match set_ownership(path, uid, gid, sys) {
        Err(e) => Err(e),
        Ok(()) => set_mode(path, mode, sys),
    }
}

/// Writes a marker file.
pub open spec fn marked(t: Transcript, path: Seq<char>, uid: u32, gid: u32, permission: FilePermission) -> (
    Transcript,
    InitOutcome<()>,
) {
    match io_step(
        t,
        Request::WriteText { path, text: BOOTLOADER_FLAG_SET@ },
        "Failed to write "@ + path + ": "@,
    ) {
        (t1, Err(e)) => (t1, Err(e)),
        (t1, Ok(_)) => handed_over(t1, path, uid, gid, permission),
    }
}

fn write_marker(path: &str, uid: u32, gid: u32, mode: FilePermission, sys: &mut Session) -> (r: Result<
    (),
    Stop<InitramfsError>,
>)
    ensures
        (final(sys)@, outcome(r)) == marked(old(sys)@, path@, uid, gid, mode),
{
    match perform_io(
        Request::WriteText { path: path.to_owned(), text: String::from_str(BOOTLOADER_FLAG_SET) },
        concat3("Failed to write ", path, ": ").as_str(),
        sys,
    ) {
        Err(e) => Err(e),
        Ok(()) => hand_over(path, uid, gid, mode, sys),
    }
}

/// The error of a variable that cannot be read.
pub open spec fn unreadable(variable: Seq<char>, e: BootEnvErrorView) -> InitErrorView {
    io_failed("failed to read "@ + variable + " from bootloader: "@ + e.text())
}

/// Tells ODS that the bootloader was updated, if the environment says so.
pub open spec fn update_marked<B: BootEnv>(t: Transcript, s: B::State, dir: Seq<char>, uid: u32, gid: u32) -> (
    Transcript,
    B::State,
    InitOutcome<()>,
) {
    match B::reads(t, s, BootEnvKey::BootloaderUpdated) {
        (t1, s1, Err(Stop::Pending)) => (t1, s1, Err(Stop::Pending)),
        (t1, s1, Err(Stop::Failed(e))) => (t1, s1, Err(Stop::Failed(unreadable("omnect_bootloader_updated"@, e)))),
        (t1, s1, Ok(value)) => if value == Some(BOOTLOADER_FLAG_SET@) {
            let r = marked(t1, joined(dir, BOOTLOADER_UPDATED_FILE@), uid, gid, FilePermission::FileRestricted);
            (r.0, s1, r.1)
        } else {
            (t1, s1, Ok(()))
        },
    }
}

/// The file that tells ODS about the validation of an update, if there is one.
pub open spec fn validation_marker(value: Option<Seq<char>>) -> Option<Seq<char>> {
    match value {
        Some(v) => ValidateUpdateState::said_by(v).marker(),
        None => None,
    }
}

/// Tells ODS what the environment says about an update.
pub open spec fn validated<B: BootEnv>(t: Transcript, s: B::State, dir: Seq<char>, uid: u32, gid: u32) -> (
    Transcript,
    B::State,
    InitOutcome<()>,
) {
    match B::reads(t, s, BootEnvKey::ValidateUpdate) {
        (t1, s1, Err(Stop::Pending)) => (t1, s1, Err(Stop::Pending)),
        (t1, s1, Err(Stop::Failed(e))) => (t1, s1, Err(Stop::Failed(unreadable("omnect_validate_update"@, e)))),
        (t1, s1, Ok(value)) => match validation_marker(value) {
            None => update_marked::<B>(t1, s1, dir, uid, gid),
            Some(file) => match marked(t1, joined(dir, file), uid, gid, FilePermission::FileReadable) {
                (t2, Err(e)) => (t2, s1, Err(e)),
                (t2, Ok(_)) => update_marked::<B>(t2, s1, dir, uid, gid),
            },
        },
    }
}

/// Handle update validation workflow; applies ownership and permissions to any
/// trigger files it creates.
pub fn handle_update_validation<B: BootEnv>(
    ods_dir: &str,
    bootloader: &mut B,
    uid: u32,
    gid: u32,
    sys: &mut Session,
) -> (r: Result<(), Stop<InitramfsError>>)
    ensures
        (final(sys)@, final(bootloader).state(), outcome(r)) == validated::<B>(
            old(sys)@,
            old(bootloader).state(),
            ods_dir@,
            uid,
            gid,
        ),
{
    let validate_update = match bootloader.get_env(BootEnvKey::ValidateUpdate, sys) {
        Err(Stop::Pending) => {
            return Err(Stop::Pending);
        },
        Err(Stop::Failed(e)) => {
            return Err(
                Stop::Failed(
                    InitramfsError::Io(
                        IoError::other(
                            concat4(
                                "failed to read ",
                                "omnect_validate_update",
                                " from bootloader: ",
                                e.to_string().as_str(),
                            ),
                        ),
                    ),
                ),
            );
        },
        Ok(v) => v,
    };
    if let Some(value) = validate_update {
        match ValidateUpdateState::from(value.as_str()) {
            ValidateUpdateState::Requested => {
                let trigger_path = join(ods_dir, UPDATE_VALIDATE_FILE);
                match write_marker(trigger_path.as_str(), uid, gid, FilePermission::FileReadable, sys) {
                    Err(e) => {
                        return Err(e);
                    },
                    Ok(()) => {},
                }
            },
            ValidateUpdateState::Failed => {
                let failed_path = join(ods_dir, UPDATE_VALIDATE_FAILED_FILE);
                match write_marker(failed_path.as_str(), uid, gid, FilePermission::FileReadable, sys) {
                    Err(e) => {
                        return Err(e);
                    },
                    Ok(()) => {},
                }
            },
            ValidateUpdateState::Other => {},
        }
    }
    let bootloader_updated = match bootloader.get_env(BootEnvKey::BootloaderUpdated, sys) {
        Err(Stop::Pending) => {
            return Err(Stop::Pending);
        },
        Err(Stop::Failed(e)) => {
            return Err(
                Stop::Failed(
                    InitramfsError::Io(
                        IoError::other(
                            concat4(
                                "failed to read ",
                                "omnect_bootloader_updated",
                                " from bootloader: ",
                                e.to_string().as_str(),
                            ),
                        ),
                    ),
                ),
            );
        },
        Ok(v) => v,
    };
    if let Some(value) = bootloader_updated {
        if same(value.as_str(), BOOTLOADER_FLAG_SET) {
            let marker_path = join(ods_dir, BOOTLOADER_UPDATED_FILE);
            return write_marker(marker_path.as_str(), uid, gid, FilePermission::FileRestricted, sys);
        }
    }
    Ok(())
}

/// Writes the main status file.
pub open spec fn status_written(t: Transcript, dir: Seq<char>, status: OdsView) -> (Transcript, InitOutcome<()>) {
    let path = joined(dir, ODS_STATUS_FILE@);
    io_step(
        t,
        Request::WriteText { path, text: pretty_of(ods_json(status)) },
        "Failed to write ODS status to "@ + path + ": "@,
    )
}

/// Write the main status JSON file
pub fn write_status_file(ods_dir: &str, status: &OdsStatus, sys: &mut Session) -> (r: Result<(), Stop<InitramfsError>>)
    ensures
        (final(sys)@, outcome(r)) == status_written(old(sys)@, ods_dir@, status@),
{
    let status_path = join(ods_dir, ODS_STATUS_FILE);
    let json = status.to_json();
    match print(&json) {
        Err(e) => Err(
            Stop::Failed(
                InitramfsError::Io(IoError::other(concat2("Failed to serialize ODS status: ", e.as_str()))),
            ),
        ),
        Ok(text) => {
            let context = concat3("Failed to write ODS status to ", status_path.as_str(), ": ");
            perform_io(Request::WriteText { path: status_path, text }, context.as_str(), sys)
        },
    }
}

/// Creates the directory for the runtime files, and the status file in it.
pub open spec fn status_created(t: Transcript, status: OdsView, dir: Seq<char>, uid: u32, gid: u32) -> (
    Transcript,
    InitOutcome<()>,
) {
    match io_step(t, Request::CreateDir(dir), "Failed to create ODS runtime dir: "@) {
        (t1, Err(e)) => (t1, Err(e)),
        (t1, Ok(_)) => match handed_over(t1, dir, uid, gid, FilePermission::DirStandard) {
            (t2, Err(e)) => (t2, Err(e)),
            (t2, Ok(_)) => match status_written(t2, dir, status) {
                (t3, Err(e)) => (t3, Err(e)),
                (t3, Ok(_)) => handed_over(
                    t3,
                    joined(dir, ODS_STATUS_FILE@),
                    uid,
                    gid,
                    FilePermission::FileRestricted,
                ),
            },
        },
    }
}

/// The warning about an update validation that cannot be done.
pub const VALIDATION_SKIPPED: &'static str =
    "update validation skipped — bootloader unavailable; any in-flight A/B update will roll back on timer expiry";

/// Creates all runtime files. Without a boot environment the validation of an update is
/// left out.
pub open spec fn created<B: BootEnv>(
    t: Transcript,
    s: Option<B::State>,
    status: OdsView,
    rootfs: Seq<char>,
    dir: Seq<char>,
) -> (Transcript, Option<B::State>, InitOutcome<()>) {
    match uid_looked_up(t, rootfs, ODS_USER@) {
        (t1, Err(e)) => (t1, s, Err(e)),
        (t1, Ok(uid)) => match gid_looked_up(t1, rootfs, ODS_GROUP@) {
            (t2, Err(e)) => (t2, s, Err(e)),
            (t2, Ok(gid)) => match status_created(t2, status, dir, uid, gid) {
                (t3, Err(e)) => (t3, s, Err(e)),
                (t3, Ok(_)) => match s {
                    None => {
                        let (t4, r) = warned(t3, VALIDATION_SKIPPED@);
                        (t4, s, step_of(r))
                    },
                    Some(s0) => {
                        let r = validated::<B>(t3, s0, dir, uid, gid);
                        (r.0, Some(r.1), r.2)
                    },
                },
            },
        },
    }
}

fn create_status(status: &OdsStatus, ods_dir: &str, uid: u32, gid: u32, sys: &mut Session) -> (r: Result<
    (),
    Stop<InitramfsError>,
>)
    ensures
        (final(sys)@, outcome(r)) == status_created(old(sys)@, status@, ods_dir@, uid, gid),
{
    match perform_io(Request::CreateDir(ods_dir.to_owned()), "Failed to create ODS runtime dir: ", sys) {
        Err(e) => {
            return Err(e);
        },
        Ok(()) => {},
    }
    match hand_over(ods_dir, uid, gid, FilePermission::DirStandard, sys) {
        Err(e) => {
            return Err(e);
        },
        Ok(()) => {},
    }
    match write_status_file(ods_dir, status, sys) {
        Err(e) => {
            return Err(e);
        },
        Ok(()) => {},
    }
    hand_over(join(ods_dir, ODS_STATUS_FILE).as_str(), uid, gid, FilePermission::FileRestricted, sys)
}

/// Create all runtime files for omnect-device-service
///
/// Files are written directly to the initramfs `/run` tmpfs. `switch_root`
/// moves that mount into the new root via `MS_MOVE`, so they remain visible
/// to ODS at the same path after the root pivot.
///
/// Ownership and permissions:
/// - dir: omnect_device_service:omnect_device_service, 775
/// - status JSON: 600
/// - trigger files: 644
/// - bootloader_updated: 600
pub fn create_ods_runtime_files<B: BootEnv>(
    status: &OdsStatus,
    bootloader: Option<&mut B>,
    rootfs_dir: &str,
    ods_dir: &str,
    sys: &mut Session,
) -> (r: Result<(), Stop<InitramfsError>>)
    ensures
        match bootloader {
            Some(b) => (final(sys)@, Some(final(b).state()), outcome(r)) == created::<B>(
                old(sys)@,
                Some(b.state()),
                status@,
                rootfs_dir@,
                ods_dir@,
            ),
            None => (final(sys)@, None::<B::State>, outcome(r)) == created::<B>(
                old(sys)@,
                None,
                status@,
                rootfs_dir@,
                ods_dir@,
            ),
        },
{
    let uid = match lookup_uid(rootfs_dir, ODS_USER, sys) {
        Err(e) => {
            return Err(e);
        },
        Ok(uid) => uid,
    };
    let gid = match lookup_gid(rootfs_dir, ODS_GROUP, sys) {
        Err(e) => {
            return Err(e);
        },
        Ok(gid) => gid,
    };
    match create_status(status, ods_dir, uid, gid, sys) {
        Err(e) => {
            return Err(e);
        },
        Ok(()) => {},
    }
    // Skipped if the bootloader failed to initialise at runtime (e.g. corrupted boot partition).
    match bootloader {
        Some(bl) => handle_update_validation(ods_dir, bl, uid, gid, sys),
        None => or_pending(sys.warn(VALIDATION_SKIPPED)),
    }
}

/// A marker tells ODS about an update only where the variable reads exactly `1` or
/// `failed`.
pub proof fn law_validation_marker(value: Option<Seq<char>>)
    ensures
        validation_marker(value) is Some <==> (value == Some("1"@) || value == Some("failed"@)),
{
}

} // verus!
