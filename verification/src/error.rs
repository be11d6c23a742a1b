//! Error types for the initramfs
//!
//! This module defines a hierarchy of error types for different subsystems. Every
//! type is generic over the text it carries: `String` in executable code, which is
//! the default, and `Seq<char>` in its view.

use vstd::prelude::*;
use vstd::string::*;

use crate::filesystem::FsckExitCode;
use crate::recovery::RecoveryClass;
use crate::system::{done_of, outcome, Request, RequestView, Session, Stop, Transcript};
use crate::text::{dec_int_of, decimal_i32};

verus! {

/// Result type alias for the initramfs
pub type Result<T> = core::result::Result<T, InitramfsError>;

/// The name that the boot environment modules use for [`BootloaderError`].
pub type BootEnvError<S = String> = BootloaderError<S>;

/// What kind of operation on the system failed.
#[derive(Debug, Clone, Copy, PartialEq, Eq, Structural)]
pub enum IoErrorKind {
    NotFound,
    PermissionDenied,
    InvalidInput,
    InvalidData,
    Other,
}

/// An operation on the system that failed.
#[derive(Debug, Clone)]
pub struct IoError<S = String> {
    pub kind: IoErrorKind,
    pub message: S,
}

/// Top-level error type for the initramfs
#[derive(Debug)]
pub enum InitramfsError<S = String> {
    Bootloader(BootloaderError<S>),
    DegradedBoot(BootloaderError<S>),
    EarlyInit(EarlyInitError<S>),
    Partition(PartitionError<S>),
    Filesystem(FilesystemError<S>),
    Logging(LoggingError<S>),
    Config(ConfigError<S>),
    ResizeData(ResizeDataError<S>),
    FactoryReset(FactoryResetError<S>),
    /// The extra boot arguments were written; a reboot applies them.
    ExtraBootArgsUpdated,
    Io(IoError<S>),
}

/// Errors during early initialization (before logging is available)
#[derive(Debug)]
pub enum EarlyInitError<S = String> {
    MountFailed { target: S, reason: S },
    Io(IoError<S>),
}

/// Errors related to bootloader environment access
#[derive(Debug)]
pub enum BootloaderError<S = String> {
    EnvFileNotFound { path: S },
    CommandFailed { command: S, reason: S },
    CommandExitCode { command: S, code: Option<i32>, stderr: S },
    CompressionFailed(S),
    DecompressionFailed(S),
    InvalidValue { key: S, reason: S },
    Io(IoError<S>),
}

/// Errors related to partition detection and management
#[derive(Debug)]
pub enum PartitionError<S = String> {
    DeviceDetection(S),
    InvalidPartitionTable { device: S, reason: S },
    SymlinkFailed { link: S, target: S, reason: S },
    SymlinkRemoveFailed { path: S, reason: S },
    UnknownRootPartition { path: S },
    Io(IoError<S>),
}

/// Errors related to filesystem operations
#[derive(Debug)]
pub enum FilesystemError<S = String> {
    MountFailed { src_path: S, target: S, reason: S },
    UnmountFailed { target: S, reason: S },
    FsckFailed { device: S, code: FsckExitCode, output: S },
    FsckRequiresReboot { device: S, code: FsckExitCode, output: S },
    OverlayFailed { target: S, reason: S },
    FormatFailed { device: S, fstype: S, reason: S },
    Io(IoError<S>),
}

/// Errors related to configuration loading
#[derive(Debug)]
pub enum ConfigError<S = String> {
    CmdlineReadFailed(IoError<S>),
}

/// Errors during data partition resize
#[derive(Debug)]
pub enum ResizeDataError<S = String> {
    CommandFailed { command: S, code: i32, output: S },
    InvalidDevicePath(S),
    ExtendedPartitionNotFound(S),
    NonUtf8Path(S),
    Filesystem(FilesystemError<S>),
    Io(IoError<S>),
}

/// Errors during a factory reset
#[derive(Debug)]
pub enum FactoryResetError<S = String> {
    InvalidConfig(S),
    MissingField(S),
    MountError(S),
    BackupFailed { path: S, reason: S },
    RestoreFailed { path: S, reason: S },
    ReformatFailed { device: S, reason: S },
    Io(IoError<S>),
}

/// Errors related to logging
#[derive(Debug)]
pub enum LoggingError<S = String> {
    KmsgOpenFailed(S),
    InitFailed(S),
    Io(IoError<S>),
}

/// An error of the initramfs by view.
pub type InitErrorView = InitramfsError<Seq<char>>;

/// How a boot procedure ended, by view.
pub type InitOutcome<T> = core::result::Result<T, Stop<InitErrorView>>;

/// The error of an operation on the system, in words.
pub open spec fn io_failed(message: Seq<char>) -> InitErrorView {
    InitramfsError::Io(IoError::<Seq<char>>::other_of(message))
}

/// A step that cannot fail; `None` means that an answer is missing.
pub open spec fn step_of(r: Option<()>) -> InitOutcome<()> {
    match r {
        Some(_) => Ok(()),
        None => Err(Stop::Pending),
    }
}

/// A step that cannot fail; `None` means that an answer is missing.
pub fn or_pending(r: Option<()>) -> (l: core::result::Result<(), Stop<InitramfsError>>)
    ensures
        outcome(l) == step_of(r),
{
    match r {
        Some(()) => Ok(()),
        None => Err(Stop::Pending),
    }
}

/// One operation on the system. Its failure is told behind `context`.
pub open spec fn io_step(t: Transcript, request: RequestView, context: Seq<char>) -> (Transcript, InitOutcome<()>) {
    (
        t.ask(request),
        match t.next() {
            None => Err(Stop::Pending),
            Some(reply) => match done_of(reply) {
                Ok(_) => Ok(()),
                Err(e) => Err(Stop::Failed(io_failed(context + e.text()))),
            },
        },
    )
}

/// Asks for one operation on the system. Its failure is told behind `context`.
pub fn perform_io(request: Request, context: &str, sys: &mut Session) -> (r: core::result::Result<
    (),
    Stop<InitramfsError>,
>)
    ensures
        (final(sys)@, outcome(r)) == io_step(old(sys)@, request@, context@),
{
    match sys.perform(request) {
        None => Err(Stop::Pending),
        Some(Ok(())) => Ok(()),
        Some(Err(e)) => Err(
            Stop::Failed(InitramfsError::Io(IoError::other(concat2(context, e.to_string().as_str())))),
        ),
    }
}

/// A result with its error by view.
pub open spec fn result_view<T, E: View>(r: core::result::Result<T, E>) -> core::result::Result<T, E::V> {
    match r {
        Ok(t) => Ok(t),
        Err(e) => Err(e@),
    }
}

impl View for IoError {
    type V = IoError<Seq<char>>;

    open spec fn view(&self) -> IoError<Seq<char>> {
        IoError { kind: self.kind, message: self.message@ }
    }
}

impl View for EarlyInitError {
    type V = EarlyInitError<Seq<char>>;

    open spec fn view(&self) -> EarlyInitError<Seq<char>> {
        match *self {
            EarlyInitError::MountFailed { target, reason } => EarlyInitError::MountFailed {
                target: target@,
                reason: reason@,
            },
            EarlyInitError::Io(e) => EarlyInitError::Io(e@),
        }
    }
}

impl View for BootloaderError {
    type V = BootloaderError<Seq<char>>;

    open spec fn view(&self) -> BootloaderError<Seq<char>> {
        match *self {
            BootloaderError::EnvFileNotFound { path } => BootloaderError::EnvFileNotFound { path: path@ },
            BootloaderError::CommandFailed { command, reason } => BootloaderError::CommandFailed {
                command: command@,
                reason: reason@,
            },
            BootloaderError::CommandExitCode { command, code, stderr } => BootloaderError::CommandExitCode {
                command: command@,
                code,
                stderr: stderr@,
            },
            BootloaderError::CompressionFailed(s) => BootloaderError::CompressionFailed(s@),
            BootloaderError::DecompressionFailed(s) => BootloaderError::DecompressionFailed(s@),
            BootloaderError::InvalidValue { key, reason } => BootloaderError::InvalidValue {
                key: key@,
                reason: reason@,
            },
            BootloaderError::Io(e) => BootloaderError::Io(e@),
        }
    }
}

impl View for PartitionError {
    type V = PartitionError<Seq<char>>;

    open spec fn view(&self) -> PartitionError<Seq<char>> {
        match *self {
            PartitionError::DeviceDetection(s) => PartitionError::DeviceDetection(s@),
            PartitionError::InvalidPartitionTable { device, reason } => PartitionError::InvalidPartitionTable {
                device: device@,
                reason: reason@,
            },
            PartitionError::SymlinkFailed { link, target, reason } => PartitionError::SymlinkFailed {
                link: link@,
                target: target@,
                reason: reason@,
            },
            PartitionError::SymlinkRemoveFailed { path, reason } => PartitionError::SymlinkRemoveFailed {
                path: path@,
                reason: reason@,
            },
            PartitionError::UnknownRootPartition { path } => PartitionError::UnknownRootPartition { path: path@ },
            PartitionError::Io(e) => PartitionError::Io(e@),
        }
    }
}

impl View for FilesystemError {
    type V = FilesystemError<Seq<char>>;

    open spec fn view(&self) -> FilesystemError<Seq<char>> {
        match *self {
            FilesystemError::MountFailed { src_path, target, reason } => FilesystemError::MountFailed {
                src_path: src_path@,
                target: target@,
                reason: reason@,
            },
            FilesystemError::UnmountFailed { target, reason } => FilesystemError::UnmountFailed {
                target: target@,
                reason: reason@,
            },
            FilesystemError::FsckFailed { device, code, output } => FilesystemError::FsckFailed {
                device: device@,
                code,
                output: output@,
            },
            FilesystemError::FsckRequiresReboot { device, code, output } => FilesystemError::FsckRequiresReboot {
                device: device@,
                code,
                output: output@,
            },
            FilesystemError::OverlayFailed { target, reason } => FilesystemError::OverlayFailed {
                target: target@,
                reason: reason@,
            },
            FilesystemError::FormatFailed { device, fstype, reason } => FilesystemError::FormatFailed {
                device: device@,
                fstype: fstype@,
                reason: reason@,
            },
            FilesystemError::Io(e) => FilesystemError::Io(e@),
        }
    }
}

impl View for ConfigError {
    type V = ConfigError<Seq<char>>;

    open spec fn view(&self) -> ConfigError<Seq<char>> {
        match *self {
            ConfigError::CmdlineReadFailed(e) => ConfigError::CmdlineReadFailed(e@),
        }
    }
}

impl View for ResizeDataError {
    type V = ResizeDataError<Seq<char>>;

    open spec fn view(&self) -> ResizeDataError<Seq<char>> {
        match *self {
            ResizeDataError::CommandFailed { command, code, output } => ResizeDataError::CommandFailed {
                command: command@,
                code,
                output: output@,
            },
            ResizeDataError::InvalidDevicePath(s) => ResizeDataError::InvalidDevicePath(s@),
            ResizeDataError::ExtendedPartitionNotFound(s) => ResizeDataError::ExtendedPartitionNotFound(s@),
            ResizeDataError::NonUtf8Path(s) => ResizeDataError::NonUtf8Path(s@),
            ResizeDataError::Filesystem(e) => ResizeDataError::Filesystem(e@),
            ResizeDataError::Io(e) => ResizeDataError::Io(e@),
        }
    }
}

impl View for FactoryResetError {
    type V = FactoryResetError<Seq<char>>;

    open spec fn view(&self) -> FactoryResetError<Seq<char>> {
        match *self {
            FactoryResetError::InvalidConfig(s) => FactoryResetError::InvalidConfig(s@),
            FactoryResetError::MissingField(s) => FactoryResetError::MissingField(s@),
            FactoryResetError::MountError(s) => FactoryResetError::MountError(s@),
            FactoryResetError::BackupFailed { path, reason } => FactoryResetError::BackupFailed {
                path: path@,
                reason: reason@,
            },
            FactoryResetError::RestoreFailed { path, reason } => FactoryResetError::RestoreFailed {
                path: path@,
                reason: reason@,
            },
            FactoryResetError::ReformatFailed { device, reason } => FactoryResetError::ReformatFailed {
                device: device@,
                reason: reason@,
            },
            FactoryResetError::Io(e) => FactoryResetError::Io(e@),
        }
    }
}

impl View for LoggingError {
    type V = LoggingError<Seq<char>>;

    open spec fn view(&self) -> LoggingError<Seq<char>> {
        match *self {
            LoggingError::KmsgOpenFailed(s) => LoggingError::KmsgOpenFailed(s@),
            LoggingError::InitFailed(s) => LoggingError::InitFailed(s@),
            LoggingError::Io(e) => LoggingError::Io(e@),
        }
    }
}

impl View for InitramfsError {
    type V = InitramfsError<Seq<char>>;

    open spec fn view(&self) -> InitramfsError<Seq<char>> {
        match *self {
            InitramfsError::Bootloader(e) => InitramfsError::Bootloader(e@),
            InitramfsError::DegradedBoot(e) => InitramfsError::DegradedBoot(e@),
            InitramfsError::EarlyInit(e) => InitramfsError::EarlyInit(e@),
            InitramfsError::Partition(e) => InitramfsError::Partition(e@),
            InitramfsError::Filesystem(e) => InitramfsError::Filesystem(e@),
            InitramfsError::Logging(e) => InitramfsError::Logging(e@),
            InitramfsError::Config(e) => InitramfsError::Config(e@),
            InitramfsError::ResizeData(e) => InitramfsError::ResizeData(e@),
            InitramfsError::FactoryReset(e) => InitramfsError::FactoryReset(e@),
            InitramfsError::ExtraBootArgsUpdated => InitramfsError::ExtraBootArgsUpdated,
            InitramfsError::Io(e) => InitramfsError::Io(e@),
        }
    }
}

/// How an optional exit code is written: `Some(1)` or `None`.
pub open spec fn exit_code_text(code: Option<i32>) -> Seq<char> {
    match code {
        Some(c) => "Some("@ + dec_int_of(c as int) + ")"@,
        None => "None"@,
    }
}

fn exit_code_string(code: Option<i32>) -> (s: String)
    ensures
        s@ == exit_code_text(code),
{
    match code {
        Some(c) => concat3("Some(", decimal_i32(c).as_str(), ")"),
        None => String::from_str("None"),
    }
}

/// The two texts, one after the other.
pub fn concat2(a: &str, b: &str) -> (s: String)
    ensures
        s@ == a@ + b@,
{
    let mut s = String::from_str(a);
    s.append(b);
    s
}

/// The three texts, one after the other.
pub fn concat3(a: &str, b: &str, c: &str) -> (s: String)
    ensures
        s@ == a@ + b@ + c@,
{
    let mut s = concat2(a, b);
    s.append(c);
    s
}

/// The four texts, one after the other.
pub fn concat4(a: &str, b: &str, c: &str, d: &str) -> (s: String)
    ensures
        s@ == a@ + b@ + c@ + d@,
{
    let mut s = concat3(a, b, c);
    s.append(d);
    s
}

impl IoError<Seq<char>> {
    pub open spec fn text(self) -> Seq<char> {
        self.message
    }

    /// An error of no particular kind.
    pub open spec fn other_of(message: Seq<char>) -> Self {
        IoError { kind: IoErrorKind::Other, message }
    }
}

impl IoError {
    pub fn to_string(&self) -> (s: String)
        ensures
            s@ == self@.text(),
    {
        self.message.clone()
    }

    /// An error of no particular kind.
    pub fn other(message: String) -> (e: Self)
        ensures
            e@ == IoError::other_of(message@),
    {
        IoError { kind: IoErrorKind::Other, message }
    }
}

impl EarlyInitError<Seq<char>> {
    pub open spec fn text(self) -> Seq<char> {
        match self {
            EarlyInitError::MountFailed { target, reason } => "Failed to mount "@ + target + ": "@ + reason,
            EarlyInitError::Io(e) => "IO error: "@ + e.text(),
        }
    }
}

impl EarlyInitError {
    pub fn to_string(&self) -> (s: String)
        ensures
            s@ == self@.text(),
    {
        match self {
            EarlyInitError::MountFailed { target, reason } => concat4(
                "Failed to mount ",
                target.as_str(),
                ": ",
                reason.as_str(),
            ),
            EarlyInitError::Io(e) => concat2("IO error: ", e.to_string().as_str()),
        }
    }
}

impl BootloaderError<Seq<char>> {
    pub open spec fn text(self) -> Seq<char> {
        match self {
            BootloaderError::EnvFileNotFound { path } => "Bootloader environment file not found: "@ + path,
            BootloaderError::CommandFailed { command, reason } => "Command '"@ + command + "' failed: "@ + reason,
            BootloaderError::CommandExitCode { command, code, stderr } => "Command '"@ + command
                + "' exited with code "@ + exit_code_text(code) + ": "@ + stderr,
            BootloaderError::CompressionFailed(s) => "Compression failed: "@ + s,
            BootloaderError::DecompressionFailed(s) => "Decompression failed: "@ + s,
            BootloaderError::InvalidValue { key, reason } => "Invalid environment value for '"@ + key + "': "@
                + reason,
            BootloaderError::Io(e) => "IO error: "@ + e.text(),
        }
    }
}

impl BootloaderError {
    pub fn to_string(&self) -> (s: String)
        ensures
            s@ == self@.text(),
    {
        match self {
            BootloaderError::EnvFileNotFound { path } => concat2(
                "Bootloader environment file not found: ",
                path.as_str(),
            ),
            BootloaderError::CommandFailed { command, reason } => concat4(
                "Command '",
                command.as_str(),
                "' failed: ",
                reason.as_str(),
            ),
            BootloaderError::CommandExitCode { command, code, stderr } => {
                let mut s = concat4(
                    "Command '",
                    command.as_str(),
                    "' exited with code ",
                    exit_code_string(*code).as_str(),
                );
                s.append(": ");
                s.append(stderr.as_str());
                s
            },
            BootloaderError::CompressionFailed(e) => concat2("Compression failed: ", e.as_str()),
            BootloaderError::DecompressionFailed(e) => concat2("Decompression failed: ", e.as_str()),
            BootloaderError::InvalidValue { key, reason } => concat4(
                "Invalid environment value for '",
                key.as_str(),
                "': ",
                reason.as_str(),
            ),
            BootloaderError::Io(e) => concat2("IO error: ", e.to_string().as_str()),
        }
    }
}

impl PartitionError<Seq<char>> {
    pub open spec fn text(self) -> Seq<char> {
        match self {
            PartitionError::DeviceDetection(s) => "device detection failed: "@ + s,
            PartitionError::InvalidPartitionTable { device, reason } => "invalid partition table on "@ + device
                + ": "@ + reason,
            PartitionError::SymlinkFailed { link, target, reason } => "symlink creation failed for "@ + link
                + " -> "@ + target + ": "@ + reason,
            PartitionError::SymlinkRemoveFailed { path, reason } => "symlink removal failed for "@ + path + ": "@
                + reason,
            PartitionError::UnknownRootPartition { path } => "unknown root partition "@ + path
                + ": expected root_a or root_b"@,
            PartitionError::Io(e) => "I/O error: "@ + e.text(),
        }
    }
}

impl PartitionError {
    pub fn to_string(&self) -> (s: String)
        ensures
            s@ == self@.text(),
    {
        match self {
            PartitionError::DeviceDetection(e) => concat2("device detection failed: ", e.as_str()),
            PartitionError::InvalidPartitionTable { device, reason } => concat4(
                "invalid partition table on ",
                device.as_str(),
                ": ",
                reason.as_str(),
            ),
            PartitionError::SymlinkFailed { link, target, reason } => {
                let mut s = concat4(
                    "symlink creation failed for ",
                    link.as_str(),
                    " -> ",
                    target.as_str(),
                );
                s.append(": ");
                s.append(reason.as_str());
                s
            },
            PartitionError::SymlinkRemoveFailed { path, reason } => concat4(
                "symlink removal failed for ",
                path.as_str(),
                ": ",
                reason.as_str(),
            ),
            PartitionError::UnknownRootPartition { path } => concat3(
                "unknown root partition ",
                path.as_str(),
                ": expected root_a or root_b",
            ),
            PartitionError::Io(e) => concat2("I/O error: ", e.to_string().as_str()),
        }
    }
}

impl FilesystemError<Seq<char>> {
    pub open spec fn text(self) -> Seq<char> {
        match self {
            FilesystemError::MountFailed { src_path, target, reason } => "Failed to mount "@ + src_path + " on "@
                + target + ": "@ + reason,
            FilesystemError::UnmountFailed { target, reason } => "Failed to unmount "@ + target + ": "@ + reason,
            FilesystemError::FsckFailed { device, code, output } => "Filesystem check failed for "@ + device
                + " with code "@ + code.text() + ": "@ + output,
            FilesystemError::FsckRequiresReboot { device, code, output } => "Filesystem check for "@ + device
                + " requires reboot (fsck exit code "@ + code.text() + ")"@,
            FilesystemError::OverlayFailed { target, reason } => "Overlayfs setup failed for "@ + target + ": "@
                + reason,
            FilesystemError::FormatFailed { device, fstype, reason } => "Failed to format "@ + device + " as "@
                + fstype + ": "@ + reason,
            FilesystemError::Io(e) => "IO error: "@ + e.text(),
        }
    }
}

impl FilesystemError {
    pub fn to_string(&self) -> (s: String)
        ensures
            s@ == self@.text(),
    {
        match self {
            FilesystemError::MountFailed { src_path, target, reason } => {
                let mut s = concat4("Failed to mount ", src_path.as_str(), " on ", target.as_str());
                s.append(": ");
                s.append(reason.as_str());
                s
            },
            FilesystemError::UnmountFailed { target, reason } => concat4(
                "Failed to unmount ",
                target.as_str(),
                ": ",
                reason.as_str(),
            ),
            FilesystemError::FsckFailed { device, code, output } => {
                let mut s = concat4(
                    "Filesystem check failed for ",
                    device.as_str(),
                    " with code ",
                    code.to_string().as_str(),
                );
                s.append(": ");
                s.append(output.as_str());
                s
            },
            FilesystemError::FsckRequiresReboot { device, code, output } => {
                let mut s = concat4(
                    "Filesystem check for ",
                    device.as_str(),
                    " requires reboot (fsck exit code ",
                    code.to_string().as_str(),
                );
                s.append(")");
                s
            },
            FilesystemError::OverlayFailed { target, reason } => concat4(
                "Overlayfs setup failed for ",
                target.as_str(),
                ": ",
                reason.as_str(),
            ),
            FilesystemError::FormatFailed { device, fstype, reason } => {
                let mut s = concat4("Failed to format ", device.as_str(), " as ", fstype.as_str());
                s.append(": ");
                s.append(reason.as_str());
                s
            },
            FilesystemError::Io(e) => concat2("IO error: ", e.to_string().as_str()),
        }
    }
}

impl ConfigError<Seq<char>> {
    pub open spec fn text(self) -> Seq<char> {
        match self {
            ConfigError::CmdlineReadFailed(e) => "failed to read /proc/cmdline: "@ + e.text(),
        }
    }
}

impl ConfigError {
    pub fn to_string(&self) -> (s: String)
        ensures
            s@ == self@.text(),
    {
        match self {
            ConfigError::CmdlineReadFailed(e) => concat2(
                "failed to read /proc/cmdline: ",
                e.to_string().as_str(),
            ),
        }
    }
}

impl ResizeDataError<Seq<char>> {
    pub open spec fn text(self) -> Seq<char> {
        match self {
            ResizeDataError::CommandFailed { command, code, output } => "Command '"@ + command
                + "' failed with code "@ + dec_int_of(code as int) + ": "@ + output,
            ResizeDataError::InvalidDevicePath(path) =>
                "Could not determine partition number from device path: "@ + path,
            ResizeDataError::ExtendedPartitionNotFound(path) => "Could not find extended partition on "@ + path,
            ResizeDataError::NonUtf8Path(path) => "Device path is not valid UTF-8: "@ + path,
            ResizeDataError::Filesystem(e) => "Filesystem error: "@ + e.text(),
            ResizeDataError::Io(e) => "IO error: "@ + e.text(),
        }
    }
}

impl ResizeDataError {
    pub fn to_string(&self) -> (s: String)
        ensures
            s@ == self@.text(),
    {
        match self {
            ResizeDataError::CommandFailed { command, code, output } => {
                let mut s = concat4(
                    "Command '",
                    command.as_str(),
                    "' failed with code ",
                    decimal_i32(*code).as_str(),
                );
                s.append(": ");
                s.append(output.as_str());
                s
            },
            ResizeDataError::InvalidDevicePath(path) => concat2(
                "Could not determine partition number from device path: ",
                path.as_str(),
            ),
            ResizeDataError::ExtendedPartitionNotFound(path) => concat2(
                "Could not find extended partition on ",
                path.as_str(),
            ),
            ResizeDataError::NonUtf8Path(path) => concat2(
                "Device path is not valid UTF-8: ",
                path.as_str(),
            ),
            ResizeDataError::Filesystem(e) => concat2("Filesystem error: ", e.to_string().as_str()),
            ResizeDataError::Io(e) => concat2("IO error: ", e.to_string().as_str()),
        }
    }
}

impl FactoryResetError<Seq<char>> {
    pub open spec fn text(self) -> Seq<char> {
        match self {
            FactoryResetError::InvalidConfig(s) => "Invalid factory-reset config: "@ + s,
            FactoryResetError::MissingField(s) => "Missing factory-reset config field: "@ + s,
            FactoryResetError::MountError(s) => "Mount error: "@ + s,
            FactoryResetError::BackupFailed { path, reason } => "Backup failed for "@ + path + ": "@ + reason,
            FactoryResetError::RestoreFailed { path, reason } => "Restore failed for "@ + path + ": "@ + reason,
            FactoryResetError::ReformatFailed { device, reason } => "Reformat failed for "@ + device + ": "@
                + reason,
            FactoryResetError::Io(e) => "IO error: "@ + e.text(),
        }
    }
}

impl FactoryResetError {
    pub fn to_string(&self) -> (s: String)
        ensures
            s@ == self@.text(),
    {
        match self {
            FactoryResetError::InvalidConfig(e) => concat2("Invalid factory-reset config: ", e.as_str()),
            FactoryResetError::MissingField(e) => concat2(
                "Missing factory-reset config field: ",
                e.as_str(),
            ),
            FactoryResetError::MountError(e) => concat2("Mount error: ", e.as_str()),
            FactoryResetError::BackupFailed { path, reason } => concat4(
                "Backup failed for ",
                path.as_str(),
                ": ",
                reason.as_str(),
            ),
            FactoryResetError::RestoreFailed { path, reason } => concat4(
                "Restore failed for ",
                path.as_str(),
                ": ",
                reason.as_str(),
            ),
            FactoryResetError::ReformatFailed { device, reason } => concat4(
                "Reformat failed for ",
                device.as_str(),
                ": ",
                reason.as_str(),
            ),
            FactoryResetError::Io(e) => concat2("IO error: ", e.to_string().as_str()),
        }
    }
}

impl LoggingError<Seq<char>> {
    pub open spec fn text(self) -> Seq<char> {
        match self {
            LoggingError::KmsgOpenFailed(s) => "Failed to open kmsg: "@ + s,
            LoggingError::InitFailed(s) => "Failed to initialize logger: "@ + s,
            LoggingError::Io(e) => "IO error: "@ + e.text(),
        }
    }
}

impl LoggingError {
    pub fn to_string(&self) -> (s: String)
        ensures
            s@ == self@.text(),
    {
        match self {
            LoggingError::KmsgOpenFailed(e) => concat2("Failed to open kmsg: ", e.as_str()),
            LoggingError::InitFailed(e) => concat2("Failed to initialize logger: ", e.as_str()),
            LoggingError::Io(e) => concat2("IO error: ", e.to_string().as_str()),
        }
    }
}

impl InitramfsError<Seq<char>> {
    pub open spec fn text(self) -> Seq<char> {
        match self {
            InitramfsError::Bootloader(e) => "Bootloader error: "@ + e.text(),
            InitramfsError::DegradedBoot(e) => "degraded boot: "@ + e.text(),
            InitramfsError::EarlyInit(e) => "Early init error: "@ + e.text(),
            InitramfsError::Partition(e) => "Partition error: "@ + e.text(),
            InitramfsError::Filesystem(e) => "Filesystem error: "@ + e.text(),
            InitramfsError::Logging(e) => "Logging error: "@ + e.text(),
            InitramfsError::Config(e) => "Config error: "@ + e.text(),
            InitramfsError::ResizeData(e) => "Resize data error: "@ + e.text(),
            InitramfsError::FactoryReset(e) => "Factory reset error: "@ + e.text(),
            InitramfsError::ExtraBootArgsUpdated => "extra boot arguments updated; reboot required"@,
            InitramfsError::Io(e) => "IO error: "@ + e.text(),
        }
    }

    /// A failed filesystem check asks for a reboot.
    pub open spec fn asks_for_reboot(self) -> bool {
        match self {
            InitramfsError::Filesystem(e) => e is FsckRequiresReboot,
            InitramfsError::ResizeData(ResizeDataError::Filesystem(e)) => e is FsckRequiresReboot,
            InitramfsError::ExtraBootArgsUpdated => true,
            _ => false,
        }
    }

    /// How the error is meant to be recovered from: a reboot where one is asked
    /// for, a degraded boot for a failed resize or factory reset, else not at all.
    pub open spec fn class(self) -> RecoveryClass {
        if self.asks_for_reboot() {
            RecoveryClass::RebootToApply
        } else if self is ResizeData || self is FactoryReset {
            RecoveryClass::ContinueDegraded
        } else {
            RecoveryClass::Fatal
        }
    }
}

impl InitramfsError {
    pub fn to_string(&self) -> (s: String)
        ensures
            s@ == self@.text(),
    {
        match self {
            InitramfsError::Bootloader(e) => concat2("Bootloader error: ", e.to_string().as_str()),
            InitramfsError::DegradedBoot(e) => concat2("degraded boot: ", e.to_string().as_str()),
            InitramfsError::EarlyInit(e) => concat2("Early init error: ", e.to_string().as_str()),
            InitramfsError::Partition(e) => concat2("Partition error: ", e.to_string().as_str()),
            InitramfsError::Filesystem(e) => concat2("Filesystem error: ", e.to_string().as_str()),
            InitramfsError::Logging(e) => concat2("Logging error: ", e.to_string().as_str()),
            InitramfsError::Config(e) => concat2("Config error: ", e.to_string().as_str()),
            InitramfsError::ResizeData(e) => concat2("Resize data error: ", e.to_string().as_str()),
            InitramfsError::FactoryReset(e) => concat2("Factory reset error: ", e.to_string().as_str()),
            InitramfsError::ExtraBootArgsUpdated => String::from_str(
                "extra boot arguments updated; reboot required",
            ),
            InitramfsError::Io(e) => concat2("IO error: ", e.to_string().as_str()),
        }
    }

    /// How the error is meant to be recovered from.
    pub fn recovery_class(&self) -> (r: RecoveryClass)
        ensures
            r == self@.class(),
    {
        match self {
            InitramfsError::Filesystem(FilesystemError::FsckRequiresReboot { .. }) => {
                RecoveryClass::RebootToApply
            },
            InitramfsError::ResizeData(
                ResizeDataError::Filesystem(FilesystemError::FsckRequiresReboot { .. }),
            ) => RecoveryClass::RebootToApply,
            InitramfsError::ExtraBootArgsUpdated => RecoveryClass::RebootToApply,
            InitramfsError::ResizeData(_) => RecoveryClass::ContinueDegraded,
            InitramfsError::FactoryReset(_) => RecoveryClass::ContinueDegraded,
            _ => RecoveryClass::Fatal,
        }
    }
}

} // verus!
