//! BootEnv abstraction module
//!
//! This module provides a trait-based abstraction over different bootloaders
//! (GRUB and U-Boot) to allow unified access to bootloader environment variables.

pub mod grub;
pub mod mock;
pub mod session_env;
pub mod types;
pub mod uboot;

use std::borrow::Cow;

use vstd::prelude::*;
use vstd::string::*;
use vstd::utf8::*;

use crate::error::{concat2, concat3, BootEnvError, InitOutcome, InitramfsError};
use crate::filesystem::FsckExitCode;
use crate::partition::PartitionName;
use crate::system::{outcome, warned, Session, Stop, Transcript};

pub use self::mock::{create_mock_bootloader, MockBootEnv};
pub use self::session_env::{open_boot_env, BootloaderKind, SessionEnv};

verus! {

pub type Result<T> = core::result::Result<T, BootEnvError>;

/// How a call of a boot environment ended.
pub type EnvResult<T> = core::result::Result<T, Stop<BootEnvError>>;

/// An error of the boot environment by view.
pub type BootEnvErrorView = BootEnvError<Seq<char>>;

/// Upper bound (bytes) on the failure reason stored via `save_factory_reset_failure`.
/// The bootloader env block is small and shared by all variables, so keep it short.
pub const MAX_FACTORY_RESET_FAILURE_REASON_LEN: usize = 128;

/// The value of the first-boot marker once the first boot is done.
pub const FIRST_BOOT_DONE: &'static str = "1";

/// The largest character boundary of `bytes` that is at most `max`.
pub open spec fn boundary_below(bytes: Seq<u8>, max: int) -> int
    decreases max,
{
    if max <= 0 {
        0
    } else if max >= bytes.len() {
        bytes.len() as int
    } else if is_char_boundary(bytes, max) {
        max
    } else {
        boundary_below(bytes, max - 1)
    }
}

/// The first `boundary_below(.., max)` bytes of `s`, as text.
pub open spec fn truncated(s: Seq<char>, max: int) -> Seq<char> {
    decode_utf8(encode_utf8(s).take(boundary_below(encode_utf8(s), max)))
}

/// A text is determined by its UTF-8 encoding.
proof fn lemma_text_of_bytes(s: Seq<char>)
    ensures
        decode_utf8(encode_utf8(s)) == s,
        valid_utf8(encode_utf8(s)),
{
    encode_utf8_decode_utf8(s);
    encode_utf8_valid_utf8(s);
}

/// Truncate `s` to at most `max_bytes`, never splitting a multi-byte UTF-8
/// character.
pub fn truncate_on_char_boundary(s: &str, max_bytes: usize) -> (r: &str)
    ensures
        r@ == truncated(s@, max_bytes as int),
        encode_utf8(r@) == encode_utf8(s@).take(boundary_below(encode_utf8(s@), max_bytes as int)),
        encode_utf8(r@).len() <= max_bytes,
{
    let ghost bytes = encode_utf8(s@);
    proof {
        lemma_text_of_bytes(s@);
    }
    if s.as_bytes().len() <= max_bytes {
        assert(bytes.take(bytes.len() as int) =~= bytes);
        return s;
    }
    let mut end: usize = max_bytes;
    while end > 0 && !s.is_char_boundary(end)
        invariant
            end <= max_bytes < bytes.len(),
            bytes == encode_utf8(s@),
            boundary_below(bytes, end as int) == boundary_below(bytes, max_bytes as int),
        decreases end,
    {
        end = end - 1;
    }
    proof {
        is_char_boundary_start_end_of_seq(bytes);
    }
    let r = s.split_at(end).0;
    proof {
        assert(bytes.subrange(0, end as int) =~= bytes.take(end as int));
        lemma_text_of_bytes(r@);
    }
    r
}

/// A truncated text is the longest prefix in bytes that ends at a character boundary and
/// is within the limit; a text within the limit is left as it is.
pub proof fn law_truncation(s: Seq<char>, max: int)
    requires
        0 <= max,
    ensures
        0 <= boundary_below(encode_utf8(s), max) <= max,
        boundary_below(encode_utf8(s), max) <= encode_utf8(s).len(),
        is_char_boundary(encode_utf8(s), boundary_below(encode_utf8(s), max)),
        forall|k: int|
            boundary_below(encode_utf8(s), max) < k <= max && k <= encode_utf8(s).len()
                ==> !#[trigger] is_char_boundary(encode_utf8(s), k),
        encode_utf8(s).len() <= max ==> truncated(s, max) == s,
    decreases max,
{
    let bytes = encode_utf8(s);
    lemma_text_of_bytes(s);
    is_char_boundary_start_end_of_seq(bytes);
    if bytes.len() <= max {
        assert(bytes.take(bytes.len() as int) =~= bytes);
    } else if max > 0 && !is_char_boundary(bytes, max) {
        law_truncation(s, max - 1);
    }
}

/// Decoded fsck result stored in the bootloader environment.
#[derive(Debug, Clone)]
pub struct FsckRecord {
    /// Typed exit code from fsck.
    pub exit_code: FsckExitCode,
    /// Combined stdout + stderr output from fsck.
    pub output: String,
}

impl View for FsckRecord {
    type V = (FsckExitCode, Seq<char>);

    open spec fn view(&self) -> (FsckExitCode, Seq<char>) {
        (self.exit_code, self.output@)
    }
}

/// Typed key for bootloader environment variables.
///
/// Use this instead of raw `&str` keys to prevent typos and make all
/// known env-var names visible in one place.
#[derive(Debug, Clone, Copy, PartialEq, Eq, Structural)]
pub enum BootEnvKey {
    /// `omnect_validate_update` — OTA update validation state.
    ValidateUpdate,
    /// `omnect_validate_update_failed` — set by the bootloader when it rolled
    /// back to the previous slot because update validation did not complete.
    /// The bootloader clears `omnect_validate_update` when it sets this key.
    ValidateUpdateFailed,
    /// `omnect_bootloader_updated` — whether the bootloader itself was updated.
    BootloaderUpdated,
    /// `omnect_fsck_<partition>` — fsck result for the given partition.
    FsckStatus(PartitionName),
    /// `omnect_first_boot_done` — set to `"1"` after the first successful
    /// boot. Unified first-boot sentinel.
    FirstBootDone,
    /// `omnect_extra_bootargs` — extra kernel cmdline arguments the bootloader
    /// appends. Synced from the boot-partition files by the extra-bootargs
    /// init-setup step.
    ExtraBootArgs,
    /// `omnect_resized_data` — set once the data partition has been resized.
    ResizedData,
    /// `factory-reset` — JSON trigger set by ODS to request a factory reset.
    /// Value format: `{"mode":1,"preserve":["applications","network"]}`.
    /// Cleared by the initramfs as the first step of the reset sequence.
    FactoryReset,
    /// `omnect_factory_reset_last_error` — records a partition that stayed
    /// unmountable after a reformat-and-retry during the factory-reset
    /// destructive phase, so the failure survives even if the boot that
    /// follows halts before switch_root. Plain text `"<partition>:<reason>"`.
    FactoryResetLastError,
}

impl BootEnvKey {
    pub open spec fn text(self) -> Seq<char> {
        match self {
            BootEnvKey::ValidateUpdate => "omnect_validate_update"@,
            BootEnvKey::ValidateUpdateFailed => "omnect_validate_update_failed"@,
            BootEnvKey::BootloaderUpdated => "omnect_bootloader_updated"@,
            BootEnvKey::FsckStatus(p) => "omnect_fsck_"@ + p.text(),
            BootEnvKey::FirstBootDone => "omnect_first_boot_done"@,
            BootEnvKey::ExtraBootArgs => "omnect_extra_bootargs"@,
            BootEnvKey::ResizedData => "omnect_resized_data"@,
            BootEnvKey::FactoryReset => "factory-reset"@,
            BootEnvKey::FactoryResetLastError => "omnect_factory_reset_last_error"@,
        }
    }

    /// Returns the env-var name as it is stored in the bootloader environment.
    pub fn as_str(&self) -> (r: Cow<'static, str>)
        ensures
            r@ == self.text(),
    {
        match self {
            BootEnvKey::ValidateUpdate => Cow::Borrowed("omnect_validate_update"),
            BootEnvKey::ValidateUpdateFailed => Cow::Borrowed("omnect_validate_update_failed"),
            BootEnvKey::BootloaderUpdated => Cow::Borrowed("omnect_bootloader_updated"),
            BootEnvKey::FsckStatus(p) => Cow::Owned(concat2("omnect_fsck_", p.as_str())),
            BootEnvKey::FirstBootDone => Cow::Borrowed("omnect_first_boot_done"),
            BootEnvKey::ExtraBootArgs => Cow::Borrowed("omnect_extra_bootargs"),
            BootEnvKey::ResizedData => Cow::Borrowed("omnect_resized_data"),
            BootEnvKey::FactoryReset => Cow::Borrowed("factory-reset"),
            BootEnvKey::FactoryResetLastError => Cow::Borrowed("omnect_factory_reset_last_error"),
        }
    }

    /// The env-var name as owned text.
    pub fn to_string(&self) -> (s: String)
        ensures
            s@ == self.text(),
    {
        match self.as_str() {
            Cow::Borrowed(s) => s.to_owned(),
            Cow::Owned(s) => s,
        }
    }
}

/// Different keys are stored under different names.
pub proof fn law_keys_differ(a: BootEnvKey, b: BootEnvKey)
    ensures
        a.text() == b.text() ==> a == b,
{
    reveal_strlit("omnect_validate_update");
    reveal_strlit("omnect_validate_update_failed");
    reveal_strlit("omnect_bootloader_updated");
    reveal_strlit("omnect_fsck_");
    reveal_strlit("omnect_first_boot_done");
    reveal_strlit("omnect_extra_bootargs");
    reveal_strlit("omnect_resized_data");
    reveal_strlit("factory-reset");
    reveal_strlit("omnect_factory_reset_last_error");
    reveal_strlit("boot");
    reveal_strlit("rootA");
    reveal_strlit("rootB");
    reveal_strlit("rootCurrent");
    reveal_strlit("factory");
    reveal_strlit("cert");
    reveal_strlit("etc");
    reveal_strlit("data");
    reveal_strlit("extended");
    if a.text() == b.text() {
        assert(a.text().len() == b.text().len());
        assert(a.text()[7] == b.text()[7]);
        match (a, b) {
            (BootEnvKey::FsckStatus(p), BootEnvKey::FsckStatus(q)) => {
                assert(a.text().skip(12) =~= p.text());
                assert(b.text().skip(12) =~= q.text());
                crate::partition::layout::law_names_differ(p, q);
            },
            _ => {},
        }
    }
}

/// How a call of a boot environment ended, by view.
pub type EnvOutcome<T> = core::result::Result<T, Stop<BootEnvErrorView>>;

/// How a call that stores something ended.
pub type EnvDone = EnvOutcome<()>;

/// How a read ended.
pub type EnvRead = EnvOutcome<Option<Seq<char>>>;

/// How a read of a fsck record ended.
pub type EnvRecord = EnvOutcome<Option<(FsckExitCode, Seq<char>)>>;

/// How a read ended, by view.
pub open spec fn read_outcome(r: EnvResult<Option<String>>) -> EnvRead {
    match r {
        Ok(v) => Ok(v.deep_view()),
        Err(e) => Err(e@),
    }
}

/// How a read of a fsck record ended, by view.
pub open spec fn record_outcome(r: EnvResult<Option<FsckRecord>>) -> EnvRecord {
    match r {
        Ok(Some(record)) => Ok(Some(record@)),
        Ok(None) => Ok(None),
        Err(e) => Err(e@),
    }
}

/// How a call of a boot environment ended, as a step of the boot.
pub open spec fn env_lifted<T>(r: EnvOutcome<T>) -> InitOutcome<T> {
    match r {
        Ok(x) => Ok(x),
        Err(Stop::Pending) => Err(Stop::Pending),
        Err(Stop::Failed(e)) => Err(Stop::Failed(InitramfsError::Bootloader(e))),
    }
}

/// How a call of a boot environment ended, as a step of the boot.
pub fn lift_env<T: View>(r: EnvResult<T>) -> (l: core::result::Result<T, Stop<InitramfsError>>)
    ensures
        outcome(l) == env_lifted(outcome(r)),
{
    match r {
        Ok(x) => Ok(x),
        Err(Stop::Pending) => Err(Stop::Pending),
        Err(Stop::Failed(e)) => Err(Stop::Failed(InitramfsError::Bootloader(e))),
    }
}

/// A call that may fail: a failure is warned about, between the texts `before` and `after`.
/// `None` means that an answer is missing.
pub open spec fn tolerated(t: Transcript, r: EnvDone, before: Seq<char>, after: Seq<char>) -> (Transcript, Option<()>) {
    match r {
        Ok(_) => (t, Some(())),
        Err(Stop::Pending) => (t, None),
        Err(Stop::Failed(e)) => warned(t, before + e.text() + after),
    }
}

/// Goes on after a call that may fail, with a warning where it did. `None` means that an answer
/// is missing.
pub fn tolerate(r: EnvResult<()>, before: &str, after: &str, sys: &mut Session) -> (o: Option<()>)
    ensures
        (final(sys)@, o) == tolerated(old(sys)@, outcome(r), before@, after@),
{
    match r {
        Ok(()) => Some(()),
        Err(Stop::Pending) => None,
        Err(Stop::Failed(e)) => sys.warn(concat3(before, e.to_string().as_str(), after).as_str()),
    }
}

/// A text by view, if there is one.
pub open spec fn opt_text(value: Option<&str>) -> Option<Seq<char>> {
    match value {
        Some(s) => Some(s@),
        None => None,
    }
}

/// What is stored for a partition that a factory reset could not make usable.
pub open spec fn failure_text(partition: PartitionName, reason: Seq<char>) -> Seq<char> {
    partition.text() + ":"@ + truncated(reason, MAX_FACTORY_RESET_FAILURE_REASON_LEN as int)
}

/// A read value counts as set where it is there and not empty.
pub open spec fn flag_set(value: Option<Seq<char>>) -> bool {
    value is Some && value->0.len() > 0
}

/// Trait for boot environment access
///
/// This trait abstracts the differences between GRUB and U-Boot boot
/// environment access, allowing the rest of the codebase to work with
/// bootloader variables in a unified way.
///
/// What a call asks of the system, how it ends, and the state of the environment
/// afterwards follow from that state before and the answers of the system. Reading takes
/// `&mut self` because a backend may consume a record as it reads it.
pub trait BootEnv: Sized {
    /// What the environment holds itself.
    type State;

    spec fn state(&self) -> Self::State;

    /// A read.
    spec fn reads(t: Transcript, s: Self::State, key: BootEnvKey) -> (Transcript, Self::State, EnvRead);

    /// A write or, without a value, a deletion.
    spec fn writes(t: Transcript, s: Self::State, key: BootEnvKey, value: Option<Seq<char>>) -> (
        Transcript,
        Self::State,
        EnvDone,
    );

    /// Saving a fsck record.
    spec fn saves(
        t: Transcript,
        s: Self::State,
        partition: PartitionName,
        code: FsckExitCode,
        output: Seq<char>,
    ) -> (Transcript, Self::State, EnvDone);

    /// Asking for a fsck record.
    spec fn recalls(t: Transcript, s: Self::State, partition: PartitionName) -> (Transcript, Self::State, EnvRecord);

    /// Clearing a fsck record.
    spec fn clears(t: Transcript, s: Self::State, partition: PartitionName) -> (Transcript, Self::State, EnvDone);

    /// Get the value of a bootloader environment variable
    ///
    /// Returns `Ok(None)` if the variable doesn't exist.
    /// Returns `Err` if there was an error accessing the bootloader environment.
    fn get_env(&mut self, key: BootEnvKey, sys: &mut Session) -> (r: EnvResult<Option<String>>)
        ensures
            (final(sys)@, final(self).state(), read_outcome(r)) == Self::reads(old(sys)@, old(self).state(), key),
    ;

    /// Set or delete a bootloader environment variable
    ///
    /// Pass `Some(value)` to set the variable, or `None` to delete it.
    fn set_env(&mut self, key: BootEnvKey, value: Option<&str>, sys: &mut Session) -> (r: EnvResult<()>)
        ensures
            (final(sys)@, final(self).state(), outcome(r)) == Self::writes(
                old(sys)@,
                old(self).state(),
                key,
                opt_text(value),
            ),
    ;

    /// Save fsck result to bootloader environment.
    ///
    /// Stores exit code and full fsck output so the diagnostic text survives the
    /// reboot required after fsck corrects errors.
    fn save_fsck_status(&mut self, partition: PartitionName, code: FsckExitCode, output: &str, sys: &mut Session) -> (r:
        EnvResult<()>)
        ensures
            (final(sys)@, final(self).state(), outcome(r)) == Self::saves(
                old(sys)@,
                old(self).state(),
                partition,
                code,
                output@,
            ),
    ;

    /// Get fsck status from bootloader environment.
    ///
    /// Returns the decoded `FsckRecord` if a value is present,
    /// or `None` if no status was stored for this partition.
    fn get_fsck_status(&mut self, partition: PartitionName, sys: &mut Session) -> (r: EnvResult<Option<FsckRecord>>)
        ensures
            (final(sys)@, final(self).state(), record_outcome(r)) == Self::recalls(
                old(sys)@,
                old(self).state(),
                partition,
            ),
    ;

    /// Clear fsck status from bootloader environment
    fn clear_fsck_status(&mut self, partition: PartitionName, sys: &mut Session) -> (r: EnvResult<()>)
        ensures
            (final(sys)@, final(self).state(), outcome(r)) == Self::clears(old(sys)@, old(self).state(), partition),
    ;

    /// Persist an unrecoverable factory-reset reformat/mount failure.
    ///
    /// Stored as plain text `"<partition>:<reason>"`, readable directly with
    /// `fw_printenv`/`grub-editenv list`.
    fn save_factory_reset_failure(&mut self, partition: PartitionName, reason: &str, sys: &mut Session) -> (r: EnvResult<
        (),
    >)
        ensures
            (final(sys)@, final(self).state(), outcome(r)) == Self::writes(
                old(sys)@,
                old(self).state(),
                BootEnvKey::FactoryResetLastError,
                Some(failure_text(partition, reason@)),
            ),
    {
        let short = truncate_on_char_boundary(reason, MAX_FACTORY_RESET_FAILURE_REASON_LEN);
        let text = concat3(partition.as_str(), ":", short);
        self.set_env(BootEnvKey::FactoryResetLastError, Some(text.as_str()), sys)
    }

    /// Whether a variable is there and not empty.
    fn is_flag_set(&mut self, key: BootEnvKey, sys: &mut Session) -> (r: EnvResult<bool>)
        ensures
            ({
                let (t, s, answer) = Self::reads(old(sys)@, old(self).state(), key);
                &&& final(sys)@ == t
                &&& final(self).state() == s
                &&& outcome(r) == match answer {
                    Ok(v) => Ok(flag_set(v)),
                    Err(e) => Err(e),
                }
            }),
    {
        match self.get_env(key, sys) {
            Ok(Some(v)) => Ok(!v.as_str().is_empty()),
            Ok(None) => Ok(false),
            Err(e) => Err(e),
        }
    }
}

/// Writes or deletes a variable, if there is an environment. `None` means that an answer is
/// missing; a failure is warned about, between the texts `before` and `after`.
pub open spec fn noted<B: BootEnv>(
    t: Transcript,
    s: Option<B::State>,
    key: BootEnvKey,
    value: Option<Seq<char>>,
    before: Seq<char>,
    after: Seq<char>,
) -> (Transcript, Option<B::State>, Option<()>) {
    match s {
        Some(s0) => {
            let (t1, s1, r) = B::writes(t, s0, key, value);
            let (t2, done) = tolerated(t1, r, before, after);
            (t2, Some(s1), done)
        },
        None => (t, None, Some(())),
    }
}

/// Writes or deletes a variable, if there is an environment. Returns `None` if an answer is
/// missing; a failure is warned about, between the texts `before` and `after`.
pub fn note<B: BootEnv>(
    bootloader: Option<&mut B>,
    key: BootEnvKey,
    value: Option<&str>,
    before: &str,
    after: &str,
    sys: &mut Session,
) -> (r: Option<()>)
    ensures
        match bootloader {
            Some(b) => (final(sys)@, Some(final(b).state()), r) == noted::<B>(
                old(sys)@,
                Some(b.state()),
                key,
                opt_text(value),
                before@,
                after@,
            ),
            None => (final(sys)@, None::<B::State>, r) == noted::<B>(
                old(sys)@,
                None,
                key,
                opt_text(value),
                before@,
                after@,
            ),
        },
{
    match bootloader {
        Some(bl) => {
            let r = bl.set_env(key, value, sys);
            tolerate(r, before, after, sys)
        },
        None => Some(()),
    }
}

/// Boot environment state: opened successfully, or unavailable with reason.
pub enum BootEnvState<B: BootEnv> {
    /// Boot environment opened successfully.
    Available(B),
    /// Boot environment could not be opened.
    Degraded(BootEnvError),
}

impl<B: BootEnv> BootEnvState<B> {
    /// The state of the environment, if it is open.
    pub open spec fn state(&self) -> Option<B::State> {
        match *self {
            BootEnvState::Available(b) => Some(b.state()),
            BootEnvState::Degraded(_) => None,
        }
    }

    /// Returns `true` if the bootloader environment is unavailable.
    pub fn is_degraded(&self) -> (r: bool)
        ensures
            r == (*self is Degraded),
    {
        match self {
            BootEnvState::Degraded(_) => true,
            BootEnvState::Available(_) => false,
        }
    }

    /// Returns a mutable reference to the boot env accessor if available.
    pub fn available_mut(&mut self) -> (r: Option<&mut B>)
        ensures
            match *old(self) {
                BootEnvState::Available(b) => r is Some && *r->0 == b && *final(self) == BootEnvState::Available(
                    *final(r->0),
                ),
                BootEnvState::Degraded(_) => r is None && *final(self) == *old(self),
            },
    {
        match self {
            BootEnvState::Available(b) => Some(b),
            BootEnvState::Degraded(_) => None,
        }
    }

    /// Returns a shared reference to the boot env accessor if available.
    pub fn available(&self) -> (r: Option<&B>)
        ensures
            match *self {
                BootEnvState::Available(b) => r == Some(&b),
                BootEnvState::Degraded(_) => r is None,
            },
    {
        match self {
            BootEnvState::Available(b) => Some(b),
            BootEnvState::Degraded(_) => None,
        }
    }
}

/// The outcome of `classify_boot_env`.
pub enum BootEnvDecision<B: BootEnv> {
    /// Continue init with this boot env state.
    Continue(BootEnvState<B>),
    /// Abort init with this error — caller passes it to the fatal-error handler.
    Abort(InitramfsError),
}

/// Decide how to proceed based on the bootloader open result and the image type.
///
/// - `Ok(bl)` → `Continue(Available(bl))` — successful open, both image types.
/// - `Err(e)` + release-image → `Continue(Degraded(e))` — degraded boot continues.
/// - `Err(e)` + debug-image → `Abort(DegradedBoot(e))` — enter debug shell immediately.
pub fn classify_boot_env<B: BootEnv>(open_result: Result<B>, is_release_image: bool) -> (r: BootEnvDecision<B>)
    ensures
        r == match open_result {
            Ok(bl) => BootEnvDecision::Continue(BootEnvState::Available(bl)),
            Err(e) => if is_release_image {
                BootEnvDecision::Continue(BootEnvState::Degraded(e))
            } else {
                BootEnvDecision::Abort(InitramfsError::DegradedBoot(e))
            },
        },
{
    match open_result {
        Ok(bl) => BootEnvDecision::Continue(BootEnvState::Available(bl)),
        Err(e) => {
            if is_release_image {
                BootEnvDecision::Continue(BootEnvState::Degraded(e))
            } else {
                BootEnvDecision::Abort(InitramfsError::DegradedBoot(e))
            }
        },
    }
}

} // verus!
