//! Init setup step: sync `omnect_extra_bootargs` to the bootloader env.
//!
//! On the fresh-flash boot only, this reads the boot-partition argument files
//! and, if they differ from the stored value, writes the value, verifies it,
//! flushes it to disk, and requests a reboot so the bootloader applies the
//! arguments from the next boot.

use vstd::prelude::*;
use vstd::string::*;

use crate::bootloader::{BootEnv, BootEnvKey};
use crate::error::{concat2, concat3, InitOutcome, InitramfsError, IoError, IoErrorKind};
use crate::filesystem::mount_points;
use crate::init_setup::InitSetupCtx;
use crate::path::{join, joined};
use crate::runtime::status::{ExtraBootArgsOutcome, ExtraBootArgsStatus, OdsView};
use crate::system::{outcome, text_of, IoErrorView, ReplyView, Request, Session, Stop, Transcript};
use crate::text::{is_word, join_of, lemma_words, lemma_words_of_join, same, trim, trim_of, words, words_of};

verus! {

/// Boot-partition file for distro-managed extra boot arguments.
pub const BOOTARGS_OMNECT_FILE: &'static str = "omnect_extra_bootargs_omnect";

/// Boot-partition file for user-managed extra boot arguments.
pub const BOOTARGS_CUSTOM_FILE: &'static str = "omnect_extra_bootargs_custom";

/// Gate: the sync runs only on the fresh-flash boot and never during an OTA
/// validation boot. `first_boot` alone already excludes OTA on devices that
/// already ran this init; `update_pending` covers the legacy-migration
/// validation boot, where the marker is still absent.
pub fn should_sync(first_boot: bool, update_pending: bool) -> (r: bool)
    ensures
        r == (first_boot && !update_pending),
{
    first_boot && !update_pending
}

/// What the answer to a read of a bootargs file says: no arguments, some, or an error.
pub open spec fn args_in(reply: ReplyView) -> Result<Option<Seq<char>>, IoErrorView> {
    match text_of(reply) {
        Ok(s) => if trim_of(s).len() == 0 {
            Ok(None)
        } else {
            Ok(Some(trim_of(s)))
        },
        Err(e) => if e.kind == IoErrorKind::NotFound {
            Ok(None)
        } else {
            Err(e)
        },
    }
}

/// Reads one bootargs file.
pub open spec fn args_file_read(t: Transcript, path: Seq<char>) -> (
    Transcript,
    Result<Option<Seq<char>>, Stop<IoErrorView>>,
) {
    (
        t.ask(Request::ReadText(path)),
        match t.next() {
            None => Err(Stop::Pending),
            Some(reply) => match args_in(reply) {
                Ok(args) => Ok(args),
                Err(e) => Err(Stop::Failed(e)),
            },
        },
    )
}

/// Read one bootargs file, trimmed. `Ok(None)` if empty or absent. A real read
/// error (not NotFound) propagates: the args are security-relevant, so the
/// caller must treat it as a failure, not as "no args".
pub fn read_bootargs_file(path: String, sys: &mut Session) -> (r: Result<Option<String>, Stop<IoError>>)
    ensures
        final(sys)@ == args_file_read(old(sys)@, path@).0,
        match r {
            Ok(v) => args_file_read(old(sys)@, path@).1 == Ok::<Option<Seq<char>>, Stop<IoErrorView>>(v.deep_view()),
            Err(e) => args_file_read(old(sys)@, path@).1 == Err::<Option<Seq<char>>, Stop<IoErrorView>>(e@),
        },
{
    match sys.fetch(Request::ReadText(path)) {
        None => Err(Stop::Pending),
        Some(Ok(s)) => {
            let trimmed = trim(s.as_str());
            if trimmed.as_str().is_empty() {
                Ok(None)
            } else {
                Ok(Some(trimmed))
            }
        },
        Some(Err(e)) => {
            if e.kind == IoErrorKind::NotFound {
                Ok(None)
            } else {
                Err(Stop::Failed(e))
            }
        },
    }
}

/// The words of a text with single spaces between them.
pub open spec fn squeezed(s: Seq<char>) -> Seq<char> {
    join_of(words_of(s), " "@)
}

/// The combined arguments of the two files.
pub open spec fn combined(omnect: Option<Seq<char>>, custom: Option<Seq<char>>) -> Seq<char> {
    squeezed(
        match (omnect, custom) {
            (Some(a), Some(b)) => a + " "@ + b,
            (Some(a), None) => a,
            (None, Some(b)) => b,
            (None, None) => ""@,
        },
    )
}

/// Reads the arguments from the two files.
pub open spec fn args_read(t: Transcript, boot_dir: Seq<char>) -> (Transcript, Result<Seq<char>, Stop<IoErrorView>>) {
    match args_file_read(t, joined(boot_dir, BOOTARGS_OMNECT_FILE@)) {
        (t1, Err(e)) => (t1, Err(e)),
        (t1, Ok(omnect)) => match args_file_read(t1, joined(boot_dir, BOOTARGS_CUSTOM_FILE@)) {
            (t2, Err(e)) => (t2, Err(e)),
            (t2, Ok(custom)) => (t2, Ok(combined(omnect, custom))),
        },
    }
}

/// Build the combined bootargs value from the two boot-partition files: the
/// distro file plus the optional custom file. Whitespace runs are squeezed to
/// single spaces to normalize irregular whitespace in hand-edited files, so the
/// built value is stable across boots.
pub fn read_extra_bootargs(boot_dir: &str, sys: &mut Session) -> (r: Result<String, Stop<IoError>>)
    ensures
        (final(sys)@, outcome(r)) == args_read(old(sys)@, boot_dir@),
{
    let omnect = match read_bootargs_file(join(boot_dir, BOOTARGS_OMNECT_FILE), sys) {
        Err(e) => {
            return Err(e);
        },
        Ok(v) => v,
    };
    let custom = match read_bootargs_file(join(boot_dir, BOOTARGS_CUSTOM_FILE), sys) {
        Err(e) => {
            return Err(e);
        },
        Ok(v) => v,
    };
    let whole = match (omnect, custom) {
        (Some(a), Some(b)) => concat3(a.as_str(), " ", b.as_str()),
        (Some(a), None) => a,
        (None, Some(b)) => b,
        (None, None) => String::from_str(""),
    };
    Ok(crate::text::join(&words(whole.as_str()), " "))
}

/// The report of a sync that failed, by view.
pub type ExtraBootArgsView = ExtraBootArgsStatus<Seq<char>>;

/// What is reported of a sync that failed.
pub open spec fn failure(outcome: ExtraBootArgsOutcome, reason: Seq<char>) -> ExtraBootArgsView {
    ExtraBootArgsStatus { outcome, reason }
}

/// The status after a sync that failed.
pub open spec fn sync_failed(o: OdsView, failure: ExtraBootArgsView) -> OdsView {
    OdsView { extra_bootargs: Some(failure), ..o }
}

/// A value that was read, or nothing.
pub open spec fn or_empty(value: Option<Seq<char>>) -> Seq<char> {
    match value {
        Some(v) => v,
        None => Seq::empty(),
    }
}

/// What is written for the new arguments; no arguments delete the variable.
pub open spec fn value_for(args: Seq<char>) -> Option<Seq<char>> {
    if args.len() == 0 {
        None
    } else {
        Some(args)
    }
}

/// Stores new arguments and reads them back. `Ok(true)` means that they are stored as they
/// are.
pub open spec fn stored<B: BootEnv>(t: Transcript, s: B::State, args: Seq<char>) -> (
    Transcript,
    B::State,
    Result<bool, Stop<ExtraBootArgsView>>,
) {
    match B::writes(t, s, BootEnvKey::ExtraBootArgs, value_for(args)) {
        (t1, s1, Err(Stop::Pending)) => (t1, s1, Err(Stop::Pending)),
        (t1, s1, Err(Stop::Failed(e))) => (
            t1,
            s1,
            Err(Stop::Failed(failure(ExtraBootArgsOutcome::SetEnvFailed, "set_env failed: "@ + e.text()))),
        ),
        (t1, s1, Ok(_)) => match B::reads(t1, s1, BootEnvKey::ExtraBootArgs) {
            (t2, s2, Err(Stop::Pending)) => (t2, s2, Err(Stop::Pending)),
            (t2, s2, Err(Stop::Failed(e))) => (
                t2,
                s2,
                Err(Stop::Failed(failure(ExtraBootArgsOutcome::ReadBackFailed, "read-back failed: "@ + e.text()))),
            ),
            (t2, s2, Ok(v)) => (
                t2,
                s2,
                if or_empty(v) == args {
                    Ok(true)
                } else {
                    Err(Stop::Failed(failure(ExtraBootArgsOutcome::ReadBackMismatch, "read-back verify mismatch"@)))
                },
            ),
        },
    }
}

/// Compares the stored arguments with the new ones and stores those where they differ. The
/// last part says whether the stored arguments were replaced.
pub open spec fn replaced<B: BootEnv>(t: Transcript, s: B::State, args: Seq<char>) -> (
    Transcript,
    B::State,
    Result<bool, Stop<ExtraBootArgsView>>,
) {
    match B::reads(t, s, BootEnvKey::ExtraBootArgs) {
        (t1, s1, Err(Stop::Pending)) => (t1, s1, Err(Stop::Pending)),
        (t1, s1, Err(Stop::Failed(e))) => (
            t1,
            s1,
            Err(Stop::Failed(failure(ExtraBootArgsOutcome::ReadFailed, "read current value failed: "@ + e.text()))),
        ),
        (t1, s1, Ok(v)) => if or_empty(v) == args {
            (t1, s1, Ok(false))
        } else {
            stored::<B>(t1, s1, args)
        },
    }
}

/// Syncs the extra boot arguments.
pub open spec fn synced<B: BootEnv>(
    t: Transcript,
    s: Option<B::State>,
    o: OdsView,
    rootfs: Seq<char>,
    update_pending: bool,
) -> (Transcript, Option<B::State>, OdsView, InitOutcome<()>) {
    if !o.first_boot || update_pending {
        (t, s, o, Ok(()))
    } else {
        match args_read(t, joined(rootfs, mount_points::BOOT@)) {
            (t1, Err(Stop::Pending)) => (t1, s, o, Err(Stop::Pending)),
            (t1, Err(Stop::Failed(e))) => (
                t1,
                s,
                sync_failed(
                    o,
                    failure(ExtraBootArgsOutcome::FileReadFailed, "reading bootargs files failed: "@ + e.text()),
                ),
                Ok(()),
            ),
            (t1, Ok(args)) => match s {
                None => (t1, s, o, Ok(())),
                Some(s0) => match replaced::<B>(t1, s0, args) {
                    (t2, s2, Err(Stop::Pending)) => (t2, Some(s2), o, Err(Stop::Pending)),
                    (t2, s2, Err(Stop::Failed(why))) => (t2, Some(s2), sync_failed(o, why), Ok(())),
                    (t2, s2, Ok(false)) => (t2, Some(s2), o, Ok(())),
                    (t2, s2, Ok(true)) => (
                        t2.ask(Request::Sync),
                        Some(s2),
                        o,
                        match t2.next() {
                            None => Err(Stop::Pending),
                            Some(_) => Err(Stop::Failed(InitramfsError::ExtraBootArgsUpdated)),
                        },
                    ),
                },
            },
        }
    }
}

fn failed(outcome: ExtraBootArgsOutcome, what: &str, why: &str) -> (r: ExtraBootArgsStatus)
    ensures
        r@ == (ExtraBootArgsStatus { outcome, reason: what@ + why@ }),
{
    ExtraBootArgsStatus { outcome, reason: concat2(what, why) }
}

/// Whether a value that was read is the given text, with nothing read as empty.
fn holds(value: &Option<String>, text: &str) -> (r: bool)
    ensures
        r == (or_empty(value.deep_view()) == text@),
{
    match value {
        Some(v) => same(v.as_str(), text),
        None => {
            let r = text.is_empty();
            assert(r ==> text@ =~= Seq::<char>::empty());
            r
        },
    }
}

/// Compares the stored arguments with the new ones and stores those where they differ.
/// Returns whether the stored arguments were replaced; a failure is returned as a status.
fn replace_args<B: BootEnv>(bl: &mut B, new_args: &str, sys: &mut Session) -> (r: Result<
    bool,
    Stop<ExtraBootArgsStatus>,
>)
    ensures
        (final(sys)@, final(bl).state(), outcome(r)) == replaced::<B>(old(sys)@, old(bl).state(), new_args@),
{
    let current = match bl.get_env(BootEnvKey::ExtraBootArgs, sys) {
        Ok(v) => v,
        Err(Stop::Pending) => {
            return Err(Stop::Pending);
        },
        Err(Stop::Failed(e)) => {
            return Err(
                Stop::Failed(
                    failed(
                        ExtraBootArgsOutcome::ReadFailed,
                        "read current value failed: ",
                        e.to_string().as_str(),
                    ),
                ),
            );
        },
    };
    if holds(&current, new_args) {
        return Ok(false);
    }
    let value = if new_args.is_empty() {
        None
    } else {
        Some(new_args)
    };
    match bl.set_env(BootEnvKey::ExtraBootArgs, value, sys) {
        Ok(()) => {},
        Err(Stop::Pending) => {
            return Err(Stop::Pending);
        },
        Err(Stop::Failed(e)) => {
            return Err(
                Stop::Failed(
                    failed(ExtraBootArgsOutcome::SetEnvFailed, "set_env failed: ", e.to_string().as_str()),
                ),
            );
        },
    }
    // Read-back verify: if the stored value reads back different from what was
    // written, rebooting could never converge (current never equals new_args).
    // The value is not rolled back — a mismatch is a genuine write fault.
    let readback = match bl.get_env(BootEnvKey::ExtraBootArgs, sys) {
        Ok(v) => v,
        Err(Stop::Pending) => {
            return Err(Stop::Pending);
        },
        Err(Stop::Failed(e)) => {
            return Err(
                Stop::Failed(
                    failed(ExtraBootArgsOutcome::ReadBackFailed, "read-back failed: ", e.to_string().as_str()),
                ),
            );
        },
    };
    if !holds(&readback, new_args) {
        return Err(
            Stop::Failed(
                ExtraBootArgsStatus {
                    outcome: ExtraBootArgsOutcome::ReadBackMismatch,
                    reason: String::from_str("read-back verify mismatch"),
                },
            ),
        );
    }
    Ok(true)
}

/// Sync `omnect_extra_bootargs` on the fresh-flash boot, then request a reboot.
///
/// Returns `Err(InitramfsError::ExtraBootArgsUpdated)` when the value changed
/// and was written, verified and flushed — the caller reboots. Every other
/// path returns `Ok(())`: the step is best-effort and never blocks boot. ODS
/// status is set only on failure (`None` otherwise).
pub fn run<B: BootEnv>(ctx: &mut InitSetupCtx<B>, sys: &mut Session) -> (r: Result<(), Stop<InitramfsError>>)
    ensures
        final(ctx).same_frame(*old(ctx)),
        (final(sys)@, final(ctx).boot_env.state(), final(ctx).ods_status@, outcome(r)) == synced::<B>(
            old(sys)@,
            old(ctx).boot_env.state(),
            old(ctx).ods_status@,
            old(ctx).rootfs@,
            old(ctx).update_pending,
        ),
{
    if !should_sync(ctx.ods_status.first_boot, ctx.update_pending) {
        return Ok(());
    }
    let boot_dir = join(ctx.rootfs, mount_points::BOOT);
    let new_args = match read_extra_bootargs(boot_dir.as_str(), sys) {
        Ok(args) => args,
        Err(Stop::Pending) => {
            return Err(Stop::Pending);
        },
        Err(Stop::Failed(e)) => {
            ctx.ods_status.set_extra_bootargs_status(
                failed(
                    ExtraBootArgsOutcome::FileReadFailed,
                    "reading bootargs files failed: ",
                    e.to_string().as_str(),
                ),
            );
            return Ok(());
        },
    };
    // `first_boot == true` implies the env is available (`compute_first_boot`
    // returns false on a degraded env), so the None arm cannot occur in
    // production. Kept as a defensive no-op.
    let answer = match ctx.boot_env.available_mut() {
        None => {
            return Ok(());
        },
        Some(bl) => replace_args(bl, new_args.as_str(), sys),
    };
    match answer {
        Err(Stop::Pending) => Err(Stop::Pending),
        Err(Stop::Failed(status)) => {
            ctx.ods_status.set_extra_bootargs_status(status);
            Ok(())
        },
        Ok(false) => Ok(()),
        Ok(true) => {
            // Flush the env write to disk. reboot(2) with RB_AUTOBOOT does not sync,
            // so without this the write can be lost across the reboot and loop forever.
            //
            // Success is not recorded in ODS: the reboot comes before the JSON is written,
            // and the next boot is a no-op.
            match sys.ask(Request::Sync) {
                None => Err(Stop::Pending),
                Some(_) => Err(Stop::Failed(InitramfsError::ExtraBootArgsUpdated)),
            }
        },
    }
}

/// Outside the first boot, and while an update is being validated, nothing is read, written
/// or reported.
pub proof fn law_gate<B: BootEnv>(
    t: Transcript,
    s: Option<B::State>,
    o: OdsView,
    rootfs: Seq<char>,
    update_pending: bool,
)
    requires
        !o.first_boot || update_pending,
    ensures
        synced::<B>(t, s, o, rootfs, update_pending) == (t, s, o, InitOutcome::Ok(())),
{
}

/// A reboot is asked for only if the new arguments differed from the stored ones and read
/// back as they were written, and the write was flushed; such a sync leaves no report.
pub proof fn law_reboot_only_after_verified_write<B: BootEnv>(
    t: Transcript,
    s: Option<B::State>,
    o: OdsView,
    rootfs: Seq<char>,
    update_pending: bool,
)
    requires
        synced::<B>(t, s, o, rootfs, update_pending).3 matches Err(Stop::Failed(_)),
    ensures
        ({
            let (t1, read) = args_read(t, joined(rootfs, mount_points::BOOT@));
            let args = read->Ok_0;
            let (t2, s2, before) = B::reads(t1, s->0, BootEnvKey::ExtraBootArgs);
            let (t3, s3, written) = B::writes(t2, s2, BootEnvKey::ExtraBootArgs, value_for(args));
            let (t4, s4, after) = B::reads(t3, s3, BootEnvKey::ExtraBootArgs);
            &&& s is Some
            &&& read is Ok
            &&& before matches Ok(v) && or_empty(v) != args
            &&& written is Ok
            &&& after matches Ok(v) && or_empty(v) == args
            &&& synced::<B>(t, s, o, rootfs, update_pending) == (
                t4.ask(Request::Sync),
                Some(s4),
                o,
                InitOutcome::<()>::Err(Stop::Failed(InitramfsError::ExtraBootArgsUpdated)),
            )
        }),
{
}

/// Squeezed arguments have the words of the text they come from, and squeezing them again
/// changes nothing: the value that is built is stable across boots.
pub proof fn law_squeeze_stable(s: Seq<char>)
    ensures
        words_of(squeezed(s)) == words_of(s),
        squeezed(squeezed(s)) == squeezed(s),
{
    assert forall|i: int| 0 <= i < words_of(s).len() implies is_word(#[trigger] words_of(s)[i]) by {
        lemma_words(s, i);
    }
    lemma_words_of_join(words_of(s));
}

} // verus!
