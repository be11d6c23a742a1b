//! How a factory reset is reported

use vstd::prelude::*;
use vstd::string::*;

use crate::error::{concat2, concat3, FactoryResetError, InitErrorView, InitramfsError};
use crate::mode::factory_reset::backup_restore::{RestoreResult, RestoreView, CONTEXT_SEPARATOR};
use crate::mode::factory_reset::retry::{ResetFailureSignal, SignalView};
use crate::partition::PartitionName;
use crate::runtime::status::{FactoryResetStatus, FactoryResetStatusCode, FactoryResetView};
use crate::text::{join, join_of, push_text};

verus! {

/// The names of some partitions, separated by commas.
pub open spec fn names_text(partitions: Seq<PartitionName>) -> Seq<char> {
    join_of(partitions.map_values(|p: PartitionName| p.text()), ","@)
}

fn names_string(partitions: &Vec<PartitionName>) -> (r: String)
    ensures
        r@ == names_text(partitions@),
{
    let ghost all = partitions@.map_values(|p: PartitionName| p.text());
    let mut names: Vec<String> = Vec::new();
    assert(names.deep_view() =~= all.take(0));
    let mut i: usize = 0;
    while i < partitions.len()
        invariant
            i <= partitions@.len(),
            all == partitions@.map_values(|p: PartitionName| p.text()),
            names.deep_view() == all.take(i as int),
        decreases partitions.len() - i,
    {
        push_text(&mut names, partitions[i].as_str());
        assert(names.deep_view() =~= all.take(i + 1));
        i = i + 1;
    }
    assert(all.take(i as int) =~= all);
    join(&names, ",")
}

/// The note about the partitions that were reformatted twice.
pub open spec fn retry_note_of(retried: Seq<PartitionName>) -> Option<Seq<char>> {
    if retried.len() == 0 {
        None
    } else {
        Some(names_text(retried) + " reformatted twice"@)
    }
}

/// Human-readable note for a partition that needed a reformat retry, for the
/// `context` field. Empty `retried` → None.
pub fn retry_note(retried: &Vec<PartitionName>) -> (r: Option<String>)
    ensures
        r.deep_view() == retry_note_of(retried@),
{
    if retried.len() == 0 {
        return None;
    }
    Some(concat2(names_string(retried).as_str(), " reformatted twice"))
}

/// The error about the partitions that could not be reformatted.
pub open spec fn mkfs_note_of(failed: Seq<PartitionName>) -> Seq<char> {
    names_text(failed) + ": mkfs failed twice"@
}

/// Error text for partitions whose `mkfs` failed both times.
pub fn mkfs_failed_note(reformat_failed: &Vec<PartitionName>) -> (r: String)
    ensures
        r@ == mkfs_note_of(reformat_failed@),
{
    concat2(names_string(reformat_failed).as_str(), ": mkfs failed twice")
}

/// Two notes with the separator between them, where both are there.
pub open spec fn joined_context(retry: Option<Seq<char>>, restore: Option<Seq<char>>) -> Option<Seq<char>> {
    match (retry, restore) {
        (Some(a), Some(b)) => Some(a + CONTEXT_SEPARATOR@ + b),
        (Some(a), None) => Some(a),
        (None, b) => b,
    }
}

pub fn join_context(retry_note: Option<String>, restore_context: Option<String>) -> (r: Option<String>)
    ensures
        r.deep_view() == joined_context(retry_note.deep_view(), restore_context.deep_view()),
{
    match (retry_note, restore_context) {
        (Some(a), Some(b)) => Some(concat3(a.as_str(), CONTEXT_SEPARATOR, b.as_str())),
        (Some(a), None) => Some(a),
        (None, Some(b)) => Some(b),
        (None, None) => None,
    }
}

fn copy_texts(list: &Vec<String>) -> (r: Vec<String>)
    ensures
        r.deep_view() == list.deep_view(),
{
    let mut r: Vec<String> = Vec::new();
    let mut i: usize = 0;
    assert(r.deep_view() =~= list.deep_view().take(0));
    while i < list.len()
        invariant
            i <= list@.len(),
            r.deep_view() == list.deep_view().take(i as int),
        decreases list.len() - i,
    {
        push_text(&mut r, list[i].as_str());
        assert(r.deep_view() =~= list.deep_view().take(i + 1));
        i = i + 1;
    }
    assert(list.deep_view().take(i as int) =~= list.deep_view());
    r
}

/// The report of a reset where a partition never became usable.
pub open spec fn exhausted_report(signal: SignalView, retried: Seq<PartitionName>, preserve: Seq<Seq<char>>) -> FactoryResetView {
    FactoryResetStatus {
        status: FactoryResetStatusCode::Error,
        error: Some(signal.reason),
        context: retry_note_of(retried),
        paths: preserve,
        data_wiped: true,
    }
}

/// Status for the case where a partition never became usable — restore never
/// runs, so `data_wiped` is the only evidence the preserved data is lost.
pub fn exhausted_status(signal: &ResetFailureSignal, retried: &Vec<PartitionName>, preserve_list: &Vec<String>) -> (r:
    FactoryResetStatus)
    ensures
        r@ == exhausted_report(signal@, retried@, preserve_list.deep_view()),
{
    FactoryResetStatus {
        status: FactoryResetStatusCode::Error,
        error: Some(signal.reason.clone()),
        context: retry_note(retried),
        paths: copy_texts(preserve_list),
        data_wiped: true,
    }
}

/// Pair the Error status with the signal to persist, so the exhausted branch
/// cannot return one without the other.
pub fn exhausted_outcome(signal: ResetFailureSignal, retried: &Vec<PartitionName>, preserve_list: &Vec<String>) -> (r: (
    FactoryResetStatus,
    Option<ResetFailureSignal>,
))
    ensures
        r.0@ == exhausted_report(signal@, retried@, preserve_list.deep_view()),
        r.1 == Some(signal),
{
    let status = exhausted_status(&signal, retried, preserve_list);
    (status, Some(signal))
}

/// The report of a reset that got as far as the restore.
pub open spec fn restored_report(
    retried: Seq<PartitionName>,
    reformat_failed: Seq<PartitionName>,
    restore: RestoreView,
    preserve: Seq<Seq<char>>,
) -> FactoryResetView {
    let note = retry_note_of(retried);
    let (status, error, context) = match restore {
        RestoreResult::Success => if reformat_failed.len() > 0 {
            (FactoryResetStatusCode::Error, Some(mkfs_note_of(reformat_failed)), note)
        } else if retried.len() > 0 {
            (FactoryResetStatusCode::Warning, None, note)
        } else {
            (FactoryResetStatusCode::Success, None, note)
        },
        RestoreResult::PartialFailure { context, error } => (
            FactoryResetStatusCode::Error,
            Some(
                if reformat_failed.len() == 0 {
                    error
                } else {
                    mkfs_note_of(reformat_failed) + CONTEXT_SEPARATOR@ + error
                },
            ),
            joined_context(note, Some(context)),
        ),
    };
    FactoryResetStatus { status, error, context, paths: preserve, data_wiped: true }
}

/// Status for the case where mounts succeeded and restore ran.
/// `data_wiped` is always `true` since the reformat already happened.
pub fn restored_status(
    retried: &Vec<PartitionName>,
    reformat_failed: &Vec<PartitionName>,
    restore: RestoreResult,
    preserve_list: &Vec<String>,
) -> (r: FactoryResetStatus)
    ensures
        r@ == restored_report(retried@, reformat_failed@, restore@, preserve_list.deep_view()),
{
    let note = retry_note(retried);
    let paths = copy_texts(preserve_list);
    match restore {
        RestoreResult::Success => {
            if reformat_failed.len() > 0 {
                FactoryResetStatus {
                    status: FactoryResetStatusCode::Error,
                    error: Some(mkfs_failed_note(reformat_failed)),
                    context: note,
                    paths,
                    data_wiped: true,
                }
            } else if retried.len() > 0 {
                FactoryResetStatus {
                    status: FactoryResetStatusCode::Warning,
                    error: None,
                    context: note,
                    paths,
                    data_wiped: true,
                }
            } else {
                FactoryResetStatus {
                    status: FactoryResetStatusCode::Success,
                    error: None,
                    context: note,
                    paths,
                    data_wiped: true,
                }
            }
        },
        RestoreResult::PartialFailure { context, error } => {
            // A double mkfs failure here would otherwise be hidden behind the
            // restore error; keep the suspect-storage signal in `error`.
            let error = if reformat_failed.len() == 0 {
                error
            } else {
                concat3(mkfs_failed_note(reformat_failed).as_str(), CONTEXT_SEPARATOR, error.as_str())
            };
            FactoryResetStatus {
                status: FactoryResetStatusCode::Error,
                error: Some(error),
                context: join_context(note, Some(context)),
                paths,
                data_wiped: true,
            }
        },
    }
}

/// The report of a reset that failed in its destructive phase.
pub open spec fn destructive_failure_report(e: InitErrorView, preserve: Seq<Seq<char>>) -> FactoryResetView {
    FactoryResetStatus {
        status: FactoryResetStatusCode::Error,
        error: Some(e.text()),
        context: None,
        paths: preserve,
        data_wiped: true,
    }
}

/// Build the status for a failure that occurred during or after the
/// destructive phase — `data_wiped: true` and the preserve list are always
/// populated so ODS/cloud can tell this apart from a safe pre-reformat abort
/// and see what was lost.
pub fn destructive_phase_failure_status(e: InitramfsError, paths: Vec<String>) -> (r: FactoryResetStatus)
    ensures
        r@ == destructive_failure_report(e@, paths.deep_view()),
{
    FactoryResetStatus {
        status: FactoryResetStatusCode::Error,
        error: Some(e.to_string()),
        context: None,
        paths,
        data_wiped: true,
    }
}

/// The code of a reset that failed before its destructive phase.
pub open spec fn failure_code(e: InitErrorView) -> FactoryResetStatusCode {
    match e {
        InitramfsError::FactoryReset(FactoryResetError::InvalidConfig(_)) => FactoryResetStatusCode::Invalid,
        InitramfsError::FactoryReset(FactoryResetError::MissingField(_)) => FactoryResetStatusCode::ConfigError,
        _ => FactoryResetStatusCode::Error,
    }
}

/// Status code for a reset that failed before the destructive phase — config
/// problems are distinguished so ODS/cloud can tell a bad trigger from a real
/// failure. `RestoreFailed` cannot arrive here: `restore_all` accumulates
/// per-path failures as `PartialFailure` and returns `Ok`.
pub fn failure_status_code(e: &InitramfsError) -> (r: FactoryResetStatusCode)
    ensures
        r == failure_code(e@),
{
    match e {
        InitramfsError::FactoryReset(FactoryResetError::InvalidConfig(_)) => FactoryResetStatusCode::Invalid,
        InitramfsError::FactoryReset(FactoryResetError::MissingField(_)) => FactoryResetStatusCode::ConfigError,
        _ => FactoryResetStatusCode::Error,
    }
}

/// The report of a reset that failed before its destructive phase.
pub open spec fn aborted_report(e: InitErrorView) -> FactoryResetView {
    FactoryResetStatus {
        status: failure_code(e),
        error: Some(e.text()),
        context: None,
        paths: Seq::empty(),
        data_wiped: false,
    }
}

/// Status for a reset that failed before its destructive phase.
pub fn aborted_status(e: &InitramfsError) -> (r: FactoryResetStatus)
    ensures
        r@ == aborted_report(e@),
{
    let paths: Vec<String> = Vec::new();
    assert(paths.deep_view() =~= Seq::<Seq<char>>::empty());
    FactoryResetStatus {
        status: failure_status_code(e),
        error: Some(e.to_string()),
        context: None,
        paths,
        data_wiped: false,
    }
}

/// A reset is reported as a success or a warning only where everything was restored and no
/// reformat failed twice; as a success only where none had to be repeated.
pub proof fn law_restored_report(
    retried: Seq<PartitionName>,
    reformat_failed: Seq<PartitionName>,
    restore: RestoreView,
    preserve: Seq<Seq<char>>,
)
    ensures
        ({
            let r = restored_report(retried, reformat_failed, restore, preserve);
            &&& r.data_wiped
            &&& r.paths == preserve
            &&& (r.status == FactoryResetStatusCode::Success <==> restore is Success && reformat_failed.len() == 0
                && retried.len() == 0)
            &&& (r.status == FactoryResetStatusCode::Warning <==> restore is Success && reformat_failed.len() == 0
                && retried.len() > 0)
            &&& (r.error is None <==> r.status != FactoryResetStatusCode::Error)
        }),
{
}

} // verus!
