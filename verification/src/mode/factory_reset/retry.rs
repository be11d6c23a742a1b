//! Reformatting with a retry, and mounting afterwards

use vstd::prelude::*;
use vstd::string::*;

use crate::error::{concat4, FilesystemError, InitErrorView, InitOutcome, InitramfsError};
use crate::filesystem::{mount_points, paths};
use crate::partition::PartitionName;
use crate::path::{components_of, is_under, join, joined, lies_under, same_path};
use crate::system::{outcome, Stop};

verus! {

/// ext4 volume labels applied by `reformat_ext4` — distinct from the
/// `mount_points` path constants, which name mount *locations* not labels.
pub const DATA_PARTITION_LABEL: &'static str = "data";

pub const ETC_PARTITION_LABEL: &'static str = "etc";

/// Devices and paths needed by the destructive phase.
pub struct ReformatTargets<'a> {
    pub data_dev: &'a str,
    pub etc_dev: &'a str,
    pub preserve_list: &'a Vec<String>,
    pub backed_up: &'a Vec<String>,
    pub backup_dir: &'a str,
}

/// Outcome of the reformat + mount, returned so the caller can set the success
/// `context` note and, on a mount failure, the bootloader-env signal.
#[derive(Debug)]
pub struct RetryReport<S = String, L = Vec<PartitionName>> {
    /// Partitions whose `mkfs` failed at least once and was retried. Superset
    /// of `reformat_failed`.
    pub retried: L,
    /// Partitions whose `mkfs` failed both times; the mount was still attempted.
    /// A recovered single failure is a `Warning`, two failures are an `Error`.
    pub reformat_failed: L,
    /// Set when the mount failed on a `data`/`etc` partition: the signal to persist.
    pub exhausted: Option<ResetFailureSignal<S>>,
}

/// Partition and reason for a mount failure the reset could not get past,
/// carried out of the destructive phase for the bootloader-env write.
#[derive(Debug)]
pub struct ResetFailureSignal<S = String> {
    pub partition: PartitionName,
    pub reason: S,
}

/// A failure signal by view.
pub type SignalView = ResetFailureSignal<Seq<char>>;

/// A report by view.
pub type ReportView = RetryReport<Seq<char>, Seq<PartitionName>>;

impl View for ResetFailureSignal {
    type V = SignalView;

    open spec fn view(&self) -> SignalView {
        ResetFailureSignal { partition: self.partition, reason: self.reason@ }
    }
}

impl View for RetryReport {
    type V = ReportView;

    open spec fn view(&self) -> ReportView {
        RetryReport {
            retried: self.retried@,
            reformat_failed: self.reformat_failed@,
            exhausted: crate::system::opt_view(self.exhausted),
        }
    }
}

/// The destructive-phase reformat/mount side effects. What they come to, and the state
/// afterwards, follow from the state before.
pub trait ReformatRetryOps: Sized {
    type State;

    spec fn state(&self) -> Self::State;

    /// What a reformat comes to, and the state afterwards.
    spec fn reformats(s: Self::State, device: Seq<char>, label: Seq<char>) -> (InitOutcome<()>, Self::State);

    /// A warning: `None` means that an answer is missing. The state afterwards.
    spec fn warns(s: Self::State, message: Seq<char>) -> (Option<()>, Self::State);

    /// What mounting everything comes to, and the state afterwards.
    spec fn mounts(s: Self::State) -> (InitOutcome<()>, Self::State);

    fn reformat(&mut self, device: &str, label: &str) -> (r: Result<(), Stop<InitramfsError>>)
        ensures
            (outcome(r), final(self).state()) == Self::reformats(old(self).state(), device@, label@),
    ;

    /// Warns the operator. Returns `None` if an answer is missing.
    fn warn(&mut self, message: &str) -> (r: Option<()>)
        ensures
            (r, final(self).state()) == Self::warns(old(self).state(), message@),
    ;

    fn mount_all(&mut self) -> (r: Result<(), Stop<InitramfsError>>)
        ensures
            (outcome(r), final(self).state()) == Self::mounts(old(self).state()),
    ;
}

/// The reformatted partition that a mount failure is about, if it is about one of them.
pub open spec fn failed_partition(e: InitErrorView, rootfs: Seq<char>, data_dev: Seq<char>, etc_dev: Seq<char>) -> Option<
    PartitionName,
> {
    match e {
        InitramfsError::Filesystem(FilesystemError::MountFailed { src_path, .. }) => if components_of(src_path)
            == components_of(data_dev) {
            Some(PartitionName::Data)
        } else if components_of(src_path) == components_of(etc_dev) {
            Some(PartitionName::Etc)
        } else {
            None
        },
        InitramfsError::Filesystem(FilesystemError::OverlayFailed { target, .. }) => if lies_under(
            target,
            joined(rootfs, mount_points::DATA_PARTITION@),
        ) || components_of(target) == components_of(joined(rootfs, paths::HOME@)) {
            Some(PartitionName::Data)
        } else if lies_under(target, joined(rootfs, mount_points::ETC_PARTITION@)) || components_of(target)
            == components_of(joined(rootfs, paths::ETC@)) {
            Some(PartitionName::Etc)
        } else {
            None
        },
        _ => None,
    }
}

/// Resolve a mount/overlay failure back to the reformatted partition it
/// concerns. For partition mounts `MountFailed.src_path` is the device — match
/// it against the target device paths; a bind-mount source matches neither and
/// yields `None`. `OverlayFailed` carries the mount point — match against the
/// etc/data mount points. Any other error yields `None`, so the caller
/// propagates it without retrying.
///
/// COUPLING: `src_path` equals `targets.data_dev`/`etc_dev` only because both
/// come from the same `layout.partitions` lookup. If a future change resolves
/// one side to a different path form (e.g. `/dev/omnect/data`), this match
/// silently stops firing.
pub fn resolve_failed_partition(err: &InitramfsError, rootfs: &str, targets: &ReformatTargets) -> (r: Option<PartitionName>)
    ensures
        r == failed_partition(err@, rootfs@, targets.data_dev@, targets.etc_dev@),
{
    match err {
        InitramfsError::Filesystem(FilesystemError::MountFailed { src_path, .. }) => {
            if same_path(src_path.as_str(), targets.data_dev) {
                Some(PartitionName::Data)
            } else if same_path(src_path.as_str(), targets.etc_dev) {
                Some(PartitionName::Etc)
            } else {
                None
            }
        },
        InitramfsError::Filesystem(FilesystemError::OverlayFailed { target, .. }) => {
            // Match the overlay upper/work dir under the partition mount point
            // (dir-prep failure, e.g. mnt/etc/upper — by prefix) and the overlay
            // mount target rootfs/etc / rootfs/home (mount-syscall failure — by
            // equality). Any other OverlayFailed target (e.g. a bind-mount dir)
            // yields None.
            let target = target.as_str();
            if is_under(target, join(rootfs, mount_points::DATA_PARTITION).as_str()) || same_path(
                target,
                join(rootfs, paths::HOME).as_str(),
            ) {
                Some(PartitionName::Data)
            } else if is_under(target, join(rootfs, mount_points::ETC_PARTITION).as_str()) || same_path(
                target,
                join(rootfs, paths::ETC).as_str(),
            ) {
                Some(PartitionName::Etc)
            } else {
                None
            }
        },
        _ => None,
    }
}

/// The warning after the first failure of a reformat.
pub open spec fn retry_warning(partition: PartitionName, e: InitErrorView) -> Seq<char> {
    "factory reset: mkfs of "@ + partition.text() + " failed, retrying once: "@ + e.text()
}

/// The warning after the second failure of a reformat.
pub open spec fn give_up_warning(partition: PartitionName, e: InitErrorView) -> Seq<char> {
    "factory reset: mkfs of "@ + partition.text() + " failed again; attempting the mount anyway: "@ + e.text()
}

/// Reformats a partition, once more where the first attempt fails, and warns after every
/// failure. The last part is how many attempts failed; `None` means that an answer is missing.
pub open spec fn formatted<O: ReformatRetryOps>(
    s: O::State,
    partition: PartitionName,
    device: Seq<char>,
    label: Seq<char>,
) -> (O::State, Option<int>) {
    match O::reformats(s, device, label) {
        (Err(Stop::Pending), s1) => (s1, None),
        (Ok(_), s1) => (s1, Some(0)),
        (Err(Stop::Failed(first)), s1) => match O::warns(s1, retry_warning(partition, first)) {
            (None, s2) => (s2, None),
            (Some(_), s2) => match O::reformats(s2, device, label) {
                (Err(Stop::Pending), s3) => (s3, None),
                (Ok(_), s3) => (s3, Some(1)),
                (Err(Stop::Failed(second)), s3) => match O::warns(s3, give_up_warning(partition, second)) {
                    (None, s4) => (s4, None),
                    (Some(_), s4) => (s4, Some(2)),
                },
            },
        },
    }
}

/// The partitions where at least `n` attempts failed.
pub open spec fn with_failures(n: int, data: int, etc: int) -> Seq<PartitionName> {
    (if data >= n {
        seq![PartitionName::Data]
    } else {
        Seq::empty()
    }) + (if etc >= n {
        seq![PartitionName::Etc]
    } else {
        Seq::empty()
    })
}

/// What the mount after the reformat comes to.
pub open spec fn mount_verdict(
    mounted: InitOutcome<()>,
    data: int,
    etc: int,
    rootfs: Seq<char>,
    data_dev: Seq<char>,
    etc_dev: Seq<char>,
) -> InitOutcome<ReportView> {
    let report = RetryReport {
        retried: with_failures(1, data, etc),
        reformat_failed: with_failures(2, data, etc),
        exhausted: None,
    };
    match mounted {
        Ok(_) => Ok(report),
        Err(Stop::Pending) => Err(Stop::Pending),
        Err(Stop::Failed(e)) => match failed_partition(e, rootfs, data_dev, etc_dev) {
            Some(partition) => Ok(
                RetryReport { exhausted: Some(ResetFailureSignal { partition, reason: e.text() }), ..report },
            ),
            None => Err(Stop::Failed(e)),
        },
    }
}

/// Reformats both partitions, then mounts everything.
pub open spec fn reformatted_and_mounted<O: ReformatRetryOps>(
    s: O::State,
    rootfs: Seq<char>,
    data_dev: Seq<char>,
    etc_dev: Seq<char>,
) -> (O::State, InitOutcome<ReportView>) {
    match formatted::<O>(s, PartitionName::Data, data_dev, DATA_PARTITION_LABEL@) {
        (s1, None) => (s1, Err(Stop::Pending)),
        (s1, Some(data)) => match formatted::<O>(s1, PartitionName::Etc, etc_dev, ETC_PARTITION_LABEL@) {
            (s2, None) => (s2, Err(Stop::Pending)),
            (s2, Some(etc)) => {
                let (mounted, s3) = O::mounts(s2);
                (s3, mount_verdict(mounted, data, etc, rootfs, data_dev, etc_dev))
            },
        },
    }
}

/// Reformats a partition, once more where the first attempt fails, and notes in the lists
/// what failed.
fn format_with_retry<O: ReformatRetryOps>(
    partition: PartitionName,
    device: &str,
    label: &str,
    retried: &mut Vec<PartitionName>,
    reformat_failed: &mut Vec<PartitionName>,
    ops: &mut O,
) -> (r: Option<()>)
    ensures
        final(ops).state() == formatted::<O>(old(ops).state(), partition, device@, label@).0,
        match formatted::<O>(old(ops).state(), partition, device@, label@).1 {
            None => r is None,
            Some(n) => {
                &&& r is Some
                &&& final(retried)@ == if n >= 1 {
                    old(retried)@.push(partition)
                } else {
                    old(retried)@
                }
                &&& final(reformat_failed)@ == if n >= 2 {
                    old(reformat_failed)@.push(partition)
                } else {
                    old(reformat_failed)@
                }
            },
        },
{
    match ops.reformat(device, label) {
        Err(Stop::Pending) => None,
        Ok(()) => Some(()),
        Err(Stop::Failed(first)) => {
            let warning = concat4(
                "factory reset: mkfs of ",
                partition.as_str(),
                " failed, retrying once: ",
                first.to_string().as_str(),
            );
            if ops.warn(warning.as_str()).is_none() {
                return None;
            }
            retried.push(partition);
            match ops.reformat(device, label) {
                Err(Stop::Pending) => None,
                Ok(()) => Some(()),
                Err(Stop::Failed(second)) => {
                    let warning = concat4(
                        "factory reset: mkfs of ",
                        partition.as_str(),
                        " failed again; attempting the mount anyway: ",
                        second.to_string().as_str(),
                    );
                    if ops.warn(warning.as_str()).is_none() {
                        return None;
                    }
                    reformat_failed.push(partition);
                    Some(())
                },
            }
        },
    }
}

/// Reformat `data` and `etc`, then mount. Each `mkfs` is retried once on
/// failure. The mount is always attempted and
/// decides the outcome: on success `exhausted` is `None`; a mount/overlay
/// failure resolving to `data`/`etc` becomes `RetryReport.exhausted` (a signal,
/// not `Err`), anything else propagates as `Err`. A mount failure is not
/// re-`mkfs`'d — a repeated `mkfs` would produce the same filesystem the mount
/// just rejected.
pub fn reformat_and_mount_with_retry<O: ReformatRetryOps>(rootfs: &str, targets: &ReformatTargets, ops: &mut O) -> (r:
    Result<RetryReport, Stop<InitramfsError>>)
    ensures
        (final(ops).state(), outcome(r)) == reformatted_and_mounted::<O>(
            old(ops).state(),
            rootfs@,
            targets.data_dev@,
            targets.etc_dev@,
        ),
{
    let mut retried: Vec<PartitionName> = Vec::new();
    let mut reformat_failed: Vec<PartitionName> = Vec::new();
    match format_with_retry(
        PartitionName::Data,
        targets.data_dev,
        DATA_PARTITION_LABEL,
        &mut retried,
        &mut reformat_failed,
        ops,
    ) {
        None => {
            return Err(Stop::Pending);
        },
        Some(()) => {},
    }
    let ghost data = formatted::<O>(
        old(ops).state(),
        PartitionName::Data,
        targets.data_dev@,
        DATA_PARTITION_LABEL@,
    ).1->0;
    let ghost s1 = ops.state();
    match format_with_retry(
        PartitionName::Etc,
        targets.etc_dev,
        ETC_PARTITION_LABEL,
        &mut retried,
        &mut reformat_failed,
        ops,
    ) {
        None => {
            return Err(Stop::Pending);
        },
        Some(()) => {},
    }
    let ghost etc = formatted::<O>(s1, PartitionName::Etc, targets.etc_dev@, ETC_PARTITION_LABEL@).1->0;
    assert(retried@ =~= with_failures(1, data, etc));
    assert(reformat_failed@ =~= with_failures(2, data, etc));
    match ops.mount_all() {
        Ok(()) => Ok(RetryReport { retried, reformat_failed, exhausted: None }),
        Err(Stop::Pending) => Err(Stop::Pending),
        Err(Stop::Failed(e)) => match resolve_failed_partition(&e, rootfs, targets) {
            Some(partition) => Ok(
                RetryReport {
                    retried,
                    reformat_failed,
                    exhausted: Some(ResetFailureSignal { partition, reason: e.to_string() }),
                },
            ),
            None => Err(Stop::Failed(e)),
        },
    }
}

/// A partition whose reformat failed twice is among those that were retried, and the signal
/// is about a reformatted partition.
pub proof fn law_report(
    mounted: InitOutcome<()>,
    data: int,
    etc: int,
    rootfs: Seq<char>,
    data_dev: Seq<char>,
    etc_dev: Seq<char>,
)
    ensures
        mount_verdict(mounted, data, etc, rootfs, data_dev, etc_dev) matches Ok(report) ==> {
            &&& forall|p: PartitionName|
                #[trigger] report.reformat_failed.contains(p) ==> report.retried.contains(p)
            &&& report.exhausted matches Some(signal) ==> signal.partition == PartitionName::Data || signal.partition
                == PartitionName::Etc
        },
{
    match mount_verdict(mounted, data, etc, rootfs, data_dev, etc_dev) {
        Ok(report) => {
            assert forall|p: PartitionName| #[trigger] report.reformat_failed.contains(p) implies report.retried.contains(
                p,
            ) by {
                if p == PartitionName::Data {
                    assert(report.retried[0] == p);
                } else {
                    assert(report.retried[report.retried.len() - 1] == p);
                }
            }
        },
        _ => {},
    }
}

/// Every failure of a reformat is warned about, with its reason.
pub proof fn law_reformat_failures_are_warned_about<O: ReformatRetryOps>(
    s: O::State,
    partition: PartitionName,
    device: Seq<char>,
    label: Seq<char>,
)
    ensures
        ({
            let (first, s1) = O::reformats(s, device, label);
            first matches Err(Stop::Failed(e)) ==> {
                let (warned, s2) = O::warns(s1, retry_warning(partition, e));
                let (second, s3) = O::reformats(s2, device, label);
                &&& warned is None ==> formatted::<O>(s, partition, device, label) == (s2, None::<int>)
                &&& warned is Some ==> (second matches Err(Stop::Failed(e2)) ==> formatted::<O>(
                    s,
                    partition,
                    device,
                    label,
                ).0 == O::warns(s3, give_up_warning(partition, e2)).1)
            }
        }),
{
}

/// The mount is attempted whatever the reformats came to, and its failure is a signal exactly
/// where it is about a reformatted partition.
pub proof fn law_mount_decides<O: ReformatRetryOps>(
    s: O::State,
    rootfs: Seq<char>,
    data_dev: Seq<char>,
    etc_dev: Seq<char>,
)
    ensures
        ({
            let (s1, data) = formatted::<O>(s, PartitionName::Data, data_dev, DATA_PARTITION_LABEL@);
            let (s2, etc) = formatted::<O>(s1, PartitionName::Etc, etc_dev, ETC_PARTITION_LABEL@);
            let (mounted, s3) = O::mounts(s2);
            let (end, report) = reformatted_and_mounted::<O>(s, rootfs, data_dev, etc_dev);
            data is Some && etc is Some ==> {
                &&& end == s3
                &&& mounted is Ok ==> report is Ok && report->Ok_0.exhausted is None
                &&& mounted matches Err(Stop::Failed(e)) ==> {
                    &&& (failed_partition(e, rootfs, data_dev, etc_dev) is Some <==> report is Ok)
                    &&& report is Ok ==> report->Ok_0.exhausted is Some
                    &&& report is Err ==> report == InitOutcome::<ReportView>::Err(Stop::Failed(e))
                }
            }
        }),
{
}

} // verus!
