//! The destructive phase of the factory reset, and the reset as a whole, run again

use vstd::prelude::*;

use crate::bootloader::session_env::{BootloaderKind, SessionEnv};
use crate::filesystem::mount::all_unmounted;
use crate::mode::factory_reset::retry::{formatted, reformatted_and_mounted, DATA_PARTITION_LABEL, ETC_PARTITION_LABEL};
use crate::mode::factory_reset::{
    destroyed, exhausted_warning, mounted_or_cleaned_up, reset_booted, reset_done, restored_and_unmounted,
    RealReformatOps, ResetState,
};
use crate::mode::factory_reset::{settled, signal_persisted, trigger_cleared};
use crate::mode::normal::booted;
use crate::partition::layout::{LayoutView, PartitionName};
use crate::replay::boot::replay_booted;
use crate::replay::factory_reset::{
    replay_mounted_or_cleaned_up, replay_prepared, replay_reformatted, replay_restored_and_unmounted,
    replay_signal_persisted, replay_trigger_cleared,
};
use crate::replay::filesystem::replay_all_unmounted;
use crate::replay::steps::replay_warned;
use crate::replay::{group_extends, replayable, replays, Run};
use crate::runtime::status::OdsView;
use crate::system::{warned, ReplyView, Stop, Transcript};

verus! {

impl<T> Run for (ResetState, Option<T>) {
    open spec fn end(self) -> Transcript {
        self.0.t
    }

    open spec fn waits(self) -> bool {
        self.1 is None
    }

    open spec fn given(self, more: Seq<ReplyView>) -> Self {
        (at(self.0, self.0.t.plus(more)), self.1)
    }
}

impl<T, E> Run for (ResetState, Result<T, Stop<E>>) {
    open spec fn end(self) -> Transcript {
        self.0.t
    }

    open spec fn waits(self) -> bool {
        self.1 matches Err(Stop::Pending)
    }

    open spec fn given(self, more: Seq<ReplyView>) -> Self {
        (at(self.0, self.0.t.plus(more)), self.1)
    }
}

/// A state of the destructive phase with another transcript.
pub open spec fn at(s: ResetState, t: Transcript) -> ResetState {
    ResetState { t, ..s }
}

pub broadcast proof fn replay_formatted(
    s: ResetState,
    partition: PartitionName,
    device: Seq<char>,
    label: Seq<char>,
)
    ensures
        #![trigger formatted::<RealReformatOps>(s, partition, device, label)]
        replayable(s.t, |u: Transcript| formatted::<RealReformatOps>(at(s, u), partition, device, label)),
{
    broadcast use {group_extends, replay_reformatted, replay_warned};

}

pub broadcast proof fn replay_reformatted_and_mounted(
    s: ResetState,
    rootfs: Seq<char>,
    data_dev: Seq<char>,
    etc_dev: Seq<char>,
)
    ensures
        #![trigger reformatted_and_mounted::<RealReformatOps>(s, rootfs, data_dev, etc_dev)]
        replayable(
            s.t,
            |u: Transcript| reformatted_and_mounted::<RealReformatOps>(at(s, u), rootfs, data_dev, etc_dev),
        ),
{
    broadcast use group_extends;

    replay_steps(s, data_dev, etc_dev);
    assert(at(s, s.t) == s);
    assert forall|more: Seq<ReplyView>|
        #![trigger s.t.plus(more)]
        replays(
            reformatted_and_mounted::<RealReformatOps>(s, rootfs, data_dev, etc_dev),
            reformatted_and_mounted::<RealReformatOps>(at(s, s.t.plus(more)), rootfs, data_dev, etc_dev),
            more,
        ) by {
        replay_steps(at(s, s.t.plus(more)), data_dev, etc_dev);
    }
}

/// The three steps of `reformatted_and_mounted`.
proof fn replay_steps(s: ResetState, data_dev: Seq<char>, etc_dev: Seq<char>)
    ensures
        ({
            let (data, data_label) = (PartitionName::Data, DATA_PARTITION_LABEL@);
            let (etc, etc_label) = (PartitionName::Etc, ETC_PARTITION_LABEL@);
            let s1 = formatted::<RealReformatOps>(s, data, data_dev, data_label).0;
            let s2 = formatted::<RealReformatOps>(s1, etc, etc_dev, etc_label).0;
            &&& at(s1, s1.t) == s1
            &&& at(s2, s2.t) == s2
            &&& replayable(s.t, |u: Transcript| formatted::<RealReformatOps>(at(s, u), data, data_dev, data_label))
            &&& replayable(s1.t, |u: Transcript| formatted::<RealReformatOps>(at(s1, u), etc, etc_dev, etc_label))
            &&& replayable(
                s2.t,
                |u: Transcript|
                    mounted_or_cleaned_up(u, s2.ods, s2.mounts, s2.layout, s2.rootfs, s2.persistent_var_log),
            )
        }),
{
    let s1 = formatted::<RealReformatOps>(s, PartitionName::Data, data_dev, DATA_PARTITION_LABEL@).0;
    let s2 = formatted::<RealReformatOps>(s1, PartitionName::Etc, etc_dev, ETC_PARTITION_LABEL@).0;
    replay_formatted(s, PartitionName::Data, data_dev, DATA_PARTITION_LABEL@);
    replay_formatted(s1, PartitionName::Etc, etc_dev, ETC_PARTITION_LABEL@);
    replay_mounted_or_cleaned_up(s2.t, s2.ods, s2.mounts, s2.layout, s2.rootfs, s2.persistent_var_log);
}

pub broadcast proof fn replay_destroyed(
    s: ResetState,
    data_dev: Seq<char>,
    etc_dev: Seq<char>,
    backed_up: Seq<Seq<char>>,
    backup_dir: Seq<char>,
    preserve: Seq<Seq<char>>,
)
    ensures
        #![trigger destroyed(s, data_dev, etc_dev, backed_up, backup_dir, preserve)]
        replayable(s.t, |u: Transcript| destroyed(at(s, u), data_dev, etc_dev, backed_up, backup_dir, preserve)),
{
    broadcast use group_extends;

    replay_parts(s, data_dev, etc_dev, backed_up, backup_dir, preserve);
    assert(at(s, s.t) == s);
    assert forall|more: Seq<ReplyView>|
        #![trigger s.t.plus(more)]
        replays(
            destroyed(s, data_dev, etc_dev, backed_up, backup_dir, preserve),
            destroyed(at(s, s.t.plus(more)), data_dev, etc_dev, backed_up, backup_dir, preserve),
            more,
        ) by {
        replay_parts(at(s, s.t.plus(more)), data_dev, etc_dev, backed_up, backup_dir, preserve);
    }
}

/// The parts of `destroyed`.
proof fn replay_parts(
    s: ResetState,
    data_dev: Seq<char>,
    etc_dev: Seq<char>,
    backed_up: Seq<Seq<char>>,
    backup_dir: Seq<char>,
    preserve: Seq<Seq<char>>,
)
    ensures
        ({
            let (s1, r) = reformatted_and_mounted::<RealReformatOps>(s, s.rootfs, data_dev, etc_dev);
            let report = r->Ok_0;
            let warning = exhausted_warning(report.exhausted->Some_0);
            let t2 = warned(s1.t, warning).0;
            &&& at(s1, s1.t) == s1
            &&& replayable(
                s.t,
                |u: Transcript| reformatted_and_mounted::<RealReformatOps>(at(s, u), s.rootfs, data_dev, etc_dev),
            )
            &&& replayable(s1.t, |u: Transcript| warned(u, warning))
            &&& replayable(t2, |u: Transcript| all_unmounted(u, s1.mounts, None))
            &&& replayable(
                s1.t,
                |u: Transcript|
                    restored_and_unmounted(u, s1.mounts, s.rootfs, report, backed_up, backup_dir, preserve),
            )
        }),
{
    let (s1, r) = reformatted_and_mounted::<RealReformatOps>(s, s.rootfs, data_dev, etc_dev);
    let warning = exhausted_warning(r->Ok_0.exhausted->Some_0);
    replay_reformatted_and_mounted(s, s.rootfs, data_dev, etc_dev);
    replay_warned(s1.t, warning);
    replay_all_unmounted(warned(s1.t, warning).0, s1.mounts, None);
    replay_restored_and_unmounted(s1.t, s1.mounts, s.rootfs, r->Ok_0, backed_up, backup_dir, preserve);
}

pub broadcast proof fn replay_reset_done(
    t: Transcript,
    o: OdsView,
    layout: LayoutView,
    rootfs: Seq<char>,
    persistent_var_log: bool,
    keys: Seq<Seq<char>>,
)
    ensures
        #![trigger reset_done(t, o, layout, rootfs, persistent_var_log, keys)]
        replayable(t, |u: Transcript| reset_done(u, o, layout, rootfs, persistent_var_log, keys)),
{
    broadcast use {group_extends, replay_prepared, replay_destroyed};

}

pub broadcast proof fn replay_reset_booted(
    t: Transcript,
    s: Option<BootloaderKind>,
    o: OdsView,
    layout: LayoutView,
    rootfs: Seq<char>,
    persistent_var_log: bool,
    init: Option<Seq<char>>,
    resize_data: bool,
    keys: Seq<Seq<char>>,
)
    ensures
        #![trigger reset_booted::<SessionEnv>(t, s, o, layout, rootfs, persistent_var_log, init, resize_data, keys)]
        replayable(
            t,
            |u: Transcript|
                reset_booted::<SessionEnv>(u, s, o, layout, rootfs, persistent_var_log, init, resize_data, keys),
        ),
{
    broadcast use group_extends;

    replay_booted_parts(t, s, o, layout, rootfs, persistent_var_log, init, resize_data, keys);
    assert forall|more: Seq<ReplyView>|
        #![trigger t.plus(more)]
        replays(
            reset_booted::<SessionEnv>(t, s, o, layout, rootfs, persistent_var_log, init, resize_data, keys),
            reset_booted::<SessionEnv>(
                t.plus(more),
                s,
                o,
                layout,
                rootfs,
                persistent_var_log,
                init,
                resize_data,
                keys,
            ),
            more,
        ) by {
        replay_booted_parts(t.plus(more), s, o, layout, rootfs, persistent_var_log, init, resize_data, keys);
    }
}

/// The parts of `reset_booted`.
proof fn replay_booted_parts(
    t: Transcript,
    s: Option<BootloaderKind>,
    o: OdsView,
    layout: LayoutView,
    rootfs: Seq<char>,
    var_log: bool,
    init: Option<Seq<char>>,
    resize: bool,
    keys: Seq<Seq<char>>,
)
    ensures
        ({
            let (t1, s1, _) = trigger_cleared::<SessionEnv>(t, s);
            let (t2, o2, r) = reset_done(t1, o, layout, rootfs, var_log, keys);
            let (report, signal) = settled(r)->Some_0;
            let (t3, s3, _) = signal_persisted::<SessionEnv>(t2, s1, signal);
            let o3 = OdsView { factory_reset: Some(report), ..o2 };
            &&& replayable(t, |u: Transcript| trigger_cleared::<SessionEnv>(u, s))
            &&& replayable(t1, |u: Transcript| reset_done(u, o, layout, rootfs, var_log, keys))
            &&& replayable(t2, |u: Transcript| signal_persisted::<SessionEnv>(u, s1, signal))
            &&& replayable(
                t3,
                |u: Transcript| booted::<SessionEnv>(u, s3, o3, layout, rootfs, var_log, init, resize),
            )
        }),
{
    let (t1, s1, _) = trigger_cleared::<SessionEnv>(t, s);
    let (t2, o2, r) = reset_done(t1, o, layout, rootfs, var_log, keys);
    let (report, signal) = settled(r)->Some_0;
    let (t3, s3, _) = signal_persisted::<SessionEnv>(t2, s1, signal);
    let o3 = OdsView { factory_reset: Some(report), ..o2 };
    replay_trigger_cleared(t, s);
    replay_reset_done(t1, o, layout, rootfs, var_log, keys);
    replay_signal_persisted(t2, s1, signal);
    replay_booted(t3, s3, o3, layout, rootfs, var_log, init, resize);
}

} // verus!
