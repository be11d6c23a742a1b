//! The boot as a whole, run again

use vstd::prelude::*;

use crate::bootloader::session_env::{BootloaderKind, SessionEnv};
use crate::bootloader::BootEnvErrorView;
use crate::error::InitErrorView;
use crate::filesystem::boot_sequence::persisted;
use crate::init_setup::set_up;
use crate::mode::ModeView;
use crate::partition::layout::LayoutView;
use crate::replay::boot::{
    replay_booted, replay_first_boot_in, replay_located, replay_mode_in, replay_pending_in, replay_set_up,
};
use crate::replay::bootloader::replay_env_opened;
use crate::replay::destruction::replay_reset_booted;
use crate::replay::filesystem::{replay_core_mounted, replay_persisted};
use crate::replay::replays;
use crate::replay::{group_extends, replayable};
use crate::runtime::status::DegradedBootStatus;
use crate::runtime::status::OdsView;
use crate::system::ReplyView;
use crate::system::Transcript;
use crate::{env_state, ROOTFS_DIR};
use crate::{continued, decided, first_boot_in, initialised, mode_in, mode_run, pending_in, ImageConfig};

verus! {

pub broadcast proof fn replay_mode_run(
    t: Transcript,
    s: Option<BootloaderKind>,
    o: OdsView,
    layout: LayoutView,
    cmdline: Map<Seq<char>, Seq<char>>,
    image: ImageConfig,
    mode: ModeView,
)
    ensures
        #![trigger mode_run::<SessionEnv>(t, s, o, layout, cmdline, image, mode)]
        replayable(t, |u: Transcript| mode_run::<SessionEnv>(u, s, o, layout, cmdline, image, mode)),
{
    broadcast use {group_extends, replay_booted, replay_reset_booted};

    reveal(mode_run::<SessionEnv>);
}

#[verifier::rlimit(30)]
pub broadcast proof fn replay_continued(
    t: Transcript,
    s: Option<BootloaderKind>,
    o: OdsView,
    layout: LayoutView,
    cmdline: Map<Seq<char>, Seq<char>>,
    image: ImageConfig,
    pending: bool,
)
    ensures
        #![trigger continued::<SessionEnv>(t, s, o, layout, cmdline, image, pending)]
        replayable(t, |u: Transcript| continued::<SessionEnv>(u, s, o, layout, cmdline, image, pending)),
{
    broadcast use group_extends;

    replay_continued_parts(t, s, o, layout, cmdline, image);
    assert forall|more: Seq<ReplyView>|
        #![trigger t.plus(more)]
        replays(
            continued::<SessionEnv>(t, s, o, layout, cmdline, image, pending),
            continued::<SessionEnv>(t.plus(more), s, o, layout, cmdline, image, pending),
            more,
        ) by {
        replay_continued_parts(t.plus(more), s, o, layout, cmdline, image);
    }
}

/// The parts of `continued`.
proof fn replay_continued_parts(
    t: Transcript,
    s: Option<BootloaderKind>,
    o: OdsView,
    layout: LayoutView,
    cmdline: Map<Seq<char>, Seq<char>>,
    image: ImageConfig,
)
    ensures
        ({
            let (t1, s1, first) = first_boot_in::<SessionEnv>(t, s);
            let (t2, s2, due) = pending_in::<SessionEnv>(t1, s1);
            let (resize, table) = (image.resize_data, image.table);
            let (o2, due) = (OdsView { first_boot: first->Some_0, ..o }, due->Some_0);
            let (t3, s3, o3, _) = set_up::<SessionEnv>(t2, s2, o2, ROOTFS_DIR@, due, resize, layout, table);
            let (t4, s4, mode) = mode_in::<SessionEnv>(t3, s3, image.factory_reset);
            &&& replayable(t, |u: Transcript| first_boot_in::<SessionEnv>(u, s))
            &&& replayable(t1, |u: Transcript| pending_in::<SessionEnv>(u, s1))
            &&& replayable(
                t2,
                |u: Transcript| set_up::<SessionEnv>(u, s2, o2, ROOTFS_DIR@, due, resize, layout, table),
            )
            &&& replayable(t3, |u: Transcript| mode_in::<SessionEnv>(u, s3, image.factory_reset))
            &&& replayable(
                t4,
                |u: Transcript| mode_run::<SessionEnv>(u, s4, o3, layout, cmdline, image, mode->Ok_0),
            )
        }),
{
    let (t1, s1, first) = first_boot_in::<SessionEnv>(t, s);
    let (t2, s2, due) = pending_in::<SessionEnv>(t1, s1);
    let (resize, table) = (image.resize_data, image.table);
    let (o2, due) = (OdsView { first_boot: first->Some_0, ..o }, due->Some_0);
    let (t3, s3, o3, _) = set_up::<SessionEnv>(t2, s2, o2, ROOTFS_DIR@, due, resize, layout, table);
    let (t4, s4, mode) = mode_in::<SessionEnv>(t3, s3, image.factory_reset);
    replay_first_boot_in(t, s);
    replay_pending_in(t1, s1);
    replay_set_up(t2, s2, o2, ROOTFS_DIR@, due, resize, layout, table);
    replay_mode_in(t3, s3, image.factory_reset);
    replay_mode_run(t4, s4, o3, layout, cmdline, image, mode->Ok_0);
}

pub broadcast proof fn replay_decided(
    t: Transcript,
    o: OdsView,
    core: Result<(), InitErrorView>,
    opened: Result<(), BootEnvErrorView>,
    layout: LayoutView,
    cmdline: Map<Seq<char>, Seq<char>>,
    image: ImageConfig,
    pending: bool,
)
    ensures
        #![trigger decided(t, o, core, opened, layout, cmdline, image, pending)]
        replayable(t, |u: Transcript| decided(u, o, core, opened, layout, cmdline, image, pending)),
{
    broadcast use group_extends;

    replay_decided_parts(t, o, opened, layout, cmdline, image, pending);
    assert forall|more: Seq<ReplyView>|
        #![trigger t.plus(more)]
        replays(
            decided(t, o, core, opened, layout, cmdline, image, pending),
            decided(t.plus(more), o, core, opened, layout, cmdline, image, pending),
            more,
        ) by {
        replay_decided_parts(t.plus(more), o, opened, layout, cmdline, image, pending);
    }
}

/// What is reported of a boot environment that could not be opened.
spec fn told_of(o: OdsView, opened: Result<(), BootEnvErrorView>) -> OdsView {
    match opened {
        Ok(_) => o,
        Err(e) => OdsView { degraded_boot: Some(DegradedBootStatus { reason: e.text() }), ..o },
    }
}

/// The parts of `decided`.
proof fn replay_decided_parts(
    t: Transcript,
    o: OdsView,
    opened: Result<(), BootEnvErrorView>,
    layout: LayoutView,
    cmdline: Map<Seq<char>, Seq<char>>,
    image: ImageConfig,
    pending: bool,
)
    ensures
        ({
            let s = env_state(opened, image);
            let o1 = told_of(o, opened);
            let (t1, s1, _) = persisted::<SessionEnv>(t, s, o, ROOTFS_DIR@);
            &&& replayable(t, |u: Transcript| persisted::<SessionEnv>(u, s, o, ROOTFS_DIR@))
            &&& replayable(
                t1,
                |u: Transcript| continued::<SessionEnv>(u, s1, o1, layout, cmdline, image, pending),
            )
        }),
{
    let s = env_state(opened, image);
    let (t1, s1, _) = persisted::<SessionEnv>(t, s, o, ROOTFS_DIR@);
    replay_persisted(t, s, o, ROOTFS_DIR@);
    replay_continued(t1, s1, told_of(o, opened), layout, cmdline, image, pending);
}

pub broadcast proof fn replay_initialised(t: Transcript, image: ImageConfig, pending: bool)
    ensures
        #![trigger initialised(t, image, pending)]
        replayable(t, |u: Transcript| initialised(u, image, pending)),
{
    broadcast use {group_extends, replay_located, replay_core_mounted, replay_env_opened, replay_decided};

}

} // verus!
