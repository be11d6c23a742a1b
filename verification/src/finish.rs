//! The hand-over to the root filesystem

use vstd::prelude::*;
use vstd::string::*;

use crate::config::CmdlineConfig;
use crate::system::{outcome, MountFlag, MountFlags, Request, Session, Stop, Transcript};
use crate::text::list2;
use crate::util::{run_script, script_ran, script_view, step_for, Step, StepError, StepFlow, StepView};

verus! {

pub const DEFAULT_INIT: &'static str = "/sbin/init";

/// Moves a mount.
pub open spec fn move_step(source: Seq<char>, target: Seq<char>, context: Seq<char>) -> StepView {
    StepView {
        request: Request::Mount {
            source: Some(source),
            target,
            fstype: None,
            flags: MountFlags::none().plus(MountFlag::Move),
            data: None,
        },
        context: Some(context),
    }
}

fn step_move(source: &str, target: &str, context: &str) -> (r: Step)
    ensures
        r@ == move_step(source@, target@, context@),
{
    step_for(
        Request::Mount {
            source: Some(source.to_owned()),
            target: target.to_owned(),
            fstype: None,
            flags: MountFlags::empty().with(MountFlag::Move),
            data: None,
        },
        context,
    )
}

/// What comes before the root is switched.
pub open spec fn moves() -> Seq<StepView> {
    seq![
        move_step("/sys"@, "/rootfs/sys"@, "couldn't move /sys -> /rootfs/sys"@),
        move_step("/dev"@, "/rootfs/dev"@, "couldn't move /dev -> /rootfs/dev"@),
        move_step("/proc"@, "/rootfs/proc"@, "couldn't move /proc -> /rootfs/proc"@),
        StepView {
            request: Request::ChangeDir("/rootfs"@),
            context: Some("couldn't change into dir /rootfs"@),
        },
    ]
}

/// The init to hand over to.
pub open spec fn init_or_default(params: Map<Seq<char>, Seq<char>>) -> Seq<char> {
    if params.dom().contains("init"@) {
        params["init"@]
    } else {
        DEFAULT_INIT@
    }
}

/// Moves the mounts and switches the root. That it comes back is no error.
pub open spec fn finished(t: Transcript, init: Seq<char>) -> (Transcript, StepFlow<()>) {
    match script_ran(t, moves()) {
        (t1, Err(e)) => (t1, Err(e)),
        (t1, Ok(_)) => (
            t1.ask(Request::ExecWith { program: "/sbin/switch_root"@, args: seq!["/rootfs"@, init] }),
            match t1.next() {
                None => Err(Stop::Pending),
                Some(_) => Ok(()),
            },
        ),
    }
}

pub fn run(params: &CmdlineConfig, sys: &mut Session) -> (r: Result<(), Stop<StepError>>)
    ensures
        (final(sys)@, outcome(r)) == finished(old(sys)@, init_or_default(params@)),
{
    let mut steps: Vec<Step> = Vec::new();
    steps.push(step_move("/sys", "/rootfs/sys", "couldn't move /sys -> /rootfs/sys"));
    steps.push(step_move("/dev", "/rootfs/dev", "couldn't move /dev -> /rootfs/dev"));
    steps.push(step_move("/proc", "/rootfs/proc", "couldn't move /proc -> /rootfs/proc"));
    steps.push(step_for(Request::ChangeDir(String::from_str("/rootfs")), "couldn't change into dir /rootfs"));
    assert(script_view(steps@) =~= moves());
    match run_script(steps, sys) {
        Err(e) => {
            return Err(e);
        },
        Ok(()) => {},
    }
    let init = match params.get("init") {
        Some(init) => init,
        None => DEFAULT_INIT,
    };
    match sys.perform(
        Request::ExecWith { program: String::from_str("/sbin/switch_root"), args: list2("/rootfs", init) },
    ) {
        None => Err(Stop::Pending),
        Some(_) => Ok(()),
    }
}

} // verus!
