//! Mounts of the root filesystem and everything on it

use vstd::prelude::*;
use vstd::string::*;

use crate::system::{outcome, tried_of, MountFlag, MountFlags, Request, Session, Stop, Transcript};
use crate::text::list3;
use crate::util::{
    dir_step, run_script, run_tool, script_ran, script_view, step_dir, step_for, tool_code, Step, StepError, StepFlow,
    StepView,
};

verus! {

/// A mount, and what it is for.
pub open spec fn mount_step(
    source: Seq<char>,
    target: Seq<char>,
    fstype: Option<Seq<char>>,
    flags: MountFlags,
    data: Option<Seq<char>>,
) -> StepView {
    StepView {
        request: Request::Mount { source: Some(source), target, fstype, flags, data },
        context: Some(source + " -> "@ + target),
    }
}

fn owned(s: Option<&str>) -> (r: Option<String>)
    ensures
        r.deep_view() == match s {
            Some(s) => Some(s@),
            None => None,
        },
{
    match s {
        Some(s) => Some(s.to_owned()),
        None => None,
    }
}

/// The view of an optional text.
pub open spec fn text_in(s: Option<&str>) -> Option<Seq<char>> {
    match s {
        Some(s) => Some(s@),
        None => None,
    }
}

fn step_mount(source: &str, target: &str, fstype: Option<&str>, flags: MountFlags, data: Option<&str>) -> (r: Step)
    ensures
        r@ == mount_step(source@, target@, text_in(fstype), flags, text_in(data)),
{
    step_for(
        Request::Mount {
            source: Some(source.to_owned()),
            target: target.to_owned(),
            fstype: owned(fstype),
            flags,
            data: owned(data),
        },
        crate::error::concat3(source, " -> ", target).as_str(),
    )
}

/// Without access times.
pub open spec fn no_atimes() -> MountFlags {
    MountFlags::none().plus(MountFlag::NoAtime).plus(MountFlag::NoDirAtime)
}

fn without_atimes() -> (r: MountFlags)
    ensures
        r == no_atimes(),
{
    MountFlags::empty().with(MountFlag::NoAtime).with(MountFlag::NoDirAtime)
}

/// An ext4 filesystem without access times.
pub open spec fn ext4_step(source: Seq<char>, target: Seq<char>) -> StepView {
    mount_step(source, target, Some("ext4"@), no_atimes(), None)
}

/// An ext4 filesystem that is only read.
pub open spec fn readonly_step(source: Seq<char>, target: Seq<char>) -> StepView {
    mount_step(source, target, Some("ext4"@), MountFlags::none().plus(MountFlag::RdOnly), None)
}

/// An overlay without access times.
pub open spec fn overlay_step(target: Seq<char>, data: Seq<char>) -> StepView {
    mount_step("overlay"@, target, Some("overlay"@), no_atimes(), Some(data))
}

/// A bind mount.
pub open spec fn bind_step(source: Seq<char>, target: Seq<char>) -> StepView {
    mount_step(source, target, None, MountFlags::none().plus(MountFlag::Bind), None)
}

fn step_ext4(source: &str, target: &str) -> (r: Step)
    ensures
        r@ == ext4_step(source@, target@),
{
    step_mount(source, target, Some("ext4"), without_atimes(), None)
}

fn step_readonly(source: &str, target: &str) -> (r: Step)
    ensures
        r@ == readonly_step(source@, target@),
{
    step_mount(source, target, Some("ext4"), MountFlags::empty().with(MountFlag::RdOnly), None)
}

fn step_overlay(target: &str, data: &str) -> (r: Step)
    ensures
        r@ == overlay_step(target@, data@),
{
    step_mount("overlay", target, Some("overlay"), without_atimes(), Some(data))
}

fn step_bind(source: &str, target: &str) -> (r: Step)
    ensures
        r@ == bind_step(source@, target@),
{
    step_mount(source, target, None, MountFlags::empty().with(MountFlag::Bind), None)
}

/// What is mounted first.
pub open spec fn first_steps() -> Seq<StepView> {
    seq![
        readonly_step("/dev/omnect/rootCurrent"@, "/rootfs"@),
        ext4_step("/dev/omnect/cert"@, "/rootfs/mnt/cert"@),
        dir_step("/rootfs/mnt/cert/ca"@),
        dir_step("/rootfs/mnt/cert/priv"@),
        readonly_step("/dev/omnect/factory"@, "/rootfs/mnt/factory"@),
        ext4_step("/dev/omnect/etc"@, "/rootfs/mnt/etc"@),
    ]
}

fn list_first_steps() -> (r: Vec<Step>)
    ensures
        script_view(r@) == first_steps(),
{
    let mut steps: Vec<Step> = Vec::new();
    steps.push(step_readonly("/dev/omnect/rootCurrent", "/rootfs"));
    steps.push(step_ext4("/dev/omnect/cert", "/rootfs/mnt/cert"));
    steps.push(step_dir("/rootfs/mnt/cert/ca"));
    steps.push(step_dir("/rootfs/mnt/cert/priv"));
    steps.push(step_readonly("/dev/omnect/factory", "/rootfs/mnt/factory"));
    steps.push(step_ext4("/dev/omnect/etc", "/rootfs/mnt/etc"));
    assert(script_view(steps@) =~= first_steps());
    steps
}

/// Asks whether there is something at a path.
pub open spec fn looked(t: Transcript, path: Seq<char>) -> (Transcript, StepFlow<bool>) {
    (
        t.ask(Request::TryExists(path)),
        match t.next() {
            None => Err(Stop::Pending),
            Some(reply) => match tried_of(reply) {
                Ok(b) => Ok(b),
                Err(e) => Err(Stop::Failed(StepError::Io(e))),
            },
        },
    )
}

/// Asks whether there is something at a path.
pub fn look(path: &str, sys: &mut Session) -> (r: Result<bool, Stop<StepError>>)
    ensures
        (final(sys)@, outcome(r)) == looked(old(sys)@, path@),
{
    match sys.try_query(Request::TryExists(path.to_owned())) {
        None => Err(Stop::Pending),
        Some(Ok(b)) => Ok(b),
        Some(Err(e)) => Err(Stop::Failed(StepError::Io(e))),
    }
}

/// The directories of the overlay of /etc.
pub open spec fn etc_dirs() -> Seq<StepView> {
    seq![dir_step("/rootfs/mnt/etc/upper"@), dir_step("/rootfs/mnt/etc/work"@)]
}

/// Copies /etc from the factory partition, if it has one.
pub open spec fn etc_copied(t: Transcript) -> (Transcript, StepFlow<()>) {
    match looked(t, "/rootfs/mnt/factory/etc"@) {
        (t1, Err(e)) => (t1, Err(e)),
        (t1, Ok(false)) => (t1, Ok(())),
        (t1, Ok(true)) => match tool_code(
            t1,
            "cp"@,
            seq!["-a"@, "/rootfs/mnt/factory/etc/."@, "/rootfs/mnt/etc/upper"@],
        ) {
            (t2, Err(e)) => (t2, Err(e)),
            (t2, Ok(code)) => (
                t2,
                if code == Some(0i32) {
                    Ok(())
                } else {
                    Err(
                        Stop::Failed(
                            StepError::Message("\"cp -a /rootfs/mnt/factory/etc/. /rootfs/mnt/etc/upper\" failed"@),
                        ),
                    )
                },
            ),
        },
    }
}

fn copy_etc(sys: &mut Session) -> (r: Result<(), Stop<StepError>>)
    ensures
        (final(sys)@, outcome(r)) == etc_copied(old(sys)@),
{
    match look("/rootfs/mnt/factory/etc", sys) {
        Err(e) => {
            return Err(e);
        },
        Ok(false) => {
            return Ok(());
        },
        Ok(true) => {},
    }
    match run_tool("cp", list3("-a", "/rootfs/mnt/factory/etc/.", "/rootfs/mnt/etc/upper"), sys) {
        Err(e) => Err(e),
        Ok(Some(0)) => Ok(()),
        Ok(_) => Err(
            Stop::Failed(
                StepError::Message(
                    String::from_str("\"cp -a /rootfs/mnt/factory/etc/. /rootfs/mnt/etc/upper\" failed"),
                ),
            ),
        ),
    }
}

/// Fills the overlay of /etc where it is not there yet.
pub open spec fn etc_filled(t: Transcript) -> (Transcript, StepFlow<()>) {
    match looked(t, "/rootfs/mnt/etc/upper"@) {
        (t1, Err(e)) => (t1, Err(e)),
        (t1, Ok(true)) => (t1, Ok(())),
        (t1, Ok(false)) => match script_ran(t1, etc_dirs()) {
            (t2, Err(e)) => (t2, Err(e)),
            (t2, Ok(_)) => etc_copied(t2),
        },
    }
}

fn fill_etc(sys: &mut Session) -> (r: Result<(), Stop<StepError>>)
    ensures
        (final(sys)@, outcome(r)) == etc_filled(old(sys)@),
{
    match look("/rootfs/mnt/etc/upper", sys) {
        Err(e) => {
            return Err(e);
        },
        Ok(true) => {
            return Ok(());
        },
        Ok(false) => {},
    }
    let mut dirs: Vec<Step> = Vec::new();
    dirs.push(step_dir("/rootfs/mnt/etc/upper"));
    dirs.push(step_dir("/rootfs/mnt/etc/work"));
    assert(script_view(dirs@) =~= etc_dirs());
    match run_script(dirs, sys) {
        Err(e) => {
            return Err(e);
        },
        Ok(()) => {},
    }
    copy_etc(sys)
}

/// What is set up on the data partition, in order.
pub open spec fn data_steps() -> Seq<StepView> {
    seq![
        ext4_step("/dev/omnect/data"@, "/rootfs/mnt/data"@),
        dir_step("/rootfs/mnt/data/home/upper"@),
        dir_step("/rootfs/mnt/data/home/work"@),
        dir_step("/rootfs/mnt/data/var/lib"@),
        dir_step("/rootfs/mnt/data/local"@),
        overlay_step(
            "/rootfs/home"@,
            "lowerdir=/rootfs/home,upperdir=/rootfs/mnt/data/home/upper,workdir=/rootfs/mnt/data/home/work,index=off"@,
        ),
        bind_step("/rootfs/mnt/data/var/lib"@, "/rootfs/var/lib"@),
        bind_step("/rootfs/mnt/data/local"@, "/rootfs/usr/local"@),
    ]
}

/// What makes /var/log persistent.
pub open spec fn log_steps() -> Seq<StepView> {
    seq![dir_step("/rootfs/mnt/data/log"@), bind_step("/rootfs/mnt/data/log"@, "/rootfs/var/log"@)]
}

/// What is mounted last.
pub open spec fn last_steps() -> Seq<StepView> {
    seq![
        mount_step(
            "tmpfs"@,
            "/rootfs/run"@,
            Some("tmpfs"@),
            MountFlags::none().plus(MountFlag::NoDev).plus(MountFlag::NoSuid).plus(MountFlag::StrictAtime),
            Some("mode=0755"@),
        ),
        mount_step("tmpfs"@, "/rootfs/var/volatile"@, Some("tmpfs"@), MountFlags::none(), None),
    ]
}

/// What follows once the overlay of /etc is filled.
pub open spec fn later_steps(persistent_var_log: bool) -> Seq<StepView> {
    seq![
        overlay_step(
            "/rootfs/etc"@,
            "lowerdir=/rootfs/etc,upperdir=/rootfs/mnt/etc/upper,workdir=/rootfs/mnt/etc/work,index=off"@,
        ),
    ] + data_steps() + (if persistent_var_log {
        log_steps()
    } else {
        Seq::empty()
    }) + last_steps()
}

fn list_later_steps(persistent_var_log: bool) -> (r: Vec<Step>)
    ensures
        script_view(r@) == later_steps(persistent_var_log),
{
    let mut steps: Vec<Step> = Vec::new();
    steps.push(
        step_overlay(
            "/rootfs/etc",
            "lowerdir=/rootfs/etc,upperdir=/rootfs/mnt/etc/upper,workdir=/rootfs/mnt/etc/work,index=off",
        ),
    );
    steps.push(step_ext4("/dev/omnect/data", "/rootfs/mnt/data"));
    steps.push(step_dir("/rootfs/mnt/data/home/upper"));
    steps.push(step_dir("/rootfs/mnt/data/home/work"));
    steps.push(step_dir("/rootfs/mnt/data/var/lib"));
    steps.push(step_dir("/rootfs/mnt/data/local"));
    steps.push(
        step_overlay(
            "/rootfs/home",
            "lowerdir=/rootfs/home,upperdir=/rootfs/mnt/data/home/upper,workdir=/rootfs/mnt/data/home/work,index=off",
        ),
    );
    steps.push(step_bind("/rootfs/mnt/data/var/lib", "/rootfs/var/lib"));
    steps.push(step_bind("/rootfs/mnt/data/local", "/rootfs/usr/local"));
    if persistent_var_log {
        steps.push(step_dir("/rootfs/mnt/data/log"));
        steps.push(step_bind("/rootfs/mnt/data/log", "/rootfs/var/log"));
    }
    steps.push(
        step_mount(
            "tmpfs",
            "/rootfs/run",
            Some("tmpfs"),
            MountFlags::empty().with(MountFlag::NoDev).with(MountFlag::NoSuid).with(MountFlag::StrictAtime),
            Some("mode=0755"),
        ),
    );
    steps.push(step_mount("tmpfs", "/rootfs/var/volatile", Some("tmpfs"), MountFlags::empty(), None));
    assert(script_view(steps@) =~= later_steps(persistent_var_log));
    steps
}

/// Mounts everything.
pub open spec fn all_mounted(t: Transcript, persistent_var_log: bool) -> (Transcript, StepFlow<()>) {
    match script_ran(t, first_steps()) {
        (t1, Err(e)) => (t1, Err(e)),
        (t1, Ok(_)) => match etc_filled(t1) {
            (t2, Err(e)) => (t2, Err(e)),
            (t2, Ok(_)) => script_ran(t2, later_steps(persistent_var_log)),
        },
    }
}

pub fn run(persistent_var_log: bool, sys: &mut Session) -> (r: Result<(), Stop<StepError>>)
    ensures
        (final(sys)@, outcome(r)) == all_mounted(old(sys)@, persistent_var_log),
{
    match run_script(list_first_steps(), sys) {
        Err(e) => {
            return Err(e);
        },
        Ok(()) => {},
    }
    match fill_etc(sys) {
        Err(e) => {
            return Err(e);
        },
        Ok(()) => {},
    }
    run_script(list_later_steps(persistent_var_log), sys)
}

} // verus!
