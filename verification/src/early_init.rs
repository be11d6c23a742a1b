//! Early initialization before logging is available
//!
//! This module mounts essential filesystems (/dev, /proc, /sys, /run)
//! that must be available before any other initialization can occur.

use vstd::prelude::*;
use vstd::string::*;

use crate::error::EarlyInitError;
use crate::logging::kmsg::{devkmsg_request, disable_printk_ratelimit};
use crate::system::{done_of, outcome, MountFlags, Request, RequestView, Session, Stop, Transcript};

verus! {

/// An error of the early initialization by view.
pub type EarlyErrorView = EarlyInitError<Seq<char>>;

/// The essential filesystems: their types, which are also their sources, and their mount
/// points. /dev comes first, since the kernel log is there.
pub open spec fn essential() -> Seq<(Seq<char>, Seq<char>)> {
    seq![("devtmpfs"@, "/dev"@), ("proc"@, "/proc"@), ("sysfs"@, "/sys"@), ("tmpfs"@, "/run"@)]
}

/// The request that mounts an essential filesystem.
pub open spec fn essential_request(fstype: Seq<char>, target: Seq<char>) -> RequestView {
    Request::Mount { source: Some(fstype), target, fstype: Some(fstype), flags: MountFlags::none(), data: None }
}

/// Mounts an essential filesystem.
pub open spec fn mounted_early(t: Transcript, fstype: Seq<char>, target: Seq<char>) -> (
    Transcript,
    Result<(), Stop<EarlyErrorView>>,
) {
    (
        t.ask(essential_request(fstype, target)),
        match t.next() {
            None => Err(Stop::Pending),
            Some(reply) => match done_of(reply) {
                Ok(_) => Ok(()),
                Err(e) => Err(Stop::Failed(EarlyInitError::MountFailed { target, reason: e.text() })),
            },
        },
    )
}

/// Mounts the essential filesystems from position `i` on, then lifts the rate limit of the
/// kernel log.
pub open spec fn essential_mounted(t: Transcript, i: int) -> (Transcript, Result<(), Stop<EarlyErrorView>>)
    decreases 4 - i,
{
    if i < 0 || i >= 4 {
        (
            t.ask(devkmsg_request()),
            match t.next() {
                None => Err(Stop::Pending),
                Some(_) => Ok(()),
            },
        )
    } else {
        let (fstype, target) = essential()[i];
        match mounted_early(t, fstype, target) {
            (t1, Err(e)) => (t1, Err(e)),
            (t1, Ok(_)) => essential_mounted(t1, i + 1),
        }
    }
}

fn do_mount(target: &str, fstype: &str, sys: &mut Session) -> (r: Result<(), Stop<EarlyInitError>>)
    ensures
        (final(sys)@, outcome(r)) == mounted_early(old(sys)@, fstype@, target@),
{
    match sys.perform(
        Request::Mount {
            source: Some(fstype.to_owned()),
            target: target.to_owned(),
            fstype: Some(fstype.to_owned()),
            flags: MountFlags::empty(),
            data: None,
        },
    ) {
        None => Err(Stop::Pending),
        Some(Ok(())) => Ok(()),
        Some(Err(e)) => Err(
            Stop::Failed(EarlyInitError::MountFailed { target: target.to_owned(), reason: e.to_string() }),
        ),
    }
}

/// Mounts essential filesystems required before any other initialization.
///
/// Must be called as early as possible, before logging or device access.
/// Order matters: /dev must be first (needed for /dev/kmsg logging).
pub fn mount_essential_filesystems(sys: &mut Session) -> (r: Result<(), Stop<EarlyInitError>>)
    ensures
        (final(sys)@, outcome(r)) == essential_mounted(old(sys)@, 0),
{
    proof {
        reveal_with_fuel(essential_mounted, 5);
    }
    match do_mount("/dev", "devtmpfs", sys) {
        Err(e) => {
            return Err(e);
        },
        Ok(()) => {},
    }
    match do_mount("/proc", "proc", sys) {
        Err(e) => {
            return Err(e);
        },
        Ok(()) => {},
    }
    match do_mount("/sys", "sysfs", sys) {
        Err(e) => {
            return Err(e);
        },
        Ok(()) => {},
    }
    match do_mount("/run", "tmpfs", sys) {
        Err(e) => {
            return Err(e);
        },
        Ok(()) => {},
    }
    match disable_printk_ratelimit(sys) {
        None => Err(Stop::Pending),
        Some(()) => Ok(()),
    }
}

} // verus!
