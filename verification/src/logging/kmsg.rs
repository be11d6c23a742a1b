//! Kernel message buffer (kmsg) logging
//!
//! The lines that go to /dev/kmsg carry a kernel log level and a common prefix. The
//! kernel's rate limits are lifted while a tool prints a lot.

use vstd::prelude::*;
use vstd::string::*;

use crate::error::concat4;
use crate::system::{text_of, Request, RequestView, Session, Transcript};
use crate::text::{trim, trim_of};

verus! {

/// Path to kernel message buffer
pub const KMSG_PATH: &'static str = "/dev/kmsg";

/// The level of a message.
#[derive(Debug, Clone, Copy, PartialEq, Eq, Structural)]
pub enum Level {
    Error,
    Warn,
    Info,
    Debug,
    Trace,
}

/// The kernel's prefix for a level.
pub open spec fn prefix_of(level: Level) -> Seq<char> {
    match level {
        Level::Error => "<3>"@,
        Level::Warn => "<4>"@,
        Level::Info => "<6>"@,
        Level::Debug => "<7>"@,
        Level::Trace => "<7>"@,
    }
}

/// The kernel's prefix for a level.
pub fn level_to_kernel_prefix(level: Level) -> (s: &'static str)
    ensures
        s@ == prefix_of(level),
{
    match level {
        Level::Error => "<3>",
        Level::Warn => "<4>",
        Level::Info => "<6>",
        Level::Debug => "<7>",
        Level::Trace => "<7>",
    }
}

/// The line that goes to /dev/kmsg for a message.
pub fn log_line(level: Level, message: &str) -> (s: String)
    ensures
        s@ == prefix_of(level) + "omnect-os-initramfs: "@ + message@ + "\n"@,
{
    concat4(level_to_kernel_prefix(level), "omnect-os-initramfs: ", message, "\n")
}

/// The line that goes to /dev/kmsg for a fatal message.
pub fn fatal_line(message: &str) -> (s: String)
    ensures
        s@ == "<2>"@ + "omnect-os-initramfs: "@ + "FATAL: "@ + message@ + "\n"@,
{
    let mut s = concat4("<2>", "omnect-os-initramfs: ", "FATAL: ", message);
    s.append("\n");
    s
}

/// The line that goes to /dev/kmsg for a message without the logger.
pub fn direct_line(message: &str) -> (s: String)
    ensures
        s@ == "<6>"@ + "omnect-os-initramfs: "@ + message@ + "\n"@,
{
    concat4("<6>", "omnect-os-initramfs: ", message, "\n")
}

pub open spec fn ratelimit_path() -> Seq<char> {
    "/proc/sys/kernel/printk_ratelimit"@
}

pub open spec fn burst_path() -> Seq<char> {
    "/proc/sys/kernel/printk_ratelimit_burst"@
}

/// The kernel's rate limits from before they were lifted, where they could be read.
pub struct KmsgRatelimitGuard {
    pub saved: Option<(String, String)>,
}

/// The saved rate limits by view.
pub open spec fn saved_view(guard: KmsgRatelimitGuard) -> Option<(Seq<char>, Seq<char>)> {
    match guard.saved {
        Some(p) => Some((p.0@, p.1@)),
        None => None,
    }
}

/// Writes both rate limits, whether or not the writes succeed.
pub open spec fn limits_written(t: Transcript, ratelimit: Seq<char>, burst: Seq<char>) -> (
    Transcript,
    Option<()>,
) {
    let t1 = t.ask(Request::WriteText { path: ratelimit_path(), text: ratelimit });
    match t.next() {
        None => (t1, None),
        Some(_) => {
            let t2 = t1.ask(Request::WriteText { path: burst_path(), text: burst });
            match t1.next() {
                None => (t2, None),
                Some(_) => (t2, Some(())),
            }
        },
    }
}

/// Reads the rate limits and, where both can be read, sets them to zero.
pub open spec fn lifted(t: Transcript) -> (Transcript, Option<Option<(Seq<char>, Seq<char>)>>) {
    let t1 = t.ask(Request::ReadText(ratelimit_path()));
    match t.next() {
        None => (t1, None),
        Some(reply) => match text_of(reply) {
            Err(_) => (t1, Some(None)),
            Ok(ratelimit) => {
                let t2 = t1.ask(Request::ReadText(burst_path()));
                match t1.next() {
                    None => (t2, None),
                    Some(reply) => match text_of(reply) {
                        Err(_) => (t2, Some(None)),
                        Ok(burst) => match limits_written(t2, "0"@, "0"@) {
                            (t3, None) => (t3, None),
                            (t3, Some(_)) => (t3, Some(Some((trim_of(ratelimit), trim_of(burst))))),
                        },
                    },
                }
            },
        },
    }
}

/// Writes saved rate limits back.
pub open spec fn restored(t: Transcript, saved: Option<(Seq<char>, Seq<char>)>) -> (Transcript, Option<()>) {
    match saved {
        None => (t, Some(())),
        Some((ratelimit, burst)) => limits_written(t, ratelimit, burst),
    }
}

fn write_limits(ratelimit: &str, burst: &str, sys: &mut Session) -> (r: Option<()>)
    ensures
        (final(sys)@, r) == limits_written(old(sys)@, ratelimit@, burst@),
{
    match sys.ask(
        Request::WriteText {
            path: String::from_str("/proc/sys/kernel/printk_ratelimit"),
            text: ratelimit.to_owned(),
        },
    ) {
        None => {
            return None;
        },
        Some(_) => {},
    }
    match sys.ask(
        Request::WriteText {
            path: String::from_str("/proc/sys/kernel/printk_ratelimit_burst"),
            text: burst.to_owned(),
        },
    ) {
        None => None,
        Some(_) => Some(()),
    }
}

/// Disable kernel message rate limiting for the duration of an operation.
///
/// Saves the current ratelimit and burst values and zeroes them out so
/// that high-volume output (e.g. fsck) is not suppressed in dmesg.
/// Call `KmsgRatelimitGuard::restore` to restore them. `None` means that an answer is
/// outstanding.
pub fn disable_kmsg_ratelimit(sys: &mut Session) -> (r: Option<KmsgRatelimitGuard>)
    ensures
        final(sys)@ == lifted(old(sys)@).0,
        match r {
            Some(guard) => lifted(old(sys)@).1 == Some(saved_view(guard)),
            None => lifted(old(sys)@).1 is None,
        },
{
    let ratelimit = match sys.fetch(
        Request::ReadText(String::from_str("/proc/sys/kernel/printk_ratelimit")),
    ) {
        None => {
            return None;
        },
        Some(Err(_)) => {
            return Some(KmsgRatelimitGuard { saved: None });
        },
        Some(Ok(s)) => trim(s.as_str()),
    };
    let burst = match sys.fetch(
        Request::ReadText(String::from_str("/proc/sys/kernel/printk_ratelimit_burst")),
    ) {
        None => {
            return None;
        },
        Some(Err(_)) => {
            return Some(KmsgRatelimitGuard { saved: None });
        },
        Some(Ok(s)) => trim(s.as_str()),
    };
    match write_limits("0", "0", sys) {
        None => None,
        Some(()) => Some(KmsgRatelimitGuard { saved: Some((ratelimit, burst)) }),
    }
}

impl KmsgRatelimitGuard {
    /// Re-enable kernel message rate limiting by restoring the saved values.
    pub fn restore(self, sys: &mut Session) -> (r: Option<()>)
        ensures
            (final(sys)@, r) == restored(old(sys)@, saved_view(self)),
    {
        match self.saved {
            None => Some(()),
            Some((ratelimit, burst)) => write_limits(ratelimit.as_str(), burst.as_str(), sys),
        }
    }
}

/// The request that lifts the rate limit of /dev/kmsg.
pub open spec fn devkmsg_request() -> RequestView {
    Request::WriteText { path: "/proc/sys/kernel/printk_devkmsg"@, text: "on\n"@ }
}

/// Disable per-message rate limiting for /dev/kmsg writes.
///
/// The kernel rate-limits messages written to /dev/kmsg by default. During
/// early init we want all messages logged without suppression.
/// Best-effort: failures are silently ignored.
pub fn disable_printk_ratelimit(sys: &mut Session) -> (r: Option<()>)
    ensures
        final(sys)@ == old(sys)@.ask(devkmsg_request()),
        r is Some <==> old(sys)@.next() is Some,
{
    match sys.ask(
        Request::WriteText {
            path: String::from_str("/proc/sys/kernel/printk_devkmsg"),
            text: String::from_str("on\n"),
        },
    ) {
        None => None,
        Some(_) => Some(()),
    }
}

/// Where both rate limits could be read, what is restored is what was read, and it was
/// zero in between.
pub proof fn law_limits_restored(t: Transcript)
    requires
        lifted(t).1 is Some,
        lifted(t).1->0 is Some,
    ensures
        t.rest.len() >= 4,
        text_of(t.rest[0]) is Ok,
        text_of(t.rest[1]) is Ok,
        lifted(t).1->0->0 == (trim_of(text_of(t.rest[0])->Ok_0), trim_of(text_of(t.rest[1])->Ok_0)),
        lifted(t).0.asked == t.asked + seq![
            RequestView::ReadText(ratelimit_path()),
            RequestView::ReadText(burst_path()),
            RequestView::WriteText { path: ratelimit_path(), text: "0"@ },
            RequestView::WriteText { path: burst_path(), text: "0"@ },
        ],
{
    let t1 = t.ask(Request::ReadText(ratelimit_path()));
    assert(t1.rest[0] == t.rest[1]);
    let t2 = t1.ask(Request::ReadText(burst_path()));
    let t3 = t2.ask(Request::WriteText { path: ratelimit_path(), text: "0"@ });
    assert(t2.rest.len() == t.rest.len() - 2);
    assert(t3.rest.len() == t.rest.len() - 3);
    assert(lifted(t).0.asked =~= t.asked + seq![
        RequestView::ReadText(ratelimit_path()),
        RequestView::ReadText(burst_path()),
        RequestView::WriteText { path: ratelimit_path(), text: "0"@ },
        RequestView::WriteText { path: burst_path(), text: "0"@ },
    ]);
}

} // verus!
