//! What the procedures are for
//!
//! The specification functions say which requests a procedure asks, one after the other. The
//! laws here say what these requests do to the device: which device is mounted where and how,
//! what a variable reads after it was written, what is on the disk again after a reset. They
//! are stated in the words of the system, with the programs, paths and options written out.

pub mod boot;
pub mod devices;
pub mod environment;
pub mod checkpoints;
pub mod links;
pub mod mounts;
pub mod overlay;
pub mod preserved;
pub mod records;
pub mod reset;
pub mod runtime;
pub mod scripts;
pub mod setup;
pub mod switch;
pub mod texts;
pub mod whole;

use vstd::prelude::*;

use crate::filesystem::{mount_points, overlayfs, paths};
use crate::partition::layout::PartitionName;
use crate::path::{joined, slash, without_root};
use crate::replay::{extends, replayable, replays, Run};
use crate::system::{MountFlags, ReplyView, RequestView, Transcript};
use crate::text::{lemma_run_len, run_len};

verus! {

/// The requests of a run from `t` to `end`.
pub open spec fn asked_in(t: Transcript, end: Transcript) -> Seq<RequestView> {
    end.asked.skip(t.asked.len() as int)
}

/// `end` follows `t`: requests were added, and each of them used up one answer.
#[verifier::opaque]
pub open spec fn follows(t: Transcript, end: Transcript) -> bool {
    let n = end.asked.len() - t.asked.len();
    &&& t.asked.is_prefix_of(end.asked)
    &&& end.rest == if n <= t.rest.len() {
        t.rest.skip(n)
    } else {
        Seq::empty()
    }
}

/// A program ended with the exit code 0.
pub open spec fn exited_well(reply: ReplyView) -> bool {
    reply matches ReplyView::Output(out) && out.code == Some(0i32)
}

/// Every request of a run from `t` to `end` is as `p` says.
#[verifier::opaque]
pub open spec fn asks_only(t: Transcript, end: Transcript, p: spec_fn(RequestView) -> bool) -> bool {
    &&& t.asked.is_prefix_of(end.asked)
    &&& forall|i: int| t.asked.len() <= i < end.asked.len() ==> p(#[trigger] end.asked[i])
}

/// In a run from `t` to `end`, `request` was asked and answered with `reply`.
pub open spec fn answered(t: Transcript, end: Transcript, request: RequestView, reply: ReplyView) -> bool {
    exists|i: int| answered_at(t, end, i, request, reply)
}

/// The same of the request at position `i`.
pub open spec fn answered_at(t: Transcript, end: Transcript, i: int, request: RequestView, reply: ReplyView) -> bool {
    &&& 0 <= i < asked_in(t, end).len()
    &&& i < t.rest.len()
    &&& asked_in(t, end)[i] == request
    &&& t.rest[i] == reply
}

/// A request that changes nothing on the device: a question, also one to the bootloader
/// environment or to the partition table, a look at the clock, a line in the log, or one of the two limits of the kernel
/// log, which are lifted and put back.
pub open spec fn quiet(request: RequestView) -> bool {
    match request {
        RequestView::Exists(_) => true,
        RequestView::TryExists(_) => true,
        RequestView::IsDir(_) => true,
        RequestView::IsFile(_) => true,
        RequestView::IsSymlink(_) => true,
        RequestView::IsExecutable(_) => true,
        RequestView::ReadText(_) => true,
        RequestView::ReadLink(_) => true,
        RequestView::ListDir(_) => true,
        RequestView::Clock => true,
        RequestView::Sleep(_) => true,
        RequestView::Warn(_) => true,
        RequestView::WriteText { path, text } => path == "/proc/sys/kernel/printk_ratelimit"@ || path
            == "/proc/sys/kernel/printk_ratelimit_burst"@,
        RequestView::Run { program, args } => program == "/bin/fw_printenv"@ || (program == "/bin/grub-editenv"@
            && args.len() == 2 && args[1] == "list"@) || (program == "/sbin/parted"@ && args.len() == 2 && args[1]
            == "print"@),
        _ => false,
    }
}

/// The requests that change something, in their order.
pub open spec fn deeds(asked: Seq<RequestView>) -> Seq<RequestView>
    decreases asked.len(),
{
    if asked.len() == 0 {
        asked
    } else if quiet(asked.last()) {
        deeds(asked.drop_last())
    } else {
        deeds(asked.drop_last()).push(asked.last())
    }
}

/// A request was not refused, and a program ended with the exit code 0; what fsck and e2fsck ended
/// with is weighed elsewhere.
pub open spec fn went_well(request: RequestView, reply: ReplyView) -> bool {
    match request {
        RequestView::Run { program, args } => program == "/sbin/fsck"@ || program == "/sbin/e2fsck"@ || exited_well(
            reply,
        ),
        RequestView::Pipe { program, args, input } => reply matches ReplyView::Bytes { code, stdout } && code == Some(
            0i32,
        ),
        _ => !(reply is Failed),
    }
}

/// In a run from `t` to `end`, every request was answered, the requests that change something
/// were `list`, in this order, and each of them went well.
#[verifier::opaque]
pub open spec fn achieves(t: Transcript, end: Transcript, list: Seq<RequestView>) -> bool {
    let asked = asked_in(t, end);
    &&& follows(t, end)
    &&& asked.len() <= t.rest.len()
    &&& deeds(asked) == list
    &&& forall|i: int| 0 <= i < asked.len() && !quiet(#[trigger] asked[i]) ==> went_well(asked[i], t.rest[i])
}

/// `name` under `dir`, with one slash between them.
pub open spec fn under(dir: Seq<char>, name: Seq<char>) -> Seq<char> {
    if dir.len() == 0 {
        name
    } else if dir.last() == '/' {
        dir + name
    } else {
        dir.push('/') + name
    }
}

/// `path` without its leading slashes.
pub open spec fn unrooted(path: Seq<char>) -> Seq<char>
    decreases path.len(),
{
    if path.len() > 0 && path[0] == '/' {
        unrooted(path.drop_first())
    } else {
        path
    }
}

/// The name of a partition.
pub open spec fn name_of(partition: PartitionName) -> Seq<char> {
    match partition {
        PartitionName::Boot => "boot"@,
        PartitionName::RootA => "rootA"@,
        PartitionName::RootB => "rootB"@,
        PartitionName::RootCurrent => "rootCurrent"@,
        PartitionName::Factory => "factory"@,
        PartitionName::Cert => "cert"@,
        PartitionName::Etc => "etc"@,
        PartitionName::Data => "data"@,
        PartitionName::Extended => "extended"@,
    }
}

/// No flag of mount(2).
pub open spec fn unflagged() -> MountFlags {
    MountFlags {
        rd_only: false,
        no_suid: false,
        no_dev: false,
        no_exec: false,
        no_atime: false,
        no_dir_atime: false,
        strict_atime: false,
        bind: false,
        relocate: false,
        rec: false,
        private: false,
    }
}

/// A relative path is put under a directory with one slash between them.
pub proof fn law_joined(dir: Seq<char>, name: Seq<char>)
    ensures
        !(name.len() > 0 && name[0] == '/') ==> joined(dir, name) == under(dir, name),
        name.len() > 0 && name[0] == '/' ==> joined(dir, name) == name,
{
    reveal_strlit("/");
    assert(dir + "/"@ =~= dir.push('/'));
}

pub proof fn lemma_unrooted(path: Seq<char>)
    ensures
        without_root(path) == unrooted(path),
        unrooted(path).len() > 0 ==> unrooted(path)[0] != '/',
    decreases path.len(),
{
    if path.len() > 0 && path[0] == '/' {
        lemma_unrooted(path.drop_first());
        let n = run_len(path.drop_first(), slash());
        lemma_run_len(path.drop_first(), slash());
        assert(run_len(path, slash()) == 1 + n);
        assert(path.skip(1 + n as int) =~= path.drop_first().skip(n as int));
    } else {
        assert(run_len(path, slash()) == 0);
        assert(path.skip(0) =~= path);
    }
}

pub proof fn lemma_under_unrooted(dir: Seq<char>, path: Seq<char>)
    ensures
        joined(dir, without_root(path)) == under(dir, unrooted(path)),
{
    lemma_unrooted(path);
    law_joined(dir, unrooted(path));
}

pub broadcast proof fn lemma_follows_ask(t: Transcript, request: RequestView)
    ensures
        follows(t, #[trigger] t.ask(request)),
{
    reveal(follows);
    let end = t.ask(request);
    if t.rest.len() > 0 {
        assert(t.rest.drop_first() =~= t.rest.skip(1));
    } else {
        assert(end.rest =~= Seq::<ReplyView>::empty());
    }
}

pub broadcast proof fn lemma_follows_itself(t: Transcript)
    ensures
        #[trigger] follows(t, t),
{
    reveal(follows);
    assert(t.rest.skip(0) =~= t.rest);
}

pub broadcast proof fn lemma_follows_further(t: Transcript, u: Transcript, v: Transcript)
    requires
        #[trigger] follows(t, u),
        #[trigger] follows(u, v),
    ensures
        follows(t, v),
{
    reveal(follows);
    assert(t.asked =~= v.asked.take(t.asked.len() as int));
    let n = u.asked.len() - t.asked.len();
    let m = v.asked.len() - u.asked.len();
    if n <= t.rest.len() && m <= u.rest.len() {
        assert(t.rest.skip(n).skip(m) =~= t.rest.skip(n + m));
    } else if n <= t.rest.len() {
        assert(n + m > t.rest.len());
    } else if m == 0 {
        assert(u.rest.skip(0) =~= Seq::<ReplyView>::empty());
    }
}

/// The end of a procedure follows its beginning.
pub proof fn lemma_follows<R: Run>(t: Transcript, procedure: spec_fn(Transcript) -> R)
    requires
        forall|u: Transcript| #[trigger] replayable(u, procedure),
        forall|run: R, more: Seq<ReplyView>| (#[trigger] run.given(more)).end() == run.end().plus(more),
    ensures
        follows(t, procedure(t).end()),
{
    reveal(follows);
    reveal(extends);
    assert(replayable(t, procedure));
    let end = procedure(t).end();
    let n = end.asked.len() - t.asked.len();
    if !procedure(t).waits() {
        let u = Transcript { asked: t.asked, rest: t.rest.take(n) };
        let more = t.rest.skip(n);
        assert(replayable(u, procedure));
        assert(t.rest.take(n) + more =~= t.rest);
        assert(u.plus(more) == t);
        assert(replays(procedure(u), procedure(u.plus(more)), more));
        assert(!procedure(u).waits());
        assert(procedure(t) == procedure(u).given(more));
        assert(procedure(u).end().rest =~= Seq::<ReplyView>::empty());
        assert(end.rest =~= more);
    } else {
        assert(end.rest =~= Seq::<ReplyView>::empty());
    }
}

pub proof fn lemma_asked_further(t: Transcript, u: Transcript, v: Transcript)
    requires
        follows(t, u),
        follows(u, v),
    ensures
        follows(t, v),
        asked_in(t, v) == asked_in(t, u) + asked_in(u, v),
        asked_in(t, u).len() <= t.rest.len() ==> u.rest == t.rest.skip(asked_in(t, u).len() as int),
        asked_in(t, u).len() > t.rest.len() ==> u.rest.len() == 0,
{
    lemma_follows_further(t, u, v);
    reveal(follows);
    assert(asked_in(t, v) =~= asked_in(t, u) + asked_in(u, v));
}

/// The programs that change something are others than those that are only asked.
pub proof fn lemma_programs()
    ensures
        "/bin/cp"@ != "/sbin/fsck"@,
        "/bin/cp"@ != "/sbin/e2fsck"@,
        "/bin/cp"@ != "/bin/fw_printenv"@,
        "/bin/cp"@ != "/bin/grub-editenv"@,
        "/bin/cp"@ != "/sbin/parted"@,
        "/bin/sync"@ != "/sbin/fsck"@,
        "/bin/sync"@ != "/sbin/e2fsck"@,
        "/bin/sync"@ != "/bin/fw_printenv"@,
        "/bin/sync"@ != "/bin/grub-editenv"@,
        "/bin/sync"@ != "/sbin/parted"@,
        "/sbin/mkfs.ext4"@ != "/sbin/fsck"@,
        "/sbin/mkfs.ext4"@ != "/sbin/e2fsck"@,
        "/sbin/mkfs.ext4"@ != "/bin/fw_printenv"@,
        "/sbin/mkfs.ext4"@ != "/bin/grub-editenv"@,
        "/sbin/mkfs.ext4"@ != "/sbin/parted"@,
        "/sbin/tune2fs"@ != "/sbin/fsck"@,
        "/sbin/tune2fs"@ != "/sbin/e2fsck"@,
        "/sbin/tune2fs"@ != "/bin/fw_printenv"@,
        "/sbin/tune2fs"@ != "/bin/grub-editenv"@,
        "/sbin/tune2fs"@ != "/sbin/parted"@,
        "/bin/fw_setenv"@ != "/sbin/fsck"@,
        "/bin/fw_setenv"@ != "/sbin/e2fsck"@,
        "/bin/fw_setenv"@ != "/bin/fw_printenv"@,
        "/bin/fw_setenv"@ != "/bin/grub-editenv"@,
        "/bin/fw_setenv"@ != "/sbin/parted"@,
        "/sbin/sgdisk"@ != "/sbin/fsck"@,
        "/sbin/sgdisk"@ != "/sbin/e2fsck"@,
        "/sbin/sgdisk"@ != "/bin/fw_printenv"@,
        "/sbin/sgdisk"@ != "/bin/grub-editenv"@,
        "/sbin/sgdisk"@ != "/sbin/parted"@,
        "/sbin/parted"@ != "/sbin/fsck"@,
        "/sbin/parted"@ != "/sbin/e2fsck"@,
        "/sbin/parted"@ != "/bin/fw_printenv"@,
        "/sbin/parted"@ != "/bin/grub-editenv"@,
        "/sbin/resize2fs"@ != "/sbin/fsck"@,
        "/sbin/resize2fs"@ != "/sbin/e2fsck"@,
        "/sbin/resize2fs"@ != "/bin/fw_printenv"@,
        "/sbin/resize2fs"@ != "/bin/grub-editenv"@,
        "/sbin/resize2fs"@ != "/sbin/parted"@,
        "/sbin/e2fsck"@ != "/sbin/fsck"@,
        "/sbin/e2fsck"@ != "/bin/fw_printenv"@,
        "/sbin/e2fsck"@ != "/bin/grub-editenv"@,
        "/sbin/e2fsck"@ != "/sbin/parted"@,
        "/sbin/fsck"@ != "/sbin/e2fsck"@,
        "/sbin/fsck"@ != "/bin/fw_printenv"@,
        "/sbin/fsck"@ != "/bin/grub-editenv"@,
        "/sbin/fsck"@ != "/sbin/parted"@,
        "/bin/grub-editenv"@ != "/bin/fw_printenv"@,
{
    reveal_strlit("/bin/cp");
    assert("/bin/cp"@.len() == 7);
    reveal_strlit("/bin/sync");
    assert("/bin/sync"@.len() == 9);
    reveal_strlit("/sbin/mkfs.ext4");
    assert("/sbin/mkfs.ext4"@.len() == 15);
    reveal_strlit("/sbin/tune2fs");
    assert("/sbin/tune2fs"@.len() == 13);
    reveal_strlit("/bin/fw_setenv");
    assert("/bin/fw_setenv"@.len() == 14);
    reveal_strlit("/sbin/sgdisk");
    assert("/sbin/sgdisk"@.len() == 12);
    reveal_strlit("/sbin/parted");
    assert("/sbin/parted"@.len() == 12);
    reveal_strlit("/sbin/resize2fs");
    assert("/sbin/resize2fs"@.len() == 15);
    reveal_strlit("/sbin/e2fsck");
    assert("/sbin/e2fsck"@.len() == 12);
    reveal_strlit("/sbin/fsck");
    assert("/sbin/fsck"@.len() == 10);
    reveal_strlit("/bin/fw_printenv");
    assert("/bin/fw_printenv"@.len() == 16);
    reveal_strlit("/bin/grub-editenv");
    assert("/bin/grub-editenv"@.len() == 17);
    assert("/sbin/sgdisk"@[6] == 's' && "/sbin/parted"@[6] == 'p' && "/sbin/e2fsck"@[6] == 'e');
}

/// The places under a directory that the procedures name.
pub proof fn lemma_places(dir: Seq<char>)
    ensures
        joined(dir, mount_points::ETC_PARTITION@) == under(dir, "mnt/etc"@),
        joined(dir, mount_points::DATA_PARTITION@) == under(dir, "mnt/data"@),
        joined(dir, mount_points::FACTORY_PARTITION@) == under(dir, "mnt/factory"@),
        joined(dir, mount_points::CERT_PARTITION@) == under(dir, "mnt/cert"@),
        joined(dir, mount_points::VAR_VOLATILE@) == under(dir, "var/volatile"@),
        joined(dir, mount_points::ROOT_CURRENT_PRIVATE@) == under(dir, "mnt/rootCurrentPrivate"@),
        joined(dir, mount_points::BOOT@) == under(dir, "boot"@),
        joined(dir, paths::ETC@) == under(dir, "etc"@),
        joined(dir, paths::HOME@) == under(dir, "home"@),
        joined(dir, paths::VAR_LIB@) == under(dir, "var/lib"@),
        joined(dir, paths::VAR_LOG@) == under(dir, "var/log"@),
        joined(dir, paths::DATA_LOCAL_DIR@) == under(dir, "local"@),
        joined(dir, paths::USR_LOCAL@) == under(dir, "usr/local"@),
        joined(dir, overlayfs::UPPER@) == under(dir, "upper"@),
        joined(dir, overlayfs::WORK@) == under(dir, "work"@),
{
    reveal_strlit("mnt/etc");
    law_joined(dir, "mnt/etc"@);
    reveal_strlit("mnt/data");
    law_joined(dir, "mnt/data"@);
    reveal_strlit("mnt/factory");
    law_joined(dir, "mnt/factory"@);
    reveal_strlit("mnt/cert");
    law_joined(dir, "mnt/cert"@);
    reveal_strlit("var/volatile");
    law_joined(dir, "var/volatile"@);
    reveal_strlit("mnt/rootCurrentPrivate");
    law_joined(dir, "mnt/rootCurrentPrivate"@);
    reveal_strlit("boot");
    law_joined(dir, "boot"@);
    reveal_strlit("etc");
    law_joined(dir, "etc"@);
    reveal_strlit("home");
    law_joined(dir, "home"@);
    reveal_strlit("var/lib");
    law_joined(dir, "var/lib"@);
    reveal_strlit("var/log");
    law_joined(dir, "var/log"@);
    reveal_strlit("local");
    law_joined(dir, "local"@);
    reveal_strlit("usr/local");
    law_joined(dir, "usr/local"@);
    reveal_strlit("upper");
    law_joined(dir, "upper"@);
    reveal_strlit("work");
    law_joined(dir, "work"@);
}

proof fn lemma_deeds_add(a: Seq<RequestView>, b: Seq<RequestView>)
    ensures
        deeds(a + b) == deeds(a) + deeds(b),
    decreases b.len(),
{
    if b.len() == 0 {
        assert(a + b =~= a);
        assert(deeds(a) + deeds(b) =~= deeds(a));
    } else {
        lemma_deeds_add(a, b.drop_last());
        assert((a + b).drop_last() =~= a + b.drop_last());
        assert((a + b).last() == b.last());
        assert(deeds(a + b) =~= deeds(a) + deeds(b));
    }
}

pub broadcast proof fn lemma_achieves_nothing(t: Transcript)
    ensures
        #[trigger] achieves(t, t, Seq::empty()),
{
    reveal(achieves);
    lemma_follows_itself(t);
    assert(asked_in(t, t) =~= Seq::empty());
}

pub broadcast proof fn lemma_achieves_further(
    t: Transcript,
    u: Transcript,
    v: Transcript,
    a: Seq<RequestView>,
    b: Seq<RequestView>,
)
    requires
        #[trigger] achieves(t, u, a),
        #[trigger] achieves(u, v, b),
    ensures
        achieves(t, v, a + b),
{
    reveal(achieves);
    lemma_asked_further(t, u, v);
    lemma_deeds_add(asked_in(t, u), asked_in(u, v));
    let n = asked_in(t, u).len();
    let asked = asked_in(t, v);
    assert forall|i: int| 0 <= i < asked.len() && !quiet(#[trigger] asked[i]) implies went_well(asked[i], t.rest[i]) by {
        if i < n {
            assert(asked[i] == asked_in(t, u)[i]);
        } else {
            assert(asked[i] == asked_in(u, v)[i - n]);
            assert(t.rest[i] == u.rest[i - n]);
        }
    }
}

/// What one request does.
pub broadcast proof fn lemma_achieves_next(t: Transcript, u: Transcript, request: RequestView, list: Seq<RequestView>)
    requires
        #[trigger] achieves(t, u, list),
        u.next() is Some,
        quiet(request) || went_well(request, u.next()->0),
    ensures
        quiet(request) ==> achieves(t, #[trigger] u.ask(request), list),
        !quiet(request) ==> achieves(t, u.ask(request), list.push(request)),
{
    let v = u.ask(request);
    lemma_follows_ask(u, request);
    assert(asked_in(u, v) =~= seq![request]);
    assert(seq![request].drop_last() =~= Seq::empty());
    assert(deeds(Seq::empty()) =~= Seq::empty());
    let one = if quiet(request) {
        Seq::empty()
    } else {
        Seq::empty().push(request)
    };
    assert(achieves(u, v, one)) by {
        reveal(achieves);
    }
    lemma_achieves_further(t, u, v, list, one);
    assert(list + Seq::<RequestView>::empty() =~= list);
    assert(list + Seq::empty().push(request) =~= list.push(request));
}

pub broadcast group group_achieves {
    lemma_achieves_nothing,
    lemma_achieves_next,
}

/// What was answered in one part of a run was answered in the whole.
pub proof fn lemma_answered_further(t: Transcript, u: Transcript, v: Transcript, request: RequestView, reply: ReplyView)
    requires
        follows(t, u),
        follows(u, v),
    ensures
        answered(t, u, request, reply) || answered(u, v, request, reply) ==> answered(t, v, request, reply),
{
    lemma_asked_further(t, u, v);
    if answered(t, u, request, reply) {
        let i = choose|i: int| answered_at(t, u, i, request, reply);
        assert(answered_at(t, v, i, request, reply));
    }
    if answered(u, v, request, reply) {
        let i = choose|i: int| answered_at(u, v, i, request, reply);
        assert(answered_at(t, v, asked_in(t, u).len() + i, request, reply));
    }
}

pub proof fn lemma_asks_nothing(t: Transcript, p: spec_fn(RequestView) -> bool)
    ensures
        asks_only(t, t, p),
{
    reveal(asks_only);
}

pub broadcast proof fn lemma_asks_next(
    t: Transcript,
    u: Transcript,
    request: RequestView,
    p: spec_fn(RequestView) -> bool,
)
    requires
        #[trigger] asks_only(t, u, p),
        p(request),
    ensures
        asks_only(t, #[trigger] u.ask(request), p),
{
    reveal(asks_only);
    let v = u.ask(request);
    assert(t.asked =~= v.asked.take(t.asked.len() as int));
}

pub broadcast proof fn lemma_asks_further(t: Transcript, u: Transcript, v: Transcript, p: spec_fn(RequestView) -> bool)
    requires
        #[trigger] asks_only(t, u, p),
        #[trigger] asks_only(u, v, p),
    ensures
        asks_only(t, v, p),
{
    reveal(asks_only);
    assert(t.asked =~= v.asked.take(t.asked.len() as int));
    assert forall|i: int| t.asked.len() <= i < v.asked.len() implies p(#[trigger] v.asked[i]) by {
        if i < u.asked.len() {
            assert(v.asked[i] == u.asked[i]);
        }
    }
}

/// Where `p` says less than `q`, so does what is said of a run.
pub proof fn lemma_asks_weaker(
    t: Transcript,
    u: Transcript,
    p: spec_fn(RequestView) -> bool,
    q: spec_fn(RequestView) -> bool,
)
    requires
        asks_only(t, u, p),
        forall|r: RequestView| #[trigger] p(r) ==> q(r),
    ensures
        asks_only(t, u, q),
{
    reveal(asks_only);
}

pub broadcast group group_asks {
    lemma_asks_next,
    lemma_asks_further,
}

} // verus!
