//! Mount operations
//!
//! Provides free functions for performing mount operations, along with
//! `MountOptions` and `MountPoint` builder types for composing mount flags.

use vstd::prelude::*;
use vstd::string::*;

use crate::error::{concat2, FilesystemError};
use crate::system::{
    done_of, outcome, text_of, MountFlag, MountFlags, Request, RequestView, Session, Stop, Transcript,
};
use crate::text::{lines, lines_of, same, words, words_of};

verus! {

/// An error of a filesystem operation by view.
pub type FsErrorView = FilesystemError<Seq<char>>;

/// How a filesystem operation ended, by view.
pub type FsOutcome<T> = Result<T, Stop<FsErrorView>>;

/// Filesystem type for mount and fsck operations.
#[derive(Debug, Clone, Copy, PartialEq, Eq, Structural)]
pub enum FsType {
    Ext4,
    Vfat,
    Tmpfs,
    Overlay,
}

impl FsType {
    pub open spec fn text(self) -> Seq<char> {
        match self {
            FsType::Ext4 => "ext4"@,
            FsType::Vfat => "vfat"@,
            FsType::Tmpfs => "tmpfs"@,
            FsType::Overlay => "overlay"@,
        }
    }

    /// Canonical filesystem type string passed to mount(2) and fsck -t.
    pub fn as_str(self) -> (s: &'static str)
        ensures
            s@ == self.text(),
    {
        match self {
            FsType::Ext4 => "ext4",
            FsType::Vfat => "vfat",
            FsType::Tmpfs => "tmpfs",
            FsType::Overlay => "overlay",
        }
    }

    pub fn to_string(&self) -> (s: String)
        ensures
            s@ == self.text(),
    {
        String::from_str(self.as_str())
    }
}

/// Options for mounting a filesystem
#[derive(Debug, Clone)]
pub struct MountOptions<S = String> {
    /// Filesystem type
    pub fstype: Option<FsType>,
    /// Mount flags
    pub flags: MountFlags,
    /// Additional mount data/options string
    pub data: Option<S>,
}

/// Mount options by view.
pub type MountOptionsView = MountOptions<Seq<char>>;

impl View for MountOptions {
    type V = MountOptionsView;

    open spec fn view(&self) -> MountOptionsView {
        MountOptions { fstype: self.fstype, flags: self.flags, data: self.data.deep_view() }
    }
}

/// Options with a filesystem type and flags alone.
pub open spec fn options_of(fstype: Option<FsType>, flags: MountFlags) -> MountOptionsView {
    MountOptions { fstype, flags, data: None }
}

impl Default for MountOptions {
    fn default() -> (r: Self)
        ensures
            r@ == options_of(None, MountFlags::none()),
    {
        MountOptions { fstype: None, flags: MountFlags::empty(), data: None }
    }
}

impl MountOptionsView {
    pub open spec fn plus(self, flag: MountFlag) -> Self {
        MountOptions { flags: self.flags.plus(flag), ..self }
    }
}

impl MountOptions {
    /// Create options for a read-only ext4 mount
    pub fn ext4_readonly() -> (r: Self)
        ensures
            r@ == options_of(Some(FsType::Ext4), MountFlags::none().plus(MountFlag::RdOnly)),
    {
        MountOptions {
            fstype: Some(FsType::Ext4),
            flags: MountFlags::empty().with(MountFlag::RdOnly),
            data: None,
        }
    }

    /// Create options for a read-write ext4 mount
    pub fn ext4_readwrite() -> (r: Self)
        ensures
            r@ == options_of(Some(FsType::Ext4), MountFlags::none()),
    {
        MountOptions { fstype: Some(FsType::Ext4), flags: MountFlags::empty(), data: None }
    }

    /// Create options for a FAT32 boot partition
    pub fn vfat() -> (r: Self)
        ensures
            r@ == options_of(Some(FsType::Vfat), MountFlags::none()),
    {
        MountOptions { fstype: Some(FsType::Vfat), flags: MountFlags::empty(), data: None }
    }

    /// Create options for a bind mount
    pub fn bind() -> (r: Self)
        ensures
            r@ == options_of(None, MountFlags::none().plus(MountFlag::Bind)),
    {
        MountOptions { fstype: None, flags: MountFlags::empty().with(MountFlag::Bind), data: None }
    }

    /// Create options for a tmpfs mount
    pub fn tmpfs() -> (r: Self)
        ensures
            r@ == options_of(Some(FsType::Tmpfs), MountFlags::none()),
    {
        MountOptions { fstype: Some(FsType::Tmpfs), flags: MountFlags::empty(), data: None }
    }

    fn plus(self, flag: MountFlag) -> (r: Self)
        ensures
            r@ == self@.plus(flag),
    {
        MountOptions { fstype: self.fstype, flags: self.flags.with(flag), data: self.data }
    }

    /// Add read-only flag
    pub fn readonly(self) -> (r: Self)
        ensures
            r@ == self@.plus(MountFlag::RdOnly),
    {
        self.plus(MountFlag::RdOnly)
    }

    /// Add noatime flag
    pub fn noatime(self) -> (r: Self)
        ensures
            r@ == self@.plus(MountFlag::NoAtime),
    {
        self.plus(MountFlag::NoAtime)
    }

    /// Add nodiratime flag
    pub fn nodiratime(self) -> (r: Self)
        ensures
            r@ == self@.plus(MountFlag::NoDirAtime),
    {
        self.plus(MountFlag::NoDirAtime)
    }

    /// Add nosuid flag
    pub fn nosuid(self) -> (r: Self)
        ensures
            r@ == self@.plus(MountFlag::NoSuid),
    {
        self.plus(MountFlag::NoSuid)
    }

    /// Add nodev flag
    pub fn nodev(self) -> (r: Self)
        ensures
            r@ == self@.plus(MountFlag::NoDev),
    {
        self.plus(MountFlag::NoDev)
    }

    /// Add noexec flag
    pub fn noexec(self) -> (r: Self)
        ensures
            r@ == self@.plus(MountFlag::NoExec),
    {
        self.plus(MountFlag::NoExec)
    }

    /// Set mount data/options string
    pub fn with_data(self, data: &str) -> (r: Self)
        ensures
            r@ == (MountOptions { data: Some(data@), ..self@ }),
    {
        MountOptions { fstype: self.fstype, flags: self.flags, data: Some(data.to_owned()) }
    }
}

/// Represents a mounted filesystem
#[derive(Debug, Clone)]
pub struct MountPoint<S = String> {
    /// Source device or path
    pub source: S,
    /// Target mount point
    pub target: S,
    /// Mount options used
    pub options: MountOptions<S>,
}

/// A mount point by view.
pub type MountPointView = MountPoint<Seq<char>>;

impl View for MountPoint {
    type V = MountPointView;

    open spec fn view(&self) -> MountPointView {
        MountPoint { source: self.source@, target: self.target@, options: self.options@ }
    }
}

/// A mount point from its parts.
pub open spec fn mount_point(source: Seq<char>, target: Seq<char>, options: MountOptionsView) -> MountPointView {
    MountPoint { source, target, options }
}

impl MountPoint {
    /// Create a new mount point definition
    pub fn new(source: &str, target: &str, options: MountOptions) -> (r: Self)
        ensures
            r@ == mount_point(source@, target@, options@),
    {
        MountPoint { source: source.to_owned(), target: target.to_owned(), options }
    }
}

/// The request that mounts `mp`; an empty source is passed as none.
pub open spec fn mount_request(mp: MountPointView) -> RequestView {
    Request::Mount {
        source: if mp.source.len() == 0 {
            None
        } else {
            Some(mp.source)
        },
        target: mp.target,
        fstype: match mp.options.fstype {
            Some(t) => Some(t.text()),
            None => None,
        },
        flags: mp.options.flags,
        data: mp.options.data,
    }
}

/// Mounts `mp`.
pub open spec fn mounted(t: Transcript, mp: MountPointView) -> (Transcript, FsOutcome<()>) {
    (
        t.ask(mount_request(mp)),
        match t.next() {
            None => Err(Stop::Pending),
            Some(reply) => match done_of(reply) {
                Ok(_) => Ok(()),
                Err(e) => Err(
                    Stop::Failed(
                        FilesystemError::MountFailed {
                            src_path: mp.source,
                            target: mp.target,
                            reason: e.text(),
                        },
                    ),
                ),
            },
        },
    )
}

/// Mount a filesystem described by `mp`.
pub fn mount(mp: MountPoint, sys: &mut Session) -> (r: Result<(), Stop<FilesystemError>>)
    ensures
        (final(sys)@, outcome(r)) == mounted(old(sys)@, mp@),
{
    let source: Option<String> = if mp.source.as_str().is_empty() {
        None
    } else {
        Some(mp.source.clone())
    };
    let fstype: Option<String> = match mp.options.fstype {
        Some(t) => Some(t.to_string()),
        None => None,
    };
    match sys.perform(
        Request::Mount {
            source,
            target: mp.target.clone(),
            fstype,
            flags: mp.options.flags,
            data: mp.options.data,
        },
    ) {
        None => Err(Stop::Pending),
        Some(Ok(())) => Ok(()),
        Some(Err(e)) => Err(
            Stop::Failed(
                FilesystemError::MountFailed {
                    src_path: mp.source,
                    target: mp.target,
                    reason: e.to_string(),
                },
            ),
        ),
    }
}

/// Mount a filesystem read-write.
pub fn mount_readwrite(source: &str, target: &str, fstype: FsType, sys: &mut Session) -> (r: Result<
    (),
    Stop<FilesystemError>,
>)
    ensures
        (final(sys)@, outcome(r)) == mounted(
            old(sys)@,
            mount_point(source@, target@, options_of(Some(fstype), MountFlags::none())),
        ),
{
    mount(
        MountPoint::new(
            source,
            target,
            MountOptions { fstype: Some(fstype), flags: MountFlags::empty(), data: None },
        ),
        sys,
    )
}

/// The mount point of a tmpfs.
pub open spec fn tmpfs_at(target: Seq<char>, flags: MountFlags, data: Option<Seq<char>>) -> MountPointView {
    mount_point("tmpfs"@, target, MountOptions { fstype: Some(FsType::Tmpfs), flags, data })
}

/// Mount a tmpfs filesystem.
pub fn mount_tmpfs(target: &str, flags: MountFlags, data: Option<&str>, sys: &mut Session) -> (r: Result<
    (),
    Stop<FilesystemError>,
>)
    ensures
        (final(sys)@, outcome(r)) == mounted(
            old(sys)@,
            tmpfs_at(target@, flags, crate::bootloader::opt_text(data)),
        ),
{
    let data: Option<String> = match data {
        Some(s) => Some(s.to_owned()),
        None => None,
    };
    mount(
        MountPoint::new("tmpfs", target, MountOptions { fstype: Some(FsType::Tmpfs), flags, data }),
        sys,
    )
}

/// The mount point of a bind mount.
pub open spec fn bind_at(source: Seq<char>, target: Seq<char>) -> MountPointView {
    mount_point(source, target, options_of(None, MountFlags::none().plus(MountFlag::Bind)))
}

/// Create a bind mount.
pub fn mount_bind(source: &str, target: &str, sys: &mut Session) -> (r: Result<(), Stop<FilesystemError>>)
    ensures
        (final(sys)@, outcome(r)) == mounted(old(sys)@, bind_at(source@, target@)),
{
    mount(MountPoint::new(source, target, MountOptions::bind()), sys)
}

/// The request that makes a mount private, with what is mounted below it.
pub open spec fn private_request(target: Seq<char>) -> RequestView {
    Request::Mount {
        source: None,
        target,
        fstype: None,
        flags: MountFlags::none().plus(MountFlag::Private).plus(MountFlag::Rec),
        data: None,
    }
}

/// Makes a private bind mount.
pub open spec fn bound_private(t: Transcript, source: Seq<char>, target: Seq<char>) -> (
    Transcript,
    FsOutcome<()>,
) {
    match mounted(t, bind_at(source, target)) {
        (t1, Err(e)) => (t1, Err(e)),
        (t1, Ok(_)) => (
            t1.ask(private_request(target)),
            match t1.next() {
                None => Err(Stop::Pending),
                Some(reply) => match done_of(reply) {
                    Ok(_) => Ok(()),
                    Err(e) => Err(
                        Stop::Failed(
                            FilesystemError::MountFailed {
                                src_path: Seq::empty(),
                                target,
                                reason: "Failed to make mount private: "@ + e.text(),
                            },
                        ),
                    ),
                },
            },
        ),
    }
}

/// Create a private bind mount (propagation isolated).
pub fn mount_bind_private(source: &str, target: &str, sys: &mut Session) -> (r: Result<(), Stop<FilesystemError>>)
    ensures
        (final(sys)@, outcome(r)) == bound_private(old(sys)@, source@, target@),
{
    match mount_bind(source, target, sys) {
        Err(e) => {
            return Err(e);
        },
        Ok(()) => {},
    }
    // Isolate propagation so overlay mounts on top don't bleed into adjacent namespaces.
    match sys.perform(
        Request::Mount {
            source: None,
            target: target.to_owned(),
            fstype: None,
            flags: MountFlags::empty().with(MountFlag::Private).with(MountFlag::Rec),
            data: None,
        },
    ) {
        None => Err(Stop::Pending),
        Some(Ok(())) => Ok(()),
        Some(Err(e)) => Err(
            Stop::Failed(
                FilesystemError::MountFailed {
                    src_path: String::new(),
                    target: target.to_owned(),
                    reason: concat2("Failed to make mount private: ", e.to_string().as_str()),
                },
            ),
        ),
    }
}

/// The second word of a line of /proc/mounts is the mount point.
pub open spec fn line_mounts(line: Seq<char>, path: Seq<char>) -> bool {
    words_of(line).len() > 1 && words_of(line)[1] == path
}

/// `path` is a mount point in a list of mounts.
pub open spec fn lists_mount(mounts: Seq<char>, path: Seq<char>) -> bool {
    exists|i: int| 0 <= i < lines_of(mounts).len() && line_mounts(#[trigger] lines_of(mounts)[i], path)
}

/// Whether `path` is a mount point in a list of mounts.
pub fn mounts_contain(mounts: &str, path: &str) -> (r: bool)
    ensures
        r == lists_mount(mounts@, path@),
{
    let ls = lines(mounts);
    let mut i: usize = 0;
    while i < ls.len()
        invariant
            i <= ls@.len(),
            ls.deep_view() == lines_of(mounts@),
            forall|j: int| 0 <= j < i ==> !line_mounts(#[trigger] lines_of(mounts@)[j], path@),
        decreases ls.len() - i,
    {
        assert(lines_of(mounts@)[i as int] == ls@[i as int]@);
        let ws = words(ls[i].as_str());
        assert(ws.deep_view() == words_of(ls@[i as int]@));
        if ws.len() > 1 {
            assert(words_of(ls@[i as int]@)[1] == ws@[1]@);
            if same(ws[1].as_str(), path) {
                return true;
            }
        }
        i = i + 1;
    }
    false
}

/// Whether `path` is mounted, by /proc/mounts.
pub open spec fn mount_checked(t: Transcript, path: Seq<char>) -> (Transcript, FsOutcome<bool>) {
    (
        t.ask(Request::ReadText("/proc/mounts"@)),
        match t.next() {
            None => Err(Stop::Pending),
            Some(reply) => match text_of(reply) {
                Ok(mounts) => Ok(lists_mount(mounts, path)),
                Err(e) => Err(
                    Stop::Failed(
                        FilesystemError::MountFailed {
                            src_path: Seq::empty(),
                            target: path,
                            reason: "Failed to read /proc/mounts: "@ + e.text(),
                        },
                    ),
                ),
            },
        },
    )
}

/// Check if a path is mounted by reading /proc/mounts
pub fn is_path_mounted(path: &str, sys: &mut Session) -> (r: Result<bool, Stop<FilesystemError>>)
    ensures
        (final(sys)@, outcome(r)) == mount_checked(old(sys)@, path@),
{
    match sys.fetch(Request::ReadText(String::from_str("/proc/mounts"))) {
        None => Err(Stop::Pending),
        Some(Err(e)) => Err(
            Stop::Failed(
                FilesystemError::MountFailed {
                    src_path: String::new(),
                    target: path.to_owned(),
                    reason: concat2("Failed to read /proc/mounts: ", e.to_string().as_str()),
                },
            ),
        ),
        Some(Ok(mounts)) => Ok(mounts_contain(mounts.as_str(), path)),
    }
}

/// Unmounts `target`.
pub open spec fn unmounted(t: Transcript, target: Seq<char>) -> (Transcript, FsOutcome<()>) {
    (
        t.ask(Request::Unmount(target)),
        match t.next() {
            None => Err(Stop::Pending),
            Some(reply) => match done_of(reply) {
                Ok(_) => Ok(()),
                Err(e) => Err(Stop::Failed(FilesystemError::UnmountFailed { target, reason: e.text() })),
            },
        },
    )
}

/// Unmount a filesystem.
pub fn umount(target: &str, sys: &mut Session) -> (r: Result<(), Stop<FilesystemError>>)
    ensures
        (final(sys)@, outcome(r)) == unmounted(old(sys)@, target@),
{
    match sys.perform(Request::Unmount(target.to_owned())) {
        None => Err(Stop::Pending),
        Some(Ok(())) => Ok(()),
        Some(Err(e)) => Err(
            Stop::Failed(
                FilesystemError::UnmountFailed { target: target.to_owned(), reason: e.to_string() },
            ),
        ),
    }
}

/// Unmounts all of `mounts`, the last one first. A failure does not keep the others
/// mounted; `first` is the first failure so far. The second part of the result is
/// what is left to unmount.
pub open spec fn all_unmounted(t: Transcript, mounts: Seq<Seq<char>>, first: Option<FsErrorView>) -> (
    Transcript,
    Seq<Seq<char>>,
    FsOutcome<()>,
)
    decreases mounts.len(),
{
    if mounts.len() == 0 {
        (
            t,
            mounts,
            match first {
                Some(e) => Err(Stop::Failed(e)),
                None => Ok(()),
            },
        )
    } else {
        match unmounted(t, mounts.last()) {
            (t1, Err(Stop::Pending)) => (t1, mounts.drop_last(), Err(Stop::Pending)),
            (t1, Err(Stop::Failed(e))) => all_unmounted(
                t1,
                mounts.drop_last(),
                if first is Some {
                    first
                } else {
                    Some(e)
                },
            ),
            (t1, Ok(_)) => all_unmounted(t1, mounts.drop_last(), first),
        }
    }
}

/// Unmount everything in `mounts` in the reverse of the order it was mounted in.
pub fn unmount_tracked(mounts: &mut Vec<String>, sys: &mut Session) -> (r: Result<(), Stop<FilesystemError>>)
    ensures
        (final(sys)@, final(mounts).deep_view(), outcome(r)) == all_unmounted(
            old(sys)@,
            old(mounts).deep_view(),
            None,
        ),
{
    let mut first: Option<FilesystemError> = None;
    loop
        invariant
            all_unmounted(
                sys@,
                mounts.deep_view(),
                match first {
                    Some(e) => Some(e@),
                    None => None,
                },
            ) == all_unmounted(old(sys)@, old(mounts).deep_view(), None),
        decreases mounts@.len(),
    {
        let ghost before = mounts.deep_view();
        match mounts.pop() {
            None => {
                assert(before.len() == 0);
                return match first {
                    Some(e) => Err(Stop::Failed(e)),
                    None => Ok(()),
                };
            },
            Some(target) => {
                assert(before.last() == target@);
                assert(mounts.deep_view() =~= before.drop_last());
                match umount(target.as_str(), sys) {
                    Err(Stop::Pending) => {
                        return Err(Stop::Pending);
                    },
                    Err(Stop::Failed(e)) => {
                        if first.is_none() {
                            first = Some(e);
                        }
                    },
                    Ok(()) => {},
                }
            },
        }
    }
}

/// The requests that unmount all of `mounts`, the last one first.
pub open spec fn unmounts_in_reverse(mounts: Seq<Seq<char>>) -> Seq<RequestView> {
    Seq::new(mounts.len(), |k: int| RequestView::Unmount(mounts[mounts.len() - 1 - k]))
}

/// Everything that is tracked is unmounted in the reverse of the order it was mounted in,
/// whatever fails on the way, and nothing stays tracked. A failure is passed on exactly where
/// there was one.
pub proof fn law_unmounts_all_in_reverse(t: Transcript, mounts: Seq<Seq<char>>, first: Option<FsErrorView>)
    requires
        t.rest.len() >= mounts.len(),
    ensures
        ({
            let (t1, left, r) = all_unmounted(t, mounts, first);
            &&& t1.asked == t.asked + unmounts_in_reverse(mounts)
            &&& left.len() == 0
            &&& r is Ok <==> first is None && forall|k: int|
                0 <= k < mounts.len() ==> done_of(#[trigger] t.rest[k]) is Ok
            &&& first matches Some(e) ==> r == FsOutcome::<()>::Err(Stop::Failed(e))
            &&& r != FsOutcome::<()>::Err(Stop::Pending)
        }),
    decreases mounts.len(),
{
    let whole = unmounts_in_reverse(mounts);
    if mounts.len() == 0 {
        assert(t.asked + whole =~= t.asked);
    } else {
        let t1 = t.ask(Request::Unmount(mounts.last()));
        let rest = mounts.drop_last();
        let now = match unmounted(t, mounts.last()).1 {
            Err(Stop::Failed(e)) => if first is Some {
                first
            } else {
                Some(e)
            },
            _ => first,
        };
        law_unmounts_all_in_reverse(t1, rest, now);
        assert(t1.asked + unmounts_in_reverse(rest) =~= t.asked + whole);
        assert forall|k: int| 0 <= k < rest.len() implies #[trigger] t1.rest[k] == t.rest[k + 1] by {}
        if first is None && done_of(t.rest[0]) is Ok {
            assert(now is None);
            if forall|k: int| 0 <= k < rest.len() ==> done_of(#[trigger] t1.rest[k]) is Ok {
                assert forall|k: int| 0 <= k < mounts.len() implies done_of(#[trigger] t.rest[k]) is Ok by {
                    if k > 0 {
                        assert(done_of(t1.rest[k - 1]) is Ok);
                    }
                }
            }
            if forall|k: int| 0 <= k < mounts.len() ==> done_of(#[trigger] t.rest[k]) is Ok {
                assert forall|k: int| 0 <= k < rest.len() implies done_of(#[trigger] t1.rest[k]) is Ok by {
                    assert(done_of(t.rest[k + 1]) is Ok);
                }
            }
        }
    }
}

} // verus!
