//! Symlink creation for /dev/omnect/*
//!
//! Creates symbolic links to partition devices for consistent access
//! regardless of underlying device type.

use vstd::prelude::*;
use vstd::string::*;

use crate::error::{concat2, concat4, PartitionError};
use crate::partition::device::PartitionErrorView;
use crate::partition::layout::{
    built_map, devices_for, devices_of, law_names_differ, law_root_current, names_in_order, LayoutView, PartitionLayout,
    PartitionName, PartitionTable,
};
use crate::path::{components_of, join, joined, same_path};
use crate::system::{
    done_of, flag_of, names_of, opt_view, outcome, text_of, IoErrorView, ReplyView, Request, RequestView, Session, Stop,
    Transcript,
};

verus! {

/// Base directory for omnect device symlinks
pub const OMNECT_DEV_DIR: &'static str = "/dev/omnect";

/// The name of the link to the disk itself.
pub const ROOTBLK: &'static str = "rootblk";

/// How a step of the partition management ended, by view.
pub type PartOutcome<T> = Result<T, Stop<PartitionErrorView>>;

/// Get the full path for a symlink in /dev/omnect
pub fn symlink_path(name: &str) -> (r: String)
    ensures
        r@ == joined(OMNECT_DEV_DIR@, name@),
{
    join(OMNECT_DEV_DIR, name)
}

/// An operation on a link, whose failure is an error of the given kind.
pub open spec fn link_step(t: Transcript, request: RequestView, failed: spec_fn(Seq<char>) -> PartitionErrorView) -> (
    Transcript,
    PartOutcome<()>,
) {
    (
        t.ask(request),
        match t.next() {
            None => Err(Stop::Pending),
            Some(reply) => match done_of(reply) {
                Ok(_) => Ok(()),
                Err(e) => Err(Stop::Failed(failed(e.text()))),
            },
        },
    )
}

/// Removes what stands at a link's path.
pub open spec fn link_removed(t: Transcript, link: Seq<char>) -> (Transcript, PartOutcome<()>) {
    link_step(
        t,
        Request::RemoveFile(link),
        |reason: Seq<char>| PartitionError::SymlinkRemoveFailed { path: link, reason },
    )
}

/// Makes room for a link: what stands at its path is removed, unless it is a directory.
pub open spec fn link_cleared(t: Transcript, link: Seq<char>) -> (Transcript, PartOutcome<()>) {
    let t1 = t.ask(Request::IsSymlink(link));
    match t.next() {
        None => (t1, Err(Stop::Pending)),
        Some(symlink) => if flag_of(symlink) {
            link_removed(t1, link)
        } else {
            let t2 = t1.ask(Request::Exists(link));
            match t1.next() {
                None => (t2, Err(Stop::Pending)),
                Some(there) => if !flag_of(there) {
                    (t2, Ok(()))
                } else {
                    let t3 = t2.ask(Request::IsDir(link));
                    match t2.next() {
                        None => (t3, Err(Stop::Pending)),
                        Some(dir) => if flag_of(dir) {
                            (
                                t3,
                                Err(
                                    Stop::Failed(
                                        PartitionError::SymlinkRemoveFailed {
                                            path: link,
                                            reason: "path is a directory, cannot replace with symlink"@,
                                        },
                                    ),
                                ),
                            )
                        } else {
                            link_removed(t3, link)
                        },
                    }
                },
            }
        },
    }
}

/// Creates a link in place of what stood there.
pub open spec fn linked(t: Transcript, target: Seq<char>, link: Seq<char>) -> (Transcript, PartOutcome<()>) {
    match link_cleared(t, link) {
        (t1, Err(e)) => (t1, Err(e)),
        (t1, Ok(_)) => link_step(
            t1,
            Request::Symlink { target, link },
            |reason: Seq<char>| PartitionError::SymlinkFailed { link, target, reason },
        ),
    }
}

fn remove_link(link: &str, sys: &mut Session) -> (r: Result<(), Stop<PartitionError>>)
    ensures
        (final(sys)@, outcome(r)) == link_removed(old(sys)@, link@),
{
    match sys.perform(Request::RemoveFile(link.to_owned())) {
        None => Err(Stop::Pending),
        Some(Ok(())) => Ok(()),
        Some(Err(e)) => Err(
            Stop::Failed(PartitionError::SymlinkRemoveFailed { path: link.to_owned(), reason: e.to_string() }),
        ),
    }
}

fn clear_link(link: &str, sys: &mut Session) -> (r: Result<(), Stop<PartitionError>>)
    ensures
        (final(sys)@, outcome(r)) == link_cleared(old(sys)@, link@),
{
    // Remove existing symlink if present. Plain directories cannot be replaced
    // by a symlink — flag them clearly. Symlinks pointing to directories are fine.
    match sys.query(Request::IsSymlink(link.to_owned())) {
        None => {
            return Err(Stop::Pending);
        },
        Some(true) => {
            return remove_link(link, sys);
        },
        Some(false) => {},
    }
    match sys.query(Request::Exists(link.to_owned())) {
        None => {
            return Err(Stop::Pending);
        },
        Some(false) => {
            return Ok(());
        },
        Some(true) => {},
    }
    match sys.query(Request::IsDir(link.to_owned())) {
        None => Err(Stop::Pending),
        Some(true) => Err(
            Stop::Failed(
                PartitionError::SymlinkRemoveFailed {
                    path: link.to_owned(),
                    reason: String::from_str("path is a directory, cannot replace with symlink"),
                },
            ),
        ),
        Some(false) => remove_link(link, sys),
    }
}

/// Create a symlink, removing any existing symlink first
pub fn create_symlink(target: &str, link: &str, sys: &mut Session) -> (r: Result<(), Stop<PartitionError>>)
    ensures
        (final(sys)@, outcome(r)) == linked(old(sys)@, target@, link@),
{
    match clear_link(link, sys) {
        Err(e) => {
            return Err(e);
        },
        Ok(()) => {},
    }
    // Create the symlink
    match sys.perform(Request::Symlink { target: target.to_owned(), link: link.to_owned() }) {
        None => Err(Stop::Pending),
        Some(Ok(())) => Ok(()),
        Some(Err(e)) => Err(
            Stop::Failed(
                PartitionError::SymlinkFailed {
                    link: link.to_owned(),
                    target: target.to_owned(),
                    reason: e.to_string(),
                },
            ),
        ),
    }
}

/// Makes sure that the directory for the links is there.
pub open spec fn link_dir_made(t: Transcript) -> (Transcript, PartOutcome<()>) {
    let dir = OMNECT_DEV_DIR@;
    let t1 = t.ask(Request::Exists(dir));
    match t.next() {
        None => (t1, Err(Stop::Pending)),
        Some(there) => if flag_of(there) {
            (t1, Ok(()))
        } else {
            link_step(
                t1,
                Request::CreateDir(dir),
                |reason: Seq<char>|
                    PartitionError::SymlinkFailed {
                        link: dir,
                        target: Seq::empty(),
                        reason: "Failed to create directory: "@ + reason,
                    },
            )
        },
    }
}

/// Create the /dev/omnect directory if it doesn't exist
fn create_symlink_dir(sys: &mut Session) -> (r: Result<(), Stop<PartitionError>>)
    ensures
        (final(sys)@, outcome(r)) == link_dir_made(old(sys)@),
{
    match sys.query(Request::Exists(String::from_str(OMNECT_DEV_DIR))) {
        None => Err(Stop::Pending),
        Some(true) => Ok(()),
        Some(false) => match sys.perform(Request::CreateDir(String::from_str(OMNECT_DEV_DIR))) {
            None => Err(Stop::Pending),
            Some(Ok(())) => Ok(()),
            Some(Err(e)) => {
                let target = String::new();
                assert(target@ =~= Seq::<char>::empty());
                Err(
                    Stop::Failed(
                        PartitionError::SymlinkFailed {
                            link: String::from_str(OMNECT_DEV_DIR),
                            target,
                            reason: concat2("Failed to create directory: ", e.to_string().as_str()),
                        },
                    ),
                )
            },
        },
    }
}

/// Creates the links for the partitions from position `i` on.
pub open spec fn partitions_linked(t: Transcript, devices: Seq<(PartitionName, Seq<char>)>, i: int) -> (
    Transcript,
    PartOutcome<()>,
)
    decreases devices.len() - i,
{
    if i < 0 || i >= devices.len() {
        (t, Ok(()))
    } else {
        match linked(t, devices[i].1, joined(OMNECT_DEV_DIR@, devices[i].0.text())) {
            (t1, Err(e)) => (t1, Err(e)),
            (t1, Ok(_)) => partitions_linked(t1, devices, i + 1),
        }
    }
}

/// Creates all links: the disk, the partitions, then the current root.
pub open spec fn all_linked(
    t: Transcript,
    base: Seq<char>,
    devices: Seq<(PartitionName, Seq<char>)>,
    root_current: Seq<char>,
) -> (Transcript, PartOutcome<()>) {
    match link_dir_made(t) {
        (t1, Err(e)) => (t1, Err(e)),
        (t1, Ok(_)) => match linked(t1, base, joined(OMNECT_DEV_DIR@, ROOTBLK@)) {
            (t2, Err(e)) => (t2, Err(e)),
            (t2, Ok(_)) => match partitions_linked(t2, devices, 0) {
                (t3, Err(e)) => (t3, Err(e)),
                (t3, Ok(_)) => linked(
                    t3,
                    root_current,
                    joined(OMNECT_DEV_DIR@, PartitionName::RootCurrent.text()),
                ),
            },
        },
    }
}

/// Create all /dev/omnect/* symlinks for the given partition layout.
pub fn create_omnect_symlinks(layout: &PartitionLayout, sys: &mut Session) -> (r: Result<(), Stop<PartitionError>>)
    ensures
        (final(sys)@, outcome(r)) == all_linked(
            old(sys)@,
            layout@.device.base,
            devices_of(*layout),
            layout@.current_root(),
        ),
{
    match create_symlink_dir(sys) {
        Err(e) => {
            return Err(e);
        },
        Ok(()) => {},
    }
    // Create symlink to the base block device
    match create_symlink(layout.device.base.as_str(), symlink_path(ROOTBLK).as_str(), sys) {
        Err(e) => {
            return Err(e);
        },
        Ok(()) => {},
    }
    // Create partition symlinks
    let ghost devices = devices_of(*layout);
    let ghost whole = partitions_linked(sys@, devices, 0);
    let n = layout.partitions.len();
    let mut i: usize = 0;
    while i < n
        invariant
            i <= n,
            n == layout.partitions.entries().len(),
            devices == devices_of(*layout),
            partitions_linked(sys@, devices, i as int) == whole,
            all_linked(old(sys)@, layout@.device.base, devices, layout@.current_root()) == match whole {
                (t3, Err(e)) => (t3, Err(e)),
                (t3, Ok(_)) => linked(
                    t3,
                    layout@.current_root(),
                    joined(OMNECT_DEV_DIR@, PartitionName::RootCurrent.text()),
                ),
            },
        decreases n - i,
    {
        let name = *layout.partitions.key_at(i);
        let device_path = layout.partitions.value_at(i);
        assert(devices[i as int] == (name, device_path@));
        match create_symlink(device_path.as_str(), symlink_path(name.as_str()).as_str(), sys) {
            Err(e) => {
                return Err(e);
            },
            Ok(()) => {},
        }
        i = i + 1;
    }
    // Create rootCurrent symlink pointing to the active root partition
    let root_current_target = layout.root_current();
    create_symlink(
        root_current_target.as_str(),
        symlink_path(PartitionName::RootCurrent.as_str()).as_str(),
        sys,
    )
}

/// Removes the links among the names in the directory from position `i` on.
pub open spec fn names_removed(t: Transcript, names: Seq<Seq<char>>, failed: Option<IoErrorView>, i: int) -> (
    Transcript,
    PartOutcome<()>,
)
    decreases names.len() - i,
{
    if i < 0 || i >= names.len() {
        (
            t,
            match failed {
                Some(e) => Err(Stop::Failed(PartitionError::Io(e))),
                None => Ok(()),
            },
        )
    } else {
        let path = joined(OMNECT_DEV_DIR@, names[i]);
        let t1 = t.ask(Request::IsSymlink(path));
        match t.next() {
            None => (t1, Err(Stop::Pending)),
            Some(symlink) => if !flag_of(symlink) {
                names_removed(t1, names, failed, i + 1)
            } else {
                match link_removed(t1, path) {
                    (t2, Err(e)) => (t2, Err(e)),
                    (t2, Ok(_)) => names_removed(t2, names, failed, i + 1),
                }
            },
        }
    }
}

/// Removes all links.
pub open spec fn all_removed(t: Transcript) -> (Transcript, PartOutcome<()>) {
    let dir = OMNECT_DEV_DIR@;
    let t1 = t.ask(Request::Exists(dir));
    match t.next() {
        None => (t1, Err(Stop::Pending)),
        Some(there) => if !flag_of(there) {
            (t1, Ok(()))
        } else {
            let t2 = t1.ask(Request::ListDir(dir));
            match t1.next() {
                None => (t2, Err(Stop::Pending)),
                Some(reply) => match names_of(reply) {
                    Err(e) => (t2, Err(Stop::Failed(PartitionError::Io(e)))),
                    Ok((names, failed)) => names_removed(t2, names, failed, 0),
                },
            }
        },
    }
}

/// Remove all /dev/omnect/* symlinks
///
/// Useful for cleanup on error or re-detection.
pub fn remove_omnect_symlinks(sys: &mut Session) -> (r: Result<(), Stop<PartitionError>>)
    ensures
        (final(sys)@, outcome(r)) == all_removed(old(sys)@),
{
    match sys.query(Request::Exists(String::from_str(OMNECT_DEV_DIR))) {
        None => {
            return Err(Stop::Pending);
        },
        Some(false) => {
            return Ok(());
        },
        Some(true) => {},
    }
    let (names, failed) = match sys.list(Request::ListDir(String::from_str(OMNECT_DEV_DIR))) {
        None => {
            return Err(Stop::Pending);
        },
        Some(Err(e)) => {
            return Err(Stop::Failed(PartitionError::Io(e)));
        },
        Some(Ok(p)) => p,
    };
    let ghost err = opt_view(failed);
    let ghost all = names.deep_view();
    let mut i: usize = 0;
    while i < names.len()
        invariant
            i <= names@.len(),
            all == names.deep_view(),
            names_removed(sys@, all, err, i as int) == all_removed(old(sys)@),
        decreases names.len() - i,
    {
        let path = join(OMNECT_DEV_DIR, names[i].as_str());
        assert(all[i as int] == names@[i as int]@);
        match sys.query(Request::IsSymlink(path.clone())) {
            None => {
                return Err(Stop::Pending);
            },
            Some(true) => match remove_link(path.as_str(), sys) {
                Err(e) => {
                    return Err(e);
                },
                Ok(()) => {},
            },
            Some(false) => {},
        }
        i = i + 1;
    }
    match failed {
        Some(e) => Err(Stop::Failed(PartitionError::Io(e))),
        None => Ok(()),
    }
}

/// Checks that a link points where it should.
pub open spec fn link_verified(t: Transcript, link: Seq<char>, expected: Seq<char>) -> (Transcript, PartOutcome<()>) {
    let t1 = t.ask(Request::IsSymlink(link));
    match t.next() {
        None => (t1, Err(Stop::Pending)),
        Some(symlink) => if !flag_of(symlink) {
            (
                t1,
                Err(
                    Stop::Failed(
                        PartitionError::SymlinkFailed { link, target: expected, reason: "Symlink does not exist"@ },
                    ),
                ),
            )
        } else {
            (
                t1.ask(Request::ReadLink(link)),
                match t1.next() {
                    None => Err(Stop::Pending),
                    Some(reply) => match text_of(reply) {
                        Err(e) => Err(Stop::Failed(PartitionError::Io(e))),
                        Ok(actual) => if components_of(actual) == components_of(expected) {
                            Ok(())
                        } else {
                            Err(
                                Stop::Failed(
                                    PartitionError::SymlinkFailed {
                                        link,
                                        target: expected,
                                        reason: "Symlink points to "@ + actual + " instead of "@ + expected,
                                    },
                                ),
                            )
                        },
                    },
                },
            )
        },
    }
}

/// Verify a single symlink points to the expected target
pub fn verify_symlink(link: &str, expected_target: &str, sys: &mut Session) -> (r: Result<(), Stop<PartitionError>>)
    ensures
        (final(sys)@, outcome(r)) == link_verified(old(sys)@, link@, expected_target@),
{
    match sys.query(Request::IsSymlink(link.to_owned())) {
        None => {
            return Err(Stop::Pending);
        },
        Some(false) => {
            return Err(
                Stop::Failed(
                    PartitionError::SymlinkFailed {
                        link: link.to_owned(),
                        target: expected_target.to_owned(),
                        reason: String::from_str("Symlink does not exist"),
                    },
                ),
            );
        },
        Some(true) => {},
    }
    match sys.fetch(Request::ReadLink(link.to_owned())) {
        None => Err(Stop::Pending),
        Some(Err(e)) => Err(Stop::Failed(PartitionError::Io(e))),
        Some(Ok(actual)) => {
            if same_path(actual.as_str(), expected_target) {
                Ok(())
            } else {
                Err(
                    Stop::Failed(
                        PartitionError::SymlinkFailed {
                            link: link.to_owned(),
                            target: expected_target.to_owned(),
                            reason: concat4(
                                "Symlink points to ",
                                actual.as_str(),
                                " instead of ",
                                expected_target,
                            ),
                        },
                    ),
                )
            }
        },
    }
}

/// Checks the links for the partitions from position `i` on.
pub open spec fn partitions_verified(t: Transcript, devices: Seq<(PartitionName, Seq<char>)>, i: int) -> (
    Transcript,
    PartOutcome<()>,
)
    decreases devices.len() - i,
{
    if i < 0 || i >= devices.len() {
        (t, Ok(()))
    } else {
        match link_verified(t, joined(OMNECT_DEV_DIR@, devices[i].0.text()), devices[i].1) {
            (t1, Err(e)) => (t1, Err(e)),
            (t1, Ok(_)) => partitions_verified(t1, devices, i + 1),
        }
    }
}

/// Checks all links.
pub open spec fn all_verified(
    t: Transcript,
    base: Seq<char>,
    devices: Seq<(PartitionName, Seq<char>)>,
    root_current: Seq<char>,
) -> (Transcript, PartOutcome<()>) {
    match link_verified(t, joined(OMNECT_DEV_DIR@, ROOTBLK@), base) {
        (t1, Err(e)) => (t1, Err(e)),
        (t1, Ok(_)) => match partitions_verified(t1, devices, 0) {
            (t2, Err(e)) => (t2, Err(e)),
            (t2, Ok(_)) => link_verified(
                t2,
                joined(OMNECT_DEV_DIR@, PartitionName::RootCurrent.text()),
                root_current,
            ),
        },
    }
}

/// Verify that all expected symlinks exist and are valid
pub fn verify_symlinks(layout: &PartitionLayout, sys: &mut Session) -> (r: Result<(), Stop<PartitionError>>)
    ensures
        (final(sys)@, outcome(r)) == all_verified(
            old(sys)@,
            layout@.device.base,
            devices_of(*layout),
            layout@.current_root(),
        ),
{
    // Check rootblk
    match verify_symlink(symlink_path(ROOTBLK).as_str(), layout.device.base.as_str(), sys) {
        Err(e) => {
            return Err(e);
        },
        Ok(()) => {},
    }
    // Check all partitions
    let ghost devices = devices_of(*layout);
    let ghost whole = partitions_verified(sys@, devices, 0);
    let n = layout.partitions.len();
    let mut i: usize = 0;
    while i < n
        invariant
            i <= n,
            n == layout.partitions.entries().len(),
            devices == devices_of(*layout),
            partitions_verified(sys@, devices, i as int) == whole,
            all_verified(old(sys)@, layout@.device.base, devices, layout@.current_root()) == match whole {
                (t2, Err(e)) => (t2, Err(e)),
                (t2, Ok(_)) => link_verified(
                    t2,
                    joined(OMNECT_DEV_DIR@, PartitionName::RootCurrent.text()),
                    layout@.current_root(),
                ),
            },
        decreases n - i,
    {
        let name = *layout.partitions.key_at(i);
        let device_path = layout.partitions.value_at(i);
        assert(devices[i as int] == (name, device_path@));
        match verify_symlink(symlink_path(name.as_str()).as_str(), device_path.as_str(), sys) {
            Err(e) => {
                return Err(e);
            },
            Ok(()) => {},
        }
        i = i + 1;
    }
    // Check rootCurrent
    let root_current = layout.root_current();
    verify_symlink(
        symlink_path(PartitionName::RootCurrent.as_str()).as_str(),
        root_current.as_str(),
        sys,
    )
}

/// A plain directory is never replaced by a link.
pub proof fn law_directory_not_replaced(t: Transcript, target: Seq<char>, link: Seq<char>)
    requires
        t.rest.len() >= 3,
        t.rest[0] == ReplyView::Flag(false),
        t.rest[1] == ReplyView::Flag(true),
        t.rest[2] == ReplyView::Flag(true),
    ensures
        linked(t, target, link).1 matches Err(Stop::Failed(e)) && e is SymlinkRemoveFailed,
        linked(t, target, link).0.asked == t.asked.push(Request::IsSymlink(link)).push(
            Request::Exists(link),
        ).push(Request::IsDir(link)),
{
    let t1 = t.ask(Request::IsSymlink(link));
    assert(t1.rest[0] == t.rest[1]);
    let t2 = t1.ask(Request::Exists(link));
    assert(t2.rest[0] == t.rest[2]);
}

/// All links of a layout with their targets, in the order in which they are created.
pub open spec fn wanted_links(base: Seq<char>, devices: Seq<(PartitionName, Seq<char>)>, root_current: Seq<char>) -> Seq<
    (Seq<char>, Seq<char>),
> {
    seq![(joined(OMNECT_DEV_DIR@, ROOTBLK@), base)] + devices.map_values(
        |d: (PartitionName, Seq<char>)| (joined(OMNECT_DEV_DIR@, d.0.text()), d.1),
    ) + seq![(joined(OMNECT_DEV_DIR@, PartitionName::RootCurrent.text()), root_current)]
}

/// No link is wanted with two targets.
pub open spec fn consistent(wanted: Seq<(Seq<char>, Seq<char>)>) -> bool {
    forall|i: int, j: int|
        #![trigger wanted[i], wanted[j]]
        0 <= i < j < wanted.len() && wanted[i].0 == wanted[j].0 ==> wanted[i].1 == wanted[j].1
}

/// The links of the system, each with its target, after `asked` was performed.
pub open spec fn links_after(links: Map<Seq<char>, Seq<char>>, asked: Seq<RequestView>) -> Map<Seq<char>, Seq<char>>
    decreases asked.len(),
{
    if asked.len() == 0 {
        links
    } else {
        let before = links_after(links, asked.drop_last());
        match asked.last() {
            Request::Symlink { target, link } => before.insert(link, target),
            Request::RemoveFile(path) => before.remove(path),
            _ => before,
        }
    }
}

/// A wanted link is there and points where it should.
pub open spec fn in_place(links: Map<Seq<char>, Seq<char>>, wanted: (Seq<char>, Seq<char>)) -> bool {
    links.dom().contains(wanted.0) && components_of(links[wanted.0]) == components_of(wanted.1)
}

/// The answers `rest` are those of a system with these links, asked about the wanted ones
/// from position `i` on.
pub open spec fn told(
    rest: Seq<ReplyView>,
    links: Map<Seq<char>, Seq<char>>,
    wanted: Seq<(Seq<char>, Seq<char>)>,
    i: int,
) -> bool {
    &&& rest.len() >= 2 * (wanted.len() - i)
    &&& forall|j: int|
        i <= j < wanted.len() ==> {
            let link = (#[trigger] wanted[j]).0;
            &&& rest[2 * (j - i)] == ReplyView::Flag(links.dom().contains(link))
            &&& links.dom().contains(link) ==> rest[2 * (j - i) + 1] == ReplyView::Text(links[link])
        }
}

proof fn lemma_links_after_ask(links: Map<Seq<char>, Seq<char>>, t: Transcript, request: RequestView)
    ensures
        links_after(links, t.ask(request).asked) == match request {
            Request::Symlink { target, link } => links_after(links, t.asked).insert(link, target),
            Request::RemoveFile(path) => links_after(links, t.asked).remove(path),
            _ => links_after(links, t.asked),
        },
{
    assert(t.ask(request).asked.drop_last() =~= t.asked);
}

/// A link that was created is there, and the others stay.
proof fn lemma_linked(links: Map<Seq<char>, Seq<char>>, t: Transcript, target: Seq<char>, link: Seq<char>)
    ensures
        linked(t, target, link).1 is Ok ==> links_after(links, linked(t, target, link).0.asked) == links_after(
            links,
            t.asked,
        ).insert(link, target),
{
    let before = links_after(links, t.asked);
    let t1 = t.ask(Request::IsSymlink(link));
    lemma_links_after_ask(links, t, Request::IsSymlink(link));
    let t2 = t1.ask(Request::Exists(link));
    lemma_links_after_ask(links, t1, Request::Exists(link));
    lemma_links_after_ask(links, t1, Request::RemoveFile(link));
    let t3 = t2.ask(Request::IsDir(link));
    lemma_links_after_ask(links, t2, Request::IsDir(link));
    lemma_links_after_ask(links, t3, Request::RemoveFile(link));
    let cleared = link_cleared(t, link).0;
    lemma_links_after_ask(links, cleared, Request::Symlink { target, link });
    assert(before.remove(link).insert(link, target) =~= before.insert(link, target));
}

/// The links from position `i` on, added to those that are there.
spec fn with_links(
    links: Map<Seq<char>, Seq<char>>,
    wanted: Seq<(Seq<char>, Seq<char>)>,
    i: int,
    end: int,
) -> Map<Seq<char>, Seq<char>>
    decreases end - i,
{
    if i >= end {
        links
    } else {
        with_links(links.insert(wanted[i].0, wanted[i].1), wanted, i + 1, end)
    }
}

proof fn lemma_partitions_linked(
    links: Map<Seq<char>, Seq<char>>,
    t: Transcript,
    devices: Seq<(PartitionName, Seq<char>)>,
    wanted: Seq<(Seq<char>, Seq<char>)>,
    i: int,
)
    requires
        0 <= i <= devices.len(),
        forall|j: int|
            0 <= j < devices.len() ==> #[trigger] wanted[1 + j] == (
                joined(OMNECT_DEV_DIR@, devices[j].0.text()),
                devices[j].1,
            ),
    ensures
        partitions_linked(t, devices, i).1 is Ok ==> links_after(links, partitions_linked(t, devices, i).0.asked)
            == with_links(links_after(links, t.asked), wanted, 1 + i, 1 + devices.len() as int),
    decreases devices.len() - i,
{
    if i < devices.len() {
        assert(wanted[1 + i] == (joined(OMNECT_DEV_DIR@, devices[i].0.text()), devices[i].1));
        let link = joined(OMNECT_DEV_DIR@, devices[i].0.text());
        lemma_linked(links, t, devices[i].1, link);
        lemma_partitions_linked(links, linked(t, devices[i].1, link).0, devices, wanted, i + 1);
    }
}

/// The last position before `end` at which `link` is wanted; -1 if there is none.
pub open spec fn last_wanted(wanted: Seq<(Seq<char>, Seq<char>)>, link: Seq<char>, end: int) -> int
    decreases end,
{
    if end <= 0 {
        -1
    } else if wanted[end - 1].0 == link {
        end - 1
    } else {
        last_wanted(wanted, link, end - 1)
    }
}

proof fn lemma_last_wanted(wanted: Seq<(Seq<char>, Seq<char>)>, link: Seq<char>, j: int, end: int)
    requires
        0 <= j < end <= wanted.len(),
        wanted[j].0 == link,
    ensures
        j <= last_wanted(wanted, link, end) < end,
        wanted[last_wanted(wanted, link, end)].0 == link,
    decreases end,
{
    if wanted[end - 1].0 != link {
        lemma_last_wanted(wanted, link, j, end - 1);
    }
}

/// Each of the first `end` wanted links is there, with the target that was wanted last.
spec fn all_there(links: Map<Seq<char>, Seq<char>>, wanted: Seq<(Seq<char>, Seq<char>)>, end: int) -> bool {
    forall|j: int|
        0 <= j < end ==> links.dom().contains((#[trigger] wanted[j]).0) && links[wanted[j].0] == wanted[last_wanted(
            wanted,
            wanted[j].0,
            end,
        )].1
}

/// Once all wanted links were added, each of them is there.
proof fn lemma_with_links(
    links: Map<Seq<char>, Seq<char>>,
    wanted: Seq<(Seq<char>, Seq<char>)>,
    i: int,
    end: int,
)
    requires
        0 <= i <= end <= wanted.len(),
        all_there(links, wanted, i),
    ensures
        all_there(with_links(links, wanted, i, end), wanted, end),
    decreases end - i,
{
    if i < end {
        let next = links.insert(wanted[i].0, wanted[i].1);
        lemma_with_links(next, wanted, i + 1, end);
    }
}

/// A creation that succeeded leaves every wanted link behind, with the target that was wanted
/// last under its name. So the link to the current root, which is made last, always has its
/// target.
pub proof fn law_creation_leaves_links(
    links: Map<Seq<char>, Seq<char>>,
    t: Transcript,
    base: Seq<char>,
    devices: Seq<(PartitionName, Seq<char>)>,
    root_current: Seq<char>,
)
    requires
        all_linked(t, base, devices, root_current).1 is Ok,
    ensures
        ({
            let after = links_after(links, all_linked(t, base, devices, root_current).0.asked);
            let wanted = wanted_links(base, devices, root_current);
            let current = joined(OMNECT_DEV_DIR@, PartitionName::RootCurrent.text());
            &&& forall|j: int|
                0 <= j < wanted.len() ==> after.dom().contains((#[trigger] wanted[j]).0) && after[wanted[j].0]
                    == wanted[last_wanted(wanted, wanted[j].0, wanted.len() as int)].1
            &&& after.dom().contains(current) && after[current] == root_current
        }),
{
    let wanted = wanted_links(base, devices, root_current);
    let n = devices.len() as int;
    assert forall|j: int| 0 <= j < n implies #[trigger] wanted[1 + j] == (
        joined(OMNECT_DEV_DIR@, devices[j].0.text()),
        devices[j].1,
    ) by {}
    let dir = OMNECT_DEV_DIR@;
    lemma_links_after_ask(links, t, Request::Exists(dir));
    lemma_links_after_ask(links, t.ask(Request::Exists(dir)), Request::CreateDir(dir));
    let t1 = link_dir_made(t).0;
    let m1 = links_after(links, t1.asked);
    lemma_linked(links, t1, base, wanted[0].0);
    let t2 = linked(t1, base, wanted[0].0).0;
    lemma_partitions_linked(links, t2, devices, wanted, 0);
    let t3 = partitions_linked(t2, devices, 0).0;
    let link = joined(dir, PartitionName::RootCurrent.text());
    assert(wanted[n + 1] == (link, root_current));
    lemma_linked(links, t3, root_current, link);
    let m2 = links_after(links, t2.asked);
    let m3 = links_after(links, t3.asked);
    lemma_with_links(m2, wanted, 1, n + 1);
    lemma_with_links(m3, wanted, n + 1, n + 2);
    reveal_with_fuel(with_links, 2);
}

proof fn lemma_link_verified(links: Map<Seq<char>, Seq<char>>, t: Transcript, wanted: (Seq<char>, Seq<char>))
    requires
        t.rest.len() >= 2,
        t.rest[0] == ReplyView::Flag(links.dom().contains(wanted.0)),
        links.dom().contains(wanted.0) ==> t.rest[1] == ReplyView::Text(links[wanted.0]),
    ensures
        ({
            let (t1, r) = link_verified(t, wanted.0, wanted.1);
            &&& r is Ok <==> in_place(links, wanted)
            &&& r is Ok ==> t1.rest == t.rest.skip(2)
            &&& r is Err ==> (r matches Err(Stop::Failed(e)) && e is SymlinkFailed)
        }),
{
    let t1 = t.ask(Request::IsSymlink(wanted.0));
    assert(t1.rest[0] == t.rest[1]);
    assert(t1.rest.drop_first() =~= t.rest.skip(2));
}

proof fn lemma_partitions_verified(
    links: Map<Seq<char>, Seq<char>>,
    t: Transcript,
    devices: Seq<(PartitionName, Seq<char>)>,
    wanted: Seq<(Seq<char>, Seq<char>)>,
    i: int,
)
    requires
        0 <= i <= devices.len(),
        wanted.len() == devices.len() + 2,
        forall|j: int|
            0 <= j < devices.len() ==> #[trigger] wanted[1 + j] == (
                joined(OMNECT_DEV_DIR@, devices[j].0.text()),
                devices[j].1,
            ),
        told(t.rest, links, wanted, 1 + i),
    ensures
        ({
            let (t1, r) = partitions_verified(t, devices, i);
            &&& r is Ok <==> forall|j: int| 1 + i <= j < 1 + devices.len() ==> in_place(links, #[trigger] wanted[j])
            &&& r is Ok ==> told(t1.rest, links, wanted, 1 + devices.len() as int)
            &&& r is Err ==> (r matches Err(Stop::Failed(e)) && e is SymlinkFailed)
        }),
    decreases devices.len() - i,
{
    if i < devices.len() {
        let pair = wanted[1 + i];
        assert(pair == (joined(OMNECT_DEV_DIR@, devices[i].0.text()), devices[i].1));
        assert(t.rest[2 * ((1 + i) - (1 + i))] == t.rest[0]);
        lemma_link_verified(links, t, pair);
        if in_place(links, pair) {
            let t1 = link_verified(t, pair.0, pair.1).0;
            lemma_told_next(t.rest, links, wanted, 1 + i);
            lemma_partitions_verified(links, t1, devices, wanted, i + 1);
        }
    }
}

/// What is told of the links from the next position on.
proof fn lemma_told_next(
    rest: Seq<ReplyView>,
    links: Map<Seq<char>, Seq<char>>,
    wanted: Seq<(Seq<char>, Seq<char>)>,
    i: int,
)
    requires
        0 <= i < wanted.len(),
        told(rest, links, wanted, i),
    ensures
        told(rest.skip(2), links, wanted, i + 1),
{
    assert forall|j: int| i + 1 <= j < wanted.len() implies {
        let link = (#[trigger] wanted[j]).0;
        &&& rest.skip(2)[2 * (j - (i + 1))] == ReplyView::Flag(links.dom().contains(link))
        &&& links.dom().contains(link) ==> rest.skip(2)[2 * (j - (i + 1)) + 1] == ReplyView::Text(links[link])
    } by {
        assert(rest.skip(2)[2 * (j - (i + 1))] == rest[2 * (j - i)]);
        assert(rest.skip(2)[2 * (j - (i + 1)) + 1] == rest[2 * (j - i) + 1]);
    }
}

/// On a system with the given links the verification succeeds exactly where every wanted
/// link is there and points where it should; otherwise it ends with `SymlinkFailed`.
pub proof fn law_verification_tells_links(
    links: Map<Seq<char>, Seq<char>>,
    t: Transcript,
    base: Seq<char>,
    devices: Seq<(PartitionName, Seq<char>)>,
    root_current: Seq<char>,
)
    requires
        told(t.rest, links, wanted_links(base, devices, root_current), 0),
    ensures
        ({
            let wanted = wanted_links(base, devices, root_current);
            let r = all_verified(t, base, devices, root_current).1;
            &&& r is Ok <==> forall|j: int| 0 <= j < wanted.len() ==> in_place(links, #[trigger] wanted[j])
            &&& r is Err ==> (r matches Err(Stop::Failed(e)) && e is SymlinkFailed)
        }),
{
    let wanted = wanted_links(base, devices, root_current);
    let n = devices.len() as int;
    assert forall|j: int| 0 <= j < n implies #[trigger] wanted[1 + j] == (
        joined(OMNECT_DEV_DIR@, devices[j].0.text()),
        devices[j].1,
    ) by {}
    assert(wanted[0] == (joined(OMNECT_DEV_DIR@, ROOTBLK@), base));
    assert(wanted[n + 1] == (joined(OMNECT_DEV_DIR@, PartitionName::RootCurrent.text()), root_current));
    lemma_link_verified(links, t, wanted[0]);
    if in_place(links, wanted[0]) {
        let t1 = link_verified(t, wanted[0].0, wanted[0].1).0;
        lemma_told_next(t.rest, links, wanted, 0);
        lemma_partitions_verified(links, t1, devices, wanted, 0);
        let (t2, r) = partitions_verified(t1, devices, 0);
        if r is Ok {
            assert(t2.rest[2 * ((n + 1) - (n + 1))] == t2.rest[0]);
            lemma_link_verified(links, t2, wanted[n + 1]);
        }
    }
}

/// No link of a built layout is wanted with two targets.
proof fn lemma_built_consistent(layout: LayoutView, table: PartitionTable)
    requires
        built_map(layout.device, table) == Ok::<Map<PartitionName, Seq<char>>, PartitionErrorView>(layout.partitions),
    ensures
        consistent(wanted_links(layout.device.base, devices_for(layout.device, table), layout.current_root())),
{
    let devices = devices_for(layout.device, table);
    let wanted = wanted_links(layout.device.base, devices, layout.current_root());
    let names = names_in_order(table);
    let n = names.len() as int;
    law_root_current(layout, table);
    reveal_strlit("/dev/omnect");
    reveal_strlit("/");
    reveal_strlit("rootblk");
    reveal_strlit("boot");
    reveal_strlit("rootA");
    reveal_strlit("rootB");
    reveal_strlit("rootCurrent");
    reveal_strlit("factory");
    reveal_strlit("cert");
    reveal_strlit("etc");
    reveal_strlit("data");
    reveal_strlit("extended");
    assert forall|i: int, j: int|
        #![trigger wanted[i], wanted[j]]
        0 <= i < j < wanted.len() && wanted[i].0 == wanted[j].0 implies wanted[i].1 == wanted[j].1 by {
        let name_of = |k: int|
            if k == 0 {
                ROOTBLK@
            } else if k <= n {
                names[k - 1].text()
            } else {
                PartitionName::RootCurrent.text()
            };
        assert(wanted[i].0 == joined(OMNECT_DEV_DIR@, name_of(i)));
        assert(wanted[j].0 == joined(OMNECT_DEV_DIR@, name_of(j)));
        assert(wanted[i].0.skip(12) =~= name_of(i));
        assert(wanted[j].0.skip(12) =~= name_of(j));
        assert(name_of(i) == name_of(j));
        if i == 0 {
            assert(name_of(j).len() == 7);
            assert(name_of(j)[0] == 'r');
        } else {
            let other = if j <= n {
                names[j - 1]
            } else {
                PartitionName::RootCurrent
            };
            law_names_differ(names[i - 1], other);
            if j <= n {
                assert(names[i - 1] != names[j - 1]);
            }
        }
    }
}

/// The links that were created for a built layout are verified where they are still as they
/// were left, and the verification ends with `SymlinkFailed` where one of them is gone or
/// points elsewhere. `links` are the links before the creation, `now` those at the
/// verification.
pub proof fn law_created_links_verify(
    links: Map<Seq<char>, Seq<char>>,
    now: Map<Seq<char>, Seq<char>>,
    t: Transcript,
    u: Transcript,
    layout: LayoutView,
    table: PartitionTable,
)
    requires
        built_map(layout.device, table) == Ok::<Map<PartitionName, Seq<char>>, PartitionErrorView>(layout.partitions),
        all_linked(t, layout.device.base, devices_for(layout.device, table), layout.current_root()).1 is Ok,
        told(
            u.rest,
            now,
            wanted_links(layout.device.base, devices_for(layout.device, table), layout.current_root()),
            0,
        ),
    ensures
        ({
            let devices = devices_for(layout.device, table);
            let wanted = wanted_links(layout.device.base, devices, layout.current_root());
            let after = links_after(
                links,
                all_linked(t, layout.device.base, devices, layout.current_root()).0.asked,
            );
            let r = all_verified(u, layout.device.base, devices, layout.current_root()).1;
            &&& (forall|j: int|
                0 <= j < wanted.len() ==> now.dom().contains((#[trigger] wanted[j]).0) && now[wanted[j].0]
                    == after[wanted[j].0]) ==> r is Ok
            &&& forall|j: int|
                0 <= j < wanted.len() && (!now.dom().contains((#[trigger] wanted[j]).0) || components_of(
                    now[wanted[j].0],
                ) != components_of(after[wanted[j].0])) ==> (r matches Err(Stop::Failed(e)) && e is SymlinkFailed)
        }),
{
    let devices = devices_for(layout.device, table);
    lemma_built_consistent(layout, table);
    law_creation_leaves_links(links, t, layout.device.base, devices, layout.current_root());
    let wanted = wanted_links(layout.device.base, devices, layout.current_root());
    assert forall|j: int| 0 <= j < wanted.len() implies (#[trigger] wanted[j]).1 == wanted[last_wanted(
        wanted,
        wanted[j].0,
        wanted.len() as int,
    )].1 by {
        lemma_last_wanted(wanted, wanted[j].0, j, wanted.len() as int);
    }
    law_verification_tells_links(now, u, layout.device.base, devices, layout.current_root());
}

} // verus!
