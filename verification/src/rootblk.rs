//! The links under /dev/omnect

use vstd::prelude::*;
use vstd::string::*;

use crate::config::CmdlineConfig;
use crate::error::concat3;
use crate::mount::{look, looked};
use crate::partition::PartitionTable;
use crate::system::{outcome, tried_of, Request, Session, Stop, Transcript};
use crate::text::{slice, to_chars};
use crate::util::{run_script, script_ran, script_view, Step, StepError, StepErrorView, StepFlow, StepView};

verus! {

/// Waits until there is something at the path.
pub open spec fn awaited(t: Transcript, path: Seq<char>) -> (Transcript, StepFlow<()>)
    decreases t.rest.len(),
{
    let t1 = t.ask(Request::TryExists(path));
    match t.next() {
        None => (t1, Err(Stop::Pending)),
        Some(reply) => match tried_of(reply) {
            Err(e) => (t1, Err(Stop::Failed(StepError::Io(e)))),
            Ok(true) => (t1, Ok(())),
            Ok(false) => {
                let t2 = t1.ask(Request::Sleep(100));
                if t1.next() is None {
                    (t2, Err(Stop::Pending))
                } else {
                    awaited(t2, path)
                }
            },
        },
    }
}

fn wait_for(path: &str, sys: &mut Session) -> (r: Result<(), Stop<StepError>>)
    ensures
        (final(sys)@, outcome(r)) == awaited(old(sys)@, path@),
{
    loop
        invariant
            awaited(sys@, path@) == awaited(old(sys)@, path@),
        decreases sys@.rest.len(),
    {
        match sys.try_query(Request::TryExists(path.to_owned())) {
            None => {
                return Err(Stop::Pending);
            },
            Some(Err(e)) => {
                return Err(Stop::Failed(StepError::Io(e)));
            },
            Some(Ok(true)) => {
                return Ok(());
            },
            Some(Ok(false)) => {},
        }
        match sys.ask(Request::Sleep(100)) {
            None => {
                return Err(Stop::Pending);
            },
            Some(_) => {},
        }
    }
}

/// The error about a path that names no block device.
pub open spec fn undetermined() -> StepErrorView {
    StepError::Message("couldn't determine root block device from var rootblk"@)
}

/// The disk that a root partition is on, and what stands between its name and the number of a
/// partition. The number is one digit; in front of it may stand a `p`.
pub open spec fn disk_found(t: Transcript, root: Seq<char>) -> (Transcript, StepFlow<(Seq<char>, Seq<char>)>) {
    if root.len() == 0 {
        (t, Err(Stop::Failed(undetermined())))
    } else {
        let disk = root.drop_last();
        match looked(t, disk) {
            (t1, Err(e)) => (t1, Err(e)),
            (t1, Ok(true)) => (t1, Ok((disk, Seq::empty()))),
            (t1, Ok(false)) => if disk.len() == 0 {
                (t1, Err(Stop::Failed(undetermined())))
            } else if disk.last() != 'p' {
                (t1, Err(Stop::Failed(StepError::Message("expected to pop a 'p' from root device path string"@))))
            } else {
                match looked(t1, disk.drop_last()) {
                    (t2, Err(e)) => (t2, Err(e)),
                    (t2, Ok(false)) => (
                        t2,
                        Err(Stop::Failed(StepError::Message("couldn't determine root block device"@))),
                    ),
                    (t2, Ok(true)) => (t2, Ok((disk.drop_last(), "p"@))),
                }
            },
        }
    }
}

fn find_disk(root: &str, sys: &mut Session) -> (r: Result<(String, String), Stop<StepError>>)
    ensures
        final(sys)@ == disk_found(old(sys)@, root@).0,
        match r {
            Ok((disk, p)) => disk_found(old(sys)@, root@).1 == StepFlow::Ok((disk@, p@)),
            Err(e) => disk_found(old(sys)@, root@).1 == StepFlow::<(Seq<char>, Seq<char>)>::Err(e@),
        },
{
    let chars = to_chars(root);
    let n = chars.len();
    // the partition number is one digit
    if n == 0 {
        return Err(
            Stop::Failed(
                StepError::Message(String::from_str("couldn't determine root block device from var rootblk")),
            ),
        );
    }
    let disk = slice(&chars, 0, n - 1);
    assert(disk@ =~= root@.drop_last());
    match look(disk.as_str(), sys) {
        Err(e) => {
            return Err(e);
        },
        Ok(true) => {
            let p = String::from_str("");
            proof {
                reveal_strlit("");
                assert(p@ =~= Seq::<char>::empty());
            }
            return Ok((disk, p));
        },
        Ok(false) => {},
    }
    // the device may have a partition identifier, like /dev/mmcblk0p
    if n == 1 {
        return Err(
            Stop::Failed(
                StepError::Message(String::from_str("couldn't determine root block device from var rootblk")),
            ),
        );
    }
    if chars[n - 2] != 'p' {
        return Err(
            Stop::Failed(
                StepError::Message(String::from_str("expected to pop a 'p' from root device path string")),
            ),
        );
    }
    let shorter = slice(&chars, 0, n - 2);
    assert(shorter@ =~= disk@.drop_last());
    match look(shorter.as_str(), sys) {
        Err(e) => Err(e),
        Ok(false) => Err(Stop::Failed(StepError::Message(String::from_str("couldn't determine root block device")))),
        Ok(true) => Ok((shorter, String::from_str("p"))),
    }
}

/// A link under /dev/omnect.
pub open spec fn link_step(target: Seq<char>, link: Seq<char>) -> StepView {
    StepView { request: Request::Symlink { target, link }, context: None }
}

fn step_link(target: String, link: &str) -> (r: Step)
    ensures
        r@ == link_step(target@, link@),
{
    let context: Option<String> = None;
    Step { request: Request::Symlink { target, link: link.to_owned() }, context }
}

/// The links of a disk.
pub open spec fn links(disk: Seq<char>, p: Seq<char>, root: Seq<char>, table: PartitionTable) -> Seq<StepView> {
    let part = disk + p;
    seq![
        StepView { request: Request::CreateDir("/dev/omnect"@), context: None },
        link_step(disk, "/dev/omnect/rootblk"@),
        link_step(part + "1"@, "/dev/omnect/boot"@),
        link_step(part + "2"@, "/dev/omnect/rootA"@),
        link_step(part + "3"@, "/dev/omnect/rootB"@),
        link_step(root, "/dev/omnect/rootCurrent"@),
    ] + match table {
        PartitionTable::Gpt => seq![
            link_step(part + "4"@, "/dev/omnect/factory"@),
            link_step(part + "5"@, "/dev/omnect/cert"@),
            link_step(part + "6"@, "/dev/omnect/etc"@),
            link_step(part + "7"@, "/dev/omnect/data"@),
        ],
        PartitionTable::Dos => seq![
            link_step(part + "4"@, "/dev/omnect/extended"@),
            link_step(part + "5"@, "/dev/omnect/factory"@),
            link_step(part + "6"@, "/dev/omnect/cert"@),
            link_step(part + "7"@, "/dev/omnect/etc"@),
            link_step(part + "8"@, "/dev/omnect/data"@),
        ],
    }
}

fn list_links(disk: &str, p: &str, root: &str, table: PartitionTable) -> (r: Vec<Step>)
    ensures
        script_view(r@) == links(disk@, p@, root@, table),
{
    let mut steps: Vec<Step> = Vec::new();
    let context: Option<String> = None;
    steps.push(Step { request: Request::CreateDir(String::from_str("/dev/omnect")), context });
    steps.push(step_link(disk.to_owned(), "/dev/omnect/rootblk"));
    steps.push(step_link(concat3(disk, p, "1"), "/dev/omnect/boot"));
    steps.push(step_link(concat3(disk, p, "2"), "/dev/omnect/rootA"));
    steps.push(step_link(concat3(disk, p, "3"), "/dev/omnect/rootB"));
    steps.push(step_link(root.to_owned(), "/dev/omnect/rootCurrent"));
    match table {
        PartitionTable::Gpt => {
            steps.push(step_link(concat3(disk, p, "4"), "/dev/omnect/factory"));
            steps.push(step_link(concat3(disk, p, "5"), "/dev/omnect/cert"));
            steps.push(step_link(concat3(disk, p, "6"), "/dev/omnect/etc"));
            steps.push(step_link(concat3(disk, p, "7"), "/dev/omnect/data"));
        },
        PartitionTable::Dos => {
            steps.push(step_link(concat3(disk, p, "4"), "/dev/omnect/extended"));
            steps.push(step_link(concat3(disk, p, "5"), "/dev/omnect/factory"));
            steps.push(step_link(concat3(disk, p, "6"), "/dev/omnect/cert"));
            steps.push(step_link(concat3(disk, p, "7"), "/dev/omnect/etc"));
            steps.push(step_link(concat3(disk, p, "8"), "/dev/omnect/data"));
        },
    }
    assert(script_view(steps@) =~= links(disk@, p@, root@, table));
    steps
}

/// Waits for the root partition and links the partitions of its disk.
pub open spec fn all_linked(t: Transcript, root: Option<Seq<char>>, table: PartitionTable) -> (
    Transcript,
    StepFlow<()>,
) {
    match root {
        None => (t, Err(Stop::Failed(StepError::Message("no root partion found"@)))),
        Some(root) => match awaited(t, root) {
            (t1, Err(e)) => (t1, Err(e)),
            (t1, Ok(_)) => match disk_found(t1, root) {
                (t2, Err(e)) => (t2, Err(e)),
                (t2, Ok((disk, p))) => script_ran(t2, links(disk, p, root, table)),
            },
        },
    }
}

/// The root partition that the kernel command line names.
pub open spec fn root_of(params: Map<Seq<char>, Seq<char>>) -> Option<Seq<char>> {
    if params.dom().contains("root"@) {
        Some(params["root"@])
    } else {
        None
    }
}

pub fn run(params: &CmdlineConfig, table: PartitionTable, sys: &mut Session) -> (r: Result<(), Stop<StepError>>)
    ensures
        (final(sys)@, outcome(r)) == all_linked(old(sys)@, root_of(params@), table),
{
    let root = match params.get("root") {
        None => {
            return Err(Stop::Failed(StepError::Message(String::from_str("no root partion found"))));
        },
        Some(root) => root,
    };
    match wait_for(root, sys) {
        Err(e) => {
            return Err(e);
        },
        Ok(()) => {},
    }
    let (disk, p) = match find_disk(root, sys) {
        Err(e) => {
            return Err(e);
        },
        Ok(found) => found,
    };
    run_script(list_links(disk.as_str(), p.as_str(), root, table), sys)
}

} // verus!
