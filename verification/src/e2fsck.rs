//! Checks of all filesystems, whose findings are not reported

use vstd::prelude::*;
use vstd::string::*;

use crate::system::{outcome, Session, Stop, Transcript};
use crate::text::list2;
use crate::util::{run_tool, tool_code, StepError, StepFlow};

verus! {

/// The devices that are checked, in order. The root filesystem is normally mounted read-only;
/// it is checked anyway.
pub open spec fn devices() -> Seq<Seq<char>> {
    seq![
        "/dev/omnect/rootCurrent"@,
        "/dev/omnect/etc"@,
        "/dev/omnect/cert"@,
        "/dev/omnect/factory"@,
        "/dev/omnect/data"@,
    ]
}

/// Checks the devices from position `i` on. A check that finds errors does not stop the
/// others; one that cannot be run does.
pub open spec fn all_checked(t: Transcript, i: int) -> (Transcript, StepFlow<()>)
    decreases 5 - i,
{
    if i < 0 || i >= 5 {
        (t, Ok(()))
    } else {
        match tool_code(t, "/sbin/e2fsck"@, seq!["-y"@, devices()[i]]) {
            (t1, Err(e)) => (t1, Err(e)),
            (t1, Ok(_)) => all_checked(t1, i + 1),
        }
    }
}

pub fn run(sys: &mut Session) -> (r: Result<(), Stop<StepError>>)
    ensures
        (final(sys)@, outcome(r)) == all_checked(old(sys)@, 0),
{
    let list: [&'static str; 5] = [
        "/dev/omnect/rootCurrent",
        "/dev/omnect/etc",
        "/dev/omnect/cert",
        "/dev/omnect/factory",
        "/dev/omnect/data",
    ];
    let mut i: usize = 0;
    while i < 5
        invariant
            i <= 5,
            forall|k: int| 0 <= k < 5 ==> #[trigger] list@[k]@ == devices()[k],
            all_checked(sys@, i as int) == all_checked(old(sys)@, 0),
        decreases 5 - i,
    {
        assert(list@[i as int]@ == devices()[i as int]);
        match run_tool("/sbin/e2fsck", list2("-y", list[i]), sys) {
            Err(e) => {
                return Err(e);
            },
            Ok(_) => {},
        }
        i = i + 1;
    }
    Ok(())
}

} // verus!
