//! The smallest steps, run again

use vstd::prelude::*;

use crate::error::io_step;
use crate::replay::{group_replay, replayable};
use crate::system::{warned, RequestView, Transcript};

verus! {

pub broadcast proof fn replay_io_step(t: Transcript, request: RequestView, context: Seq<char>)
    ensures
        #![trigger io_step(t, request, context)]
        replayable(t, |u: Transcript| io_step(u, request, context)),
{
    broadcast use group_replay;

}

pub broadcast proof fn replay_warned(t: Transcript, message: Seq<char>)
    ensures
        #![trigger warned(t, message)]
        replayable(t, |u: Transcript| warned(u, message)),
{
    broadcast use group_replay;

}

} // verus!
