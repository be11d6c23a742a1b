//! What the caller of a procedure relies on

use vstd::prelude::*;

use crate::early_init::essential_mounted;
use crate::replay::boot::replay_essential_mounted;
use crate::replay::whole::replay_initialised;
use crate::replay::{extends, replayable, Run};
use crate::system::{ReplyView, Transcript};
use crate::{initialised, ImageConfig};

verus! {

/// A conversation that begins with these answers at hand.
pub open spec fn begun(answers: Seq<ReplyView>) -> Transcript {
    Transcript { asked: Seq::empty(), rest: answers }
}

/// What holds of a run with `answers` and of a second one with more answers: where the first
/// one waits, it asked exactly one request more than it had answers, and the second one begins
/// with the same requests. Where it does not wait, each of its requests was answered, and the
/// second one does not differ.
pub open spec fn runs_again<R: Run>(answers: Seq<ReplyView>, run: R, again: R, more: Seq<ReplyView>) -> bool {
    if run.waits() {
        &&& run.end().asked.len() == answers.len() + 1
        &&& run.end().asked.is_prefix_of(again.end().asked)
    } else {
        &&& run.end().asked.len() + run.end().rest.len() == answers.len()
        &&& again == run.given(more)
    }
}

proof fn lemma_runs_again<R: Run>(answers: Seq<ReplyView>, procedure: spec_fn(Transcript) -> R, more: Seq<ReplyView>)
    requires
        replayable(begun(answers), procedure),
    ensures
        runs_again(answers, procedure(begun(answers)), procedure(begun(answers + more)), more),
{
    reveal(extends);
    assert(begun(answers).plus(more) == begun(answers + more));
}

/// The mounting of the essential filesystems can be run again with more answers.
pub proof fn law_early_mounts_run_again(answers: Seq<ReplyView>, more: Seq<ReplyView>)
    ensures
        runs_again(
            answers,
            essential_mounted(begun(answers), 0),
            essential_mounted(begun(answers + more), 0),
            more,
        ),
{
    replay_essential_mounted(begun(answers), 0);
    lemma_runs_again(answers, |u: Transcript| essential_mounted(u, 0), more);
}

/// The boot can be run again with more answers.
pub proof fn law_boot_runs_again(answers: Seq<ReplyView>, more: Seq<ReplyView>, image: ImageConfig, pending: bool)
    ensures
        runs_again(
            answers,
            initialised(begun(answers), image, pending),
            initialised(begun(answers + more), image, pending),
            more,
        ),
{
    replay_initialised(begun(answers), image, pending);
    lemma_runs_again(answers, |u: Transcript| initialised(u, image, pending), more);
}

/// Whether an update was found pending by an earlier run changes neither the requests of the
/// boot nor how it ends.
pub proof fn law_boot_forgets_earlier_runs(t: Transcript, image: ImageConfig, one: bool, other: bool)
    ensures
        initialised(t, image, one).0 == initialised(t, image, other).0,
        initialised(t, image, one).2 == initialised(t, image, other).2,
{
}

} // verus!
