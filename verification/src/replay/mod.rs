//! Running a procedure again with more answers
//!
//! A procedure that stops because an answer is missing has asked exactly one request more than
//! it had answers. Run again with more answers, it asks the same requests and goes on from
//! there; once it has ended, more answers change nothing. So the caller can perform the one
//! outstanding request, add the answer and start over, and no operation is performed twice.
//!
//! The lemmas `replay_...` say this of one procedure after the other, each over the
//! specification function that describes the procedure. What the caller relies on is in [`laws`].

pub mod boot;
pub mod bootloader;
pub mod destruction;
pub mod factory_reset;
pub mod filesystem;
pub mod laws;
pub mod partition;
pub mod runtime;
pub mod scripts;
pub mod steps;
pub mod whole;

use vstd::prelude::*;

use crate::system::{ReplyView, RequestView, Stop, Transcript};

verus! {

impl Transcript {
    /// The same transcript with more answers behind those that are left.
    pub open spec fn plus(self, more: Seq<ReplyView>) -> Transcript {
        Transcript { asked: self.asked, rest: self.rest + more }
    }
}

/// The requests `later` begin with the requests `earlier`.
#[verifier::opaque]
pub open spec fn extends(earlier: Seq<RequestView>, later: Seq<RequestView>) -> bool {
    earlier.is_prefix_of(later)
}

/// What a procedure came to: the transcript, and what it returned.
pub trait Run: Sized {
    /// The transcript at the end.
    spec fn end(self) -> Transcript;

    /// Whether an answer was missing.
    spec fn waits(self) -> bool;

    /// The same with more answers left over.
    spec fn given(self, more: Seq<ReplyView>) -> Self;
}

impl<T, E> Run for (Transcript, Result<T, Stop<E>>) {
    open spec fn end(self) -> Transcript {
        self.0
    }

    open spec fn waits(self) -> bool {
        self.1 matches Err(Stop::Pending)
    }

    open spec fn given(self, more: Seq<ReplyView>) -> Self {
        (self.0.plus(more), self.1)
    }
}

impl<T> Run for (Transcript, Option<T>) {
    open spec fn end(self) -> Transcript {
        self.0
    }

    open spec fn waits(self) -> bool {
        self.1 is None
    }

    open spec fn given(self, more: Seq<ReplyView>) -> Self {
        (self.0.plus(more), self.1)
    }
}

impl<S, T, E> Run for (Transcript, S, Result<T, Stop<E>>) {
    open spec fn end(self) -> Transcript {
        self.0
    }

    open spec fn waits(self) -> bool {
        self.2 matches Err(Stop::Pending)
    }

    open spec fn given(self, more: Seq<ReplyView>) -> Self {
        (self.0.plus(more), self.1, self.2)
    }
}

impl<S, T> Run for (Transcript, S, Option<T>) {
    open spec fn end(self) -> Transcript {
        self.0
    }

    open spec fn waits(self) -> bool {
        self.2 is None
    }

    open spec fn given(self, more: Seq<ReplyView>) -> Self {
        (self.0.plus(more), self.1, self.2)
    }
}

impl<S, E> Run for (Transcript, S, Stop<E>) {
    open spec fn end(self) -> Transcript {
        self.0
    }

    open spec fn waits(self) -> bool {
        self.2 is Pending
    }

    open spec fn given(self, more: Seq<ReplyView>) -> Self {
        (self.0.plus(more), self.1, self.2)
    }
}

impl<R, S, T, E> Run for (Transcript, R, S, Result<T, Stop<E>>) {
    open spec fn end(self) -> Transcript {
        self.0
    }

    open spec fn waits(self) -> bool {
        self.3 matches Err(Stop::Pending)
    }

    open spec fn given(self, more: Seq<ReplyView>) -> Self {
        (self.0.plus(more), self.1, self.2, self.3)
    }
}

impl<R, S, T> Run for (Transcript, R, S, Option<T>) {
    open spec fn end(self) -> Transcript {
        self.0
    }

    open spec fn waits(self) -> bool {
        self.3 is None
    }

    open spec fn given(self, more: Seq<ReplyView>) -> Self {
        (self.0.plus(more), self.1, self.2, self.3)
    }
}

/// A run that began at `t` added to the requests and used up one answer for each; where an
/// answer was missing, it stopped with that one request unanswered.
pub open spec fn steady<R: Run>(t: Transcript, run: R) -> bool {
    &&& extends(t.asked, run.end().asked)
    &&& if run.waits() {
        run.end().rest.len() == 0 && run.end().asked.len() == t.asked.len() + t.rest.len() + 1
    } else {
        run.end().asked.len() + run.end().rest.len() == t.asked.len() + t.rest.len()
    }
}

/// What a second run, with more answers, has to do with the first.
pub open spec fn replays<R: Run>(run: R, again: R, more: Seq<ReplyView>) -> bool {
    if run.waits() {
        extends(run.end().asked, again.end().asked)
    } else {
        again == run.given(more)
    }
}

/// A procedure, run at `t` and again with more answers.
pub open spec fn replayable<R: Run>(t: Transcript, procedure: spec_fn(Transcript) -> R) -> bool {
    &&& steady(t, procedure(t))
    &&& forall|more: Seq<ReplyView>|
        #![trigger t.plus(more)]
        replays(procedure(t), procedure(t.plus(more)), more)
}

pub broadcast proof fn lemma_extends_itself(asked: Seq<RequestView>)
    ensures
        #[trigger] extends(asked, asked),
{
    reveal(extends);
}

pub broadcast proof fn lemma_extends_further(a: Seq<RequestView>, b: Seq<RequestView>, c: Seq<RequestView>)
    requires
        #[trigger] extends(a, b),
        #[trigger] extends(b, c),
    ensures
        extends(a, c),
{
    reveal(extends);
    assert(a =~= c.take(a.len() as int));
}

pub broadcast proof fn lemma_ask(t: Transcript, request: RequestView)
    ensures
        #![trigger t.ask(request)]
        extends(t.asked, t.ask(request).asked),
        t.ask(request).asked.len() == t.asked.len() + 1,
        t.rest.len() > 0 ==> t.ask(request).rest.len() == t.rest.len() - 1,
        t.rest.len() == 0 ==> t.ask(request).rest.len() == 0,
        forall|more: Seq<ReplyView>|
            #![trigger t.plus(more)]
            if t.rest.len() > 0 {
                t.plus(more).ask(request) == t.ask(request).plus(more) && t.plus(more).next() == t.next()
            } else {
                extends(t.ask(request).asked, t.plus(more).ask(request).asked)
            },
{
    reveal(extends);
    assert forall|more: Seq<ReplyView>|
        #![trigger t.plus(more)]
        if t.rest.len() > 0 {
            t.plus(more).ask(request) == t.ask(request).plus(more) && t.plus(more).next() == t.next()
        } else {
            extends(t.ask(request).asked, t.plus(more).ask(request).asked)
        } by {
        if t.rest.len() > 0 {
            assert((t.rest + more).drop_first() =~= t.rest.drop_first() + more);
        }
    }
}

pub broadcast group group_extends {
    lemma_extends_itself,
    lemma_extends_further,
}

pub broadcast group group_replay {
    group_extends,
    lemma_ask,
}

} // verus!
