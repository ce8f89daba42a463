//! Stamping proposals with elapsed time and randomness.

use vstd::prelude::*;

use crate::clock::instant_elapsed;
use crate::clock::instant_now;
use crate::proposal::kind_tag;
use crate::proposal::EmitKind;
use crate::proposal::Proposal;
use crate::proposal::ProposalKind;
use crate::proposal::ReadOnce;
use crate::proposal::WriteOnce;
use crate::request::Request;
use crate::state::State;

verus! {

/// Relies on `Iterator::next`.  The randomness sequence a tracker is built
/// with is unbounded by contract (one value per proposal, forever), so the
/// draw always yields a value; a sequence that runs dry aborts the process.
#[verifier::external_body]
fn draw<I: Iterator>(rngs: &mut I) -> I::Item {
    rngs.next().unwrap()
}

/// Wraps a state machine; measures the wall time between consecutive
/// proposals, pairs each proposal with one randomness value, and delivers
/// it.  Feeding a recorded randomness sequence replays a run exactly.
pub struct TimeTracker<Rngs, S, R, W> where
    Rngs: Iterator<Item = S::Rng>,
    S: State<R, W>,
    R: ReadOnce,
    W: WriteOnce,
 {
    last: std::time::Instant,
    rngs: Rngs,
    state: S,
    delivered: Ghost<Seq<EmitKind>>,
    phantom_data: core::marker::PhantomData<(R, W)>,
}

impl<Rngs, S, R, W> TimeTracker<Rngs, S, R, W> where
    Rngs: Iterator<Item = S::Rng>,
    S: State<R, W>,
    R: ReadOnce,
    W: WriteOnce,
 {
    /// Every proposal kind this tracker has delivered, oldest first.
    pub closed spec fn trace(&self) -> Seq<EmitKind> {
        self.delivered@
    }

    /// Builds a tracker over a randomness sequence and a state machine;
    /// the elapsed time of the first proposal is measured from here, and
    /// nothing was delivered yet.
    pub fn new(rngs: Rngs, state: S) -> (r: Self)
        ensures
            r.trace() == Seq::<EmitKind>::empty(),
    {
        TimeTracker {
            last: instant_now(),
            rngs,
            state,
            delivered: Ghost(Seq::<EmitKind>::empty()),
            phantom_data: core::marker::PhantomData,
        }
    }

    /// The wrapped state machine.
    pub fn state_mut(&mut self) -> &mut S {
        &mut self.state
    }

    /// Stamps `kind` with the wall time since the previous delivery and one
    /// randomness value, delivers exactly that kind to the state machine
    /// — a user-synthesized kind such as `Custom` goes through like any
    /// other — and hands back the request the state machine produced,
    /// which carries no promise: it is the user's.
    pub fn send(&mut self, kind: ProposalKind<R, W, S::Ext>) -> (reply: Request)
        ensures
            final(self).trace() == old(self).trace().push(kind_tag(kind)),
    {
        let ghost tag = kind_tag(kind);
        let mut prev = instant_now();
        core::mem::swap(&mut self.last, &mut prev);
        let elapsed = instant_elapsed(&prev);
        let rng = draw(&mut self.rngs);
        let proposal = Proposal { rng, elapsed, kind };
        proof {
            self.delivered@ = self.delivered@.push(tag);
        }
        self.state.accept(proposal)
    }
}

} // verus!
