//! The contract the user's business logic implements.

use vstd::prelude::*;

use crate::proposal::Proposal;
use crate::proposal::ReadOnce;
use crate::proposal::WriteOnce;
use crate::request::Request;

verus! {

/// The deterministic state machine.  It accepts proposals from the driver
/// and replies with requests; all business logic lives inside.  To keep a
/// run replayable, the proposal must be its only input.
pub trait State<R, W> where R: ReadOnce, W: WriteOnce {
    /// Some user-defined input to the state machine.
    type Ext;

    /// Randomness needed by the state machine.
    type Rng;

    /// Delivers one proposal and collects the state machine's reply.
    fn accept(&mut self, proposal: Proposal<R, W, Self::Ext, Self::Rng>) -> Request;
}

} // verus!
