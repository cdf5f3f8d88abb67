//! The listener is the external producer of the event sequence. The library
//! carries its two ingredients — a state and a function that opens the
//! update stream over that state — as plain data; opening and polling the
//! stream are the driver's side of the contract.

use vstd::prelude::*;

verus! {

/// A listener built from an explicit state and a stream-opening function.
pub struct StatefulListener<St, Assf> {
    /// The state of the listener.
    pub state: St,
    /// The function used to open the stream of updates over `state`.
    pub stream: Assf,
}

impl<St, Assf> StatefulListener<St, Assf> {
    /// Pairs a listener state with its stream-opening function.
    pub fn new(state: St, stream: Assf) -> (r: Self)
        ensures
            r.state == state,
            r.stream == stream,
    {
        StatefulListener { state, stream }
    }
}

} // verus!
