use vstd::prelude::*;

verus! {

/// Fatal startup failures: the process must not proceed past either of them.
#[derive(Clone, Copy, PartialEq, Eq, Structural, Debug)]
pub enum InitError {
    /// A record of the compiled-in bootstrap list did not decode; `index` is
    /// the position of the first offending record in the list.
    InvalidBootstrapRecord { index: usize },
    /// The discovery listener could not bind its UDP socket.
    BindFailure,
}

/// Failures surfaced to a retrieval caller.
#[derive(Clone, Copy, PartialEq, Eq, Structural, Debug)]
pub enum RetrievalError {
    /// The peer table was empty at call time; retryable once discovery has
    /// made progress.
    NoPeersAvailable,
    /// Every candidate of the call either timed out or answered with a
    /// malformed or shape-mismatched response.
    AllCandidatesFailed,
}

} // verus!
