//! A coverage-guided, structure-aware fuzzing engine: hit-count coverage feedback, generalized
//! inputs with structure-aware mutation, a corpus split into inputs kept for mutation and
//! findings, a minimized queue, and the decisions of the fuzzing loop. Running the target is left
//! to the caller, who hands each run's outcome, counters and time back to the engine.
use vstd::prelude::*;

pub mod coverage;
pub mod generalized;
pub mod execution;
pub mod corpus;
pub mod engine;
pub mod timeout;
pub mod rand;
pub mod scheduler;
pub mod mutation;
pub mod worker;

verus! {

} // verus!
