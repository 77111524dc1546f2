//! Task admission and execution for a compute node: decoding task envelopes,
//! deciding which tasks this node runs, sealing results, and the polling
//! worker's state machine.
use vstd::prelude::*;

pub mod codec;
pub mod payload;
pub mod admission;
pub mod sealer;
pub mod worker;
pub mod search_result;

verus! {

} // verus!
