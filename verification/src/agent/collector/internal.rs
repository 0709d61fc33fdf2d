//! Internal collector: reports the agent's own state.
use vstd::prelude::*;

verus! {

/// Default interval, in seconds, between internal reports.
pub fn default_interval() -> (seconds: u64)
    ensures
        seconds == 10,
{
    10
}

} // verus!
