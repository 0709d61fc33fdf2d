//! HTTP exporter settings: metrics are posted in batches.
use vstd::prelude::*;

verus! {

/// Default number of metrics that triggers a post.
pub fn default_capacity() -> (capacity: usize)
    ensures
        capacity == 50,
{
    50
}

/// Default interval, in seconds, between timer posts.
pub fn default_interval() -> (seconds: u64)
    ensures
        seconds == 30,
{
    30
}

} // verus!
