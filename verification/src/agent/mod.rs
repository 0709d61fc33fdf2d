//! The metrics agent: sensor readings, collectors' bookkeeping and exporters'
//! batching.
pub mod collector;
pub mod event;
pub mod exporter;
pub mod metric;
pub mod sensor;
pub mod watcher;

use vstd::prelude::*;

verus! {

/// Default capacity of the channel from the collectors to the exporter.
pub fn default_channel_size() -> (size: usize)
    ensures
        size == 200,
{
    200
}

} // verus!
