//! Device watchers' settings.
use vstd::prelude::*;

verus! {

/// Default capacity of the channel that broadcasts bluetooth device events.
pub fn default_channel_size() -> (size: usize)
    ensures
        size == 50,
{
    50
}

} // verus!
