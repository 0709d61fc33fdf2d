//! ATC thermometer collector: reads the thermometers' service data, at most
//! once per interval and device.
pub use crate::agent::sensor::atc_thermometer::{
    read_battery, read_humidity, read_i16, read_temperature, read_u8, Payload,
};
use std::collections::HashMap;
use vstd::prelude::*;

verus! {

broadcast use vstd::std_specs::hash::group_hash_axioms;

pub const DEVICE_TEMPERATURE: &'static str = "atc-thermometer.temperature";

pub const DEVICE_HUMIDITY: &'static str = "atc-thermometer.humidity";

pub const DEVICE_BATTERY: &'static str = "atc-thermometer.battery";

/// Default interval, in seconds, between two readings of a device.
pub fn default_interval() -> (seconds: u64)
    ensures
        seconds == 60,
{
    60
}

/// A device read at `last` is due again at `now` once `last + interval <= now`;
/// a device never read is always due.
pub open spec fn due(history: Map<u64, u64>, address: u64, interval: u64, now: u64) -> bool {
    history.contains_key(address) ==> history[address] + interval <= now
}

/// When each device, by its 48-bit address, was last read successfully.
#[derive(Debug)]
pub struct DeviceHistory {
    inner: HashMap<u64, u64>,
}

impl DeviceHistory {
    pub closed spec fn last_reads(self) -> Map<u64, u64> {
        self.inner@
    }

    pub fn new() -> (history: DeviceHistory)
        ensures
            history.last_reads() == Map::<u64, u64>::empty(),
    {
        DeviceHistory { inner: HashMap::new() }
    }

    /// Whether the device should be read at `now`.
    pub fn is_due(&self, address: u64, interval: u64, now: u64) -> (is_due: bool)
        ensures
            is_due == due(self.last_reads(), address, interval, now),
    {
        match self.inner.get(&address) {
            Some(last) => *last <= now && now - *last >= interval,
            None => true,
        }
    }

    /// Records a successful read of the device at `timestamp`.
    pub fn record(&mut self, address: u64, timestamp: u64)
        ensures
            final(self).last_reads() == old(self).last_reads().insert(address, timestamp),
    {
        self.inner.insert(address, timestamp);
    }
}

/// A device just recorded at `t` is not due again before `t + interval`, and
/// is due from then on; recording one device leaves the others as they were.
pub proof fn law_recorded_device_waits(
    history: Map<u64, u64>,
    address: u64,
    other: u64,
    t: u64,
    interval: u64,
    now: u64,
)
    requires
        other != address,
    ensures
        due(history.insert(address, t), address, interval, now) <==> t + interval <= now,
        due(history.insert(address, t), other, interval, now) == due(
            history,
            other,
            interval,
            now,
        ),
{
}

} // verus!
