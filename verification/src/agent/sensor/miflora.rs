//! Miflora plant sensor read live: the readings of one poll, before the
//! temperature and conductivity are scaled to their units.
use crate::agent::collector::miflora_sensor::{battery_reading, Measure, Measures, Reading};
use vstd::prelude::*;

verus! {

/// The readings of one live poll taken `now`: battery, temperature,
/// brightness, moisture and conductivity, in that order.
pub open spec fn poll_readings(now: u64, battery: u8, measures: Measures) -> Seq<Reading> {
    seq![
        battery_reading(now, battery),
        Reading { timestamp: now, measure: Measure::Temperature, value: measures.temperature as u32 },
        Reading { timestamp: now, measure: Measure::Brightness, value: measures.brightness },
        Reading { timestamp: now, measure: Measure::Moisture, value: measures.moisture as u32 },
        Reading { timestamp: now, measure: Measure::Conductivity, value: measures.conductivity as u32 },
    ]
}

/// What a live poll of the sensor reports, all read `now`.
pub fn sensor_readings(now: u64, battery: u8, measures: Measures) -> (readings: Vec<Reading>)
    ensures
        readings@ == poll_readings(now, battery, measures),
{
    let mut readings: Vec<Reading> = Vec::new();
    readings.push(Reading { timestamp: now, measure: Measure::Battery, value: battery as u32 });
    readings.push(
        Reading { timestamp: now, measure: Measure::Temperature, value: measures.temperature as u32 },
    );
    readings.push(Reading { timestamp: now, measure: Measure::Brightness, value: measures.brightness });
    readings.push(
        Reading { timestamp: now, measure: Measure::Moisture, value: measures.moisture as u32 },
    );
    readings.push(
        Reading {
            timestamp: now,
            measure: Measure::Conductivity,
            value: measures.conductivity as u32,
        },
    );
    assert(readings@ =~= poll_readings(now, battery, measures));
    readings
}

} // verus!
