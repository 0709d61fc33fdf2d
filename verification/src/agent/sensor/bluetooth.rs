//! Bluetooth presence sensor: what the adapter's device events are turned
//! into.
use vstd::prelude::*;

verus! {

pub const DEVICE_POWER: &'static str = "bluetooth.device.power";

pub const DEVICE_VISIBLE: &'static str = "bluetooth.device.visible";

/// What the adapter reports of a device: it appeared, one of its properties
/// changed, or it disappeared. For an appearing or changed device, its
/// transmission power when it gives one.
#[derive(Clone, Copy, Debug, PartialEq, Eq, Structural)]
pub enum DeviceEvent {
    Added { tx_power: Option<i16> },
    Changed { tx_power: Option<i16> },
    Removed,
}

/// A reading of a device: its transmission power, or whether it is visible.
#[derive(Clone, Copy, Debug, PartialEq, Eq, Structural)]
pub enum DeviceReading {
    Power(i16),
    Visible(bool),
}

pub open spec fn reading_name(reading: DeviceReading) -> Seq<char> {
    match reading {
        DeviceReading::Power(_) => "bluetooth.device.power"@,
        DeviceReading::Visible(_) => "bluetooth.device.visible"@,
    }
}

impl DeviceReading {
    /// The name of the metric that holds this reading.
    pub fn name(&self) -> (text: &'static str)
        ensures
            text@ == reading_name(*self),
    {
        match self {
            DeviceReading::Power(_) => DEVICE_POWER,
            DeviceReading::Visible(_) => DEVICE_VISIBLE,
        }
    }
}

/// The readings an event gives, in order: an appearing or changed device is
/// visible, after its power when it gives one; a disappeared device is no
/// longer visible.
pub open spec fn event_readings(event: DeviceEvent) -> Seq<DeviceReading> {
    match event {
        DeviceEvent::Added { tx_power } | DeviceEvent::Changed { tx_power } => match tx_power {
            Some(power) => seq![DeviceReading::Power(power), DeviceReading::Visible(true)],
            None => seq![DeviceReading::Visible(true)],
        },
        DeviceEvent::Removed => seq![DeviceReading::Visible(false)],
    }
}

/// The readings of one device event.
pub fn readings(event: DeviceEvent) -> (readings: Vec<DeviceReading>)
    ensures
        readings@ == event_readings(event),
{
    let mut readings: Vec<DeviceReading> = Vec::new();
    match event {
        DeviceEvent::Added { tx_power } | DeviceEvent::Changed { tx_power } => {
            if let Some(power) = tx_power {
                readings.push(DeviceReading::Power(power));
            }
            readings.push(DeviceReading::Visible(true));
        },
        DeviceEvent::Removed => {
            readings.push(DeviceReading::Visible(false));
        },
    }
    assert(readings@ =~= event_readings(event));
    readings
}

/// A changed device reports what an appearing one does. An event about a
/// present device gives its power first, when it has one, and always ends by
/// saying the device is visible; a disappearing device gives only that it is
/// no longer visible. The power reading, when there is one, is the power the
/// event carries.
pub proof fn law_device_readings(tx_power: Option<i16>)
    ensures
        event_readings(DeviceEvent::Changed { tx_power }) == event_readings(
            DeviceEvent::Added { tx_power },
        ),
        event_readings(DeviceEvent::Added { tx_power }).last() == DeviceReading::Visible(true),
        event_readings(DeviceEvent::Added { tx_power }).len() == (if tx_power is Some {
            2int
        } else {
            1int
        }),
        tx_power matches Some(p) ==> event_readings(DeviceEvent::Added { tx_power })[0]
            == DeviceReading::Power(p),
        event_readings(DeviceEvent::Removed) == seq![DeviceReading::Visible(false)],
{
}

} // verus!
