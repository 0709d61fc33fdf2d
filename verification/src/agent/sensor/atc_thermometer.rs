//! Service data of the ATC BLE thermometer: temperature, humidity and battery
//! read from fixed offsets of the advertised payload.
use vstd::prelude::*;

verus! {

pub const TEMPERATURE_INDEX: usize = 6;

pub const HUMIDITY_INDEX: usize = 8;

pub const BATTERY_INDEX: usize = 9;

/// The signed 16-bit big-endian integer made of bytes `hi` and `lo`.
pub open spec fn be_i16(hi: u8, lo: u8) -> int {
    let raw = hi * 256 + lo;
    if raw < 32768 {
        raw
    } else {
        raw - 65536
    }
}

/// The byte at `index`, if there is one.
pub fn read_u8(data: &[u8], index: usize) -> (byte: Option<u8>)
    ensures
        byte == (if index < data@.len() {
            Some(data@[index as int])
        } else {
            None
        }),
{
    if index < data.len() {
        Some(data[index])
    } else {
        None
    }
}

/// The signed big-endian 16-bit integer at `index` and `index + 1`, if both
/// bytes are there.
pub fn read_i16(data: &[u8], index: usize) -> (value: Option<i16>)
    ensures
        value == (if index + 1 < data@.len() {
            Some(be_i16(data@[index as int], data@[index + 1]) as i16)
        } else {
            None
        }),
        value matches Some(v) ==> v == be_i16(data@[index as int], data@[index + 1]),
{
    let len = data.len();
    if index >= len || len - index < 2 {
        return None;
    }
    let hi = data[index];
    let lo = data[index + 1];
    let raw: u16 = (hi as u16) * 256 + (lo as u16);
    if raw < 32768 {
        Some(raw as i16)
    } else {
        let v: i32 = (raw as i32) - 65536;
        Some(v as i16)
    }
}

/// The temperature in tenths of a degree Celsius.
pub fn read_temperature(data: &[u8]) -> (value: Option<i16>)
    ensures
        value == (if TEMPERATURE_INDEX + 1 < data@.len() {
            Some(be_i16(data@[6], data@[7]) as i16)
        } else {
            None
        }),
{
    read_i16(data, TEMPERATURE_INDEX)
}

/// The relative humidity in percent.
pub fn read_humidity(data: &[u8]) -> (value: Option<u8>)
    ensures
        value == (if HUMIDITY_INDEX < data@.len() {
            Some(data@[8])
        } else {
            None
        }),
{
    read_u8(data, HUMIDITY_INDEX)
}

/// The battery level in percent.
pub fn read_battery(data: &[u8]) -> (value: Option<u8>)
    ensures
        value == (if BATTERY_INDEX < data@.len() {
            Some(data@[9])
        } else {
            None
        }),
{
    read_u8(data, BATTERY_INDEX)
}

/// A decoded service data payload; the temperature is in tenths of a degree
/// Celsius.
#[derive(Clone, Copy, Debug, PartialEq, Eq)]
pub struct Payload {
    pub temperature: i16,
    pub humidity: u8,
    pub battery: u8,
}

impl Payload {
    /// Decodes a payload; it needs at least ten bytes.
    pub fn read(data: &[u8]) -> (payload: Option<Payload>)
        ensures
            payload is Some <==> data@.len() >= 10,
            payload matches Some(p) ==> {
                &&& p.temperature == be_i16(data@[6], data@[7])
                &&& p.humidity == data@[8]
                &&& p.battery == data@[9]
            },
    {
        let temperature = read_temperature(data)?;
        let humidity = read_humidity(data)?;
        let battery = read_battery(data)?;
        Some(Payload { temperature, humidity, battery })
    }
}

} // verus!
