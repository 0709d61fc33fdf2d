use chezmoi::agent::sensor::bluetooth::{self, DeviceEvent, DeviceReading};
use chezmoi::agent::sensor::atc_thermometer::{
    read_battery, read_humidity, read_i16, read_temperature, read_u8, Payload,
};
use chezmoi::agent::sensor::{Cache, Collector, Metric, MetricValue, MissingDevices};
use std::hash::{DefaultHasher, Hash, Hasher};

fn header(name: &str) -> u64 {
    let mut h = DefaultHasher::new();
    name.hash(&mut h);
    h.finish()
}

#[test]
fn should_skip_metrics_without_tags() {
    let mut col: Collector = Collector::default();
    col.collect(Metric::new(0, header("foo"), MetricValue::count(10)));
    col.collect(Metric::new(10, header("foo"), MetricValue::count(10)));
    assert_eq!(col.len(), 1);
    col.collect(Metric::new(60 * 60 * 2, header("foo"), MetricValue::count(10)));
    assert_eq!(col.len(), 2);
}

#[test]
fn collector_flush_hands_over_in_order() {
    let mut col = Collector::new(Cache::default(), 2);
    assert!(col.flush().is_none());
    let a = Metric { timestamp: 1, header_hash: header("a"), value: MetricValue::gauge(1.5f64.to_bits()), payload: "first" };
    let b = Metric { timestamp: 1, header_hash: header("b"), value: MetricValue::bool(true), payload: "second" };
    col.collect(a);
    col.collect(b);
    col.collect(a);
    assert_eq!(col.flush(), Some(vec![a, b]));
    assert_eq!(col.len(), 0);
    assert!(col.flush().is_none());
}

#[test]
fn sensor_cache_takes_changed_values() {
    let mut cache = Cache::default();
    let m = Metric::new(0, header("x"), MetricValue::count(1));
    assert_eq!(cache.maybe_take(m), Some(m));
    assert_eq!(cache.maybe_take(m), None);
    let changed = Metric { value: MetricValue::count(2), ..m };
    assert_eq!(cache.maybe_take(changed), Some(changed));
    let expired = Metric { timestamp: 3600, ..changed };
    assert_eq!(cache.maybe_take(expired), Some(expired));
    let almost = Metric { timestamp: 7199, ..changed };
    assert_eq!(cache.maybe_take(almost), None);
}

#[test]
fn atc_payload_is_read_from_fixed_offsets() {
    let data = [0u8, 1, 2, 3, 4, 5, 0x00, 0xd7, 55, 87, 0xff];
    assert_eq!(read_temperature(&data), Some(215));
    assert_eq!(read_humidity(&data), Some(55));
    assert_eq!(read_battery(&data), Some(87));
    assert_eq!(
        Payload::read(&data),
        Some(Payload { temperature: 215, humidity: 55, battery: 87 })
    );
}

#[test]
fn atc_payload_negative_temperature() {
    let data = [0u8, 0, 0, 0, 0, 0, 0xff, 0x9c, 40, 100];
    assert_eq!(read_temperature(&data), Some(-100));
    assert_eq!(read_i16(&data, 6), Some(-100));
    assert_eq!(read_i16(&[0x80, 0x00], 0), Some(i16::MIN));
    assert_eq!(read_i16(&[0x7f, 0xff], 0), Some(i16::MAX));
}

#[test]
fn atc_payload_too_short() {
    let data = [0u8; 9];
    assert_eq!(read_battery(&data), None);
    assert_eq!(Payload::read(&data), None);
    assert_eq!(read_u8(&data, 8), Some(0));
    assert_eq!(read_u8(&data, 9), None);
    assert_eq!(read_i16(&data, 8), None);
    assert_eq!(read_i16(&data, usize::MAX), None);
    assert_eq!(read_temperature(&[0u8; 7]), None);
}

#[test]
fn missing_devices_rounds() {
    let mut state = MissingDevices::new(&vec![1, 2, 2, 3]);
    let mut round = state.round();
    round.sort();
    assert_eq!(round, vec![1, 2, 3]);
    assert!(state.should_continue());
    state.mark_done(2);
    state.end_round();
    let mut round = state.round();
    round.sort();
    assert_eq!(round, vec![1, 3]);
    for _ in 0..4 {
        assert!(state.should_continue());
        state.end_round();
    }
    assert!(!state.should_continue());
    state.mark_done(1);
    state.mark_done(3);
    assert!(state.round().is_empty());
    let none = MissingDevices::new(&vec![]);
    assert!(!none.should_continue());
}

#[test]
fn sensor_nan_gauges_are_always_taken() {
    let mut col: Collector = Collector::default();
    col.collect(Metric::new(0, header("g"), MetricValue::gauge(f64::NAN.to_bits())));
    col.collect(Metric::new(1, header("g"), MetricValue::gauge(f64::NAN.to_bits())));
    assert_eq!(col.len(), 2);
    col.collect(Metric::new(2, header("z"), MetricValue::gauge(0.0f64.to_bits())));
    col.collect(Metric::new(3, header("z"), MetricValue::gauge((-0.0f64).to_bits())));
    assert_eq!(col.len(), 3);
}

#[test]
fn bluetooth_events_give_readings() {
    assert_eq!(
        bluetooth::readings(DeviceEvent::Added { tx_power: Some(-40) }),
        vec![DeviceReading::Power(-40), DeviceReading::Visible(true)]
    );
    assert_eq!(
        bluetooth::readings(DeviceEvent::Changed { tx_power: None }),
        vec![DeviceReading::Visible(true)]
    );
    assert_eq!(
        bluetooth::readings(DeviceEvent::Removed),
        vec![DeviceReading::Visible(false)]
    );
    assert_eq!(DeviceReading::Power(3).name(), "bluetooth.device.power");
    assert_eq!(DeviceReading::Visible(true).name(), bluetooth::DEVICE_VISIBLE);
}
