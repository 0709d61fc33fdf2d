use std::hash::{DefaultHasher, Hash, Hasher};
use chezmoi::agent::collector::atc_sensor::{self, DeviceHistory};
use chezmoi::agent::collector::helper::CachedSender;
use chezmoi::agent::collector::miflora_sensor::{
    self, error_delay, LastState, LocalContext, Measure, Measures, PollingMode,
    PollingModeParsingError, Reading,
};
use chezmoi::agent::collector::system::{self, AgentMetricHeader, AgentMetricName, Hostname};
use chezmoi::agent::collector::internal;
use chezmoi::agent::event::OneOrMany;
use chezmoi::agent::exporter::batch::{self, BatchBuffer, BatchExporter};
use chezmoi::agent::exporter::cache::CacheLayer;
use chezmoi::agent::exporter::direct::DirectExporter;
use chezmoi::agent::exporter::http;
use chezmoi::agent::metric;
use chezmoi::cache::Metric;

#[test]
fn defaults() {
    assert_eq!(batch::default_capacity(), 50);
    assert_eq!(batch::default_interval(), 30);
    assert_eq!(http::default_capacity(), 50);
    assert_eq!(http::default_interval(), 30);
    assert_eq!(atc_sensor::default_interval(), 60);
    assert_eq!(internal::default_interval(), 10);
    assert_eq!(miflora_sensor::default_interval(), 86400);
    assert_eq!(system::default_interval(), 10);
}

#[test]
fn one_or_many_items() {
    let one = OneOrMany::One(3u8);
    assert_eq!(one.len(), 1);
    assert_eq!(one.into_vec(), vec![3]);
    let many = OneOrMany::Many(vec![1u8, 2, 3]);
    assert_eq!(many.len(), 3);
    assert_eq!(many.into_vec(), vec![1, 2, 3]);
}

#[test]
fn batch_buffer_flushes_at_capacity() {
    let mut buffer = BatchBuffer::new(3);
    assert_eq!(buffer.push(OneOrMany::One(1)), None);
    assert_eq!(buffer.push(OneOrMany::Many(vec![])), None);
    assert_eq!(buffer.len(), 1);
    assert_eq!(buffer.push(OneOrMany::Many(vec![2, 3, 4])), Some(vec![1, 2, 3, 4]));
    assert_eq!(buffer.len(), 0);
    assert_eq!(buffer.tick(), None);
    assert_eq!(buffer.push(OneOrMany::One(5)), None);
    assert_eq!(buffer.tick(), Some(vec![5]));
    assert_eq!(buffer.len(), 0);
}

#[test]
fn batch_buffer_with_zero_capacity_flushes_every_event() {
    let mut buffer = BatchBuffer::new(0);
    assert_eq!(buffer.push(OneOrMany::One(7)), Some(vec![7]));
    assert_eq!(buffer.push(OneOrMany::Many(Vec::<i32>::new())), Some(vec![]));
}

#[test]
fn batch_exporter_holds_its_settings() {
    let mut exporter = BatchExporter::new(2, 15, String::from("handler"));
    assert_eq!(exporter.interval_secs(), 15);
    let mut buffer = exporter.buffer::<u8>();
    assert_eq!(buffer.push(OneOrMany::Many(vec![1, 2])), Some(vec![1, 2]));
    assert_eq!(exporter.handler_mut().as_str(), "handler");
    let mut direct = DirectExporter::new(5u8);
    *direct.handler_mut() += 1;
    assert_eq!(*direct.handler_mut(), 6);
}

#[test]
fn cache_layer_filters_events() {
    let mut layer = CacheLayer::new(10, 60, ());
    let a = Metric::new(0, 1, 0);
    let b = Metric::new(0, 2, 0);
    assert!(matches!(layer.filter_event(OneOrMany::One(a)), Some(OneOrMany::One(x)) if x == a));
    assert!(matches!(layer.filter_event(OneOrMany::One(a)), Some(OneOrMany::One(x)) if x == a));
    let a1 = Metric::new(1, 1, 0);
    assert!(layer.filter_event(OneOrMany::One(a1)).is_none());
    match layer.filter_event(OneOrMany::Many(vec![a1, b])) {
        Some(OneOrMany::Many(items)) => assert_eq!(items, vec![b]),
        _ => panic!("expected a batch"),
    }
    assert_eq!(layer.filter_many(vec![a1, Metric::new(1, 2, 0)]), None);
    assert_eq!(layer.filter_many(vec![Metric::new(1, 1, 9)]), Some(vec![Metric::new(1, 1, 9)]));
}

#[test]
fn cached_sender_prepares_events() {
    let mut sender = CachedSender::new(6, 10, "channel");
    assert_eq!(*sender.sender_ref(), "channel");
    let m = Metric::new(3, 42, 7);
    assert!(matches!(sender.prepare_one(m), Some(OneOrMany::One(x)) if x == m));
    let m1 = Metric::new(4, 42, 7);
    assert!(sender.prepare_one(m1).is_none());
    assert!(sender.prepare_many(vec![m1]).is_none());
    match sender.prepare_many(vec![m1, Metric::new(4, 43, 7)]) {
        Some(OneOrMany::Many(items)) => assert_eq!(items, vec![Metric::new(4, 43, 7)]),
        _ => panic!("expected a batch"),
    }
}

#[test]
fn device_history_spaces_reads() {
    let mut history = DeviceHistory::new();
    assert!(history.is_due(1, 60, 0));
    history.record(1, 100);
    assert!(!history.is_due(1, 60, 159));
    assert!(history.is_due(1, 60, 160));
    assert!(!history.is_due(1, 60, 50));
    assert!(history.is_due(2, 60, 0));
}

#[test]
fn polling_mode_parsing() {
    assert_eq!(PollingMode::parse("history").unwrap(), PollingMode::History);
    assert_eq!(PollingMode::parse("realtime").unwrap(), PollingMode::Realtime);
    assert_eq!("realtime".parse::<PollingMode>().unwrap(), PollingMode::Realtime);
    assert_eq!(PollingMode::default(), PollingMode::History);
    let err = PollingMode::parse("weekly").unwrap_err();
    assert_eq!(err.0, "weekly");
    assert_eq!(
        err.message(),
        "unknown polling mode provided \"weekly\", expected \"history\" or \"realtime\""
    );
    let quoted = PollingModeParsingError(String::from("a\"b"));
    assert_eq!(
        quoted.message(),
        "unknown polling mode provided \"a\\\"b\", expected \"history\" or \"realtime\""
    );
}

#[test]
fn backoff_after_errors() {
    assert_eq!(error_delay(0), 600);
    assert_eq!(error_delay(10), 600);
    assert_eq!(error_delay(11), 660);
    let ok = LastState { error_count: 0, timestamp: 2 };
    assert!(!ok.should_handle(100, 102));
    assert!(ok.should_handle(100, 103));
    let failing = LastState { error_count: 3, timestamp: 2 };
    assert!(!failing.should_handle(100, 602));
    assert!(failing.should_handle(100, 603));
    let huge = LastState { error_count: 0, timestamp: u64::MAX };
    assert!(!huge.should_handle(2, u64::MAX));
    let many = LastState { error_count: usize::MAX, timestamp: 1 };
    assert!(!many.should_handle(2, u64::MAX));
    let daily = LastState { error_count: 0, timestamp: 1000 };
    assert!(daily.should_handle(86400, 100000));
    assert!(!daily.should_handle(86400, 87400));
}

#[test]
fn local_context_tracks_devices() {
    let mut ctx = LocalContext::new(vec![1, 2]);
    assert_eq!(ctx.get(1), Some(LastState { error_count: 0, timestamp: 0 }));
    assert_eq!(ctx.get(3), None);
    assert!(!ctx.should_handle(60, 1, 60));
    assert!(ctx.should_handle(60, 1, 61));
    assert!(ctx.should_handle(60, 3, 0));
    ctx.on_success(1, 10);
    assert!(!ctx.should_handle(60, 1, 70));
    assert!(ctx.should_handle(60, 1, 71));
    ctx.on_error(2, 5);
    ctx.on_error(2, 6);
    assert_eq!(ctx.get(2), Some(LastState { error_count: 2, timestamp: 6 }));
    ctx.on_error(4, 7);
    assert_eq!(ctx.get(4), Some(LastState { error_count: 1, timestamp: 7 }));
    ctx.on_success(2, 8);
    assert_eq!(ctx.get(2), Some(LastState { error_count: 0, timestamp: 8 }));
}

#[test]
fn system_metric_names() {
    assert_eq!(AgentMetricName::MemoryTotal.as_str(), "system.memory.total");
    assert_eq!(AgentMetricName::MemoryUsed.as_str(), "system.memory.used");
    assert_eq!(AgentMetricName::MemoryRatio.as_str(), "system.memory.ratio");
    assert_eq!(AgentMetricName::SwapTotal.as_str(), "system.swap.total");
    assert_eq!(AgentMetricName::SwapUsed.as_str(), "system.swap.used");
    assert_eq!(AgentMetricName::SwapRatio.as_str(), "system.swap.ratio");
    let header = AgentMetricHeader::new(AgentMetricName::SwapUsed, Hostname(String::from("box")));
    assert_eq!(header.name, AgentMetricName::SwapUsed);
    assert_eq!(header.tags.hostname.0, "box");
}

#[test]
fn metric_header_hash_tells_headers_apart() {
    let a = metric::AgentMetricHeader::from(AgentMetricHeader::new(
        AgentMetricName::MemoryUsed,
        Hostname(String::from("box")),
    ));
    let b = metric::AgentMetricHeader::from(AgentMetricHeader::new(
        AgentMetricName::SwapUsed,
        Hostname(String::from("box")),
    ));
    let a2 = metric::AgentMetricHeader::from(AgentMetricHeader::new(
        AgentMetricName::MemoryUsed,
        Hostname(String::from("box")),
    ));
    assert_eq!(a.compute_hash(), a2.compute_hash());
    assert_ne!(a.compute_hash(), b.compute_hash());
}

#[test]
fn miflora_history_readings_in_order() {
    let first = Measures {
        temperature: 215,
        brightness: 1200,
        moisture: 40,
        conductivity: 350,
    };
    let second = Measures {
        temperature: 198,
        brightness: 70000,
        moisture: 38,
        conductivity: 340,
    };
    let readings = miflora_sensor::history_readings(1000, 87, &vec![(600, first), (900, second)]);
    let reading = |timestamp: u64, measure: Measure, value: u32| Reading {
        timestamp,
        measure,
        value,
    };
    assert_eq!(
        readings,
        vec![
            reading(1000, Measure::Battery, 87),
            reading(600, Measure::Temperature, 215),
            reading(600, Measure::Brightness, 1200),
            reading(600, Measure::Conductivity, 350),
            reading(600, Measure::Moisture, 40),
            reading(900, Measure::Temperature, 198),
            reading(900, Measure::Brightness, 70000),
            reading(900, Measure::Conductivity, 340),
            reading(900, Measure::Moisture, 38),
        ]
    );
}

#[test]
fn miflora_empty_history_reads_battery_only() {
    let readings = miflora_sensor::history_readings(5, 100, &Vec::new());
    assert_eq!(
        readings,
        vec![Reading {
            timestamp: 5,
            measure: Measure::Battery,
            value: 100
        }]
    );
}

#[test]
fn miflora_realtime_readings_at_now() {
    let measures = Measures {
        temperature: 230,
        brightness: 15,
        moisture: 61,
        conductivity: 120,
    };
    let readings = miflora_sensor::realtime_readings(42, 9, measures);
    let measures_read: Vec<(Measure, u32)> = readings.iter().map(|r| (r.measure, r.value)).collect();
    assert!(readings.iter().all(|r| r.timestamp == 42));
    assert_eq!(
        measures_read,
        vec![
            (Measure::Battery, 9),
            (Measure::Temperature, 230),
            (Measure::Brightness, 15),
            (Measure::Conductivity, 120),
            (Measure::Moisture, 61),
        ]
    );
    assert_eq!(Measure::Battery.name(), miflora_sensor::DEVICE_BATTERY);
    assert_eq!(Measure::Temperature.name(), "miflora.temperature");
    assert_eq!(Measure::Brightness.name(), "miflora.brightness");
    assert_eq!(Measure::Conductivity.name(), "miflora.conductivity");
    assert_eq!(Measure::Moisture.name(), "miflora.moisture");
}

#[test]
fn metric_header_hash_is_the_derived_hash_of_the_inner_header() {
    for name in [
        AgentMetricName::MemoryTotal,
        AgentMetricName::MemoryUsed,
        AgentMetricName::MemoryRatio,
        AgentMetricName::SwapTotal,
        AgentMetricName::SwapUsed,
        AgentMetricName::SwapRatio,
    ] {
        for host in ["", "box", "maison-é"] {
            let inner = AgentMetricHeader::new(name, Hostname(String::from(host)));
            let mut state = DefaultHasher::new();
            inner.hash(&mut state);
            let expected = state.finish();
            let header = metric::AgentMetricHeader::from(inner);
            assert_eq!(header.compute_hash(), expected);
        }
    }
}

#[test]
fn batch_buffer_runs_events_and_ticks() {
    let mut buffer: BatchBuffer<u32> = BatchBuffer::new(3);
    assert_eq!(buffer.push(OneOrMany::One(1)), None);
    assert_eq!(buffer.tick(), Some(vec![1]));
    assert_eq!(buffer.tick(), None);
    assert_eq!(buffer.push(OneOrMany::Many(vec![2, 3])), None);
    assert_eq!(buffer.push(OneOrMany::Many(vec![4, 5])), Some(vec![2, 3, 4, 5]));
    assert_eq!(buffer.push(OneOrMany::Many(vec![])), None);
    assert_eq!(buffer.push(OneOrMany::One(6)), None);
    assert_eq!(buffer.tick(), Some(vec![6]));
    assert_eq!(buffer.len(), 0);
}

#[test]
fn miflora_sensor_poll_readings_in_order() {
    let measures = Measures {
        temperature: 231,
        brightness: 900,
        moisture: 44,
        conductivity: 1500,
    };
    let readings = chezmoi::agent::sensor::miflora::sensor_readings(77, 65, measures);
    assert!(readings.iter().all(|r| r.timestamp == 77));
    let got: Vec<(Measure, u32)> = readings.iter().map(|r| (r.measure, r.value)).collect();
    assert_eq!(
        got,
        vec![
            (Measure::Battery, 65),
            (Measure::Temperature, 231),
            (Measure::Brightness, 900),
            (Measure::Moisture, 44),
            (Measure::Conductivity, 1500),
        ]
    );
}

#[test]
fn polling_mode_parse_compares_whole_text() {
    assert!(PollingMode::parse("histor").is_err());
    assert!(PollingMode::parse("historyy").is_err());
    assert!(PollingMode::parse("History").is_err());
    assert!(PollingMode::parse("").is_err());
}
