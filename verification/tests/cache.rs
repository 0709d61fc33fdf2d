use chezmoi::cache::{float_bits_eq, Cache, Metric};
use std::hash::{DefaultHasher, Hash, Hasher};

fn header(name: &str) -> u64 {
    let mut h = DefaultHasher::new();
    name.hash(&mut h);
    h.finish()
}

fn metric(timestamp: u64, name: &str, value: f64) -> Metric {
    Metric::new(timestamp, header(name), value.to_bits())
}

#[test]
fn should_filter_with_ttl() {
    let mut cache = Cache::new(5, 3);
    assert!(cache.handle(metric(0, "foo", 0.0)).is_some());
    assert!(cache.handle(metric(1, "foo", 0.0)).is_none());
    assert!(cache.handle(metric(2, "foo", 0.0)).is_none());
    assert!(cache.handle(metric(3, "foo", 0.0)).is_none());
    assert!(cache.handle(metric(4, "foo", 0.0)).is_some());
}

#[test]
fn should_let_older_pass() {
    let mut cache = Cache::new(5, 3);
    assert!(cache.handle(metric(5, "foo", 0.0)).is_some());
    assert!(cache.handle(metric(1, "foo", 0.0)).is_some());
}

#[test]
fn should_let_pass_with_different_value() {
    let mut cache = Cache::new(5, 3);
    assert!(cache.handle(metric(0, "foo", 0.0)).is_some());
    assert!(cache.handle(metric(1, "foo", 0.1)).is_some());
}

#[test]
fn should_vacuum_by_size() {
    let mut cache = Cache::new(5, 3);
    for c in ["a", "b", "c", "d", "e", "f", "g", "h"] {
        assert!(cache.handle(metric(0, c, 0.0)).is_some());
    }
    cache.vacuum(1);
    assert!(cache.handle(metric(1, "a", 0.0)).is_some());
}

#[test]
fn should_vacuum_by_ttl() {
    let mut cache = Cache::new(5, 3);
    assert!(cache.handle(metric(0, "a", 0.0)).is_some());
    assert!(cache.handle(metric(2, "b", 0.0)).is_some());
    assert!(cache.handle(metric(4, "c", 0.0)).is_some());
    assert!(cache.handle(metric(6, "d", 0.0)).is_some());
    cache.vacuum(7);
    assert!(cache.handle(metric(8, "a", 0.0)).is_some());
    assert!(cache.handle(metric(8, "b", 0.0)).is_some());
    assert!(cache.handle(metric(8, "c", 0.0)).is_some());
    assert!(cache.handle(metric(8, "d", 0.0)).is_none());
}

#[test]
fn cache_returns_the_metric_it_lets_through() {
    let mut cache = Cache::new(5, 3);
    let m = metric(7, "foo", 1.5);
    assert_eq!(cache.handle(m), Some(m));
    assert_eq!(cache.len(), 1);
}

#[test]
fn cache_handles_same_metric_twice_alike() {
    let mut cache = Cache::new(5, 10);
    assert!(cache.handle(metric(0, "foo", 1.0)).is_some());
    let later = metric(4, "foo", 1.0);
    assert!(cache.handle(later).is_none());
    assert!(cache.handle(later).is_none());
    let changed = metric(5, "foo", 2.0);
    assert!(cache.handle(changed).is_some());
    assert!(cache.handle(changed).is_some());
}

#[test]
fn cache_keeps_headers_apart() {
    let mut cache = Cache::new(5, 10);
    assert!(cache.handle(metric(0, "foo", 1.0)).is_some());
    assert!(cache.handle(metric(1, "bar", 1.0)).is_some());
    assert!(cache.handle(metric(2, "foo", 1.0)).is_none());
    assert_eq!(cache.len(), 2);
}

#[test]
fn cache_holds_back_until_ttl_inclusive() {
    let mut cache = Cache::new(5, 3);
    assert!(cache.handle(metric(10, "foo", 0.0)).is_some());
    assert!(cache.handle(metric(13, "foo", 0.0)).is_none());
    assert!(cache.handle(metric(14, "foo", 0.0)).is_some());
    assert!(cache.handle(metric(14, "foo", 0.0)).is_some());
}

#[test]
fn handle_iter_keeps_order_of_passed() {
    let mut cache = Cache::new(5, 3);
    let items = vec![
        metric(0, "a", 0.0),
        metric(1, "a", 0.0),
        metric(1, "b", 0.0),
        metric(2, "a", 1.0),
    ];
    let passed = cache.handle_iter(items.clone());
    assert_eq!(passed, vec![items[0], items[2], items[3]]);
    let mut other = Cache::new(5, 3);
    let tagged: Vec<Metric<&str>> = vec![
        Metric::with_payload(0, 1, 0, "a"),
        Metric::with_payload(1, 1, 0, "b"),
        Metric::with_payload(5, 1, 0, "c"),
    ];
    let passed: Vec<&str> = other.handle_iter(tagged).into_iter().map(|m| m.payload).collect();
    assert_eq!(passed, vec!["a", "c"]);
}

#[test]
fn vacuum_within_capacity_keeps_everything() {
    let mut cache = Cache::new(5, 1);
    for c in ["a", "b", "c"] {
        assert!(cache.handle(metric(0, c, 0.0)).is_some());
    }
    cache.vacuum(100);
    assert_eq!(cache.len(), 3);
}

#[test]
fn vacuum_over_capacity_drops_stale_then_oldest() {
    let mut cache = Cache::new(2, 3);
    assert!(cache.handle(metric(0, "a", 0.0)).is_some());
    assert!(cache.handle(metric(5, "b", 0.0)).is_some());
    assert!(cache.handle(metric(6, "c", 0.0)).is_some());
    assert!(cache.handle(metric(7, "d", 0.0)).is_some());
    cache.vacuum(7);
    assert_eq!(cache.len(), 2);
    assert!(cache.handle(metric(7, "c", 0.0)).is_none());
    assert!(cache.handle(metric(8, "d", 0.0)).is_none());
    assert!(cache.handle(metric(8, "b", 0.0)).is_some());
}

#[test]
fn vacuum_over_capacity_drops_only_stale_when_enough() {
    let mut cache = Cache::new(2, 3);
    assert!(cache.handle(metric(0, "a", 0.0)).is_some());
    assert!(cache.handle(metric(1, "b", 0.0)).is_some());
    assert!(cache.handle(metric(6, "c", 0.0)).is_some());
    cache.vacuum(6);
    assert_eq!(cache.len(), 1);
}

#[test]
fn nan_values_never_pass() {
    let mut cache = Cache::new(5, 3);
    assert!(cache.handle(metric(0, "foo", f64::NAN)).is_none());
    assert!(cache.handle(metric(1, "foo", f64::NAN)).is_none());
    assert!(cache.handle(metric(10, "foo", f64::NAN)).is_none());
    assert!(cache.handle(metric(11, "foo", 1.0)).is_some());
}

#[test]
fn signed_zeros_are_the_same_value() {
    let mut cache = Cache::new(5, 3);
    assert!(cache.handle(metric(0, "foo", 0.0)).is_some());
    assert!(cache.handle(metric(1, "foo", -0.0)).is_none());
    assert!(cache.handle(metric(2, "foo", 0.0)).is_none());
    assert!(cache.handle(metric(2, "bar", -0.0)).is_some());
}

#[test]
fn float_bits_compare_as_floats() {
    for (a, b) in [(0.0f64, -0.0f64), (1.5, 1.5), (1.5, 2.5), (f64::NAN, f64::NAN), (f64::INFINITY, f64::INFINITY), (f64::NAN, 1.0)] {
        assert_eq!(float_bits_eq(a.to_bits(), b.to_bits()), a == b);
    }
}
