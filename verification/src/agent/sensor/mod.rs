//! Sensors' shared bookkeeping: a cache that drops repeated readings and a
//! collector that gathers what passes until it is flushed.
pub mod atc_thermometer;
pub mod bluetooth;
pub mod miflora;

use crate::cache::{entry_is_fresh, float_bits_eq, float_eq, is_fresh};
use std::collections::HashMap;
use vstd::prelude::*;

verus! {

broadcast use vstd::std_specs::hash::group_hash_axioms;

/// One hour, in seconds: the default time to live of the sensors' cache.
pub const ONE_HOUR: u64 = 3600;

/// The value of a reading. A gauge is given by the bit pattern of its
/// floating-point value.
#[derive(Clone, Copy, Debug, PartialEq, Eq, Structural)]
pub enum MetricValue {
    Gauge(u64),
    Count(u64),
    Bool(bool),
}

impl MetricValue {
    pub fn gauge(bits: u64) -> (value: MetricValue)
        ensures
            value == MetricValue::Gauge(bits),
    {
        MetricValue::Gauge(bits)
    }

    pub fn count(count: u64) -> (value: MetricValue)
        ensures
            value == MetricValue::Count(count),
    {
        MetricValue::Count(count)
    }

    pub fn bool(flag: bool) -> (value: MetricValue)
        ensures
            value == MetricValue::Bool(flag),
    {
        MetricValue::Bool(flag)
    }
}

/// `==` of two values: gauges compare as floating-point numbers (a NaN equals
/// nothing, `0.0` equals `-0.0`), counts and flags by value, and values of
/// different kinds differ.
pub open spec fn value_eq(a: MetricValue, b: MetricValue) -> bool {
    match (a, b) {
        (MetricValue::Gauge(x), MetricValue::Gauge(y)) => float_eq(x, y),
        (MetricValue::Count(x), MetricValue::Count(y)) => x == y,
        (MetricValue::Bool(x), MetricValue::Bool(y)) => x == y,
        _ => false,
    }
}

fn values_equal(a: &MetricValue, b: &MetricValue) -> (eq: bool)
    ensures
        eq == value_eq(*a, *b),
{
    match (a, b) {
        (MetricValue::Gauge(x), MetricValue::Gauge(y)) => float_bits_eq(*x, *y),
        (MetricValue::Count(x), MetricValue::Count(y)) => *x == *y,
        (MetricValue::Bool(x), MetricValue::Bool(y)) => *x == *y,
        _ => false,
    }
}

/// A reading: when it was taken, the hash of its header (name and tags) and
/// its value, with whatever the sensor carries along in `payload`.
#[derive(Clone, Copy, Debug, PartialEq, Eq)]
pub struct Metric<P = ()> {
    pub timestamp: u64,
    pub header_hash: u64,
    pub value: MetricValue,
    pub payload: P,
}

impl Metric<()> {
    pub fn new(timestamp: u64, header_hash: u64, value: MetricValue) -> (metric: Metric<()>)
        ensures
            metric == (Metric { timestamp, header_hash, value, payload: () }),
    {
        Metric { timestamp, header_hash, value, payload: () }
    }
}

/// `m` repeats a reading the cache holds for its header, and that reading is
/// still fresh.
pub open spec fn is_known<P>(entries: Map<u64, (u64, MetricValue)>, ttl: u64, m: Metric<P>) -> bool {
    &&& entries.contains_key(m.header_hash)
    &&& is_fresh(entries[m.header_hash].0, ttl, m.timestamp)
    &&& value_eq(entries[m.header_hash].1, m.value)
}

/// Remembers the last reading taken per header.
#[derive(Debug)]
pub struct Cache {
    inner: HashMap<u64, (u64, MetricValue)>,
    ttl: u64,
}

impl Cache {
    /// The remembered `(timestamp, value)` per header hash.
    pub closed spec fn entries(self) -> Map<u64, (u64, MetricValue)> {
        self.inner@
    }

    pub closed spec fn time_to_live(self) -> u64 {
        self.ttl
    }

    /// A cache whose entries stay fresh for one hour.
    pub fn new_default() -> (cache: Cache)
        ensures
            cache.entries() == Map::<u64, (u64, MetricValue)>::empty(),
            cache.time_to_live() == ONE_HOUR,
    {
        Cache { inner: HashMap::new(), ttl: ONE_HOUR }
    }

    /// Takes `metric` unless it repeats a fresh reading of its header; a taken
    /// metric becomes the reading remembered for its header.
    pub fn maybe_take<P>(&mut self, metric: Metric<P>) -> (taken: Option<Metric<P>>)
        ensures
            final(self).time_to_live() == old(self).time_to_live(),
            is_known(old(self).entries(), old(self).time_to_live(), metric) ==> taken.is_none()
                && final(self).entries() == old(self).entries(),
            !is_known(old(self).entries(), old(self).time_to_live(), metric) ==> taken == Some(
                metric,
            ) && final(self).entries() == old(self).entries().insert(
                metric.header_hash,
                (metric.timestamp, metric.value),
            ),
    {
        let hash = metric.header_hash;
        if !self.has(hash, &metric) {
            self.insert(hash, &metric);
            Some(metric)
        } else {
            None
        }
    }

    fn insert<P>(&mut self, hash: u64, metric: &Metric<P>)
        ensures
            final(self).time_to_live() == old(self).time_to_live(),
            final(self).entries() == old(self).entries().insert(hash, (metric.timestamp, metric.value)),
    {
        self.inner.insert(hash, (metric.timestamp, metric.value));
    }

    fn has<P>(&self, header_hash: u64, metric: &Metric<P>) -> (known: bool)
        requires
            header_hash == metric.header_hash,
        ensures
            known == is_known(self.entries(), self.time_to_live(), *metric),
    {
        match self.inner.get(&header_hash) {
            Some(entry) => entry_is_fresh(entry.0, self.ttl, metric.timestamp) && values_equal(
                &entry.1,
                &metric.value,
            ),
            None => false,
        }
    }
}

impl Default for Cache {
    fn default() -> (cache: Cache)
        ensures
            cache.entries() == Map::<u64, (u64, MetricValue)>::empty(),
            cache.time_to_live() == ONE_HOUR,
    {
        Cache::new_default()
    }
}

/// Gathers the readings the cache lets through until they are flushed.
pub struct Collector<P = ()> {
    cache: Cache,
    inner: Vec<Metric<P>>,
}

impl<P> Collector<P> {
    pub closed spec fn cache(self) -> Cache {
        self.cache
    }

    /// The readings gathered since the last flush, in order.
    pub closed spec fn pending(self) -> Seq<Metric<P>> {
        self.inner@
    }

    pub fn new(cache: Cache, capacity: usize) -> (collector: Collector<P>)
        ensures
            collector.cache() == cache,
            collector.pending() == Seq::<Metric<P>>::empty(),
    {
        Collector { cache, inner: Vec::with_capacity(capacity) }
    }

    /// A collector with a default cache.
    pub fn new_default() -> (collector: Collector<P>)
        ensures
            collector.cache().entries() == Map::<u64, (u64, MetricValue)>::empty(),
            collector.cache().time_to_live() == ONE_HOUR,
            collector.pending() == Seq::<Metric<P>>::empty(),
    {
        Collector { cache: Cache::new_default(), inner: Vec::new() }
    }

    /// The number of readings gathered since the last flush.
    pub fn len(&self) -> (n: usize)
        ensures
            n == self.pending().len(),
    {
        self.inner.len()
    }

    /// Gathers `metric` unless the cache drops it.
    pub fn collect(&mut self, metric: Metric<P>)
        ensures
            final(self).cache().time_to_live() == old(self).cache().time_to_live(),
            is_known(old(self).cache().entries(), old(self).cache().time_to_live(), metric) ==> {
                &&& final(self).pending() == old(self).pending()
                &&& final(self).cache().entries() == old(self).cache().entries()
            },
            !is_known(old(self).cache().entries(), old(self).cache().time_to_live(), metric) ==> {
                &&& final(self).pending() == old(self).pending().push(metric)
                &&& final(self).cache().entries() == old(self).cache().entries().insert(
                    metric.header_hash,
                    (metric.timestamp, metric.value),
                )
            },
    {
        if let Some(value) = self.cache.maybe_take(metric) {
            self.inner.push(value);
        }
    }

    /// Hands over the readings gathered since the last flush, if there are any.
    pub fn flush(&mut self) -> (flushed: Option<Vec<Metric<P>>>)
        ensures
            final(self).cache() == old(self).cache(),
            final(self).pending() == Seq::<Metric<P>>::empty(),
            match flushed {
                Some(batch) => batch@ == old(self).pending() && batch@.len() > 0,
                None => old(self).pending().len() == 0,
            },
    {
        if self.inner.len() == 0 {
            None
        } else {
            let mut new = Vec::with_capacity(self.inner.len());
            std::mem::swap(&mut self.inner, &mut new);
            Some(new)
        }
    }
}

impl<P> Default for Collector<P> {
    fn default() -> (collector: Collector<P>)
        ensures
            collector.cache().entries() == Map::<u64, (u64, MetricValue)>::empty(),
            collector.cache().time_to_live() == ONE_HOUR,
            collector.pending() == Seq::<Metric<P>>::empty(),
    {
        Collector::new_default()
    }
}

/// A reading counts as a repeat only of the very same value: the same flag,
/// the same count, or the same non-NaN floating-point bit pattern, where
/// `0.0` and `-0.0` are the one exception. A changed flag, count or gauge is
/// never known, and so always taken; an unchanged one, still fresh, is known.
pub proof fn law_known_means_same_value<P>(
    entries: Map<u64, (u64, MetricValue)>,
    ttl: u64,
    m: Metric<P>,
)
    ensures
        is_known(entries, ttl, m) ==> {
            let stored = entries[m.header_hash].1;
            ||| stored == m.value
            ||| stored matches MetricValue::Gauge(a) && m.value matches MetricValue::Gauge(b) && a
                & 0x7fff_ffff_ffff_ffffu64 == 0 && b & 0x7fff_ffff_ffff_ffffu64 == 0
        },
        is_known(entries, ttl, m) ==> (m.value matches MetricValue::Gauge(b) ==> !(b
            & 0x7ff0_0000_0000_0000u64 == 0x7ff0_0000_0000_0000u64 && b & 0x000f_ffff_ffff_ffffu64
            != 0)),
        entries.contains_key(m.header_hash) && is_fresh(entries[m.header_hash].0, ttl, m.timestamp)
            && entries[m.header_hash].1 == m.value && !(m.value matches MetricValue::Gauge(b) && b
            & 0x7ff0_0000_0000_0000u64 == 0x7ff0_0000_0000_0000u64 && b & 0x000f_ffff_ffff_ffffu64
            != 0) ==> is_known(entries, ttl, m),
{
}

/// With a positive time to live, a reading taken by the cache is dropped when
/// it comes again at once, and dropped again at any later time while still
/// fresh with the same value; once the time to live has passed it is taken
/// again. A NaN gauge equals nothing, so it is left out: it is always taken.
pub proof fn law_repeat_within_ttl<P>(
    entries: Map<u64, (u64, MetricValue)>,
    ttl: u64,
    m: Metric<P>,
    later: u64,
)
    requires
        ttl > 0,
        value_eq(m.value, m.value),
    ensures
        ({
            let after = entries.insert(m.header_hash, (m.timestamp, m.value));
            let again = Metric { timestamp: later, ..m };
            &&& is_known(after, ttl, m)
            &&& m.timestamp <= later < m.timestamp + ttl ==> is_known(after, ttl, again)
            &&& later >= m.timestamp + ttl ==> !is_known(after, ttl, again)
        }),
{
}

} // verus!

verus! {

/// How many rounds a sensor makes to reach its devices before it gives up
/// until its next collection.
pub const MAX_ROUNDS: u32 = 5;

/// The devices a sensor has not reached yet in this collection, and how many
/// rounds it has made. Each round, the sensor tries every missing device; the
/// devices it reaches are done.
pub struct MissingDevices {
    missing: Vec<u64>,
    rounds: u32,
}

impl MissingDevices {
    #[verifier::type_invariant]
    spec fn inv(self) -> bool {
        &&& self.missing@.no_duplicates()
        &&& self.rounds <= MAX_ROUNDS
    }

    /// The devices still to reach.
    pub closed spec fn missing(self) -> Set<u64> {
        self.missing@.to_set()
    }

    pub closed spec fn rounds(self) -> nat {
        self.rounds as nat
    }

    /// Every device is missing at first, and no round has been made.
    pub fn new(devices: &Vec<u64>) -> (state: Self)
        ensures
            state.missing() == devices@.to_set(),
            state.rounds() == 0,
    {
        let mut missing: Vec<u64> = Vec::new();
        let mut i: usize = 0;
        while i < devices.len()
            invariant
                0 <= i <= devices.len(),
                missing@.no_duplicates(),
                missing@.to_set() == devices@.take(i as int).to_set(),
            decreases devices.len() - i,
        {
            let device = devices[i];
            let ghost before = missing@;
            proof {
                broadcast use vstd::seq_lib::group_seq_properties;

                assert(devices@.take(i + 1) =~= devices@.take(i as int).push(device));
                assert(devices@.take(i + 1).to_set() =~= devices@.take(i as int).to_set().insert(
                    device,
                ));
            }
            if !contains(&missing, device) {
                missing.push(device);
                proof {
                    broadcast use vstd::seq_lib::group_seq_properties;

                    assert(missing@ == before.push(device));
                    assert(missing@.to_set() =~= before.to_set().insert(device));
                }
            } else {
                proof {
                    broadcast use vstd::seq_lib::group_seq_properties;

                    assert(before.to_set().contains(device));
                    assert(before.to_set().insert(device) =~= before.to_set());
                }
            }
            i = i + 1;
        }
        assert(devices@.take(devices.len() as int) =~= devices@);
        MissingDevices { missing, rounds: 0 }
    }

    /// Another round is due: some device is missing and fewer than
    /// `MAX_ROUNDS` rounds were made.
    pub fn should_continue(&self) -> (go_on: bool)
        ensures
            go_on == (self.missing() != Set::<u64>::empty() && self.rounds() < MAX_ROUNDS),
    {
        proof {
            broadcast use vstd::seq_lib::group_seq_properties;

            if self.missing@.len() > 0 {
                assert(self.missing@.to_set().contains(self.missing@[0]));
            } else {
                assert(self.missing@.to_set() =~= Set::<u64>::empty());
            }
        }
        self.missing.len() > 0 && self.rounds < MAX_ROUNDS
    }

    /// The devices to try in this round, each once.
    pub fn round(&self) -> (devices: Vec<u64>)
        ensures
            devices@.to_set() == self.missing(),
            devices@.no_duplicates(),
    {
        proof {
            use_type_invariant(self);
        }
        let mut devices: Vec<u64> = Vec::new();
        let mut i: usize = 0;
        while i < self.missing.len()
            invariant
                0 <= i <= self.missing@.len(),
                devices@ == self.missing@.take(i as int),
            decreases self.missing@.len() - i,
        {
            devices.push(self.missing[i]);
            assert(self.missing@.take(i + 1) =~= self.missing@.take(i as int).push(
                self.missing@[i as int],
            ));
            i = i + 1;
        }
        assert(self.missing@.take(self.missing@.len() as int) =~= self.missing@);
        devices
    }

    /// The device was reached: it is no longer missing.
    pub fn mark_done(&mut self, device: u64)
        ensures
            final(self).missing() == old(self).missing().remove(device),
            final(self).rounds() == old(self).rounds(),
    {
        proof {
            use_type_invariant(&*self);
        }
        let mut kept: Vec<u64> = Vec::new();
        let mut i: usize = 0;
        while i < self.missing.len()
            invariant
                0 <= i <= self.missing@.len(),
                self.missing@.no_duplicates(),
                kept@.no_duplicates(),
                kept@.to_set() == self.missing@.take(i as int).to_set().remove(device),
                forall|x: u64| kept@.contains(x) ==> self.missing@.take(i as int).contains(x),
            decreases self.missing@.len() - i,
        {
            let d = self.missing[i];
            proof {
                broadcast use vstd::seq_lib::group_seq_properties;

                assert(self.missing@.take(i + 1) =~= self.missing@.take(i as int).push(d));
                assert(!self.missing@.take(i as int).contains(d)) by {
                    if self.missing@.take(i as int).contains(d) {
                        let k = choose|k: int| 0 <= k < i && self.missing@.take(i as int)[k] == d;
                        assert(self.missing@[k] == self.missing@[i as int]);
                    }
                }
            }
            let ghost before = kept@;
            proof {
                broadcast use vstd::seq_lib::group_seq_properties;

                assert(!before.contains(d));
                assert(self.missing@.take(i + 1).to_set() =~= self.missing@.take(i as int).to_set().insert(d));
            }
            if d != device {
                kept.push(d);
                proof {
                    broadcast use vstd::seq_lib::group_seq_properties;

                    assert(kept@ == before.push(d));
                    assert(kept@.to_set() =~= before.to_set().insert(d));
                    assert(kept@.to_set() =~= self.missing@.take(i + 1).to_set().remove(device));
                }
            } else {
                proof {
                    assert(kept@.to_set() =~= self.missing@.take(i + 1).to_set().remove(device));
                }
            }
            proof {
                broadcast use vstd::seq_lib::group_seq_properties;

                assert forall|x: u64| kept@.contains(x) implies self.missing@.take(i + 1).contains(x) by {
                    if x != d {
                        assert(before.contains(x));
                        assert(self.missing@.take(i as int).contains(x));
                    }
                }
            }
            i = i + 1;
        }
        assert(self.missing@.take(self.missing@.len() as int) =~= self.missing@);
        self.missing = kept;
    }

    /// The round is over.
    pub fn end_round(&mut self)
        requires
            old(self).rounds() < MAX_ROUNDS,
        ensures
            final(self).missing() == old(self).missing(),
            final(self).rounds() == old(self).rounds() + 1,
    {
        proof {
            use_type_invariant(&*self);
        }
        self.rounds = self.rounds + 1;
    }
}

/// Whether `value` is in `items`.
fn contains(items: &Vec<u64>, value: u64) -> (found: bool)
    ensures
        found == items@.contains(value),
{
    let mut i: usize = 0;
    while i < items.len()
        invariant
            0 <= i <= items.len(),
            forall|k: int| 0 <= k < i ==> items@[k] != value,
        decreases items.len() - i,
    {
        if items[i] == value {
            return true;
        }
        i = i + 1;
    }
    false
}

} // verus!
