//! Miflora plant sensor collector: polling modes and the per-device backoff
//! that spaces out reads after errors.
use std::collections::HashMap;
use vstd::prelude::*;
use vstd::utf8::{encode_utf8, encode_utf8_decode_utf8};

verus! {

broadcast use vstd::std_specs::hash::group_hash_axioms;

pub const DEVICE_BATTERY: &'static str = "miflora.battery";

pub const DEVICE_TEMPERATURE: &'static str = "miflora.temperature";

pub const DEVICE_BRIGHTNESS: &'static str = "miflora.brightness";

pub const DEVICE_CONDUCTIVITY: &'static str = "miflora.conductivity";

pub const DEVICE_MOISTURE: &'static str = "miflora.moisture";

/// Default interval between historical fetches: 24 hours, in seconds.
pub fn default_interval() -> (seconds: u64)
    ensures
        seconds == 86400,
{
    60 * 60 * 24
}

/// The `Debug` text of a string: the string quoted, with its special
/// characters escaped.
pub uninterp spec fn debug_quoted(input: Seq<char>) -> Seq<char>;

/// `<String as Debug>::fmt`, through `format!("{:?}")`: the quoted and
/// escaped text of `input`.
#[verifier::external_body]
fn quote_debug(input: &String) -> (text: String)
    ensures
        text@ == debug_quoted(input@),
{
    format!("{:?}", input)
}

/// The message of the error for an unknown polling mode `input`.
pub open spec fn polling_mode_error_text(input: Seq<char>) -> Seq<char> {
    "unknown polling mode provided "@ + debug_quoted(input) + ", expected \"history\" or \"realtime\""@
}

/// Whether two strings hold the same characters, compared byte by byte.
fn str_equals(a: &str, b: &str) -> (same: bool)
    ensures
        same == (a@ == b@),
{
    let x = a.as_bytes();
    let y = b.as_bytes();
    proof {
        encode_utf8_decode_utf8(a@);
        encode_utf8_decode_utf8(b@);
    }
    if x.len() != y.len() {
        return false;
    }
    let mut i: usize = 0;
    while i < x.len()
        invariant
            0 <= i <= x@.len(),
            x@.len() == y@.len(),
            x@ == encode_utf8(a@),
            y@ == encode_utf8(b@),
            forall|k: int| 0 <= k < i ==> x@[k] == y@[k],
        decreases x@.len() - i,
    {
        if x[i] != y[i] {
            return false;
        }
        i = i + 1;
    }
    assert(x@ =~= y@);
    true
}

/// A polling mode that is neither "history" nor "realtime".
#[derive(Clone, Debug)]
pub struct PollingModeParsingError(pub String);

impl PollingModeParsingError {
    /// The error's message.
    pub fn message(&self) -> (text: String)
        ensures
            text@ == polling_mode_error_text(self.0@),
    {
        let text = String::from_str("unknown polling mode provided ");
        let text = text.concat(quote_debug(&self.0).as_str());
        text.concat(", expected \"history\" or \"realtime\"")
    }
}

/// Whether the collector fetches the sensor's history or its current values.
#[derive(Clone, Copy, Debug, PartialEq, Eq, Structural)]
pub enum PollingMode {
    History,
    Realtime,
}

impl Default for PollingMode {
    fn default() -> (mode: PollingMode)
        ensures
            mode == PollingMode::History,
    {
        PollingMode::History
    }
}

impl PollingMode {
    /// Parses "history" or "realtime"; any other text is an error that holds it.
    pub fn parse(s: &str) -> (mode: Result<PollingMode, PollingModeParsingError>)
        ensures
            s@ == "history"@ ==> mode == Ok::<PollingMode, PollingModeParsingError>(
                PollingMode::History,
            ),
            s@ == "realtime"@ ==> mode == Ok::<PollingMode, PollingModeParsingError>(
                PollingMode::Realtime,
            ),
            s@ != "history"@ && s@ != "realtime"@ ==> (mode matches Err(e) && e.0@ == s@),
    {
        proof {
            reveal_strlit("history");
            reveal_strlit("realtime");
            assert("history"@[0] != "realtime"@[0]);
            assert("history"@ != "realtime"@);
        }
        if str_equals(s, "history") {
            Ok(PollingMode::History)
        } else if str_equals(s, "realtime") {
            Ok(PollingMode::Realtime)
        } else {
            Err(PollingModeParsingError(s.to_owned()))
        }
    }
}

impl std::str::FromStr for PollingMode {
    type Err = PollingModeParsingError;

    fn from_str(s: &str) -> (mode: Result<PollingMode, PollingModeParsingError>)
        ensures
            s@ == "history"@ ==> mode == Ok::<PollingMode, PollingModeParsingError>(
                PollingMode::History,
            ),
            s@ == "realtime"@ ==> mode == Ok::<PollingMode, PollingModeParsingError>(
                PollingMode::Realtime,
            ),
            s@ != "history"@ && s@ != "realtime"@ ==> (mode matches Err(e) && e.0@ == s@),
    {
        PollingMode::parse(s)
    }
}

/// What a reading of a Miflora sensor measures.
#[derive(Clone, Copy, Debug, PartialEq, Eq, Structural)]
pub enum Measure {
    Battery,
    Temperature,
    Brightness,
    Conductivity,
    Moisture,
}

pub open spec fn measure_name(measure: Measure) -> Seq<char> {
    match measure {
        Measure::Battery => "miflora.battery"@,
        Measure::Temperature => "miflora.temperature"@,
        Measure::Brightness => "miflora.brightness"@,
        Measure::Conductivity => "miflora.conductivity"@,
        Measure::Moisture => "miflora.moisture"@,
    }
}

impl Measure {
    /// The name of the metric that holds this measure.
    pub fn name(&self) -> (text: &'static str)
        ensures
            text@ == measure_name(*self),
    {
        match self {
            Measure::Battery => DEVICE_BATTERY,
            Measure::Temperature => DEVICE_TEMPERATURE,
            Measure::Brightness => DEVICE_BRIGHTNESS,
            Measure::Conductivity => DEVICE_CONDUCTIVITY,
            Measure::Moisture => DEVICE_MOISTURE,
        }
    }
}

/// A raw reading of a sensor: when it was taken, what it measures and the
/// sensor's integer value.
#[derive(Clone, Copy, Debug, PartialEq, Eq, Structural)]
pub struct Reading {
    pub timestamp: u64,
    pub measure: Measure,
    pub value: u32,
}

/// The values a sensor reports at once, live or in a history entry.
#[derive(Clone, Copy, Debug, PartialEq, Eq, Structural)]
pub struct Measures {
    pub temperature: u16,
    pub brightness: u32,
    pub moisture: u8,
    pub conductivity: u16,
}

/// The readings of `measures` taken at `timestamp`: temperature, brightness,
/// conductivity and moisture, in that order.
pub open spec fn measures_readings(timestamp: u64, measures: Measures) -> Seq<Reading> {
    seq![
        Reading { timestamp, measure: Measure::Temperature, value: measures.temperature as u32 },
        Reading { timestamp, measure: Measure::Brightness, value: measures.brightness },
        Reading { timestamp, measure: Measure::Conductivity, value: measures.conductivity as u32 },
        Reading { timestamp, measure: Measure::Moisture, value: measures.moisture as u32 },
    ]
}

pub open spec fn battery_reading(now: u64, battery: u8) -> Reading {
    Reading { timestamp: now, measure: Measure::Battery, value: battery as u32 }
}

/// The readings of a history: each entry's measures, entry after entry.
pub open spec fn entries_readings(history: Seq<(u64, Measures)>) -> Seq<Reading> {
    history.map_values(|e: (u64, Measures)| measures_readings(e.0, e.1)).flatten_alt()
}

fn push_measures(readings: &mut Vec<Reading>, timestamp: u64, measures: Measures)
    ensures
        final(readings)@ == old(readings)@ + measures_readings(timestamp, measures),
{
    readings.push(
        Reading { timestamp, measure: Measure::Temperature, value: measures.temperature as u32 },
    );
    readings.push(Reading { timestamp, measure: Measure::Brightness, value: measures.brightness });
    readings.push(
        Reading { timestamp, measure: Measure::Conductivity, value: measures.conductivity as u32 },
    );
    readings.push(
        Reading { timestamp, measure: Measure::Moisture, value: measures.moisture as u32 },
    );
    assert(readings@ =~= old(readings)@ + measures_readings(timestamp, measures));
}

/// What a history poll reports: the battery level read `now`, then the
/// measures of every history entry at the entry's own timestamp, in order.
pub fn history_readings(now: u64, battery: u8, history: &Vec<(u64, Measures)>) -> (readings: Vec<
    Reading,
>)
    ensures
        readings@ == seq![battery_reading(now, battery)] + entries_readings(history@),
{
    let mut readings: Vec<Reading> = Vec::new();
    readings.push(Reading { timestamp: now, measure: Measure::Battery, value: battery as u32 });
    let ghost f = |e: (u64, Measures)| measures_readings(e.0, e.1);
    let mut i: usize = 0;
    while i < history.len()
        invariant
            0 <= i <= history.len(),
            f == (|e: (u64, Measures)| measures_readings(e.0, e.1)),
            readings@ == seq![battery_reading(now, battery)] + entries_readings(
                history@.take(i as int),
            ),
        decreases history.len() - i,
    {
        let (timestamp, measures) = history[i];
        let ghost before = readings@;
        push_measures(&mut readings, timestamp, measures);
        proof {
            let prev = history@.take(i as int).map_values(f);
            let next = history@.take(i + 1).map_values(f);
            assert(next.drop_last() =~= prev);
            assert(next.last() == measures_readings(timestamp, measures));
            assert(next.flatten_alt() == prev.flatten_alt() + measures_readings(timestamp, measures));
            assert(readings@ =~= seq![battery_reading(now, battery)] + next.flatten_alt());
        }
        i = i + 1;
    }
    assert(history@.take(history.len() as int) =~= history@);
    readings
}

/// What a live poll reports: the battery level and the live measures, all
/// read `now`.
pub fn realtime_readings(now: u64, battery: u8, measures: Measures) -> (readings: Vec<Reading>)
    ensures
        readings@ == seq![battery_reading(now, battery)] + measures_readings(now, measures),
{
    let mut readings: Vec<Reading> = Vec::new();
    readings.push(Reading { timestamp: now, measure: Measure::Battery, value: battery as u32 });
    push_measures(&mut readings, now, measures);
    readings
}

/// A history poll reports one battery reading, then exactly four readings per
/// history entry, each at that entry's timestamp.
pub proof fn law_history_readings(history: Seq<(u64, Measures)>)
    ensures
        entries_readings(history).len() == 4 * history.len(),
        forall|i: int, k: int|
            0 <= i < history.len() && 0 <= k < 4 ==> #[trigger] entries_readings(history)[4 * i
                + k] == measures_readings(history[i].0, history[i].1)[k],
    decreases history.len(),
{
    if history.len() > 0 {
        let d = history.drop_last();
        law_history_readings(d);
        let f = |e: (u64, Measures)| measures_readings(e.0, e.1);
        let m = history.map_values(f);
        assert(m.drop_last() =~= d.map_values(f));
        let last = measures_readings(history.last().0, history.last().1);
        assert(entries_readings(history) == entries_readings(d) + last);
        assert forall|i: int, k: int|
            0 <= i < history.len() && 0 <= k < 4 implies #[trigger] entries_readings(history)[4
                * i + k] == measures_readings(history[i].0, history[i].1)[k] by {
            if i < d.len() {
                assert(d[i] == history[i]);
                assert(entries_readings(d)[4 * i + k] == measures_readings(d[i].0, d[i].1)[k]);
            }
        }
    }
}

pub const ERROR_DELAY: u64 = 60;

/// The largest error count whose backoff delay fits in a `u64`.
pub const MAX_ERROR_COUNT: u64 = 307445734561825860;

/// The backoff after `count` errors in a row: at least ten error delays.
pub open spec fn spec_error_delay(count: nat) -> nat {
    if count > 10 {
        count * 60
    } else {
        600
    }
}

/// The backoff, in seconds, after `count` errors in a row.
pub fn error_delay(count: usize) -> (delay: u64)
    requires
        count <= MAX_ERROR_COUNT,
    ensures
        delay == spec_error_delay(count as nat),
{
    let count = count as u64;
    let count = if count > 10 {
        count
    } else {
        10
    };
    count * ERROR_DELAY
}

/// The outcome of the last read of a device: how many errors in a row, and
/// when.
#[derive(Clone, Copy, Debug, PartialEq, Eq, Structural)]
pub struct LastState {
    pub error_count: usize,
    pub timestamp: u64,
}

impl LastState {
    /// The delay applied to this state: the backoff after errors, `ttl`
    /// otherwise.
    pub open spec fn delay(self, ttl: u64) -> nat {
        if self.error_count > 0 {
            spec_error_delay(self.error_count as nat)
        } else {
            ttl as nat
        }
    }

    /// The device should be handled at `now`: the delay has passed since the
    /// state's timestamp.
    pub open spec fn spec_should_handle(self, ttl: u64, now: u64) -> bool {
        self.timestamp + self.delay(ttl) < now
    }

    pub fn should_handle(&self, ttl: u64, now: u64) -> (handle: bool)
        ensures
            handle == self.spec_should_handle(ttl, now),
    {
        let delay: u128 = if self.error_count > 0 {
            let count = self.error_count as u128;
            if count > 10 {
                count * 60
            } else {
                600
            }
        } else {
            ttl as u128
        };
        (self.timestamp as u128) + delay < (now as u128)
    }
}

/// The last state of each device, by its 48-bit address.
pub struct LocalContext {
    inner: HashMap<u64, LastState>,
}

/// A device without a state is always handled.
pub open spec fn context_should_handle(
    states: Map<u64, LastState>,
    ttl: u64,
    address: u64,
    now: u64,
) -> bool {
    states.contains_key(address) ==> states[address].spec_should_handle(ttl, now)
}

impl LocalContext {
    pub closed spec fn states(self) -> Map<u64, LastState> {
        self.inner@
    }

    /// Every device starts without errors, at time zero.
    pub fn new(devices: Vec<u64>) -> (context: LocalContext)
        ensures
            context.states().dom() == devices@.to_set(),
            forall|a: u64|
                #[trigger] context.states().contains_key(a) ==> context.states()[a] == (LastState {
                    error_count: 0,
                    timestamp: 0,
                }),
    {
        let mut inner: HashMap<u64, LastState> = HashMap::new();
        let mut i: usize = 0;
        while i < devices.len()
            invariant
                0 <= i <= devices.len(),
                inner@.dom() == devices@.take(i as int).to_set(),
                forall|a: u64|
                    #[trigger] inner@.contains_key(a) ==> inner@[a] == (LastState {
                        error_count: 0,
                        timestamp: 0,
                    }),
            decreases devices.len() - i,
        {
            let address = devices[i];
            inner.insert(address, LastState { error_count: 0, timestamp: 0 });
            proof {
                assert(devices@.take(i + 1) =~= devices@.take(i as int).push(address));
                broadcast use vstd::seq_lib::group_seq_properties;
                assert(devices@.take(i + 1).to_set() =~= devices@.take(i as int).to_set().insert(
                    address,
                ));
            }
            i = i + 1;
        }
        assert(devices@.take(devices.len() as int) =~= devices@);
        LocalContext { inner }
    }

    /// The state of a device, if it has one.
    pub fn get(&self, address: u64) -> (state: Option<LastState>)
        ensures
            state == (if self.states().contains_key(address) {
                Some(self.states()[address])
            } else {
                None
            }),
    {
        match self.inner.get(&address) {
            Some(state) => Some(*state),
            None => None,
        }
    }

    /// Whether the device should be handled at `now`.
    pub fn should_handle(&self, ttl: u64, address: u64, now: u64) -> (handle: bool)
        ensures
            handle == context_should_handle(self.states(), ttl, address, now),
    {
        match self.inner.get(&address) {
            Some(state) => state.should_handle(ttl, now),
            None => true,
        }
    }

    /// The device was handled at `now`: its error count is reset.
    pub fn on_success(&mut self, address: u64, now: u64)
        ensures
            final(self).states() == old(self).states().insert(
                address,
                LastState { error_count: 0, timestamp: now },
            ),
    {
        self.inner.insert(address, LastState { error_count: 0, timestamp: now });
    }

    /// Handling the device failed at `now`: one more error in a row.
    pub fn on_error(&mut self, address: u64, now: u64)
        requires
            old(self).states().contains_key(address) ==> old(self).states()[address].error_count
                < usize::MAX,
        ensures
            final(self).states() == old(self).states().insert(
                address,
                LastState {
                    error_count: if old(self).states().contains_key(address) {
                        (old(self).states()[address].error_count + 1) as usize
                    } else {
                        1
                    },
                    timestamp: now,
                },
            ),
    {
        let count = match self.inner.get(&address) {
            Some(state) => state.error_count + 1,
            None => 1,
        };
        self.inner.insert(address, LastState { error_count: count, timestamp: now });
    }
}

/// A success clears the backoff: right after it, only the time to live counts.
/// Each error in a row past ten lengthens the backoff by one error delay.
pub proof fn law_backoff(state: LastState, ttl: u64, now: u64)
    ensures
        (LastState { error_count: 0, timestamp: now }).delay(ttl) == ttl,
        state.error_count >= 10 ==> (LastState {
            error_count: (state.error_count + 1) as usize,
            ..state
        }).delay(ttl) == state.delay(ttl) + 60 || state.error_count == usize::MAX,
        0 < state.error_count <= 10 ==> state.delay(ttl) == 600,
{
}

} // verus!
