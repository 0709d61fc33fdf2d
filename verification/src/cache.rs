//! Deduplicating metric cache backed by an insertion-ordered map.
//!
//! The cache remembers, for every metric header, the timestamp and value of
//! the last metric it let through. A metric is held back when the cache holds
//! the same value for its header, recorded earlier and no more than `ttl`
//! seconds before it.
use indexmap::IndexMap;
use vstd::prelude::*;

verus! {

#[verifier::external_type_specification]
#[verifier::external_body]
#[verifier::reject_recursive_types(K)]
#[verifier::reject_recursive_types(V)]
#[verifier::reject_recursive_types(S)]
pub struct ExIndexMap<K, V, S>(IndexMap<K, V, S>);

/// The entries of an `IndexMap<u64, (u64, u64)>` in their order in the map,
/// each written `(key, timestamp, value)`.
pub uninterp spec fn cache_entries(map: IndexMap<u64, (u64, u64)>) -> Seq<(u64, u64, u64)>;

/// `IndexMap::new`: the new map holds no entry.
#[verifier::external_body]
fn entries_new() -> (map: IndexMap<u64, (u64, u64)>)
    ensures
        cache_entries(map) == Seq::<(u64, u64, u64)>::empty(),
{
    IndexMap::new()
}

/// `IndexMap::len`: the number of entries.
#[verifier::external_body]
fn entries_len(map: &IndexMap<u64, (u64, u64)>) -> (n: usize)
    ensures
        n == cache_entries(*map).len(),
{
    map.len()
}

/// `IndexMap::get`: the value stored under `key`, if an entry has that key.
#[verifier::external_body]
fn entries_get(map: &IndexMap<u64, (u64, u64)>, key: u64) -> (found: Option<(u64, u64)>)
    ensures
        match found {
            Some(v) => exists|i: int|
                0 <= i < cache_entries(*map).len() && cache_entries(*map)[i] == (key, v.0, v.1),
            None => forall|i: int|
                0 <= i < cache_entries(*map).len() ==> cache_entries(*map)[i].0 != key,
        },
{
    map.get(&key).copied()
}

/// `IndexMap::insert`: an entry with an equal key keeps its place and takes the
/// new value; otherwise the pair is appended last.
#[verifier::external_body]
fn entries_insert(map: &mut IndexMap<u64, (u64, u64)>, key: u64, value: (u64, u64))
    ensures
        (exists|i: int| 0 <= i < cache_entries(*old(map)).len() && cache_entries(*old(map))[i].0 == key)
            ==> (exists|i: int|
            0 <= i < cache_entries(*old(map)).len() && cache_entries(*old(map))[i].0 == key
                && cache_entries(*final(map)) == cache_entries(*old(map)).update(
                i,
                (key, value.0, value.1),
            )),
        (forall|i: int| 0 <= i < cache_entries(*old(map)).len() ==> cache_entries(*old(map))[i].0 != key)
            ==> cache_entries(*final(map)) == cache_entries(*old(map)).push((key, value.0, value.1)),
{
    map.insert(key, value);
}

/// `IndexMap::retain` with a predicate that keeps the entries that are still
/// fresh at `now`: the kept entries stay in their order.
#[verifier::external_body]
fn entries_retain_fresh(map: &mut IndexMap<u64, (u64, u64)>, ttl: u64, now: u64)
    ensures
        cache_entries(*final(map)) == cache_entries(*old(map)).filter(
            |e: (u64, u64, u64)| is_fresh(e.1, ttl, now),
        ),
{
    map.retain(|_key, entry| entry_is_fresh(entry.0, ttl, now));
}

/// `IndexMap::reverse`: the entries in reverse order.
#[verifier::external_body]
fn entries_reverse(map: &mut IndexMap<u64, (u64, u64)>)
    ensures
        cache_entries(*final(map)) == cache_entries(*old(map)).reverse(),
{
    map.reverse();
}

/// `IndexMap::truncate`: keeps the first `len` entries, or all of them when
/// there are fewer.
#[verifier::external_body]
fn entries_truncate(map: &mut IndexMap<u64, (u64, u64)>, len: usize)
    ensures
        cache_entries(*final(map)) == (if len < cache_entries(*old(map)).len() {
            cache_entries(*old(map)).take(len as int)
        } else {
            cache_entries(*old(map))
        }),
{
    map.truncate(len);
}

/// An entry recorded at `timestamp` is fresh at `now` while
/// `timestamp + ttl > now`.
pub open spec fn is_fresh(timestamp: u64, ttl: u64, now: u64) -> bool {
    timestamp + ttl > now
}

/// Decides `timestamp + ttl > now` without overflow.
pub fn entry_is_fresh(timestamp: u64, ttl: u64, now: u64) -> (fresh: bool)
    ensures
        fresh == is_fresh(timestamp, ttl, now),
{
    timestamp > now || now - timestamp < ttl
}

/// The bit pattern `bits` is that of a floating-point NaN: all exponent bits
/// set and a nonzero fraction.
pub open spec fn is_nan_bits(bits: u64) -> bool {
    bits & 0x7ff0_0000_0000_0000u64 == 0x7ff0_0000_0000_0000u64 && bits & 0x000f_ffff_ffff_ffffu64
        != 0
}

/// The bit pattern `bits` is that of `0.0` or `-0.0`.
pub open spec fn is_zero_bits(bits: u64) -> bool {
    bits & 0x7fff_ffff_ffff_ffffu64 == 0
}

/// `==` of the floating-point numbers with bit patterns `a` and `b`: a NaN
/// equals nothing, not even itself; `0.0` equals `-0.0`; other numbers are
/// equal when their patterns are.
pub open spec fn float_eq(a: u64, b: u64) -> bool {
    &&& !is_nan_bits(a)
    &&& !is_nan_bits(b)
    &&& (a == b || (is_zero_bits(a) && is_zero_bits(b)))
}

/// Compares two floating-point numbers given by their bit patterns.
pub fn float_bits_eq(a: u64, b: u64) -> (eq: bool)
    ensures
        eq == float_eq(a, b),
{
    let nan_a = a & 0x7ff0_0000_0000_0000u64 == 0x7ff0_0000_0000_0000u64 && a
        & 0x000f_ffff_ffff_ffffu64 != 0;
    let nan_b = b & 0x7ff0_0000_0000_0000u64 == 0x7ff0_0000_0000_0000u64 && b
        & 0x000f_ffff_ffff_ffffu64 != 0;
    let zeros = a & 0x7fff_ffff_ffff_ffffu64 == 0 && b & 0x7fff_ffff_ffff_ffffu64 == 0;
    !nan_a && !nan_b && (a == b || zeros)
}

/// A metric as the cache sees it: when it was taken, the hash of its header
/// and its floating-point value, given by its bit pattern, with whatever the
/// caller carries along in `payload`.
#[derive(Clone, Copy, Debug, PartialEq, Eq)]
pub struct Metric<P = ()> {
    pub timestamp: u64,
    pub header_hash: u64,
    pub value: u64,
    pub payload: P,
}

impl Metric<()> {
    pub fn new(timestamp: u64, header_hash: u64, value: u64) -> (metric: Metric<()>)
        ensures
            metric == (Metric { timestamp, header_hash, value, payload: () }),
    {
        Metric { timestamp, header_hash, value, payload: () }
    }
}

impl<P> Metric<P> {
    pub fn with_payload(timestamp: u64, header_hash: u64, value: u64, payload: P) -> (metric: Metric<P>)
        ensures
            metric == (Metric { timestamp, header_hash, value, payload }),
    {
        Metric { timestamp, header_hash, value, payload }
    }
}

/// No two entries share a key.
pub open spec fn keys_unique(s: Seq<(u64, u64, u64)>) -> bool {
    forall|i: int, j: int| 0 <= i < s.len() && 0 <= j < s.len() && i != j ==> s[i].0 != s[j].0
}

pub open spec fn has_key(s: Seq<(u64, u64, u64)>, key: u64) -> bool {
    exists|i: int| 0 <= i < s.len() && s[i].0 == key
}

pub open spec fn key_index(s: Seq<(u64, u64, u64)>, key: u64) -> int {
    choose|i: int| 0 <= i < s.len() && s[i].0 == key
}

/// The `(timestamp, value)` stored under `key`, if any.
pub open spec fn stored(s: Seq<(u64, u64, u64)>, key: u64) -> Option<(u64, u64)> {
    if has_key(s, key) {
        let i = key_index(s, key);
        Some((s[i].1, s[i].2))
    } else {
        None
    }
}

/// What the cache stores for a header after seeing `m`: the metric itself when
/// the header is new, its value changed or the stored entry expired; the
/// stored entry otherwise.
pub open spec fn refreshed<P>(prev: Option<(u64, u64)>, m: Metric<P>, ttl: u64) -> (u64, u64) {
    match prev {
        Some(p) => if !float_eq(p.1, m.value) || p.0 + ttl < m.timestamp {
            (m.timestamp, m.value)
        } else {
            p
        },
        None => (m.timestamp, m.value),
    }
}

/// The entries after `m` was handled.
pub open spec fn after_handle<P>(s: Seq<(u64, u64, u64)>, m: Metric<P>, ttl: u64) -> Seq<(u64, u64, u64)> {
    let e = refreshed(stored(s, m.header_hash), m, ttl);
    if has_key(s, m.header_hash) {
        s.update(key_index(s, m.header_hash), (m.header_hash, e.0, e.1))
    } else {
        s.push((m.header_hash, e.0, e.1))
    }
}

/// `m` is held back: its value is NaN, or it repeats the stored value of its
/// header, stored earlier and no more than `ttl` seconds before it.
pub open spec fn is_duplicate<P>(s: Seq<(u64, u64, u64)>, m: Metric<P>, ttl: u64) -> bool {
    ||| is_nan_bits(m.value)
    ||| match stored(s, m.header_hash) {
        Some(p) => float_eq(p.1, m.value) && p.0 < m.timestamp && m.timestamp <= p.0 + ttl,
        None => false,
    }
}

/// The entries, and the metrics let through, after handling `items` in order.
pub open spec fn handle_all<P>(s: Seq<(u64, u64, u64)>, items: Seq<Metric<P>>, ttl: u64) -> (
    Seq<(u64, u64, u64)>,
    Seq<Metric<P>>,
)
    decreases items.len(),
{
    if items.len() == 0 {
        (s, Seq::empty())
    } else {
        let (s1, passed) = handle_all(s, items.drop_last(), ttl);
        let m = items.last();
        let s2 = after_handle(s1, m, ttl);
        if is_duplicate(s1, m, ttl) {
            (s2, passed)
        } else {
            (s2, passed.push(m))
        }
    }
}

/// The entries after a vacuum at `now` by a cache of capacity `cap`: nothing
/// changes within capacity; otherwise the stale entries go, and if still over
/// capacity only the last `cap` entries stay.
pub open spec fn after_vacuum(s: Seq<(u64, u64, u64)>, cap: nat, ttl: u64, now: u64) -> Seq<
    (u64, u64, u64),
> {
    if s.len() <= cap {
        s
    } else {
        let f = s.filter(|e: (u64, u64, u64)| is_fresh(e.1, ttl, now));
        if f.len() <= cap {
            f
        } else {
            f.subrange(f.len() - cap, f.len() as int)
        }
    }
}

proof fn lemma_key_index(s: Seq<(u64, u64, u64)>, key: u64, i: int)
    requires
        keys_unique(s),
        0 <= i < s.len(),
        s[i].0 == key,
    ensures
        has_key(s, key),
        key_index(s, key) == i,
        stored(s, key) == Some((s[i].1, s[i].2)),
{
    assert(has_key(s, key));
    let j = key_index(s, key);
    assert(0 <= j < s.len() && s[j].0 == key);
}

proof fn lemma_after_handle_unique<P>(s: Seq<(u64, u64, u64)>, m: Metric<P>, ttl: u64)
    requires
        keys_unique(s),
    ensures
        keys_unique(after_handle(s, m, ttl)),
        has_key(after_handle(s, m, ttl), m.header_hash),
        stored(after_handle(s, m, ttl), m.header_hash) == Some(
            refreshed(stored(s, m.header_hash), m, ttl),
        ),
{
    let t = after_handle(s, m, ttl);
    let e = refreshed(stored(s, m.header_hash), m, ttl);
    if has_key(s, m.header_hash) {
        let k = key_index(s, m.header_hash);
        assert(0 <= k < s.len() && s[k].0 == m.header_hash);
        assert(t.len() == s.len());
        assert forall|i: int, j: int| 0 <= i < t.len() && 0 <= j < t.len() && i != j implies t[i].0
            != t[j].0 by {
            assert(t[i].0 == s[i].0);
            assert(t[j].0 == s[j].0);
        }
        lemma_key_index(t, m.header_hash, k);
    } else {
        assert forall|i: int, j: int| 0 <= i < t.len() && 0 <= j < t.len() && i != j implies t[i].0
            != t[j].0 by {
            if i < s.len() && j < s.len() {
            } else if i == s.len() {
                assert(s[j].0 != m.header_hash);
            } else {
                assert(s[i].0 != m.header_hash);
            }
        }
        lemma_key_index(t, m.header_hash, s.len() as int);
    }
}

proof fn lemma_filter_unique(s: Seq<(u64, u64, u64)>, ttl: u64, now: u64)
    requires
        keys_unique(s),
    ensures
        keys_unique(s.filter(|e: (u64, u64, u64)| is_fresh(e.1, ttl, now))),
        forall|x: (u64, u64, u64)|
            s.filter(|e: (u64, u64, u64)| is_fresh(e.1, ttl, now)).contains(x) ==> s.contains(x),
    decreases s.len(),
{
    let p = |e: (u64, u64, u64)| is_fresh(e.1, ttl, now);
    reveal(Seq::filter);
    if s.len() > 0 {
        let d = s.drop_last();
        assert(keys_unique(d)) by {
            assert forall|i: int, j: int|
                0 <= i < d.len() && 0 <= j < d.len() && i != j implies d[i].0 != d[j].0 by {
                assert(d[i] == s[i] && d[j] == s[j]);
            }
        }
        lemma_filter_unique(d, ttl, now);
        let fd = d.filter(p);
        assert forall|x: (u64, u64, u64)| fd.contains(x) implies x.0 != s.last().0 by {
            assert(d.contains(x));
            let i = choose|i: int| 0 <= i < d.len() && d[i] == x;
            assert(s[i] == x);
        }
        if p(s.last()) {
            let f = fd.push(s.last());
            assert forall|i: int, j: int|
                0 <= i < f.len() && 0 <= j < f.len() && i != j implies f[i].0 != f[j].0 by {
                if i < fd.len() && j < fd.len() {
                } else if i == fd.len() {
                    assert(fd.contains(fd[j]));
                } else {
                    assert(fd.contains(fd[i]));
                }
            }
            assert forall|x: (u64, u64, u64)| f.contains(x) implies s.contains(x) by {
                let i = choose|i: int| 0 <= i < f.len() && f[i] == x;
                if i < fd.len() {
                    assert(fd[i] == x);
                    assert(fd.contains(x));
                    assert(d.contains(x));
                    let k = choose|k: int| 0 <= k < d.len() && d[k] == x;
                    assert(s[k] == x);
                } else {
                    assert(x == s.last());
                    assert(s[s.len() - 1] == x);
                }
            }
        } else {
            assert forall|x: (u64, u64, u64)| fd.contains(x) implies s.contains(x) by {
                assert(d.contains(x));
                let k = choose|k: int| 0 <= k < d.len() && d[k] == x;
                assert(s[k] == x);
            }
        }
    }
}

proof fn lemma_reverse_take_reverse(s: Seq<(u64, u64, u64)>, n: int)
    requires
        0 <= n <= s.len(),
    ensures
        s.reverse().take(n).reverse() =~= s.subrange(s.len() - n, s.len() as int),
{
    let r = s.reverse();
    assert(r.len() == s.len());
    let t = r.take(n);
    let u = t.reverse();
    if n > 0 {
        assert forall|i: int| 0 <= i < n implies u[i] == s[s.len() - n + i] by {
            assert(u[i] == t[n - 1 - i]);
            assert(t[n - 1 - i] == r[n - 1 - i]);
            assert(r[n - 1 - i] == s[s.len() - 1 - (n - 1 - i)]);
        }
    }
}

/// A NaN value never passes. Any other metric is held back only when it
/// repeats the stored value of its header inside the time to live: a header
/// seen for the first time, a changed value, an expired entry, or a metric not
/// newer than the stored one passes.
pub proof fn law_what_passes<P>(s: Seq<(u64, u64, u64)>, m: Metric<P>, ttl: u64)
    ensures
        is_nan_bits(m.value) ==> is_duplicate(s, m, ttl),
        !is_nan_bits(m.value) && !has_key(s, m.header_hash) ==> !is_duplicate(s, m, ttl),
        !is_nan_bits(m.value) ==> (stored(s, m.header_hash) matches Some(p) && !float_eq(
            p.1,
            m.value,
        ) ==> !is_duplicate(s, m, ttl)),
        !is_nan_bits(m.value) ==> (stored(s, m.header_hash) matches Some(p) && p.0 + ttl
            < m.timestamp ==> !is_duplicate(s, m, ttl)),
        !is_nan_bits(m.value) ==> (stored(s, m.header_hash) matches Some(p) && m.timestamp <= p.0
            ==> !is_duplicate(s, m, ttl)),
{
}

/// After a metric is handled, the cache holds an entry for its header: the
/// metric's own timestamp and value, unless it was held back or is older than
/// what was stored, in which case the stored entry stays.
pub proof fn law_handle_remembers<P>(s: Seq<(u64, u64, u64)>, m: Metric<P>, ttl: u64)
    requires
        keys_unique(s),
    ensures
        keys_unique(after_handle(s, m, ttl)),
        stored(after_handle(s, m, ttl), m.header_hash) == Some(
            refreshed(stored(s, m.header_hash), m, ttl),
        ),
        !is_duplicate(s, m, ttl) && (stored(s, m.header_hash) matches Some(p) ==> p.0 < m.timestamp
            || !float_eq(p.1, m.value)) ==> stored(after_handle(s, m, ttl), m.header_hash) == Some(
            (m.timestamp, m.value),
        ),
{
    lemma_after_handle_unique(s, m, ttl);
}

/// Handling a metric leaves the entries of every other header as they were.
pub proof fn law_handle_isolates_headers<P>(s: Seq<(u64, u64, u64)>, m: Metric<P>, ttl: u64, key: u64)
    requires
        keys_unique(s),
        key != m.header_hash,
    ensures
        stored(after_handle(s, m, ttl), key) == stored(s, key),
{
    let t = after_handle(s, m, ttl);
    lemma_after_handle_unique(s, m, ttl);
    if has_key(s, key) {
        let i = key_index(s, key);
        assert(0 <= i < s.len() && s[i].0 == key);
        assert(t[i] == s[i]);
        lemma_key_index(t, key, i);
        lemma_key_index(s, key, i);
    } else {
        assert forall|i: int| 0 <= i < t.len() implies t[i].0 != key by {
            if i < s.len() {
                assert(t[i].0 == s[i].0);
            }
        }
    }
}

/// Handling the same metric twice in a row: the second time gives the same
/// answer as the first and changes nothing.
pub proof fn law_handle_idempotent<P>(s: Seq<(u64, u64, u64)>, m: Metric<P>, ttl: u64)
    requires
        keys_unique(s),
    ensures
        after_handle(after_handle(s, m, ttl), m, ttl) == after_handle(s, m, ttl),
        is_duplicate(after_handle(s, m, ttl), m, ttl) == is_duplicate(s, m, ttl),
{
    let t = after_handle(s, m, ttl);
    lemma_after_handle_unique(s, m, ttl);
    let k = key_index(t, m.header_hash);
    assert(0 <= k < t.len() && t[k].0 == m.header_hash);
    assert(t.update(k, t[k]) =~= t);
}

/// The stored entry of a header changes only when the metric's value differs
/// from it or the entry has expired, and then it becomes the metric's own
/// timestamp and value. In particular a metric not newer than the stored
/// entry, with an equal value, leaves that entry as it was.
pub proof fn law_entry_changes_only_on_new_value_or_expiry<P>(
    s: Seq<(u64, u64, u64)>,
    m: Metric<P>,
    ttl: u64,
)
    requires
        keys_unique(s),
    ensures
        stored(s, m.header_hash) matches Some(p) ==> {
            ||| stored(after_handle(s, m, ttl), m.header_hash) == Some(p)
            ||| stored(after_handle(s, m, ttl), m.header_hash) == Some((m.timestamp, m.value)) && (
            !float_eq(p.1, m.value) || p.0 + ttl < m.timestamp)
        },
        stored(s, m.header_hash) matches Some(p) ==> (float_eq(p.1, m.value) && m.timestamp <= p.0
            ==> stored(after_handle(s, m, ttl), m.header_hash) == Some(p)),
        stored(s, m.header_hash) is None ==> stored(after_handle(s, m, ttl), m.header_hash) == Some(
            (m.timestamp, m.value),
        ),
{
    lemma_after_handle_unique(s, m, ttl);
}

/// Over capacity, a vacuum keeps as many of the entries fresh at `now` as the
/// capacity allows, the most recently inserted ones, in their order: all of
/// them when they fit.
pub proof fn law_vacuum_keeps_recent_fresh(s: Seq<(u64, u64, u64)>, cap: nat, ttl: u64, now: u64)
    requires
        s.len() > cap,
    ensures
        ({
            let f = s.filter(|e: (u64, u64, u64)| is_fresh(e.1, ttl, now));
            let v = after_vacuum(s, cap, ttl, now);
            &&& f.len() <= cap ==> v == f
            &&& v.len() == (if f.len() <= cap { f.len() } else { cap })
            &&& v == f.subrange(f.len() - v.len(), f.len() as int)
        }),
{
    let f = s.filter(|e: (u64, u64, u64)| is_fresh(e.1, ttl, now));
    if f.len() <= cap {
        assert(f.subrange(0, f.len() as int) =~= f);
    }
}

/// A vacuum changes nothing within capacity; over capacity it leaves at most
/// `cap` entries, all taken from the cache, all fresh at `now`, with no header
/// twice.
pub proof fn law_vacuum_bounded(s: Seq<(u64, u64, u64)>, cap: nat, ttl: u64, now: u64)
    requires
        keys_unique(s),
    ensures
        s.len() <= cap ==> after_vacuum(s, cap, ttl, now) == s,
        s.len() > cap ==> after_vacuum(s, cap, ttl, now).len() <= cap,
        s.len() > cap ==> forall|i: int|
            0 <= i < after_vacuum(s, cap, ttl, now).len() ==> is_fresh(
                #[trigger] after_vacuum(s, cap, ttl, now)[i].1,
                ttl,
                now,
            ),
        forall|x: (u64, u64, u64)| after_vacuum(s, cap, ttl, now).contains(x) ==> s.contains(x),
        keys_unique(after_vacuum(s, cap, ttl, now)),
{
    let p = |e: (u64, u64, u64)| is_fresh(e.1, ttl, now);
    if s.len() > cap {
        let f = s.filter(p);
        lemma_filter_unique(s, ttl, now);
        s.lemma_filter_len(p);
        let v = after_vacuum(s, cap, ttl, now);
        if f.len() > cap {
            assert forall|i: int| 0 <= i < v.len() implies v[i] == f[f.len() - cap + i] by {}
        }
        assert forall|i: int| 0 <= i < v.len() implies is_fresh(#[trigger] v[i].1, ttl, now) by {
            if f.len() > cap {
                s.lemma_filter_pred(p, f.len() - cap + i);
            } else {
                s.lemma_filter_pred(p, i);
            }
        }
        assert forall|x: (u64, u64, u64)| v.contains(x) implies s.contains(x) by {
            let i = choose|i: int| 0 <= i < v.len() && v[i] == x;
            if f.len() > cap {
                assert(f[f.len() - cap + i] == x);
            } else {
                assert(f[i] == x);
            }
            assert(f.contains(x));
        }
        assert forall|i: int, j: int|
            0 <= i < v.len() && 0 <= j < v.len() && i != j implies v[i].0 != v[j].0 by {
            if f.len() > cap {
                assert(v[i] == f[f.len() - cap + i]);
                assert(v[j] == f[f.len() - cap + j]);
            }
        }
    }
}

/// A cache of the last metric let through per header, with a time to live for
/// repeated values and a capacity that `vacuum` enforces.
pub struct Cache {
    inner: IndexMap<u64, (u64, u64)>,
    max_capacity: usize,
    ttl: u64,
}

impl Cache {
    #[verifier::type_invariant]
    spec fn inv(self) -> bool {
        keys_unique(cache_entries(self.inner))
    }

    /// The entries `(header_hash, timestamp, value)` in insertion order.
    pub closed spec fn entries(self) -> Seq<(u64, u64, u64)> {
        cache_entries(self.inner)
    }

    pub closed spec fn capacity(self) -> nat {
        self.max_capacity as nat
    }

    pub closed spec fn time_to_live(self) -> u64 {
        self.ttl
    }

    pub fn new(max_capacity: usize, ttl: u64) -> (cache: Cache)
        ensures
            cache.entries() == Seq::<(u64, u64, u64)>::empty(),
            cache.capacity() == max_capacity,
            cache.time_to_live() == ttl,
    {
        Cache { inner: entries_new(), max_capacity, ttl }
    }

    /// The number of headers the cache remembers.
    pub fn len(&self) -> (n: usize)
        ensures
            n == self.entries().len(),
    {
        entries_len(&self.inner)
    }

    /// Records `metric` and lets it through unless it repeats the value stored
    /// for its header, stored earlier and no more than `ttl` seconds before.
    pub fn handle<P>(&mut self, metric: Metric<P>) -> (passed: Option<Metric<P>>)
        ensures
            final(self).entries() == after_handle(old(self).entries(), metric, old(self).time_to_live()),
            final(self).capacity() == old(self).capacity(),
            final(self).time_to_live() == old(self).time_to_live(),
            passed == (if is_duplicate(old(self).entries(), metric, old(self).time_to_live()) {
                None
            } else {
                Some(metric)
            }),
    {
        proof {
            use_type_invariant(&*self);
        }
        let ghost s = cache_entries(self.inner);
        let hash = metric.header_hash;
        let found = entries_get(&self.inner, hash);
        let entry = match found {
            Some(previous) => {
                proof {
                    let i = choose|i: int|
                        0 <= i < s.len() && s[i] == (hash, previous.0, previous.1);
                    lemma_key_index(s, hash, i);
                }
                if !float_bits_eq(previous.1, metric.value) || !entry_is_fresh_or_due(
                    previous.0,
                    self.ttl,
                    metric.timestamp,
                ) {
                    let next = (metric.timestamp, metric.value);
                    let mut inner = entries_new();
                    std::mem::swap(&mut inner, &mut self.inner);
                    entries_insert(&mut inner, hash, next);
                    proof {
                        let i = key_index(s, hash);
                        assert(cache_entries(inner) == s.update(i, (hash, next.0, next.1))) by {
                            let j = choose|j: int|
                                0 <= j < s.len() && s[j].0 == hash && cache_entries(inner)
                                    == s.update(j, (hash, next.0, next.1));
                            lemma_key_index(s, hash, j);
                        }
                        lemma_after_handle_unique(s, metric, self.ttl);
                    }
                    self.inner = inner;
                    next
                } else {
                    proof {
                        let i = key_index(s, hash);
                        assert(s.update(i, (hash, previous.0, previous.1)) =~= s);
                    }
                    previous
                }
            },
            None => {
                let next = (metric.timestamp, metric.value);
                let mut inner = entries_new();
                std::mem::swap(&mut inner, &mut self.inner);
                entries_insert(&mut inner, hash, next);
                proof {
                    lemma_after_handle_unique(s, metric, self.ttl);
                }
                self.inner = inner;
                next
            },
        };
        if entry.0 > metric.timestamp || (entry.0 == metric.timestamp && float_bits_eq(
            entry.1,
            metric.value,
        )) {
            Some(metric)
        } else {
            None
        }
    }

    /// Handles each metric in order and returns those let through, in order.
    pub fn handle_iter<P>(&mut self, items: Vec<Metric<P>>) -> (passed: Vec<Metric<P>>)
        ensures
            (final(self).entries(), passed@) == handle_all(
                old(self).entries(),
                items@,
                old(self).time_to_live(),
            ),
            final(self).capacity() == old(self).capacity(),
            final(self).time_to_live() == old(self).time_to_live(),
    {
        let mut passed: Vec<Metric<P>> = Vec::new();
        let ghost all = items@;
        for item in it: items
            invariant
                it.seq() == all,
                (self.entries(), passed@) == handle_all(
                    old(self).entries(),
                    all.take(it.index()),
                    old(self).time_to_live(),
                ),
                self.capacity() == old(self).capacity(),
                self.time_to_live() == old(self).time_to_live(),
        {
            assert(all.take(it.index() + 1).drop_last() =~= all.take(it.index()));
            if let Some(item) = self.handle(item) {
                passed.push(item);
            }
        }
        assert(all.take(all.len() as int) =~= all);
        passed
    }

    /// When the cache holds more headers than its capacity, forgets the entries
    /// that are stale at `now`; if it is still over capacity, keeps only the
    /// most recently inserted entries, as many as the capacity.
    pub fn vacuum(&mut self, now: u64)
        ensures
            final(self).entries() == after_vacuum(
                old(self).entries(),
                old(self).capacity(),
                old(self).time_to_live(),
                now,
            ),
            final(self).capacity() == old(self).capacity(),
            final(self).time_to_live() == old(self).time_to_live(),
    {
        proof {
            use_type_invariant(&*self);
        }
        let ghost s = cache_entries(self.inner);
        let ghost p = |e: (u64, u64, u64)| is_fresh(e.1, self.ttl, now);
        if entries_len(&self.inner) > self.max_capacity {
            let mut inner = entries_new();
            std::mem::swap(&mut inner, &mut self.inner);
            entries_retain_fresh(&mut inner, self.ttl, now);
            proof {
                lemma_filter_unique(s, self.ttl, now);
                assert(cache_entries(inner) == s.filter(p));
            }
            if entries_len(&inner) > self.max_capacity {
                let ghost f = cache_entries(inner);
                entries_reverse(&mut inner);
                entries_truncate(&mut inner, self.max_capacity);
                entries_reverse(&mut inner);
                proof {
                    lemma_reverse_take_reverse(f, self.max_capacity as int);
                    let r = f.subrange(f.len() - self.max_capacity, f.len() as int);
                    assert(cache_entries(inner) == r);
                    assert forall|i: int, j: int|
                        0 <= i < r.len() && 0 <= j < r.len() && i != j implies r[i].0 != r[j].0 by {
                        assert(r[i] == f[f.len() - self.max_capacity + i]);
                        assert(r[j] == f[f.len() - self.max_capacity + j]);
                    }
                }
            }
            self.inner = inner;
        }
    }
}

/// Decides `timestamp + ttl >= now`, the window within which a repeated value
/// is held back, without overflow.
fn entry_is_fresh_or_due(timestamp: u64, ttl: u64, now: u64) -> (within: bool)
    ensures
        within == (timestamp + ttl >= now),
{
    timestamp >= now || now - timestamp <= ttl
}

} // verus!
