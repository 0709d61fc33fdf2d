//! Line charts: the horizontal range they span.
use std::ops::Range;
use vstd::prelude::*;

verus! {

pub open spec fn is_least(s: Seq<u64>, m: u64) -> bool {
    s.contains(m) && forall|i: int| 0 <= i < s.len() ==> m <= #[trigger] s[i]
}

pub open spec fn is_greatest(s: Seq<u64>, m: u64) -> bool {
    s.contains(m) && forall|i: int| 0 <= i < s.len() ==> #[trigger] s[i] <= m
}

/// The horizontal range of a chart: the range it was given, or else the
/// smallest to the largest timestamp of its points, or nothing when it has no
/// point.
pub fn x_range(explicit: Option<Range<u64>>, timestamps: &Vec<u64>) -> (range: Option<Range<u64>>)
    ensures
        explicit matches Some(r) ==> range == Some(r),
        explicit is None ==> (range is None <==> timestamps@.len() == 0),
        explicit is None ==> (range matches Some(r) ==> is_least(timestamps@, r.start)
            && is_greatest(timestamps@, r.end)),
{
    if let Some(value) = explicit {
        return Some(value);
    }
    if timestamps.len() == 0 {
        return None;
    }
    let mut min = timestamps[0];
    let mut max = timestamps[0];
    let mut i: usize = 1;
    assert(timestamps@.take(1)[0] == min);
    assert(timestamps@.take(1).contains(min));
    while i < timestamps.len()
        invariant
            1 <= i <= timestamps.len(),
            is_least(timestamps@.take(i as int), min),
            is_greatest(timestamps@.take(i as int), max),
        decreases timestamps.len() - i,
    {
        let value = timestamps[i];
        let ghost prev = timestamps@.take(i as int);
        let ghost next = timestamps@.take(i + 1);
        assert(next =~= prev.push(value));
        if value < min {
            min = value;
        }
        if value > max {
            max = value;
        }
        proof {
            assert(next[i as int] == value);
            assert forall|j: int| 0 <= j < next.len() implies min <= #[trigger] next[j] && next[j]
                <= max by {
                if j < i {
                    assert(next[j] == prev[j]);
                }
            }
            if min == value {
                assert(next.contains(min));
            } else {
                let k = choose|k: int| 0 <= k < prev.len() && prev[k] == min;
                assert(next[k] == min);
            }
            if max == value {
                assert(next.contains(max));
            } else {
                let k = choose|k: int| 0 <= k < prev.len() && prev[k] == max;
                assert(next[k] == max);
            }
        }
        i = i + 1;
    }
    assert(timestamps@.take(timestamps.len() as int) =~= timestamps@);
    Some(min..max)
}

} // verus!
