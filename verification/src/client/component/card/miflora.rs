//! Miflora cards: when the shown values were last taken.
use vstd::prelude::*;

verus! {

/// The style attribute of a card picture: the image at `url` as background.
pub fn image_style(url: &str) -> (style: String)
    ensures
        style@ == "background-image: url("@ + url@ + ")"@,
{
    let style = String::from_str("background-image: url(");
    let style = style.concat(url);
    style.concat(")")
}

/// The latest of the timestamps that are present.
pub open spec fn latest(s: Seq<Option<u64>>) -> Option<u64>
    decreases s.len(),
{
    if s.len() == 0 {
        None
    } else {
        match (latest(s.drop_last()), s.last()) {
            (Some(a), Some(b)) => Some(if a >= b { a } else { b }),
            (Some(a), None) => Some(a),
            (None, b) => b,
        }
    }
}

/// The latest timestamp among the card's values (temperature, brightness,
/// moisture, conductivity, battery), if any value is present.
pub fn last_timestamp(timestamps: &Vec<Option<u64>>) -> (last: Option<u64>)
    ensures
        last == latest(timestamps@),
{
    let mut last: Option<u64> = None;
    let mut i: usize = 0;
    while i < timestamps.len()
        invariant
            0 <= i <= timestamps.len(),
            last == latest(timestamps@.take(i as int)),
        decreases timestamps.len() - i,
    {
        assert(timestamps@.take(i + 1).drop_last() =~= timestamps@.take(i as int));
        let value = timestamps[i];
        last = match (last, value) {
            (Some(a), Some(b)) => Some(if a >= b { a } else { b }),
            (Some(a), None) => Some(a),
            (None, b) => b,
        };
        i = i + 1;
    }
    assert(timestamps@.take(timestamps.len() as int) =~= timestamps@);
    last
}

/// The latest timestamp is present exactly when some timestamp is, and it is
/// one of them and no smaller than any.
pub proof fn law_latest_is_maximum(s: Seq<Option<u64>>)
    ensures
        latest(s) is None <==> forall|i: int| 0 <= i < s.len() ==> s[i] is None,
        latest(s) matches Some(m) ==> s.contains(Some(m)) && forall|i: int|
            0 <= i < s.len() && s[i] is Some ==> #[trigger] s[i]->0 <= m,
    decreases s.len(),
{
    if s.len() > 0 {
        let d = s.drop_last();
        law_latest_is_maximum(d);
        assert forall|i: int| 0 <= i < d.len() implies d[i] == s[i] by {}
        if latest(d) is Some && s.last() is None {
            let m = latest(d)->0;
            let k = choose|k: int| 0 <= k < d.len() && d[k] == Some(m);
            assert(s[k] == Some(m));
        }
        if latest(d) is Some && s.last() is Some {
            let a = latest(d)->0;
            let b = s.last()->0;
            if a >= b {
                let k = choose|k: int| 0 <= k < d.len() && d[k] == Some(a);
                assert(s[k] == Some(a));
            } else {
                assert(s[s.len() - 1] == Some(b));
            }
        }
        if latest(d) is None && s.last() is Some {
            assert(s[s.len() - 1] == s.last());
        }
        if latest(d) is None && s.last() is None {
            assert forall|i: int| 0 <= i < s.len() implies s[i] is None by {
                if i < d.len() {
                    assert(s[i] == d[i]);
                }
            }
        }
    }
}

} // verus!
