//! Helpers of the components: class name pairs and date formatting.
use vstd::prelude::*;

verus! {

/// The date format of the cards: year, month, day, hours and minutes.
pub const DATETIME_FMT: &'static str = "%Y/%m/%d %H:%M";

/// The UTC date and time `secs` seconds after the Unix epoch, written with the
/// strftime-like `format`, or nothing when chrono cannot represent it.
pub uninterp spec fn utc_datetime_text(secs: i64, format: Seq<char>) -> Option<Seq<char>>;

/// `chrono::DateTime::from_timestamp(secs, 0)`, then `format(format)` of the
/// date it gives, written out. Writing out a format with an invalid item
/// panics, so only the cards' format, whose items are all valid, is taken.
#[verifier::external_body]
fn utc_datetime(secs: i64, format: &str) -> (text: Option<String>)
    requires
        format@ == "%Y/%m/%d %H:%M"@,
    ensures
        text is Some == utc_datetime_text(secs, format@) is Some,
        text matches Some(t) ==> utc_datetime_text(secs, format@) == Some(t@),
{
    chrono::DateTime::from_timestamp(secs, 0).map(|ts| ts.format(format).to_string())
}

/// The date and time of a Unix timestamp in the cards' format, as chrono
/// writes it for the timestamp taken as a signed 64-bit number.
pub fn format_datetime(timestamp: u64) -> (text: Option<String>)
    ensures
        text is Some == utc_datetime_text(timestamp as i64, "%Y/%m/%d %H:%M"@) is Some,
        text matches Some(t) ==> utc_datetime_text(timestamp as i64, "%Y/%m/%d %H:%M"@) == Some(
            t@,
        ),
{
    utc_datetime(timestamp as i64, "%Y/%m/%d %H:%M")
}

/// Two class names, the second optional.
pub struct Classnames<A, B> {
    pub first: A,
    pub second: Option<B>,
}

impl<A, B> From<(A, Option<B>)> for Classnames<A, B> {
    fn from(pair: (A, Option<B>)) -> (names: Self)
        ensures
            names.first == pair.0,
            names.second == pair.1,
    {
        let (first, second) = pair;
        Classnames { first, second }
    }
}

impl<A, B> vstd::std_specs::convert::FromSpecImpl<(A, Option<B>)> for Classnames<A, B> {
    open spec fn obeys_from_spec() -> bool {
        true
    }

    open spec fn from_spec(pair: (A, Option<B>)) -> Self {
        Classnames { first: pair.0, second: pair.1 }
    }
}

} // verus!
