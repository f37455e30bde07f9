//! Timestamps. The engine stores instants as unix-epoch milliseconds; the
//! outside date library supplies the parser for the feed's timestamp strings
//! and the current time for the "no prior data" sentinel.

use vstd::prelude::*;

use crate::model::HighwaterMark;

verus! {

/// The instant, in unix-epoch milliseconds, that a relaxed RFC 3339 string
/// denotes, or `None` where the string does not parse. The result depends on
/// the characters of the string alone.
pub uninterp spec fn rfc3339_millis(s: Seq<char>) -> Option<i64>;

/// Relies on chrono's `FromStr for DateTime<Utc>` (a relaxed RFC 3339 parser,
/// deterministic in its input) and on `DateTime::timestamp_millis`.
#[verifier::external_body]
pub(crate) fn parse_timestamp_millis(s: &str) -> (r: Option<i64>)
    ensures
        r == rfc3339_millis(s@),
{
    s.parse::<chrono::DateTime<chrono::Utc>>().ok().map(|dt| dt.timestamp_millis())
}

/// Relies on chrono's `Utc::now` and `DateTime::timestamp_millis`. The result
/// depends on the system clock, so nothing is promised of it.
#[verifier::external_body]
fn now_millis() -> i64 {
    chrono::Utc::now().timestamp_millis()
}

/// Milliseconds in the 365-day year that the "no prior data" sentinel
/// timestamp is backdated by.
pub const MILLIS_PER_YEAR: i64 = 31_536_000_000;

/// The timestamp one year before `now`, clamped at the representable minimum.
pub open spec fn spec_year_before(now: i64) -> i64 {
    if now >= i64::MIN + MILLIS_PER_YEAR {
        (now - MILLIS_PER_YEAR) as i64
    } else {
        i64::MIN
    }
}

/// Executable counterpart of [`spec_year_before`].
pub fn year_before(now: i64) -> (r: i64)
    ensures
        r == spec_year_before(now),
{
    if now >= i64::MIN + MILLIS_PER_YEAR {
        now - MILLIS_PER_YEAR
    } else {
        i64::MIN
    }
}

impl HighwaterMark {
    /// The default past timestamp carried by the "no prior data" sentinel
    /// mark: one year before the current system time. The result follows the
    /// system clock, so no more is promised of it.
    pub fn default_datetime() -> i64 {
        let now: i64 = now_millis();
        year_before(now)
    }
}

} // verus!
