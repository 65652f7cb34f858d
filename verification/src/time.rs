//! RFC 2822 dates. The parsing and formatting themselves are done by chrono;
//! the library speaks of instants as UTC Unix timestamps in seconds.
use vstd::prelude::*;

verus! {

/// The UTC timestamp an RFC 2822 date string parses to, or `None` where the
/// string is not one. The result depends on the characters alone.
pub uninterp spec fn rfc2822_timestamp(s: Seq<char>) -> Option<i64>;

/// The RFC 2822 rendering of a UTC timestamp. The result depends on the
/// timestamp alone.
pub uninterp spec fn rfc2822_string(ts: i64) -> Seq<char>;

/// The last second of year 9999, the latest instant RFC 2822 can render with
/// its four-digit year.
pub const MAX_FORMAT_TS: i64 = 253402300799;

/// Relies on chrono's `DateTime::parse_from_rfc2822` and `timestamp`: parsing
/// depends on the characters alone, and a parse failure yields `None`.
#[verifier::external_body]
pub fn parse_if_mod_by(date_str: &str) -> (r: Option<i64>)
    ensures
        r == rfc2822_timestamp(date_str@),
{
    match chrono::DateTime::parse_from_rfc2822(date_str) {
        Ok(dt) => Some(dt.timestamp()),
        Err(_) => None,
    }
}

/// Relies on chrono's `DateTime::from_timestamp` and `to_rfc2822`: formatting
/// depends on the timestamp alone, and every timestamp from 1970 through year
/// 9999 is representable.
#[verifier::external_body]
pub fn to_rfc2822(ts: i64) -> (r: String)
    requires
        0 <= ts <= MAX_FORMAT_TS,
    ensures
        r@ == rfc2822_string(ts),
{
    match chrono::DateTime::from_timestamp(ts, 0) {
        Some(dt) => dt.to_rfc2822(),
        None => String::new(),
    }
}

/// Relies on chrono's `Utc::now`: nothing is promised of the clock.
#[verifier::external_body]
pub fn now_timestamp() -> (r: i64) {
    chrono::Utc::now().timestamp()
}

/// The current instant rendered as an RFC 2822 date, clamped into the range
/// the format can carry.
pub fn current_date_string() -> (r: String)
    ensures
        exists|t: i64| #![auto] 0 <= t <= MAX_FORMAT_TS && r@ == rfc2822_string(t),
{
    let now = now_timestamp();
    let clamped: i64 = if now < 0 {
        0
    } else if now > MAX_FORMAT_TS {
        MAX_FORMAT_TS
    } else {
        now
    };
    let s = to_rfc2822(clamped);
    proof {
        assert(0 <= clamped <= MAX_FORMAT_TS && s@ == rfc2822_string(clamped));
    }
    s
}

} // verus!
