//! Timestamps as the relay and the agent write them: RFC 3339 text of a UTC instant,
//! formatted by the `time` crate.

use vstd::prelude::*;
use crate::wire::opt_text;

mod reading;

pub use reading::ClockReading;
use reading::utc_now_unix_nanos;

verus! {

/// One day in nanoseconds: how long a machine may stay silent before the relay forgets it.
pub const STALE_AFTER_NANOS: i128 = 86_400_000_000_000;

/// The Unix nanoseconds that `time::OffsetDateTime::unix_timestamp_nanos` can return:
/// an `i64` count of seconds times 10^9, plus a nanosecond below 10^9.
pub open spec fn nanos_in_range(n: i128) -> bool {
    -9_223_372_036_854_775_808_000_000_000 <= n <= 9_223_372_036_854_775_807_999_999_999
}

/// The RFC 3339 text that `time` gives the UTC instant `unix_nanos` nanoseconds after the
/// Unix epoch, or `None` where it gives none.
pub uninterp spec fn rfc3339_utc(unix_nanos: i128) -> Option<Seq<char>>;

/// The text that the relay and the agent record for an instant: its RFC 3339 form, or
/// `"unknown"` where there is none.
pub open spec fn time_text(unix_nanos: i128) -> Seq<char> {
    match rfc3339_utc(unix_nanos) {
        Some(s) => s,
        None => "unknown"@,
    }
}

/// The cutoff text for an eviction sweep at `now`: the RFC 3339 form of one day earlier,
/// or the empty text where there is none.
pub open spec fn cutoff_text(now: i128) -> Seq<char> {
    match rfc3339_utc((now - STALE_AFTER_NANOS) as i128) {
        Some(s) => s,
        None => Seq::empty(),
    }
}

/// Calls `time::OffsetDateTime::from_unix_timestamp_nanos` and formats the instant with
/// `time::format_description::well_known::Rfc3339`. The contract claims that the text
/// depends on `unix_nanos` alone, and names it `rfc3339_utc`; `None` stands for either
/// call's error.
#[verifier::external_body]
fn format_rfc3339_utc(unix_nanos: i128) -> (r: Option<String>)
    ensures
        opt_text(r) == rfc3339_utc(unix_nanos),
{
    match time::OffsetDateTime::from_unix_timestamp_nanos(unix_nanos) {
        Ok(t) => t.format(&time::format_description::well_known::Rfc3339).ok(),
        Err(_) => None,
    }
}

/// The RFC 3339 text of an instant, or `"unknown"` where `time` cannot format it.
pub fn rfc3339_or_unknown(unix_nanos: i128) -> (r: String)
    ensures
        r@ == time_text(unix_nanos),
{
    match format_rfc3339_utc(unix_nanos) {
        Some(s) => s,
        None => String::from_str("unknown"),
    }
}

/// The current UTC time as RFC 3339 text, or `"unknown"`: the text of the instant that
/// the call reads off the clock.
pub fn now_rfc3339() -> (r: String)
    ensures
        exists|c: ClockReading| nanos_in_range(c.unix_nanos()) && r@ == time_text(c.unix_nanos()),
        exists|t: i128| nanos_in_range(t) && r@ == time_text(t),
{
    let now = utc_now_unix_nanos();
    let r = rfc3339_or_unknown(now.nanos());
    assert(nanos_in_range(now.unix_nanos()) && r@ == time_text(now.unix_nanos()));
    r
}

/// The text an eviction sweep at `now` compares against: one day before `now`, in
/// RFC 3339, or the empty text where `time` cannot format it.
pub fn stale_cutoff(now: i128) -> (r: String)
    requires
        nanos_in_range(now),
    ensures
        r@ == cutoff_text(now),
{
    match format_rfc3339_utc(now - STALE_AFTER_NANOS) {
        Some(s) => s,
        None => String::new(),
    }
}

/// The cutoff for an eviction sweep now: one day before the instant that the call reads
/// off the clock.
pub fn stale_cutoff_now() -> (r: String)
    ensures
        exists|c: ClockReading| nanos_in_range(c.unix_nanos()) && r@ == cutoff_text(c.unix_nanos()),
        exists|t: i128| nanos_in_range(t) && r@ == cutoff_text(t),
{
    let now = utc_now_unix_nanos();
    let r = stale_cutoff(now.nanos());
    assert(nanos_in_range(now.unix_nanos()) && r@ == cutoff_text(now.unix_nanos()));
    r
}

} // verus!
