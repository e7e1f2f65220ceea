//! The clock: what the library reads of the current time, through chrono.

use vstd::prelude::*;

verus! {

/// A time stamp in the shape chrono's RFC 3339 writer gives every instant:
/// ASCII only, with at least the `YYYY-MM-DDTHH:MM:SS` part (19 characters).
pub open spec fn rfc3339_shaped(t: Seq<char>) -> bool {
    t.len() >= 19 && vstd::utf8::is_ascii_chars(t)
}

/// An ASCII decimal digit.
pub open spec fn is_digit(c: char) -> bool {
    '0' <= c && c <= '9'
}

/// A time stamp laid out as chrono writes `%Y-%m-%d_%H-%M-%S`: the year
/// (four digits or more, with a sign before years outside 0..=9999), then
/// `-MM-DD_HH-MM-SS` in two-digit fields; ASCII only, 19 characters or more.
pub open spec fn filename_stamp_layout(s: Seq<char>) -> bool {
    let n = s.len();
    &&& n >= 19
    &&& vstd::utf8::is_ascii_chars(s)
    &&& forall|i: int| 0 <= i < n - 15 ==> #[trigger] is_digit(s[i]) || (i == 0 && (s[i] == '+' || s[i] == '-'))
    &&& s[n - 15] == '-' && is_digit(s[n - 14]) && is_digit(s[n - 13])
    &&& s[n - 12] == '-' && is_digit(s[n - 11]) && is_digit(s[n - 10])
    &&& s[n - 9] == '_' && is_digit(s[n - 8]) && is_digit(s[n - 7])
    &&& s[n - 6] == '-' && is_digit(s[n - 5]) && is_digit(s[n - 4])
    &&& s[n - 3] == '-' && is_digit(s[n - 2]) && is_digit(s[n - 1])
}

/// Reads the current UTC time with `chrono::Utc::now()` and renders it with
/// `DateTime::to_rfc3339`. Which instant comes back is not stated. What is
/// stated is what chrono's writer produces for every instant: ASCII digits and
/// separators, with at least the `YYYY-MM-DDTHH:MM:SS` part (19 characters).
#[verifier::external_body]
pub(crate) fn utc_now_rfc3339() -> (r: String)
    ensures
        r.is_ascii(),
        rfc3339_shaped(r@),
{
    chrono::Utc::now().to_rfc3339()
}

/// Reads the current UTC time with `chrono::Utc::now()`, as the whole
/// seconds since the Unix epoch (`DateTime::timestamp`) and the nanoseconds
/// past them (`DateTime::timestamp_subsec_nanos`, which chrono keeps below
/// 2_000_000_000: past 1_000_000_000 only within a leap second). Which instant
/// comes back is not stated.
#[verifier::external_body]
pub(crate) fn utc_now_instant() -> (r: (i64, u32))
    ensures
        r.1 < 2_000_000_000,
{
    let now = chrono::Utc::now();
    (now.timestamp(), now.timestamp_subsec_nanos())
}

/// What `whole_days_since` computes with chrono: the whole days from the
/// time stamp to the instant, or `None`.
pub uninterp spec fn spec_whole_days_since(recorded_at: Seq<char>, now_secs: i64, now_nanos: u32) -> Option<i64>;

/// Parses `recorded_at` with `DateTime::parse_from_rfc3339`, builds the
/// instant `now_secs` seconds and `now_nanos` nanoseconds after the Unix epoch
/// with `DateTime::from_timestamp`, and counts the whole days from the first
/// to the second (`TimeDelta::num_days` of their difference, rounded toward
/// zero). `None` when the stamp does not parse or the instant is outside
/// chrono's range. The result is named, not spelled out.
#[verifier::external_body]
pub(crate) fn whole_days_since(recorded_at: &str, now_secs: i64, now_nanos: u32) -> (r: Option<i64>)
    ensures
        r == spec_whole_days_since(recorded_at@, now_secs, now_nanos),
{
    let now = chrono::DateTime::from_timestamp(now_secs, now_nanos)?;
    let then = chrono::DateTime::parse_from_rfc3339(recorded_at).ok()?;
    Some((now - then.with_timezone(&chrono::Utc)).num_days())
}

/// What `rfc3339_instant` computes with chrono: the instant a time stamp
/// names, or `None`.
pub uninterp spec fn spec_rfc3339_instant(stamp: Seq<char>) -> Option<(i64, u32)>;

/// Parses `stamp` with `DateTime::parse_from_rfc3339` and gives the instant
/// it names as whole seconds since the Unix epoch (`DateTime::timestamp`)
/// and the nanoseconds past them (`DateTime::timestamp_subsec_nanos`);
/// `None` when it does not parse. The result is named, not spelled out.
#[verifier::external_body]
pub(crate) fn rfc3339_instant(stamp: &str) -> (r: Option<(i64, u32)>)
    ensures
        r == spec_rfc3339_instant(stamp@),
{
    match chrono::DateTime::parse_from_rfc3339(stamp) {
        Ok(t) => Some((t.timestamp(), t.timestamp_subsec_nanos())),
        Err(_) => None,
    }
}

/// Reads the local time with `chrono::Local::now()` and writes it with the
/// pattern `%Y-%m-%d_%H-%M-%S`. Which time comes back depends on the clock
/// and on the machine's time zone and is not stated. What is stated is the
/// layout chrono's writer gives every date and time (`filename_stamp_layout`):
/// `%Y` writes four digits for years 0..=9999 and a sign and four or more
/// digits otherwise; the other fields are two zero-padded digits each.
#[verifier::external_body]
pub(crate) fn local_timestamp_for_filename() -> (r: String)
    ensures
        filename_stamp_layout(r@),
{
    chrono::Local::now().format("%Y-%m-%d_%H-%M-%S").to_string()
}

} // verus!
