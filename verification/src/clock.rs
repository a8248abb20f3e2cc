//! Simple collaborators around the host clock: a current-UTC-timestamp
//! reader that never fails, and a best-effort formatter from seconds since
//! the epoch to a human-readable datetime.

use vstd::prelude::*;

verus! {

/// What the outside datetime formatter returns for one timestamp: the
/// "year-month-day hour:minute:second" text of the moment, taken in UTC.
pub uninterp spec fn datetime_of(ts: int) -> Seq<char>;

/// The lowest timestamp handed to the outside formatter; far inside the
/// year range it can represent.
pub const FORMAT_TS_MIN: i64 = -2_000_000_000_000;

/// The highest timestamp handed to the outside formatter; far inside the
/// year range it can represent.
pub const FORMAT_TS_MAX: i64 = 2_000_000_000_000;

/// Relies on time::OffsetDateTime::from_unix_timestamp composed with its
/// format method under the "%F %T" pattern: the result is a pure function of
/// the timestamp alone (the moment is taken in UTC, no local time zone or
/// environment is read), and the conversion only aborts when the year falls
/// outside the crate's representable range of -100_000 to 100_000, far
/// beyond the bound required here.
#[verifier::external_body]
fn format_timestamp(ts: i64) -> (r: String)
    requires
        FORMAT_TS_MIN <= ts <= FORMAT_TS_MAX,
    ensures
        r@ == datetime_of(ts as int),
{
    time::OffsetDateTime::from_unix_timestamp(ts).format("%F %T")
}

/// Formats a seconds-since-epoch timestamp as a human-readable datetime,
/// best-effort: outside the formatter's safe range a fixed sentinel text is
/// returned instead of failing.
pub fn gen_datetime(ts: i64) -> (r: String)
    ensures
        FORMAT_TS_MIN <= ts <= FORMAT_TS_MAX ==> r@ == datetime_of(ts as int),
        !(FORMAT_TS_MIN <= ts <= FORMAT_TS_MAX) ==> r@ == "0000-00-00 00:00:00"@,
{
    if FORMAT_TS_MIN <= ts && ts <= FORMAT_TS_MAX {
        format_timestamp(ts)
    } else {
        "0000-00-00 00:00:00".to_owned()
    }
}

/// Relies on std::time::SystemTime::now and duration_since the epoch: reads
/// the current UTC timestamp in whole seconds. A host-clock reading before
/// the epoch defaults to a zero duration, so the call never fails.
#[verifier::external_body]
pub fn ts() -> u64 {
    std::time::SystemTime::now()
        .duration_since(std::time::SystemTime::UNIX_EPOCH)
        .unwrap_or_default()
        .as_secs()
}

/// The current moment formatted as a human-readable datetime, best-effort.
pub fn datetime_now() -> (r: String)
    ensures
        exists|now: int| 0 <= now <= FORMAT_TS_MAX && r@ == datetime_of(now),
{
    let now = ts();
    let clamped: i64 = if now > FORMAT_TS_MAX as u64 {
        FORMAT_TS_MAX
    } else {
        now as i64
    };
    format_timestamp(clamped)
}

} // verus!
