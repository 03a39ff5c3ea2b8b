//! Instants and elapsed times, measured with `chrono`.

use vstd::prelude::*;

verus! {

/// Nanoseconds in one second.
pub const NANOS_PER_SECOND: u32 = 1_000_000_000;

/// Seconds in one day.
pub const SECONDS_PER_DAY: i64 = 86_400;

/// Earliest second since the Unix epoch that `chrono` can represent as a UTC instant.
pub const EARLIEST_SECS: i64 = -8_334_601_228_800;

/// Latest second since the Unix epoch that `chrono` can represent as a UTC instant.
pub const LATEST_SECS: i64 = 8_210_266_876_799;

/// A UTC instant: whole seconds since the Unix epoch and the nanoseconds past that second.
#[derive(Clone, Copy, Debug, PartialEq, Eq, Structural)]
pub struct Timestamp {
    pub secs: i64,
    pub nanos: u32,
}

impl Timestamp {
    /// The instant lies in the range that `chrono` represents and is not a leap second.
    pub open spec fn is_valid(self) -> bool {
        &&& EARLIEST_SECS <= self.secs <= LATEST_SECS
        &&& self.nanos < NANOS_PER_SECOND
    }

    /// Nanoseconds since the Unix epoch.
    pub open spec fn total_nanos(self) -> int {
        self.secs * 1_000_000_000 + self.nanos
    }
}

/// A non-negative span of time, as `std::time::Duration` holds it.
#[derive(Clone, Copy, Debug, PartialEq, Eq, Structural)]
pub struct SessionLength {
    pub secs: u64,
    pub nanos: u32,
}

impl SessionLength {
    /// Nanoseconds in the span.
    pub open spec fn total_nanos(self) -> int {
        self.secs * 1_000_000_000 + self.nanos
    }

    /// The empty span.
    pub fn zero() -> (z: SessionLength)
        ensures
            z.secs == 0,
            z.nanos == 0,
    {
        SessionLength { secs: 0, nanos: 0 }
    }
}

/// Integer division that rounds toward zero, as Rust's `/` on signed integers does.
pub open spec fn div_toward_zero(a: int, b: int) -> int {
    if a >= 0 {
        a / b
    } else {
        -((-a) / b)
    }
}

/// Whole days from `from` to `to`, rounded toward zero: the number of whole seconds
/// between them, rounded toward zero, divided by the length of a day, rounded toward zero.
pub open spec fn whole_days_between(from: Timestamp, to: Timestamp) -> int {
    div_toward_zero(div_toward_zero(to.total_nanos() - from.total_nanos(), 1_000_000_000), 86_400)
}

/// Reads the clock as `chrono::Utc::now` does: the system time since the Unix epoch
/// (`SystemTime::now().duration_since(UNIX_EPOCH)`), made a UTC instant with
/// `DateTime::from_timestamp`.
///
/// Where `Utc::now` panics, when the clock reads before the epoch or beyond what `chrono`
/// represents, this gives `None`. Claimed only that what comes back is a valid instant at or
/// after the epoch; which instant is not stated.
#[verifier::external_body]
pub(crate) fn current_time() -> (now: Option<Timestamp>)
    ensures
        now matches Some(t) ==> t.is_valid() && t.secs >= 0,
{
    let since = std::time::SystemTime::now().duration_since(std::time::UNIX_EPOCH).ok()?;
    let secs = i64::try_from(since.as_secs()).ok()?;
    let now = chrono::DateTime::from_timestamp(secs, since.subsec_nanos())?;
    Some(Timestamp { secs: now.timestamp(), nanos: now.timestamp_subsec_nanos() })
}

/// Whole days from `from` to `to` through `chrono`: both instants are built with
/// `DateTime::from_timestamp`, and the result is
/// `to.signed_duration_since(from).num_days()`.
///
/// Claimed: `num_days` truncates the whole seconds of the signed difference toward zero,
/// and those seconds are the nanosecond difference truncated toward zero.
#[verifier::external_body]
fn chrono_days_between(from: Timestamp, to: Timestamp) -> (days: i64)
    requires
        from.is_valid(),
        to.is_valid(),
    ensures
        days == whole_days_between(from, to),
{
    let from = chrono::DateTime::from_timestamp(from.secs, from.nanos).expect("valid instant");
    let to = chrono::DateTime::from_timestamp(to.secs, to.nanos).expect("valid instant");
    to.signed_duration_since(from).num_days()
}

/// The time from `start` to `end` as `chrono::TimeDelta::to_std` gives it for
/// `end - start` with both built by `DateTime::from_timestamp`.
///
/// Claimed: when `end` is not before `start`, the conversion succeeds and the span holds
/// exactly the nanosecond difference, with fewer than a second's nanoseconds past its
/// whole seconds.
#[verifier::external_body]
fn chrono_elapsed(start: Timestamp, end: Timestamp) -> (span: SessionLength)
    requires
        start.is_valid(),
        end.is_valid(),
        start.total_nanos() <= end.total_nanos(),
    ensures
        span.total_nanos() == end.total_nanos() - start.total_nanos(),
        span.nanos < NANOS_PER_SECOND,
{
    let start = chrono::DateTime::from_timestamp(start.secs, start.nanos).expect("valid instant");
    let end = chrono::DateTime::from_timestamp(end.secs, end.nanos).expect("valid instant");
    let span = chrono::TimeDelta::to_std(&(end - start)).expect("end not before start");
    SessionLength { secs: span.as_secs(), nanos: span.subsec_nanos() }
}

/// Days since the last launch to look back over when checking cards: the whole days from
/// `last_launched` to `now`, plus two days of margin.
pub fn days_to_look_back(last_launched: Timestamp, now: Timestamp) -> (days: i64)
    requires
        last_launched.is_valid(),
        now.is_valid(),
    ensures
        days == whole_days_between(last_launched, now) + 2,
{
    let whole: i64 = chrono_days_between(last_launched, now);
    proof {
        lemma_whole_days_bounded(last_launched, now);
    }
    whole + 2
}

/// The length of a session that started at `start` and ends at `end`.
pub fn session_length(start: Timestamp, end: Timestamp) -> (span: SessionLength)
    requires
        start.is_valid(),
        end.is_valid(),
        start.total_nanos() <= end.total_nanos(),
    ensures
        span.total_nanos() == end.total_nanos() - start.total_nanos(),
        span.nanos < NANOS_PER_SECOND,
{
    chrono_elapsed(start, end)
}

/// Between two valid instants there are far fewer whole days than an `i64` holds.
proof fn lemma_whole_days_bounded(from: Timestamp, to: Timestamp)
    requires
        from.is_valid(),
        to.is_valid(),
    ensures
        -1_000_000_000 <= whole_days_between(from, to) <= 1_000_000_000,
{
    let d = to.total_nanos() - from.total_nanos();
    assert(-20_000_000_000_000_000_000_000int <= d <= 20_000_000_000_000_000_000_000int) by (nonlinear_arith)
        requires
            d == to.secs * 1_000_000_000 + to.nanos - (from.secs * 1_000_000_000 + from.nanos),
            -8_334_601_315_200 <= from.secs <= 8_210_266_876_799,
            -8_334_601_315_200 <= to.secs <= 8_210_266_876_799,
            0 <= from.nanos < 1_000_000_000,
            0 <= to.nanos < 1_000_000_000,
    ;
    let s = div_toward_zero(d, 1_000_000_000);
    assert(-20_000_000_000_000int <= s <= 20_000_000_000_000int) by (nonlinear_arith)
        requires
            -20_000_000_000_000_000_000_000int <= d <= 20_000_000_000_000_000_000_000int,
            s == (if d >= 0 { d / 1_000_000_000 } else { -((-d) / 1_000_000_000) }),
    ;
    let w = div_toward_zero(s, 86_400);
    assert(-1_000_000_000 <= w <= 1_000_000_000) by (nonlinear_arith)
        requires
            -20_000_000_000_000int <= s <= 20_000_000_000_000int,
            w == (if s >= 0 { s / 86_400 } else { -((-s) / 86_400) }),
    ;
}

} // verus!
