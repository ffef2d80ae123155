//! Points in time, held as plain numbers, and their rendering by `chrono`.

use std::fmt::Write;
use vstd::prelude::*;

verus! {

/// An instant in UTC: whole seconds since 1970-01-01T00:00:00Z and the
/// nanoseconds since that second began. `chrono` converts a `DateTime<Utc>`
/// to this pair and back without loss. Not every pair is an instant that
/// `chrono` can hold; rendering such a pair gives `None`.
#[derive(Debug, Clone, Copy, PartialEq, Eq, Structural)]
pub struct Timestamp {
    pub secs: i64,
    pub nanos: u32,
}

/// What `chrono` prints for the instant `(secs, nanos)` under the `strftime`
/// pattern `pattern`; `None` where the pair is no instant of `chrono`'s or the
/// pattern is malformed.
pub uninterp spec fn formatted_time(secs: i64, nanos: u32, pattern: Seq<char>) -> Option<Seq<char>>;

/// The RFC 3339 text of the instant `(secs, nanos)` with the offset written
/// `+00:00`; `None` where the pair is no instant of `chrono`'s.
pub uninterp spec fn rfc3339_time(secs: i64, nanos: u32) -> Option<Seq<char>>;

/// The RFC 3339 text of the instant `(secs, nanos)` with the offset written
/// `Z`; `None` where the pair is no instant of `chrono`'s.
pub uninterp spec fn rfc3339_zulu_time(secs: i64, nanos: u32) -> Option<Seq<char>>;

/// The pair is an instant that `chrono` can hold, and so one that it renders
/// as RFC 3339 text in both forms.
pub open spec fn is_calendar_instant(time: Timestamp) -> bool {
    &&& rfc3339_time(time.secs, time.nanos) is Some
    &&& rfc3339_zulu_time(time.secs, time.nanos) is Some
}

/// Reads the clock with `chrono::Utc::now` and splits the instant with
/// `DateTime::timestamp` and `DateTime::timestamp_subsec_nanos`. Which instant
/// comes back depends on the clock; what holds of every one is claimed. It is
/// an instant that `chrono` holds, and the two parts make that instant again:
/// `from_timestamp` does not refuse them. The clock is read as a time span
/// since 1970, whose fraction of a second is below a thousand million
/// nanoseconds, so no leap second comes back. `Utc::now` itself gives up on a
/// machine whose clock stands before 1970.
#[verifier::external_body]
fn clock_now() -> (now: Timestamp)
    ensures
        is_calendar_instant(now),
        now.nanos < 1_000_000_000,
{
    let moment = chrono::Utc::now();
    Timestamp { secs: moment.timestamp(), nanos: moment.timestamp_subsec_nanos() }
}

/// Builds the instant with `chrono::DateTime::from_timestamp` and prints it
/// with `DateTime::format`. The result is a function of the three arguments:
/// `None` when `from_timestamp` refuses the pair or the printing reports an
/// error, which it does for a malformed pattern.
#[verifier::external_body]
fn chrono_format(secs: i64, nanos: u32, pattern: &str) -> (text: Option<String>)
    ensures
        match text {
            Some(t) => formatted_time(secs, nanos, pattern@) == Some(t@),
            None => formatted_time(secs, nanos, pattern@) is None,
        },
{
    let moment = chrono::DateTime::from_timestamp(secs, nanos)?;
    let mut text = String::new();
    match write!(text, "{}", moment.format(pattern)) {
        Ok(()) => Some(text),
        Err(_) => None,
    }
}

/// Builds the instant with `chrono::DateTime::from_timestamp` and prints it
/// with `DateTime::to_rfc3339`: `None` when `from_timestamp` refuses the pair.
#[verifier::external_body]
fn chrono_rfc3339(secs: i64, nanos: u32) -> (text: Option<String>)
    ensures
        match text {
            Some(t) => rfc3339_time(secs, nanos) == Some(t@),
            None => rfc3339_time(secs, nanos) is None,
        },
{
    let moment = chrono::DateTime::from_timestamp(secs, nanos)?;
    Some(moment.to_rfc3339())
}

/// Builds the instant with `chrono::DateTime::from_timestamp` and prints it
/// with `DateTime::to_rfc3339_opts`, asking for as many fraction digits as the
/// instant needs and for `Z` as the offset. This is the text that `chrono`
/// serializes a `DateTime<Utc>` to. `None` when `from_timestamp` refuses the
/// pair.
#[verifier::external_body]
fn chrono_rfc3339_zulu(secs: i64, nanos: u32) -> (text: Option<String>)
    ensures
        match text {
            Some(t) => rfc3339_zulu_time(secs, nanos) == Some(t@),
            None => rfc3339_zulu_time(secs, nanos) is None,
        },
{
    let moment = chrono::DateTime::from_timestamp(secs, nanos)?;
    Some(moment.to_rfc3339_opts(chrono::SecondsFormat::AutoSi, true))
}

impl Timestamp {
    /// The instant `secs` seconds and `nanos` nanoseconds after the epoch.
    pub fn new(secs: i64, nanos: u32) -> (made: Timestamp)
        ensures
            made == (Timestamp { secs, nanos }),
    {
        Timestamp { secs, nanos }
    }

    /// The current instant, read from the system clock: an instant of the
    /// calendar, with less than a second in its nanoseconds.
    pub fn now() -> (now: Timestamp)
        ensures
            is_calendar_instant(now),
            now.nanos < 1_000_000_000,
    {
        clock_now()
    }

    /// Renders the instant under a `strftime` pattern.
    pub fn format(&self, pattern: &str) -> (text: Option<String>)
        ensures
            match text {
                Some(t) => formatted_time(self.secs, self.nanos, pattern@) == Some(t@),
                None => formatted_time(self.secs, self.nanos, pattern@) is None,
            },
    {
        chrono_format(self.secs, self.nanos, pattern)
    }

    /// Renders the instant as RFC 3339 text with the offset `+00:00`.
    pub fn to_rfc3339(&self) -> (text: Option<String>)
        ensures
            match text {
                Some(t) => rfc3339_time(self.secs, self.nanos) == Some(t@),
                None => rfc3339_time(self.secs, self.nanos) is None,
            },
    {
        chrono_rfc3339(self.secs, self.nanos)
    }

    /// Renders the instant as RFC 3339 text with the offset `Z`.
    pub fn to_rfc3339_zulu(&self) -> (text: Option<String>)
        ensures
            match text {
                Some(t) => rfc3339_zulu_time(self.secs, self.nanos) == Some(t@),
                None => rfc3339_zulu_time(self.secs, self.nanos) is None,
            },
    {
        chrono_rfc3339_zulu(self.secs, self.nanos)
    }
}

} // verus!
