//! Instants on the UTC time line, held as plain integers.

use vstd::prelude::*;

verus! {

/// Smallest number of seconds since the Unix epoch that has a calendar date:
/// midnight of 1 January of the year -262143.
pub const MIN_SECS: i64 = -8_334_601_228_800;

/// Largest number of seconds since the Unix epoch that has a calendar date:
/// the last second of 31 December of the year 262142.
pub const MAX_SECS: i64 = 8_210_266_876_799;

/// Nanoseconds in one second.
pub const NANOS_PER_SEC: u32 = 1_000_000_000;

/// An instant as a mathematical value: whole seconds since the Unix epoch, and
/// nanoseconds since that whole second.
pub struct Instant {
    pub secs: int,
    pub nanos: int,
}

impl Instant {
    /// Whether the calendar has this instant. The seconds lie in the supported
    /// years. The nanoseconds stay below one second, except inside a leap
    /// second, which is written as a second numbered 59 with one to two seconds'
    /// worth of nanoseconds.
    pub open spec fn representable(self) -> bool {
        &&& MIN_SECS <= self.secs <= MAX_SECS
        &&& 0 <= self.nanos
        &&& (self.nanos < NANOS_PER_SEC || (self.nanos < 2 * NANOS_PER_SEC && self.secs % 60
            == 59))
    }

    /// Chronological order: by seconds, then by nanoseconds.
    pub open spec fn le(self, later: Instant) -> bool {
        self.secs < later.secs || (self.secs == later.secs && self.nanos <= later.nanos)
    }
}

/// The text that chrono's `Display` for `DateTime<Utc>` writes for the instant
/// `secs` seconds and `nanos` nanoseconds after the Unix epoch: the calendar
/// date, the time of day with its fraction, if any, and the word `UTC`.
pub uninterp spec fn instant_text(secs: int, nanos: int) -> Seq<char>;

/// Calls chrono's `DateTime::from_timestamp` and then `to_string` on the date
/// and time it gives. Trusted: the text is a function of the two numbers alone,
/// and `from_timestamp` has a date and time for every representable instant.
#[verifier::external_body]
fn display_text(secs: i64, nanos: u32) -> (text: String)
    requires
        (Instant { secs: secs as int, nanos: nanos as int }).representable(),
    ensures
        text@ == instant_text(secs as int, nanos as int),
{
    chrono::DateTime::from_timestamp(secs, nanos).map(|at| at.to_string()).unwrap_or_default()
}

/// Calls chrono's `Utc::now` and takes the reading apart with `timestamp` and
/// `timestamp_subsec_nanos`. Trusted: whatever the clock says, the reading is a
/// representable instant. Nothing is claimed of how two readings relate. The
/// call panics where the system clock stands before the Unix epoch.
#[verifier::external_body]
fn clock_reading() -> (parts: (i64, u32))
    ensures
        (Instant { secs: parts.0 as int, nanos: parts.1 as int }).representable(),
{
    let now = chrono::Utc::now();
    (now.timestamp(), now.timestamp_subsec_nanos())
}

/// A representable instant.
#[derive(Clone, Copy, Debug, PartialEq, Eq, Structural)]
pub struct Timestamp {
    secs: i64,
    nanos: u32,
}

impl View for Timestamp {
    type V = Instant;

    closed spec fn view(&self) -> Instant {
        Instant { secs: self.secs as int, nanos: self.nanos as int }
    }
}

impl Timestamp {
    /// Holds of every timestamp that a program has in hand.
    #[verifier::type_invariant]
    pub open spec fn inv(self) -> bool {
        self@.representable()
    }

    /// The instant `secs` seconds and `nanos` nanoseconds after the Unix epoch,
    /// if the calendar has it.
    pub fn from_parts(secs: i64, nanos: u32) -> (made: Option<Timestamp>)
        ensures
            made is Some <==> (Instant { secs: secs as int, nanos: nanos as int }).representable(),
            made matches Some(t) ==> t@ == (Instant { secs: secs as int, nanos: nanos as int }),
    {
        if secs < MIN_SECS || secs > MAX_SECS {
            return None;
        }
        // The lower bound is a multiple of 60, so counting from it keeps the
        // second of the minute and avoids a negative dividend.
        let second: i64 = (secs - MIN_SECS) % 60;
        if nanos >= NANOS_PER_SEC && (nanos >= 2 * NANOS_PER_SEC || second != 59) {
            return None;
        }
        Some(Timestamp { secs, nanos })
    }

    /// The current time, read from the system clock once.
    pub fn now() -> (now: Timestamp)
        ensures
            now@.representable(),
    {
        let parts: (i64, u32) = clock_reading();
        Timestamp { secs: parts.0, nanos: parts.1 }
    }

    /// The instant as text: date, time of day and the word `UTC`.
    pub fn to_string(&self) -> (text: String)
        ensures
            text@ == instant_text(self@.secs, self@.nanos),
    {
        proof {
            use_type_invariant(self);
        }
        display_text(self.secs, self.nanos)
    }

    /// Whole seconds since the Unix epoch.
    pub fn secs(&self) -> (secs: i64)
        ensures
            secs == self@.secs,
    {
        self.secs
    }

    /// Nanoseconds since the last whole second.
    pub fn nanos(&self) -> (nanos: u32)
        ensures
            nanos == self@.nanos,
    {
        self.nanos
    }
}

} // verus!
