//! A fixed-offset (UTC) time source: reads the current time, formats and
//! parses RFC 3339 timestamp text, and computes "now + N seconds".
//!
//! The logic works on [`Timestamp`], a plain-value instant (whole seconds
//! since the Unix epoch plus nanoseconds since the last whole second); only
//! the trusted wrappers below touch `chrono`. What formatting and parsing
//! return is named by the uninterpreted functions [`rfc3339_render`] and
//! [`rfc3339_instant`].
//!
//! Renderings with a four-digit year are the only ones that parse back:
//! beyond the year 9999 the writer switches to a signed, wider year that
//! the parser rejects. The library therefore keeps every instant it
//! renders inside that window: [`format`] answers `None` outside it, the
//! clock reading saturates at [`MAX_CLOCK_SECONDS`], and durations are
//! bounded by [`MAX_DURATION_SECONDS`], so that the clock reading plus any
//! accepted duration stays renderable and parseable.

use vstd::prelude::*;

use crate::error::Error;

verus! {

use vstd::utf8::is_ascii_chars;

/// The widest span of whole seconds that [`add_seconds_and_format`] and
/// token generation accept: one hundred 365-day years on either side.
pub const MAX_DURATION_SECONDS: i64 = 3_153_600_000;

/// The earliest instant whose RFC 3339 rendering carries a four-digit
/// year: 0000-01-01T00:00:00+00:00.
pub const MIN_RFC3339_SECONDS: i64 = -62_167_219_200;

/// The last whole second whose RFC 3339 rendering carries a four-digit
/// year: 9999-12-31T23:59:59+00:00.
pub const MAX_RFC3339_SECONDS: i64 = 253_402_300_799;

/// The latest clock reading [`now`] reports: far enough below the top of
/// the four-digit-year window that adding any accepted duration stays
/// inside it.
pub const MAX_CLOCK_SECONDS: i64 = MAX_RFC3339_SECONDS - MAX_DURATION_SECONDS;

/// An instant in time at UTC offset zero: whole non-leap seconds since the
/// Unix epoch, and nanoseconds since the last whole second (which may reach
/// into a second extra second while a leap second is represented).
#[derive(Debug, Clone, Copy, PartialEq, Eq, Structural)]
pub struct Timestamp {
    /// Whole non-leap seconds since 1970-01-01T00:00:00+00:00.
    pub seconds: i64,
    /// Nanoseconds since the last whole second.
    pub nanos: u32,
}

impl Timestamp {
    /// The nanosecond field stays below two whole seconds' worth; values at
    /// or above one second's worth only represent a leap second.
    pub open spec fn wf(self) -> bool {
        self.nanos < 2_000_000_000
    }

    /// Within the window whose RFC 3339 rendering carries a four-digit
    /// year, and so parses back.
    pub open spec fn in_rfc3339_range(self) -> bool {
        MIN_RFC3339_SECONDS <= self.seconds <= MAX_RFC3339_SECONDS
    }

    /// An instant [`now`] can report: at or after the Unix epoch, at most
    /// [`MAX_CLOCK_SECONDS`], with a plain sub-second nanosecond count.
    pub open spec fn in_clock_range(self) -> bool {
        &&& 0 <= self.seconds <= MAX_CLOCK_SECONDS
        &&& self.nanos < 1_000_000_000
    }

    /// Strictly earlier than `other`: by seconds first, then nanoseconds.
    pub open spec fn before(self, other: Timestamp) -> bool {
        ||| self.seconds < other.seconds
        ||| (self.seconds == other.seconds && self.nanos < other.nanos)
    }

    /// Whether `self` is strictly earlier than `other`.
    pub fn is_before(&self, other: &Timestamp) -> (r: bool)
        ensures
            r == self.before(*other),
    {
        self.seconds < other.seconds || (self.seconds == other.seconds && self.nanos < other.nanos)
    }
}

/// The instant that RFC 3339 parsing recovers from the given text, as
/// (seconds, nanoseconds), or `None` when the text does not conform to the
/// format.
pub uninterp spec fn rfc3339_instant(text: Seq<char>) -> Option<(i64, u32)>;

/// The RFC 3339 rendering of the given instant, or `None` when the instant
/// cannot be represented.
pub uninterp spec fn rfc3339_render(seconds: i64, nanos: u32) -> Option<Seq<char>>;

/// Relies on `chrono::Utc::now` with `DateTime::timestamp` and
/// `DateTime::timestamp_subsec_nanos`: nothing is promised of which
/// instant comes back, only that it lies at or after the Unix epoch,
/// within `chrono`'s documented range of about 262,000 years, with under
/// one second's worth of nanoseconds (the reading comes from
/// `SystemTime::duration_since(UNIX_EPOCH)`, which carries no leap
/// seconds). `Utc::now` panics when the system clock is set before the
/// Unix epoch — as the original clock source did; no argument can exclude
/// that environmental state.
#[verifier::external_body]
fn clock_now() -> (r: Timestamp)
    ensures
        0 <= r.seconds < 9_000_000_000_000,
        r.nanos < 1_000_000_000,
{
    let t = chrono::Utc::now();
    Timestamp { seconds: t.timestamp(), nanos: t.timestamp_subsec_nanos() }
}

/// Gets the current datetime, fixed at UTC offset zero, saturated at
/// [`MAX_CLOCK_SECONDS`]: every reading stays where its rendering, and the
/// rendering of it moved forward by any accepted duration, carries a
/// four-digit year. The saturation can only act when the system clock
/// stands in the year 9899 or beyond.
pub fn now() -> (r: Timestamp)
    ensures
        r.in_clock_range(),
{
    let t = clock_now();
    if t.seconds > MAX_CLOCK_SECONDS {
        Timestamp { seconds: MAX_CLOCK_SECONDS, nanos: t.nanos }
    } else {
        t
    }
}

/// Relies on `chrono::DateTime::from_timestamp` and
/// `DateTime::to_rfc3339`: the rendering is a function of the instant
/// alone; `from_timestamp` is documented to round-trip with `timestamp`
/// and `timestamp_subsec_nanos`, and within the four-digit-year window
/// demanded here the writer emits a four bare-digit year that
/// `parse_from_rfc3339` recovers to the same instant (a nanosecond count
/// representing a leap second is accepted exactly at second 59, where the
/// written `:60` parses back; elsewhere `from_timestamp` answers `None`).
/// The text is ASCII, well under 64 characters (four year digits, fixed
/// date and time fields, at most nine fraction digits and a numeric
/// offset).
#[verifier::external_body]
fn render_rfc3339(time: Timestamp) -> (r: Option<String>)
    requires
        time.wf(),
        time.in_rfc3339_range(),
    ensures
        match r {
            Some(s) => {
                &&& rfc3339_render(time.seconds, time.nanos) == Some(s@)
                &&& rfc3339_instant(s@) == Some((time.seconds, time.nanos))
                &&& is_ascii_chars(s@)
                &&& s@.len() <= 64
            },
            None => time.nanos >= 1_000_000_000,
        },
{
    match chrono::DateTime::from_timestamp(time.seconds, time.nanos) {
        Some(dt) => Some(dt.to_rfc3339()),
        None => None,
    }
}

/// Renders the instant using the fixed, unambiguous, timezone-qualified
/// RFC 3339 interchange format (date, time, offset). `None` exactly when
/// the instant lies outside the four-digit-year window — where the
/// rendering could not be parsed back — or carries a leap-second
/// nanosecond count away from second 59; every instant the library's own
/// clock produces is rendered.
pub fn format(time: Timestamp) -> (r: Option<String>)
    ensures
        match r {
            Some(s) => {
                &&& time.wf() && time.in_rfc3339_range()
                &&& rfc3339_render(time.seconds, time.nanos) == Some(s@)
                &&& rfc3339_instant(s@) == Some((time.seconds, time.nanos))
                &&& is_ascii_chars(s@)
                &&& s@.len() <= 64
            },
            None => !(time.wf() && time.in_rfc3339_range()) || time.nanos >= 1_000_000_000,
        },
        time.in_rfc3339_range() && time.nanos < 1_000_000_000 ==> r is Some,
{
    if time.seconds < MIN_RFC3339_SECONDS || time.seconds > MAX_RFC3339_SECONDS
        || time.nanos >= 2_000_000_000 {
        return None;
    }
    render_rfc3339(time)
}

/// Relies on `chrono::DateTime::parse_from_rfc3339` with
/// `DateTime::timestamp` and `DateTime::timestamp_subsec_nanos`: the
/// parsed instant is a function of the text alone, its nanosecond count
/// stays below two seconds' worth (a parsed leap second maps to second 59
/// plus one extra second of nanoseconds), and text that does not conform
/// to RFC 3339 is rejected.
#[verifier::external_body]
fn parse_instant(moment: &str) -> (r: Option<Timestamp>)
    ensures
        match r {
            Some(t) => rfc3339_instant(moment@) == Some((t.seconds, t.nanos)) && t.wf(),
            None => rfc3339_instant(moment@) is None,
        },
{
    match chrono::DateTime::parse_from_rfc3339(moment) {
        Ok(dt) => Some(Timestamp { seconds: dt.timestamp(), nanos: dt.timestamp_subsec_nanos() }),
        Err(_) => None,
    }
}

/// Inverse of [`format`]: any text not conforming to the interchange format
/// is rejected, carrying the offending text for diagnostics.
pub fn parse(moment: &str) -> (r: Result<Timestamp, Error>)
    ensures
        match r {
            Ok(t) => rfc3339_instant(moment@) == Some((t.seconds, t.nanos)) && t.wf(),
            Err(e) => {
                &&& rfc3339_instant(moment@) is None
                &&& e matches Error::UTCParsingFailure(text) && text@ == moment@
            },
        },
{
    match parse_instant(moment) {
        Some(t) => Ok(t),
        None => Err(Error::UTCParsingFailure(String::from_str(moment))),
    }
}

/// Holds when `text` is the RFC 3339 rendering of the clock reading
/// `issued_at` moved forward by `seconds` whole seconds, and parses back to
/// that same instant.
pub open spec fn renders_offset_from(text: Seq<char>, issued_at: Timestamp, seconds: i64) -> bool {
    &&& rfc3339_render((issued_at.seconds + seconds) as i64, issued_at.nanos) == Some(text)
    &&& rfc3339_instant(text) == Some(((issued_at.seconds + seconds) as i64, issued_at.nanos))
}

/// Renders "now + `seconds`": reads the clock, moves it forward by the
/// given whole seconds, and formats the result. The duration bound and the
/// clock's saturation keep the target inside the four-digit-year window,
/// so this always succeeds.
pub fn add_seconds_and_format(seconds: i64) -> (r: String)
    requires
        -MAX_DURATION_SECONDS <= seconds <= MAX_DURATION_SECONDS,
    ensures
        exists|issued_at: Timestamp|
            issued_at.in_clock_range() && #[trigger] renders_offset_from(r@, issued_at, seconds),
{
    let issued_at = now();
    let target = Timestamp { seconds: issued_at.seconds + seconds, nanos: issued_at.nanos };
    match format(target) {
        Some(s) => {
            proof {
                assert(renders_offset_from(s@, issued_at, seconds));
            }
            s
        },
        None => {
            proof {
                assert(false);
            }
            String::new()
        },
    }
}

} // verus!
