//! Instants in UTC, as seconds and nanoseconds since the Unix epoch.

use vstd::prelude::*;

verus! {

/// First second of the calendar's range: January 1 of the year -262143.
pub const MIN_SECS: i64 = -8334601228800;

/// Last second of the calendar's range: December 31 of the year 262142.
pub const MAX_SECS: i64 = 8210266876799;

/// Whether `secs` and `nanos` name an instant of the calendar. A leap second is
/// written as a 59th second with a billion nanoseconds or more.
pub open spec fn instant_ok(secs: int, nanos: int) -> bool {
    &&& MIN_SECS <= secs <= MAX_SECS
    &&& 0 <= nanos
    &&& nanos < 1_000_000_000 || (nanos < 2_000_000_000 && secs % 60 == 59)
}

/// Whether the instant lies in the years 0 to 9999.
pub open spec fn four_digit_year(secs: int) -> bool {
    -62167219200 <= secs <= 253402300799
}

/// Whether `days` since the Unix epoch name a day of the calendar.
pub open spec fn day_ok(days: int) -> bool {
    -96465292 <= days <= 95026236
}

/// The RFC 3339 text of an instant in UTC, as chrono writes it.
pub uninterp spec fn rfc3339_text(secs: int, nanos: int) -> Seq<char>;

/// The instant that chrono reads in a text as RFC 3339, if it reads one.
pub uninterp spec fn rfc3339_instant(text: Seq<char>) -> Option<(int, int)>;

/// The day, counted from the Unix epoch, that chrono reads in a text by a
/// format, if it reads one.
pub uninterp spec fn date_days(text: Seq<char>, format: Seq<char>) -> Option<int>;

/// An instant in UTC.
#[derive(Debug, Clone, Copy, PartialEq, Eq, Structural)]
pub struct Timestamp {
    secs: i64,
    nanos: u32,
}

impl Timestamp {
    pub closed spec fn secs(self) -> int {
        self.secs as int
    }

    pub closed spec fn nanos(self) -> int {
        self.nanos as int
    }

    pub open spec fn wf(self) -> bool {
        instant_ok(self.secs(), self.nanos())
    }

    #[verifier::type_invariant]
    spec fn in_calendar(self) -> bool {
        instant_ok(self.secs as int, self.nanos as int)
    }

    /// The instant `nanos` nanoseconds after the second `secs`, if the calendar
    /// has it.
    pub fn new(secs: i64, nanos: u32) -> (r: Option<Timestamp>)
        ensures
            match r {
                Some(t) => instant_ok(secs as int, nanos as int) && t.secs() == secs && t.nanos()
                    == nanos && t.wf(),
                None => !instant_ok(secs as int, nanos as int),
            },
    {
        if secs < MIN_SECS || secs > MAX_SECS || nanos >= 2_000_000_000 {
            return None;
        }
        if nanos >= 1_000_000_000 {
            // Shifted by a whole number of minutes to be positive.
            let shifted: i64 = secs + 8334601228800;
            assert(shifted % 60 == 59 <==> secs as int % 60 == 59);
            if shifted % 60 != 59 {
                return None;
            }
        }
        Some(Timestamp { secs, nanos })
    }

    pub fn timestamp(&self) -> (r: i64)
        ensures
            r == self.secs(),
            self.wf(),
    {
        proof {
            use_type_invariant(self);
        }
        self.secs
    }

    pub fn subsec_nanos(&self) -> (r: u32)
        ensures
            r == self.nanos(),
            self.wf(),
    {
        proof {
            use_type_invariant(self);
        }
        self.nanos
    }

    /// Whether this instant is `other` or earlier.
    pub open spec fn no_later(self, other: Timestamp) -> bool {
        self.secs() < other.secs() || (self.secs() == other.secs() && self.nanos()
            <= other.nanos())
    }

    /// Whether this instant is `other` or earlier.
    pub fn is_no_later(&self, other: &Timestamp) -> (r: bool)
        ensures
            r == self.no_later(*other),
    {
        self.secs < other.secs || (self.secs == other.secs && self.nanos <= other.nanos)
    }

    /// The last second of the day of this instant, in UTC.
    pub fn end_of_day(&self) -> (r: Timestamp)
        ensures
            r.secs() == self.secs() / 86400 * 86400 + 86399,
            r.nanos() == 0,
            r.wf(),
            self.wf(),
    {
        proof {
            use_type_invariant(self);
        }
        // Shifted by a whole number of days to be positive.
        let shifted: i64 = self.secs + 8334601228800;
        let begun: i64 = shifted / 86400;
        assert(begun == self.secs as int / 86400 + 96465292);
        Timestamp { secs: begun * 86400 - 8334601228800 + 86399, nanos: 0 }
    }

    /// The current instant: `chrono::Utc::now`. It reads the system clock, so
    /// only this is said of it: the clock stands at the Unix epoch or later (with
    /// an earlier clock the call panics), and no leap second is reported.
    #[verifier::external_body]
    pub(crate) fn now() -> (r: Timestamp)
        ensures
            r.secs() >= 0,
            r.nanos() < 1_000_000_000,
            r.wf(),
    {
        let now = chrono::Utc::now();
        Timestamp { secs: now.timestamp(), nanos: now.timestamp_subsec_nanos() }
    }

    /// `chrono::DateTime::to_rfc3339`, a function of the instant alone.
    #[verifier::external_body]
    fn write_rfc3339(&self) -> (r: String)
        requires
            self.wf(),
        ensures
            r@ == rfc3339_text(self.secs(), self.nanos()),
    {
        chrono::DateTime::from_timestamp(self.secs, self.nanos).unwrap().to_rfc3339()
    }

    /// The instant as RFC 3339 text.
    pub fn to_rfc3339(&self) -> (r: String)
        ensures
            r@ == rfc3339_text(self.secs(), self.nanos()),
            self.wf(),
    {
        proof {
            use_type_invariant(self);
        }
        self.write_rfc3339()
    }

    /// `chrono::DateTime::parse_from_rfc3339`, a function of the text alone. What
    /// it reads is an instant of the calendar; and it reads back what
    /// `to_rfc3339` wrote, for the years 0 to 9999 (of another year the text has
    /// a sign and is refused).
    #[verifier::external_body]
    pub(crate) fn parse_rfc3339(text: &str) -> (r: Option<Timestamp>)
        ensures
            match r {
                Some(t) => rfc3339_instant(text@) == Some((t.secs(), t.nanos())) && t.wf(),
                None => rfc3339_instant(text@) is None,
            },
            forall|t: Timestamp|
                t.wf() && four_digit_year(t.secs()) && text@ == #[trigger] rfc3339_text(
                    t.secs(),
                    t.nanos(),
                ) ==> r == Some(t),
    {
        chrono::DateTime::parse_from_rfc3339(text).ok().map(
            |d| Timestamp { secs: d.timestamp(), nanos: d.timestamp_subsec_nanos() },
        )
    }

    /// Midnight-based instant on a day: `chrono::NaiveDate::and_hms_opt` and
    /// `chrono::TimeZone::from_utc_datetime` for `Utc`. There is one exactly for a
    /// day of the calendar and an hour, minute and second in range, and it is that
    /// many seconds after the day began.
    #[verifier::external_body]
    pub(crate) fn on_day(days: i32, hour: u32, min: u32, sec: u32) -> (r: Option<Timestamp>)
        ensures
            r is Some == (day_ok(days as int) && hour < 24 && min < 60 && sec < 60),
            r matches Some(t) ==> t.secs() == days * 86400 + hour * 3600 + min * 60 + sec
                && t.nanos() == 0 && t.wf(),
    {
        let day = chrono::NaiveDate::from_epoch_days(days)?;
        let naive = day.and_hms_opt(hour, min, sec)?;
        let at = chrono::TimeZone::from_utc_datetime(&chrono::Utc, &naive);
        Some(Timestamp { secs: at.timestamp(), nanos: at.timestamp_subsec_nanos() })
    }
}

/// `chrono::NaiveDate::parse_from_str`, a function of the text and the format:
/// the day it reads, counted from the Unix epoch, which is one of the calendar.
/// The format is year, month and day: with others, such as those of ISO weeks, a
/// year at the end of its range may overflow in the call.
#[verifier::external_body]
pub(crate) fn parse_date(text: &str, format: &str) -> (r: Option<i32>)
    requires
        format@ == "%Y-%m-%d"@,
    ensures
        match r {
            Some(d) => date_days(text@, format@) == Some(d as int) && day_ok(d as int),
            None => date_days(text@, format@) is None,
        },
{
    chrono::NaiveDate::parse_from_str(text, format).ok().map(|d| d.to_epoch_days())
}

/// Instants are ordered by their seconds, and within a second by their nanoseconds;
/// of any two, one is no later than the other.
pub proof fn law_instants_are_ordered(a: Timestamp, b: Timestamp)
    ensures
        a.secs() < b.secs() ==> a.no_later(b) && !b.no_later(a),
        a.secs() == b.secs() ==> (a.no_later(b) <==> a.nanos() <= b.nanos()),
        a.no_later(b) || b.no_later(a),
{
}

/// Every second from the beginning of the year -262143 to the end of the year 262142
/// is of the calendar, with any part of a second; a leap second follows a 59th second.
pub proof fn law_calendar(secs: int, nanos: int)
    ensures
        instant_ok(secs, nanos) <==> -8334601228800 <= secs <= 8210266876799 && 0 <= nanos && (nanos
            < 1_000_000_000 || (nanos < 2_000_000_000 && secs % 60 == 59)),
        four_digit_year(secs) <==> -62167219200 <= secs < 253402300800,
        day_ok(secs) <==> -96465292 <= secs <= 95026236,
{
}

} // verus!
