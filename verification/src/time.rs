//! Points in time (UTC), as the task files and the UI show them.
//!
//! A `Timestamp` holds the seconds since the Unix epoch and the sub-second
//! nanoseconds of a `chrono::DateTime<Utc>`; calendar arithmetic, formatting
//! and RFC 3339 parsing are left to chrono.
use vstd::prelude::*;

use crate::text::has_char;

verus! {

/// Whether `chrono::DateTime::<Utc>::from_timestamp(secs, nanos)` is `Some`.
pub uninterp spec fn chrono_valid(secs: i64, nanos: u32) -> bool;

/// The text of `DateTime::<Utc>::to_rfc3339` for the instant `(secs, nanos)`.
pub uninterp spec fn rfc3339_text(secs: i64, nanos: u32) -> Seq<char>;

/// What `DateTime::parse_from_rfc3339(s)` gives, as the UTC instant
/// `(timestamp, timestamp_subsec_nanos)`, or `None` on a parse error.
pub uninterp spec fn rfc3339_parse(s: Seq<char>) -> Option<(i64, u32)>;

/// The text of `DateTime::<Utc>::format(fmt).to_string()` for `(secs, nanos)`.
pub uninterp spec fn chrono_format(secs: i64, nanos: u32, fmt: Seq<char>) -> Seq<char>;

/// The instant lies in the years 0000 to 9999 (UTC): from
/// 0000-01-01T00:00:00 to the end of 9999-12-31.
pub open spec fn four_digit_year(t: (i64, u32)) -> bool {
    -62167219200 <= t.0 <= 253402300799
}

/// The `strftime`-style patterns this crate formats with.
pub open spec fn known_format(fmt: Seq<char>) -> bool {
    ||| fmt == "%Y-%m-%d %H:%M"@
    ||| fmt == "%Y-%m-%d %H:%M UTC"@
    ||| fmt == "%Y-%m-%d %H:%M:%S UTC"@
}

/// An instant in UTC that chrono can represent.
#[derive(Debug)]
pub struct Timestamp {
    secs: i64,
    nanos: u32,
}

impl View for Timestamp {
    type V = (i64, u32);

    closed spec fn view(&self) -> (i64, u32) {
        (self.secs, self.nanos)
    }
}

/// `a` is strictly later than `b` (the order of `DateTime<Utc>`).
pub open spec fn later(a: (i64, u32), b: (i64, u32)) -> bool {
    a.0 > b.0 || (a.0 == b.0 && a.1 > b.1)
}

impl Timestamp {
    #[verifier::type_invariant]
    closed spec fn inv(self) -> bool {
        chrono_valid(self.secs, self.nanos)
    }

    /// `Utc::now()`.  The result depends on the clock; nothing is promised of
    /// it beyond being an instant chrono can represent.
    #[verifier::external_body]
    fn utc_now() -> (r: Timestamp)
        ensures
            chrono_valid(r@.0, r@.1),
    {
        let dt = chrono::Utc::now();
        Timestamp { secs: dt.timestamp(), nanos: dt.timestamp_subsec_nanos() }
    }

    /// `DateTime::<Utc>::from_timestamp(secs, nanos)`: the instant, when chrono
    /// can represent it.
    #[verifier::external_body]
    fn utc_from_timestamp(secs: i64, nanos: u32) -> (r: Option<Timestamp>)
        ensures
            r is Some == chrono_valid(secs, nanos),
            r matches Some(t) ==> t@ == (secs, nanos),
    {
        match chrono::DateTime::from_timestamp(secs, nanos) {
            Some(_) => Some(Timestamp { secs, nanos }),
            None => None,
        }
    }

    /// The current time.
    pub fn now() -> (r: Timestamp)
        ensures
            chrono_valid(r@.0, r@.1),
    {
        Timestamp::utc_now()
    }

    /// The instant `secs` seconds and `nanos` nanoseconds after the Unix
    /// epoch, when chrono can represent it.
    pub fn from_unix(secs: i64, nanos: u32) -> (r: Option<Timestamp>)
        ensures
            r is Some == chrono_valid(secs, nanos),
            r matches Some(t) ==> t@ == (secs, nanos),
    {
        Timestamp::utc_from_timestamp(secs, nanos)
    }

    pub fn secs(&self) -> (r: i64)
        ensures
            r == self@.0,
    {
        self.secs
    }

    pub fn nanos(&self) -> (r: u32)
        ensures
            r == self@.1,
    {
        self.nanos
    }

    pub fn copy(&self) -> (r: Timestamp)
        ensures
            r@ == self@,
    {
        proof {
            use_type_invariant(self);
        }
        Timestamp { secs: self.secs, nanos: self.nanos }
    }

    /// `self > other` in time.
    pub fn is_later_than(&self, other: &Timestamp) -> (r: bool)
        ensures
            r == later(self@, other@),
    {
        self.secs > other.secs || (self.secs == other.secs && self.nanos > other.nanos)
    }

    /// `DateTime::<Utc>::to_rfc3339`.  RFC 3339 text is a single line.  For
    /// an instant in the years 0000 to 9999 chrono writes a four-digit year,
    /// all the fraction digits that are not zero and a leap second as `:60`,
    /// and `DateTime::parse_from_rfc3339` reads that text back as the same
    /// instant; other years get a sign and five digits, which the parser
    /// refuses, so nothing is said of them.
    #[verifier::external_body]
    pub(crate) fn to_rfc3339(&self) -> (r: String)
        ensures
            r@ == rfc3339_text(self@.0, self@.1),
            !has_char(r@, '\n') && !has_char(r@, '\r'),
            four_digit_year(self@) ==> rfc3339_parse(r@) == Some(self@),
    {
        chrono::DateTime::from_timestamp(self.secs, self.nanos).unwrap().to_rfc3339()
    }

    /// `DateTime::parse_from_rfc3339(s)` converted to UTC; `None` on a parse error.
    #[verifier::external_body]
    pub(crate) fn parse_rfc3339(s: &str) -> (r: Option<Timestamp>)
        ensures
            match r {
                Some(t) => rfc3339_parse(s@) == Some(t@) && chrono_valid(t@.0, t@.1),
                None => rfc3339_parse(s@) is None,
            },
    {
        match chrono::DateTime::parse_from_rfc3339(s) {
            Ok(dt) => {
                let utc = dt.with_timezone(&chrono::Utc);
                Some(Timestamp { secs: utc.timestamp(), nanos: utc.timestamp_subsec_nanos() })
            },
            Err(_) => None,
        }
    }

    /// `DateTime::<Utc>::format(fmt).to_string()`, for the patterns in
    /// `known_format` (an unknown pattern would make `to_string` panic).
    #[verifier::external_body]
    pub(crate) fn format(&self, fmt: &str) -> (r: String)
        requires
            known_format(fmt@),
        ensures
            r@ == chrono_format(self@.0, self@.1, fmt@),
    {
        chrono::DateTime::from_timestamp(self.secs, self.nanos).unwrap().format(fmt).to_string()
    }
}

} // verus!
