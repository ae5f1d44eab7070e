//! Points in time and spans of time.

use vstd::prelude::*;

verus! {

/// A span of time, in nanoseconds.
#[derive(Debug, Clone, Copy, PartialEq, Eq, Structural)]
pub struct Duration {
    pub nanos: u128,
}

impl Duration {
    /// The length of the span in nanoseconds.
    pub open spec fn view(&self) -> nat {
        self.nanos as nat
    }

    /// A span of whole milliseconds.
    pub fn from_millis(millis: u64) -> (r: Self)
        ensures
            r@ == millis * 1_000_000,
    {
        Duration { nanos: (millis as u128) * 1_000_000 }
    }

    /// A span of whole seconds.
    pub fn from_secs(secs: u64) -> (r: Self)
        ensures
            r@ == secs * 1_000_000_000,
    {
        Duration { nanos: (secs as u128) * 1_000_000_000 }
    }

    /// The shorter of two spans.
    pub fn shorter(self, other: Self) -> (r: Self)
        ensures
            r@ == if self@ <= other@ { self@ } else { other@ },
    {
        if self.nanos <= other.nanos {
            self
        } else {
            other
        }
    }

    /// The longer of two spans.
    pub fn longer(self, other: Self) -> (r: Self)
        ensures
            r@ == if self@ >= other@ { self@ } else { other@ },
    {
        if self.nanos >= other.nanos {
            self
        } else {
            other
        }
    }

    /// Whether this span is at least as long as another.
    pub fn reaches(self, other: Self) -> (r: bool)
        ensures
            r == (self@ >= other@),
    {
        self.nanos >= other.nanos
    }
}

/// A point in time, as its RFC 3339 text in UTC.
#[derive(Debug, PartialEq, Eq)]
pub struct Timestamp {
    pub rfc3339: String,
}

impl View for Timestamp {
    type V = Seq<char>;

    open spec fn view(&self) -> Seq<char> {
        self.rfc3339@
    }
}

impl DeepView for Timestamp {
    type V = Seq<char>;

    open spec fn deep_view(&self) -> Seq<char> {
        self@
    }
}

impl Clone for Timestamp {
    fn clone(&self) -> (r: Self)
        ensures
            r == *self,
    {
        Timestamp { rfc3339: self.rfc3339.clone() }
    }
}

/// Whether the characters `from..to` of a text are decimal digits.
pub open spec fn digits(t: Seq<char>, from: int, to: int) -> bool {
    forall|i: int| from <= i < to ==> '0' <= #[trigger] t[i] <= '9'
}

/// Whether a text is a date, a time of day and the mark of UTC, with a year of the
/// given width: four digits, or a sign and more than three digits for a year that
/// four digits do not hold. The seconds have three, six, nine or no decimals.
pub open spec fn utc_text_with_year(t: Seq<char>, year: int) -> bool {
    let decimals = t.len() - year - 17;
    &&& year >= 4
    &&& if year == 4 {
        digits(t, 0, year)
    } else {
        (t[0] == '+' || t[0] == '-') && digits(t, 1, year)
    }
    &&& t[year] == '-' && digits(t, year + 1, year + 3)
    &&& t[year + 3] == '-' && digits(t, year + 4, year + 6)
    &&& t[year + 6] == 'T' && digits(t, year + 7, year + 9)
    &&& t[year + 9] == ':' && digits(t, year + 10, year + 12)
    &&& t[year + 12] == ':' && digits(t, year + 13, year + 15)
    &&& decimals == -1 || ((decimals == 3 || decimals == 6 || decimals == 9) && t[year + 15] == '.'
        && digits(t, year + 16, year + 16 + decimals))
    &&& t.last() == 'Z'
}

/// Whether a text has the form of a point in time in UTC.
pub open spec fn utc_text(t: Seq<char>) -> bool {
    exists|year: int| utc_text_with_year(t, year)
}

/// `chrono::Utc::now`, written with `to_rfc3339_opts` as chrono serialises a
/// time: a date, a time of day with decimals of the seconds only as far as they are
/// needed, and `Z` for the offset. Which time it is, is the machine's and not claimed.
#[verifier::external_body]
fn utc_now_text() -> (r: String)
    ensures
        utc_text(r@),
{
    chrono::Utc::now().to_rfc3339_opts(chrono::SecondsFormat::AutoSi, true)
}

impl Timestamp {
    /// The current time.
    pub fn now() -> (r: Self)
        ensures
            utc_text(r@),
    {
        Timestamp { rfc3339: utc_now_text() }
    }
}

} // verus!
