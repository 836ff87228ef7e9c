//! Broken-down time and its text in a `Date` header.

use time::Tm;
use vstd::prelude::*;

verus! {

/// A broken-down time. The fields follow the conventions of a C `tm`.
#[derive(Clone, Copy, Debug, PartialEq, Eq, Structural)]
pub struct Timestamp {
    /// Seconds after the minute.
    pub sec: i32,
    /// Minutes after the hour.
    pub min: i32,
    /// Hours after midnight.
    pub hour: i32,
    /// Day of the month, from 1.
    pub mday: i32,
    /// Months since January, 0 to 11.
    pub mon: i32,
    /// Years since 1900.
    pub year: i32,
    /// Days since Sunday, 0 to 6.
    pub wday: i32,
    /// Seconds east of UTC.
    pub utcoff: i32,
}

impl Timestamp {
    /// Whether the time can be written down: the day of the week and the
    /// month have a name, and the year and the offset can be computed with.
    pub open spec fn formattable(self) -> bool {
        &&& 0 <= self.wday <= 6
        &&& 0 <= self.mon <= 11
        &&& self.year + 1900 <= i32::MAX
        &&& self.utcoff > i32::MIN
    }

    pub fn is_formattable(&self) -> (ok: bool)
        ensures
            ok == self.formattable(),
    {
        0 <= self.wday && self.wday <= 6 && 0 <= self.mon && self.mon <= 11 && self.year
            <= i32::MAX - 1900 && self.utcoff > i32::MIN
    }
}

/// The text of `date` in the form of RFC 822 with a numeric zone, as the
/// `time` crate writes it.
pub uninterp spec fn rfc822z_text(date: Timestamp) -> Seq<char>;

/// Formats `date` by `time::Tm::rfc822z`. The text is a function of the eight
/// fields alone and is named `rfc822z_text`. The outside formatter has no
/// name for a day of the week or a month out of range and adds 1900 to the
/// year, so such dates are left out.
#[verifier::external_body]
pub(crate) fn format_rfc822z(date: &Timestamp) -> (text: String)
    requires
        date.formattable(),
    ensures
        text@ == rfc822z_text(*date),
{
    let tm = Tm {
        tm_sec: date.sec,
        tm_min: date.min,
        tm_hour: date.hour,
        tm_mday: date.mday,
        tm_mon: date.mon,
        tm_year: date.year,
        tm_wday: date.wday,
        tm_yday: 0,
        tm_isdst: 0,
        tm_utcoff: date.utcoff,
        tm_nsec: 0,
    };
    tm.rfc822z().to_string()
}

} // verus!
