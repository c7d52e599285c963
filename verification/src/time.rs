//! Calendar days as plain values, and the two clock-dependent conversions
//! the pipeline needs. Which calendar day a timestamp falls on depends on
//! the machine's local time zone, so neither conversion promises a
//! particular day; everything downstream is verified for every day they
//! may hand back.

use vstd::prelude::*;

verus! {

/// One local calendar day.
#[derive(Clone, Copy, Debug, PartialEq, Eq, Structural)]
pub struct DateYmd {
    pub year: i32,
    pub month: u32,
    pub day: u32,
}

/// A year, month and day in their calendar ranges.
pub open spec fn valid_ymd(d: DateYmd) -> bool {
    1 <= d.month <= 12 && 1 <= d.day <= 31
}

/// Relies on chrono::Local::now and chrono::Datelike (year, month, day):
/// the local calendar day at the moment of the call. Datelike documents
/// month as 1..=12 and day as 1..=31; nothing more holds of a clock
/// reading.
#[verifier::external_body]
pub(crate) fn local_today() -> (r: DateYmd)
    ensures
        valid_ymd(r),
{
    let now = chrono::Local::now();
    DateYmd {
        year: chrono::Datelike::year(&now),
        month: chrono::Datelike::month(&now),
        day: chrono::Datelike::day(&now),
    }
}

/// Relies on chrono::DateTime::parse_from_rfc3339 and
/// DateTime::with_timezone(&Local): the local calendar day the timestamp
/// falls on, `None` when the text is not a valid RFC 3339 timestamp. The
/// day depends on the machine's time zone, so only its calendar ranges
/// are stated.
#[verifier::external_body]
pub(crate) fn local_day_of_rfc3339(timestamp: &str) -> (r: Option<DateYmd>)
    ensures
        match r {
            Some(d) => valid_ymd(d),
            None => true,
        },
{
    match chrono::DateTime::parse_from_rfc3339(timestamp) {
        Ok(dt) => {
            let local = dt.with_timezone(&chrono::Local);
            Some(DateYmd {
                year: chrono::Datelike::year(&local),
                month: chrono::Datelike::month(&local),
                day: chrono::Datelike::day(&local),
            })
        },
        Err(_) => None,
    }
}

} // verus!
