//! The current time and its RFC 3339 text form, through the `time` crate.

use vstd::prelude::*;
use time::OffsetDateTime;
use time::format_description::well_known::Rfc3339;
use crate::date::{Date, Month, valid_ymd};

verus! {

#[verifier::external_type_specification]
#[verifier::external_body]
pub struct ExOffsetDateTime(OffsetDateTime);

/// Relies on `OffsetDateTime::now_utc`, the system clock: nothing is known of
/// the instant it returns.
#[verifier::external_body]
fn clock_now() -> OffsetDateTime {
    OffsetDateTime::now_utc()
}

/// Relies on `OffsetDateTime::truncate_to_second`: the same instant with the
/// subsecond part set to zero.
#[verifier::external_body]
fn whole_seconds(t: OffsetDateTime) -> OffsetDateTime {
    t.truncate_to_second()
}

/// Whether `OffsetDateTime::parse` with the RFC 3339 description accepts a text.
pub uninterp spec fn rfc3339_accepts(s: Seq<char>) -> bool;

/// Relies on `OffsetDateTime::format` with `Rfc3339`. It fails for years
/// outside 0 to 9999 and for offsets with seconds; the text it writes is of
/// the grammar that `OffsetDateTime::parse` with `Rfc3339` reads.
#[verifier::external_body]
fn rfc3339_format(t: &OffsetDateTime) -> (r: Option<String>)
    ensures
        r matches Some(s) ==> rfc3339_accepts(s@),
{
    t.format(&Rfc3339).ok()
}

/// Relies on `OffsetDateTime::parse` with `Rfc3339`.
#[verifier::external_body]
fn rfc3339_parse(s: &str) -> (r: Option<OffsetDateTime>)
    ensures
        r is Some <==> rfc3339_accepts(s@),
{
    OffsetDateTime::parse(s, &Rfc3339).ok()
}

/// Relies on `OffsetDateTime::date`, and on `time::Date` holding only dates
/// of years -9999 to 9999 (its `large-dates` feature is off).
#[verifier::external_body]
fn calendar_date_of(t: &OffsetDateTime) -> (r: (i32, u8, u8))
    ensures
        valid_ymd(r.0 as int, r.1 as int, r.2 as int),
{
    let d = t.date();
    (d.year(), u8::from(d.month()), d.day())
}

/// Failures of the time helpers.
#[derive(Debug, Clone, PartialEq, Eq)]
pub enum TimeError {
    /// The instant has no RFC 3339 form.
    TimeFormatFail,
    /// The text is not an RFC 3339 date and time.
    UtcFailParse(String),
}

/// The current instant in UTC.
pub fn now_utc() -> OffsetDateTime {
    clock_now()
}

/// The current instant in UTC, to the whole second.
pub fn now_utc_seconds() -> OffsetDateTime {
    whole_seconds(clock_now())
}

/// Today's date in UTC.
pub fn current_date() -> (r: Date)
    ensures
        r.wf(),
{
    let (y, m, d) = calendar_date_of(&now_utc());
    let month = Month::from_number(m).unwrap();
    Date::from_calendar_date(y, month, d).unwrap()
}

/// The RFC 3339 text of an instant.
pub fn format_time(time: OffsetDateTime) -> (r: Result<String, TimeError>)
    ensures
        match r {
            Ok(s) => rfc3339_accepts(s@),
            Err(e) => e == TimeError::TimeFormatFail,
        },
{
    match rfc3339_format(&time) {
        Some(s) => Ok(s),
        None => Err(TimeError::TimeFormatFail),
    }
}

/// Reads an RFC 3339 date and time.
pub fn parse_utc(moment: &str) -> (r: Result<OffsetDateTime, TimeError>)
    ensures
        r is Ok <==> rfc3339_accepts(moment@),
        r matches Err(TimeError::UtcFailParse(m)) ==> m@ == moment@,
        r is Err ==> r matches Err(TimeError::UtcFailParse(_)),
{
    match rfc3339_parse(moment) {
        Some(t) => Ok(t),
        None => Err(TimeError::UtcFailParse(moment.to_owned())),
    }
}

} // verus!
