//! Date text read with the `chrono` crate.
use chrono::DateTime as ZonedDateTime;
use chrono::{FixedOffset, NaiveDate, NaiveDateTime, NaiveTime};
use vstd::prelude::*;

use crate::datetime::DateTime;

verus! {

#[verifier::external_type_specification]
#[verifier::external_body]
pub struct ExChronoFixedOffset(FixedOffset);

#[verifier::external_type_specification]
#[verifier::external_body]
pub struct ExChronoNaiveDate(NaiveDate);

#[verifier::external_type_specification]
#[verifier::external_body]
pub struct ExChronoNaiveTime(NaiveTime);

#[verifier::external_type_specification]
#[verifier::external_body]
pub struct ExChronoNaiveDateTime(NaiveDateTime);

#[verifier::external_type_specification]
#[verifier::external_body]
pub struct ExChronoParseError(chrono::format::ParseError);

/// What `FixedOffset::east_opt` returns for `secs`.
pub uninterp spec fn chrono_east_opt(secs: i32) -> Option<FixedOffset>;

/// What `NaiveTime::from_hms_opt` returns for an hour, minute and second.
pub uninterp spec fn chrono_hms_opt(hour: u32, min: u32, sec: u32) -> Option<NaiveTime>;

/// What `NaiveDate::and_time` returns for a date and a time of day.
pub uninterp spec fn chrono_and_time(date: NaiveDate, time: NaiveTime) -> NaiveDateTime;

/// `FixedOffset::east_opt`: the offset of `secs` seconds east of UTC, which
/// exists exactly when it is less than a day either way.
pub assume_specification[ FixedOffset::east_opt ](secs: i32) -> (offset: Option<FixedOffset>)
    ensures
        offset == chrono_east_opt(secs),
        offset is Some <==> -86_400 < secs < 86_400,
;

/// `NaiveTime::from_hms_opt`: a time of day, which exists exactly when the
/// hour is below 24 and the minute and second below 60.
pub assume_specification[ NaiveTime::from_hms_opt ](hour: u32, min: u32, sec: u32) -> (res: Option<
    NaiveTime,
>)
    ensures
        res == chrono_hms_opt(hour, min, sec),
        res is Some <==> (hour < 24 && min < 60 && sec < 60),
;

/// `NaiveDate::and_time`: the date at the given time of day.
pub assume_specification[ NaiveDate::and_time ](date: &NaiveDate, time: NaiveTime) -> (res:
    NaiveDateTime)
    ensures
        res == chrono_and_time(*date, time),
;

/// What `DateTime::parse_from_str` gives for `text` read with the strftime
/// `pattern`, the parsed time taken apart into its UTC date and time and its
/// offset; a function of the two strings alone.
pub uninterp spec fn chrono_parse_datetime(text: Seq<char>, pattern: Seq<char>) -> Result<
    (NaiveDateTime, FixedOffset),
    chrono::format::ParseError,
>;

/// What `NaiveDate::parse_from_str` gives for `text` read with the strftime
/// `pattern`; a function of the two strings alone.
pub uninterp spec fn chrono_parse_date(text: Seq<char>, pattern: Seq<char>) -> Result<
    NaiveDate,
    chrono::format::ParseError,
>;

/// `DateTime::<FixedOffset>::parse_from_str`, the parsed time taken apart
/// into its UTC date and time and its offset (`naive_utc` and `offset`).
#[verifier::external_body]
fn parse_fixed_datetime(text: &str, pattern: &str) -> (parsed: Result<
    (NaiveDateTime, FixedOffset),
    chrono::format::ParseError,
>)
    ensures
        parsed == chrono_parse_datetime(text@, pattern@),
{
    match ZonedDateTime::parse_from_str(text, pattern) {
        Ok(date) => Ok((date.naive_utc(), *date.offset())),
        Err(e) => Err(e),
    }
}

/// `NaiveDate::parse_from_str`.
#[verifier::external_body]
fn parse_naive_date(text: &str, pattern: &str) -> (parsed: Result<
    NaiveDate,
    chrono::format::ParseError,
>)
    ensures
        parsed == chrono_parse_date(text@, pattern@),
{
    NaiveDate::parse_from_str(text, pattern)
}

/// What chrono reads date text as: the first of `%Y%m%d%H%M%S%#z` and
/// `%Y%m%d%H%M%#z` that reads, as its UTC date and time and its offset;
/// else the date `%Y%m%d` at midnight (`from_hms_opt(0, 0, 0)`) with the
/// offset of zero seconds (`east_opt(0)`); else the error of reading the
/// date.
pub open spec fn chrono_reading(text: Seq<char>) -> Result<
    (NaiveDateTime, FixedOffset),
    chrono::format::ParseError,
> {
    match chrono_parse_datetime(text, "%Y%m%d%H%M%S%#z"@) {
        Ok(parts) => Ok(parts),
        Err(_) => match chrono_parse_datetime(text, "%Y%m%d%H%M%#z"@) {
            Ok(parts) => Ok(parts),
            Err(_) => match chrono_parse_date(text, "%Y%m%d"@) {
                Ok(date) => Ok((chrono_and_time(date, chrono_hms_opt(0, 0, 0)->0), chrono_east_opt(0)->0)),
                Err(e) => Err(e),
            },
        },
    }
}

impl DateTime {
    /// The instant that the date text writes, for chrono: its UTC date and
    /// time and the offset written with it; see [`chrono_reading`]. It fails
    /// exactly when none of the three patterns reads.
    pub fn chrono_parts(&self) -> (parts: Result<(NaiveDateTime, FixedOffset), chrono::format::ParseError>)
        ensures
            parts == chrono_reading(self@),
            parts is Ok <==> chrono_parse_datetime(self@, "%Y%m%d%H%M%S%#z"@) is Ok
                || chrono_parse_datetime(self@, "%Y%m%d%H%M%#z"@) is Ok || chrono_parse_date(
                self@,
                "%Y%m%d"@,
            ) is Ok,
    {
        let text = self.as_str();
        match parse_fixed_datetime(text, "%Y%m%d%H%M%S%#z") {
            Ok(parts) => Ok(parts),
            Err(_) => match parse_fixed_datetime(text, "%Y%m%d%H%M%#z") {
                Ok(parts) => Ok(parts),
                Err(_) => match parse_naive_date(text, "%Y%m%d") {
                    Ok(date) => {
                        let utc = FixedOffset::east_opt(0).unwrap();
                        let midnight = NaiveTime::from_hms_opt(0, 0, 0).unwrap();
                        Ok((date.and_time(midnight), utc))
                    },
                    Err(e) => Err(e),
                },
            },
        }
    }
}

} // verus!
