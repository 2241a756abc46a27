//! Conversions between PDF dates and the `jiff` crate's times.
use jiff::civil::Date as CivilDate;
use jiff::civil::DateTime as CivilDateTime;
use jiff::Error as JiffError;
use jiff::{Timestamp, Zoned};
use vstd::prelude::*;
use vstd::std_specs::convert::{FromSpecImpl, TryFromSpecImpl};
use vstd::utf8::encode_utf8;

use crate::datetime::{last_colon_quoted, DateTime};
use crate::object::{Object, StringFormat};

verus! {

#[verifier::external_type_specification]
#[verifier::external_body]
pub struct ExJiffZoned(Zoned);

#[verifier::external_type_specification]
#[verifier::external_body]
pub struct ExJiffTimestamp(Timestamp);

#[verifier::external_type_specification]
#[verifier::external_body]
pub struct ExJiffCivilDateTime(CivilDateTime);

#[verifier::external_type_specification]
#[verifier::external_body]
pub struct ExJiffCivilDate(CivilDate);

#[verifier::external_type_specification]
#[verifier::external_body]
pub struct ExJiffError(JiffError);

/// What `civil::Date::at` returns for a date and a time of day.
pub uninterp spec fn jiff_date_at(
    date: CivilDate,
    hour: i8,
    minute: i8,
    second: i8,
    subsec_nanosecond: i32,
) -> CivilDateTime;

/// `civil::Date::at`: the date at a time of day. Its documentation says it
/// panics unless the hour is 0 to 23, the minute and second 0 to 59 and the
/// nanosecond 0 to 999,999,999.
pub assume_specification[ CivilDate::at ](
    date: CivilDate,
    hour: i8,
    minute: i8,
    second: i8,
    subsec_nanosecond: i32,
) -> (res: CivilDateTime)
    requires
        0 <= hour <= 23,
        0 <= minute <= 59,
        0 <= second <= 59,
        0 <= subsec_nanosecond <= 999_999_999,
    ensures
        res == jiff_date_at(date, hour, minute, second, subsec_nanosecond),
;

/// What `Zoned::strptime` gives for `text` read with the strftime
/// `pattern`; a function of the two strings alone, for patterns that name
/// no IANA zone.
pub uninterp spec fn jiff_zoned_strptime(pattern: Seq<char>, text: Seq<char>) -> Result<
    Zoned,
    JiffError,
>;

/// What `civil::DateTime::strptime` gives for `text` read with the strftime
/// `pattern`; a function of the two strings alone.
pub uninterp spec fn jiff_civil_datetime_strptime(pattern: Seq<char>, text: Seq<char>) -> Result<
    CivilDateTime,
    JiffError,
>;

/// What `civil::Date::strptime` gives for `text` read with the strftime
/// `pattern`; a function of the two strings alone.
pub uninterp spec fn jiff_civil_date_strptime(pattern: Seq<char>, text: Seq<char>) -> Result<
    CivilDate,
    JiffError,
>;

/// That `outcome` came back from `civil::DateTime::in_tz` for the civil
/// time and the zone name. The zone is looked up in the time zone database
/// that jiff finds on the machine, so this is a record of the call rather
/// than a function of its arguments: nothing says which outcome that is.
pub uninterp spec fn jiff_in_tz_gave(
    date: CivilDateTime,
    zone: Seq<char>,
    outcome: Result<Zoned, JiffError>,
) -> bool;

/// What `Zoned::strftime` writes, through `to_string`, for the time and the
/// strftime pattern; a function of the two alone.
pub uninterp spec fn jiff_zoned_strftime(date: Zoned, pattern: Seq<char>) -> Seq<char>;

/// What `Timestamp::strftime` writes, through `to_string`, for the instant
/// and the strftime pattern; a function of the two alone.
pub uninterp spec fn jiff_timestamp_strftime(date: Timestamp, pattern: Seq<char>) -> Seq<char>;

/// `Zoned::strptime`, for the two patterns that this library reads zoned
/// times with, which give the offset and name no IANA zone.
#[verifier::external_body]
fn zoned_strptime(pattern: &str, text: &str) -> (parsed: Result<Zoned, JiffError>)
    requires
        pattern@ == "%Y%m%d%H%M%S%#z"@ || pattern@ == "%Y%m%d%H%M%#z"@,
    ensures
        parsed == jiff_zoned_strptime(pattern@, text@),
{
    Zoned::strptime(pattern, text)
}

/// `civil::DateTime::strptime`.
#[verifier::external_body]
fn civil_datetime_strptime(pattern: &str, text: &str) -> (parsed: Result<
    CivilDateTime,
    JiffError,
>)
    ensures
        parsed == jiff_civil_datetime_strptime(pattern@, text@),
{
    CivilDateTime::strptime(pattern, text)
}

/// `civil::Date::strptime`.
#[verifier::external_body]
fn civil_date_strptime(pattern: &str, text: &str) -> (parsed: Result<CivilDate, JiffError>)
    ensures
        parsed == jiff_civil_date_strptime(pattern@, text@),
{
    CivilDate::strptime(pattern, text)
}

/// `civil::DateTime::in_tz`: the civil time in the named zone, looked up in
/// the machine's time zone database; which outcome comes back is not stated.
#[verifier::external_body]
fn civil_in_tz(date: CivilDateTime, zone: &str) -> (zoned: Result<Zoned, JiffError>)
    ensures
        jiff_in_tz_gave(date, zone@, zoned),
{
    date.in_tz(zone)
}

/// `Zoned::strftime` with `to_string`, for the pattern that this library
/// writes zoned times with. jiff formats leniently and supports every
/// specifier in it, so `to_string` does not panic.
#[verifier::external_body]
fn zoned_strftime(date: &Zoned, pattern: &str) -> (text: String)
    requires
        pattern@ == "D:%Y%m%d%H%M%S%:z'"@,
    ensures
        text@ == jiff_zoned_strftime(*date, pattern@),
{
    date.strftime(pattern).to_string()
}

/// `Timestamp::strftime` with `to_string`, for the pattern that this
/// library writes timestamps with; as for `zoned_strftime`, it does not
/// panic.
#[verifier::external_body]
fn timestamp_strftime(date: &Timestamp, pattern: &str) -> (text: String)
    requires
        pattern@ == "D:%Y%m%d%H%M%SZ"@,
    ensures
        text@ == jiff_timestamp_strftime(*date, pattern@),
{
    date.strftime(pattern).to_string()
}

impl From<Zoned> for Object {
    /// The zoned time in PDF form: jiff writes `D:%Y%m%d%H%M%S%:z'`, and the
    /// colon of the offset becomes an apostrophe.
    fn from(date: Zoned) -> (object: Object)
        ensures
            object matches Object::String(bytes, StringFormat::Literal) && bytes@
                == last_colon_quoted(encode_utf8(jiff_zoned_strftime(date, "D:%Y%m%d%H%M%S%:z'"@))),
    {
        let text = zoned_strftime(&date, "D:%Y%m%d%H%M%S%:z'");
        Object::from_offset_text(text.as_str())
    }
}

impl FromSpecImpl<Zoned> for Object {
    /// The bytes stand in a `Vec`, of which spec code knows only the view,
    /// so `from` is stated by its own `ensures` rather than here.
    open spec fn obeys_from_spec() -> bool {
        false
    }

    open spec fn from_spec(v: Zoned) -> Object {
        arbitrary()
    }
}

impl From<Timestamp> for Object {
    /// The instant in PDF form at UT, `D:%Y%m%d%H%M%SZ`, as a literal
    /// string.
    fn from(date: Timestamp) -> (object: Object)
        ensures
            object matches Object::String(bytes, StringFormat::Literal) && bytes@ == encode_utf8(
                jiff_timestamp_strftime(date, "D:%Y%m%d%H%M%SZ"@),
            ),
    {
        let text = timestamp_strftime(&date, "D:%Y%m%d%H%M%SZ");
        Object::string_literal(text.as_str())
    }
}

impl FromSpecImpl<Timestamp> for Object {
    /// The bytes stand in a `Vec`, of which spec code knows only the view,
    /// so `from` is stated by its own `ensures` rather than here.
    open spec fn obeys_from_spec() -> bool {
        false
    }

    open spec fn from_spec(v: Timestamp) -> Object {
        arbitrary()
    }
}

/// What jiff reads date text as, given the outcomes of the zone lookups:
/// the first of these that reads,
/// 1. the full date and time with an offset, `%Y%m%d%H%M%S%#z`;
/// 2. the full date and time with `Z`, in UTC (`at_utc`, when it succeeds);
/// 3. the date and time without seconds, with an offset;
/// 4. the date and time without seconds, with `Z`, in UTC (`short_at_utc`,
///    when it succeeds);
/// 5. the date alone, at midnight GMT (`date_at_gmt`, its outcome whatever
///    it is); else the error of reading the date.
pub open spec fn jiff_reading(
    text: Seq<char>,
    at_utc: Result<Zoned, JiffError>,
    short_at_utc: Result<Zoned, JiffError>,
    date_at_gmt: Result<Zoned, JiffError>,
) -> Result<Zoned, JiffError> {
    if let Ok(zoned) = jiff_zoned_strptime("%Y%m%d%H%M%S%#z"@, text) {
        Ok(zoned)
    } else if jiff_civil_datetime_strptime("%Y%m%d%H%M%SZ"@, text) is Ok && at_utc is Ok {
        at_utc
    } else if let Ok(zoned) = jiff_zoned_strptime("%Y%m%d%H%M%#z"@, text) {
        Ok(zoned)
    } else if jiff_civil_datetime_strptime("%Y%m%d%H%MZ"@, text) is Ok && short_at_utc is Ok {
        short_at_utc
    } else {
        match jiff_civil_date_strptime("%Y%m%d"@, text) {
            Ok(_) => date_at_gmt,
            Err(e) => Err(e),
        }
    }
}

/// The zone lookups that reading `text` makes came back with these
/// outcomes: `UTC` for the civil time of the second form, and of the fourth,
/// and `GMT` for midnight of the date of the fifth, each when the forms
/// before it gave nothing and that form reads.
pub open spec fn jiff_lookups(
    text: Seq<char>,
    at_utc: Result<Zoned, JiffError>,
    short_at_utc: Result<Zoned, JiffError>,
    date_at_gmt: Result<Zoned, JiffError>,
) -> bool {
    let first_fails = jiff_zoned_strptime("%Y%m%d%H%M%S%#z"@, text) is Err;
    let second_fails = !(jiff_civil_datetime_strptime("%Y%m%d%H%M%SZ"@, text) is Ok
        && at_utc is Ok);
    let third_fails = jiff_zoned_strptime("%Y%m%d%H%M%#z"@, text) is Err;
    let fourth_fails = !(jiff_civil_datetime_strptime("%Y%m%d%H%MZ"@, text) is Ok
        && short_at_utc is Ok);
    &&& first_fails ==> (jiff_civil_datetime_strptime("%Y%m%d%H%M%SZ"@, text) matches Ok(civil)
        ==> jiff_in_tz_gave(civil, "UTC"@, at_utc))
    &&& first_fails && second_fails && third_fails ==> (jiff_civil_datetime_strptime(
        "%Y%m%d%H%MZ"@,
        text,
    ) matches Ok(civil) ==> jiff_in_tz_gave(civil, "UTC"@, short_at_utc))
    &&& first_fails && second_fails && third_fails && fourth_fails ==> (jiff_civil_date_strptime(
        "%Y%m%d"@,
        text,
    ) matches Ok(date) ==> jiff_in_tz_gave(jiff_date_at(date, 0, 0, 0, 0), "GMT"@, date_at_gmt))
}

/// The first of the five forms that gives a zoned time decides what the
/// text reads as, and each zone lookup is made with the time its form read:
/// 1. the full form with an offset gives its own zoned time;
/// 2. the full form with `Z` is looked up in `UTC` as the civil time it
///    read, and gives that lookup when it succeeds;
/// 3. the form without seconds with an offset gives its own zoned time;
/// 4. the form without seconds with `Z` is looked up in `UTC` as the civil
///    time it read, and gives that lookup when it succeeds;
/// 5. a date alone is looked up in `GMT` at 00:00:00.0 of that date, and
///    gives that lookup, whatever it is.
/// When none of the five reads, the reading is an error.
pub proof fn lemma_first_form_that_reads_decides(
    text: Seq<char>,
    at_utc: Result<Zoned, JiffError>,
    short_at_utc: Result<Zoned, JiffError>,
    date_at_gmt: Result<Zoned, JiffError>,
)
    requires
        jiff_lookups(text, at_utc, short_at_utc, date_at_gmt),
    ensures
        ({
            let reading = jiff_reading(text, at_utc, short_at_utc, date_at_gmt);
            let full_zoned = jiff_zoned_strptime("%Y%m%d%H%M%S%#z"@, text);
            let full_civil = jiff_civil_datetime_strptime("%Y%m%d%H%M%SZ"@, text);
            let short_zoned = jiff_zoned_strptime("%Y%m%d%H%M%#z"@, text);
            let short_civil = jiff_civil_datetime_strptime("%Y%m%d%H%MZ"@, text);
            let date = jiff_civil_date_strptime("%Y%m%d"@, text);
            let full_civil_gives = full_civil is Ok && at_utc is Ok;
            let short_civil_gives = short_civil is Ok && short_at_utc is Ok;
            &&& full_zoned matches Ok(z) ==> reading == Ok::<Zoned, JiffError>(z)
            &&& full_zoned is Err ==> (full_civil matches Ok(civil) ==> jiff_in_tz_gave(
                civil,
                "UTC"@,
                at_utc,
            ) && (at_utc is Ok ==> reading == at_utc))
            &&& full_zoned is Err && !full_civil_gives ==> (short_zoned matches Ok(z) ==> reading
                == Ok::<Zoned, JiffError>(z))
            &&& full_zoned is Err && !full_civil_gives && short_zoned is Err ==> (
            short_civil matches Ok(civil) ==> jiff_in_tz_gave(civil, "UTC"@, short_at_utc) && (
            short_at_utc is Ok ==> reading == short_at_utc))
            &&& full_zoned is Err && !full_civil_gives && short_zoned is Err && !short_civil_gives
                ==> (date matches Ok(d) ==> jiff_in_tz_gave(
                jiff_date_at(d, 0, 0, 0, 0),
                "GMT"@,
                date_at_gmt,
            ) && reading == date_at_gmt)
            &&& full_zoned is Err && full_civil is Err && short_zoned is Err && short_civil is Err
                && date is Err ==> reading is Err
        }),
{
}

impl TryFrom<DateTime> for Zoned {
    type Error = JiffError;

    /// Reads the date text in the forms of the PDF date format; see
    /// [`jiff_reading`]. The zones UTC and GMT come from jiff's time zone
    /// database, so the contract speaks of the outcomes of those lookups,
    /// whatever they were: the full form with an offset gives its own zoned
    /// time, and success means one of the five forms read.
    fn try_from(value: DateTime) -> (zoned: Result<Zoned, JiffError>)
        ensures
            exists|at_utc: Result<Zoned, JiffError>, short_at_utc: Result<Zoned, JiffError>, date_at_gmt: Result<Zoned, JiffError>|
                #![trigger jiff_reading(value@, at_utc, short_at_utc, date_at_gmt)]
                jiff_lookups(value@, at_utc, short_at_utc, date_at_gmt) && zoned == jiff_reading(
                    value@,
                    at_utc,
                    short_at_utc,
                    date_at_gmt,
                ),
            jiff_zoned_strptime("%Y%m%d%H%M%S%#z"@, value@) matches Ok(z) ==> zoned == Ok::<
                Zoned,
                JiffError,
            >(z),
            zoned is Ok ==> jiff_zoned_strptime("%Y%m%d%H%M%S%#z"@, value@) is Ok
                || jiff_civil_datetime_strptime("%Y%m%d%H%M%SZ"@, value@) is Ok
                || jiff_zoned_strptime("%Y%m%d%H%M%#z"@, value@) is Ok
                || jiff_civil_datetime_strptime("%Y%m%d%H%MZ"@, value@) is Ok
                || jiff_civil_date_strptime("%Y%m%d"@, value@) is Ok,
    {
        let text = value.as_str();
        let ghost mut at_utc: Result<Zoned, JiffError> = arbitrary();
        let ghost mut short_at_utc: Result<Zoned, JiffError> = arbitrary();
        let ghost mut date_at_gmt: Result<Zoned, JiffError> = arbitrary();
        if let Ok(zoned) = zoned_strptime("%Y%m%d%H%M%S%#z", text) {
            let result = Ok(zoned);
            proof {
                lemma_witness(value@, at_utc, short_at_utc, date_at_gmt, result);
            }
            return result;
        }
        if let Ok(civil) = civil_datetime_strptime("%Y%m%d%H%M%SZ", text) {
            let outcome = civil_in_tz(civil, "UTC");
            proof {
                at_utc = outcome;
            }
            if let Ok(zoned) = outcome {
                let result = Ok(zoned);
                proof {
                    lemma_witness(value@, at_utc, short_at_utc, date_at_gmt, result);
                }
                return result;
            }
        }
        if let Ok(zoned) = zoned_strptime("%Y%m%d%H%M%#z", text) {
            let result = Ok(zoned);
            proof {
                lemma_witness(value@, at_utc, short_at_utc, date_at_gmt, result);
            }
            return result;
        }
        if let Ok(civil) = civil_datetime_strptime("%Y%m%d%H%MZ", text) {
            let outcome = civil_in_tz(civil, "UTC");
            proof {
                short_at_utc = outcome;
            }
            if let Ok(zoned) = outcome {
                let result = Ok(zoned);
                proof {
                    lemma_witness(value@, at_utc, short_at_utc, date_at_gmt, result);
                }
                return result;
            }
        }
        let result = match civil_date_strptime("%Y%m%d", text) {
            Ok(date) => civil_in_tz(date.at(0, 0, 0, 0), "GMT"),
            Err(e) => Err(e),
        };
        proof {
            if jiff_civil_date_strptime("%Y%m%d"@, value@) is Ok {
                date_at_gmt = result;
            }
            lemma_witness(value@, at_utc, short_at_utc, date_at_gmt, result);
        }
        result
    }
}

/// Outcomes of the lookups for which `result` is what reading `text` gives
/// witness the existential in the contract of `try_from`.
proof fn lemma_witness(
    text: Seq<char>,
    at_utc: Result<Zoned, JiffError>,
    short_at_utc: Result<Zoned, JiffError>,
    date_at_gmt: Result<Zoned, JiffError>,
    result: Result<Zoned, JiffError>,
)
    requires
        jiff_lookups(text, at_utc, short_at_utc, date_at_gmt),
        result == jiff_reading(text, at_utc, short_at_utc, date_at_gmt),
    ensures
        exists|a: Result<Zoned, JiffError>, b: Result<Zoned, JiffError>, c: Result<Zoned, JiffError>|
            #![trigger jiff_reading(text, a, b, c)]
            jiff_lookups(text, a, b, c) && result == jiff_reading(text, a, b, c),
{
}

impl TryFromSpecImpl<DateTime> for Zoned {
    /// The outcome of the zone lookups is not a function of the text, so
    /// `try_from` is stated by its own `ensures` rather than here.
    open spec fn obeys_try_from_spec() -> bool {
        false
    }

    open spec fn try_from_spec(v: DateTime) -> Result<Zoned, JiffError> {
        arbitrary()
    }
}

} // verus!
