//! Conversions between PDF dates and the `time` crate's date-times.
use time::error::{Format as FormatError, InvalidFormatDescription, Parse as ParseError};
use time::format_description::FormatDescriptionV3;
use time::Error as TimeError;
use time::{OffsetDateTime, PlainDateTime};
use vstd::prelude::*;
use vstd::std_specs::convert::{FromSpecImpl, TryFromSpecImpl};
use vstd::utf8::encode_utf8;

use crate::datetime::DateTime;
use crate::object::{Object, StringFormat};

verus! {

#[verifier::external_type_specification]
#[verifier::external_body]
pub struct ExTimePlainDateTime(PlainDateTime);

#[verifier::external_type_specification]
#[verifier::external_body]
pub struct ExTimeOffsetDateTime(OffsetDateTime);

#[verifier::external_type_specification]
#[verifier::external_body]
pub struct ExTimeFormatDescription<'a>(FormatDescriptionV3<'a>);

#[verifier::external_type_specification]
#[verifier::external_body]
pub struct ExTimeInvalidFormatDescription(InvalidFormatDescription);

#[verifier::external_type_specification]
#[verifier::external_body]
pub struct ExTimeFormatError(FormatError);

#[verifier::external_type_specification]
#[verifier::external_body]
pub struct ExTimeParseError(ParseError);

#[verifier::external_type_specification]
#[verifier::external_body]
pub struct ExTimeError(TimeError);

/// The description that a naive date-time is written with: the PDF form at
/// UT, `D:YYYYMMDDHHmmSSZ`.
pub open spec fn naive_pdf_description() -> Seq<char> {
    "D:[year][month][day][hour][minute][second]Z"@
}

/// The description that a date-time with an offset is written with: the
/// PDF form, `D:YYYYMMDDHHmmSS+HH'mm'`.
pub open spec fn offset_pdf_description() -> Seq<char> {
    "D:[year][month][day][hour][minute][second][offset_hour sign:mandatory]'[offset_minute]'"@
}

/// The description that date text is read with: the PDF form without `D`,
/// `:` and `'`, with an offset.
pub open spec fn offset_text_description() -> Seq<char> {
    "[year][month][day][hour][minute][second][offset_hour sign:mandatory][offset_minute]"@
}

/// The fields of the PDF form as `time` components, in order: year, month,
/// day, hour, minute and second, each bare, so with `time`'s default
/// numeric form, zero-padded to four digits for the year and two for the
/// others.
pub open spec fn pdf_field_components() -> Seq<char> {
    "[year][month][day][hour][minute][second]"@
}

/// The three descriptions agree with one another and with the PDF form:
/// - a naive date-time is written as `D:`, the six fields, and `Z`;
/// - a date-time with an offset is written as `D:`, the same six fields,
///   then the offset's hours and minutes each followed by an apostrophe;
/// - date text is read with the same fields and the same offset components,
///   without the `D:` and the apostrophes that writing adds as literals and
///   that reading a date removes.
pub proof fn lemma_descriptions_agree()
    ensures
        naive_pdf_description() == "D:"@ + pdf_field_components() + "Z"@,
        exists|hours: Seq<char>, minutes: Seq<char>|
            #![trigger pdf_field_components() + hours + minutes]
            offset_pdf_description() == "D:"@ + pdf_field_components() + hours + "'"@ + minutes
                + "'"@ && offset_text_description() == pdf_field_components() + hours + minutes,
{
    let hours = "[offset_hour sign:mandatory]"@;
    let minutes = "[offset_minute]"@;
    reveal_strlit("D:[year][month][day][hour][minute][second]Z");
    reveal_strlit(
        "D:[year][month][day][hour][minute][second][offset_hour sign:mandatory]'[offset_minute]'",
    );
    reveal_strlit(
        "[year][month][day][hour][minute][second][offset_hour sign:mandatory][offset_minute]",
    );
    reveal_strlit("[year][month][day][hour][minute][second]");
    reveal_strlit("D:");
    reveal_strlit("Z");
    reveal_strlit("'");
    reveal_strlit("[offset_hour sign:mandatory]");
    reveal_strlit("[offset_minute]");
    assert(naive_pdf_description() =~= "D:"@ + pdf_field_components() + "Z"@);
    assert(offset_pdf_description() =~= "D:"@ + pdf_field_components() + hours + "'"@ + minutes
        + "'"@);
    assert(offset_text_description() =~= pdf_field_components() + hours + minutes);
}

/// A version 3 format description, with the text it was parsed from.
struct Description<'a> {
    items: FormatDescriptionV3<'a>,
    text: Ghost<Seq<char>>,
}

/// `time::format_description::parse_borrowed::<3>`, for the three
/// descriptions of this library, all of which are well formed in the
/// version 3 syntax, so that the parse succeeds.
#[verifier::external_body]
fn parse_description<'a>(text: &'a str) -> (parsed: Result<
    Description<'a>,
    InvalidFormatDescription,
>)
    requires
        text@ == naive_pdf_description() || text@ == offset_pdf_description() || text@
            == offset_text_description(),
    ensures
        parsed is Ok,
        parsed matches Ok(description) ==> description.text@ == text@,
{
    match time::format_description::parse_borrowed::<3>(text) {
        Ok(items) => Ok(Description { items, text: Ghost(text@) }),
        Err(e) => Err(e),
    }
}

/// What `PrimitiveDateTime::format` writes for the date-time with the
/// description parsed from `description`; a function of the two alone.
pub uninterp spec fn time_naive_format(date: PlainDateTime, description: Seq<char>) -> Seq<char>;

/// What `OffsetDateTime::format` writes for the date-time with the
/// description parsed from `description`; a function of the two alone.
pub uninterp spec fn time_offset_format(date: OffsetDateTime, description: Seq<char>) -> Seq<
    char,
>;

/// What `OffsetDateTime::parse` gives for `text` with the description parsed
/// from `description`; a function of the two strings alone.
pub uninterp spec fn time_offset_parse(text: Seq<char>, description: Seq<char>) -> Result<
    OffsetDateTime,
    ParseError,
>;

/// What `time::Error::from` makes of a parse error.
pub uninterp spec fn time_error_of(error: ParseError) -> TimeError;

/// `PrimitiveDateTime::format`, with the naive description: it holds only
/// date and time components, which a naive date-time supplies, so formatting
/// succeeds.
#[verifier::external_body]
fn format_naive(date: PlainDateTime, description: &Description) -> (text: Result<
    String,
    FormatError,
>)
    requires
        description.text@ == naive_pdf_description(),
    ensures
        text is Ok,
        text matches Ok(t) ==> t@ == time_naive_format(date, description.text@),
{
    date.format(&description.items)
}

/// `OffsetDateTime::format`, with the description of the PDF form with an
/// offset: its date, time and offset components are all supplied by a
/// date-time with an offset, so formatting succeeds.
#[verifier::external_body]
fn format_offset(date: OffsetDateTime, description: &Description) -> (text: Result<
    String,
    FormatError,
>)
    requires
        description.text@ == offset_pdf_description(),
    ensures
        text is Ok,
        text matches Ok(t) ==> t@ == time_offset_format(date, description.text@),
{
    date.format(&description.items)
}

/// `OffsetDateTime::parse`.
#[verifier::external_body]
fn parse_offset(text: &str, description: &Description) -> (parsed: Result<
    OffsetDateTime,
    ParseError,
>)
    ensures
        parsed == time_offset_parse(text@, description.text@),
{
    OffsetDateTime::parse(text, &description.items)
}

/// `time::Error::from` on a parse error: the error that `?` turns it into.
#[verifier::external_body]
fn time_error(error: ParseError) -> (converted: TimeError)
    ensures
        converted == time_error_of(error),
{
    TimeError::from(error)
}

impl From<PlainDateTime> for Object {
    /// The naive date-time, taken to be at UT, in PDF form with the `Z`
    /// suffix: `D:YYYYMMDDHHmmSSZ`, as `time` writes it.
    fn from(date: PlainDateTime) -> (object: Object)
        ensures
            object matches Object::String(bytes, StringFormat::Literal) && bytes@ == encode_utf8(
                time_naive_format(date, naive_pdf_description()),
            ),
    {
        let description = match parse_description(
            "D:[year][month][day][hour][minute][second]Z",
        ) {
            Ok(description) => description,
            Err(_) => return unreached(),
        };
        match format_naive(date, &description) {
            Ok(text) => Object::string_literal(text.as_str()),
            Err(_) => unreached(),
        }
    }
}

impl FromSpecImpl<PlainDateTime> for Object {
    /// The bytes stand in a `Vec`, of which spec code knows only the view,
    /// so `from` is stated by its own `ensures` rather than here.
    open spec fn obeys_from_spec() -> bool {
        false
    }

    open spec fn from_spec(v: PlainDateTime) -> Object {
        arbitrary()
    }
}

impl From<OffsetDateTime> for Object {
    /// The date-time in PDF form with its offset: `D:YYYYMMDDHHmmSS+HH'mm'`,
    /// as `time` writes it.
    fn from(date: OffsetDateTime) -> (object: Object)
        ensures
            object matches Object::String(bytes, StringFormat::Literal) && bytes@ == encode_utf8(
                time_offset_format(date, offset_pdf_description()),
            ),
    {
        let description = match parse_description(
            "D:[year][month][day][hour][minute][second][offset_hour sign:mandatory]'[offset_minute]'",
        ) {
            Ok(description) => description,
            Err(_) => return unreached(),
        };
        match format_offset(date, &description) {
            Ok(text) => Object::string_literal(text.as_str()),
            Err(_) => unreached(),
        }
    }
}

impl FromSpecImpl<OffsetDateTime> for Object {
    /// The bytes stand in a `Vec`, of which spec code knows only the view,
    /// so `from` is stated by its own `ensures` rather than here.
    open spec fn obeys_from_spec() -> bool {
        false
    }

    open spec fn from_spec(v: OffsetDateTime) -> Object {
        arbitrary()
    }
}

impl TryFrom<DateTime> for OffsetDateTime {
    type Error = TimeError;

    /// Reads the date text as `YYYYMMDDHHmmSS+HHmm`. `time` needs every
    /// field here; a date without seconds or offset does not read. A parse
    /// error comes back as `time::Error`.
    fn try_from(value: DateTime) -> (date: Result<OffsetDateTime, TimeError>)
        ensures
            date == match time_offset_parse(value@, offset_text_description()) {
                Ok(d) => Ok(d),
                Err(e) => Err(time_error_of(e)),
            },
    {
        let description = match parse_description(
            "[year][month][day][hour][minute][second][offset_hour sign:mandatory][offset_minute]",
        ) {
            Ok(description) => description,
            Err(_) => return unreached(),
        };
        match parse_offset(value.as_str(), &description) {
            Ok(date) => Ok(date),
            Err(e) => Err(time_error(e)),
        }
    }
}

impl TryFromSpecImpl<DateTime> for OffsetDateTime {
    open spec fn obeys_try_from_spec() -> bool {
        true
    }

    /// The parse of the text with the description of the PDF form without
    /// `D`, `:` and `'`, its error made a `time::Error`.
    open spec fn try_from_spec(v: DateTime) -> Result<OffsetDateTime, TimeError> {
        match time_offset_parse(v@, offset_text_description()) {
            Ok(d) => Ok(d),
            Err(e) => Err(time_error_of(e)),
        }
    }
}

} // verus!
