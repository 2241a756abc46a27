//! PDF dates: the text form `D:YYYYMMDDHHmmSSOHH'mm'`
//! read from a string object, parsed into its fields and written back.
use vstd::prelude::*;
use vstd::std_specs::convert::{FromSpecImpl, TryFromSpecImpl};
use vstd::string::{StringExecFns, StringSliceAdditionalSpecFns};
use vstd::utf8::*;

use crate::error::Error;
use crate::object::{str_bytes, Object, StringFormat};
use crate::text::{
    all_ascii, all_digits, digits_value, is_digit, lemma_ascii_valid_utf8, lemma_padded_decimal,
    lemma_pow10_monotonic, padded_decimal, pow10, push_padded_decimal,
};

verus! {

/// The bytes `D`, `:` and `'`, which reading a date removes wherever they
/// stand.
pub open spec fn is_date_marker(b: u8) -> bool {
    b == 68 || b == 58 || b == 39
}

/// `s` with every `D`, `:` and `'` removed, the order of the rest kept.
pub open spec fn without_markers(s: Seq<u8>) -> Seq<u8>
    decreases s.len(),
{
    if s.len() == 0 {
        s
    } else if is_date_marker(s.last()) {
        without_markers(s.drop_last())
    } else {
        without_markers(s.drop_last()).push(s.last())
    }
}

/// The date text in the bytes of a string object: the bytes without `D`,
/// `:` and `'`, when they are UTF-8.
pub open spec fn string_date_text(bytes: Seq<u8>) -> Option<Seq<char>> {
    let t = without_markers(bytes);
    if valid_utf8(t) {
        Some(decode_utf8(t))
    } else {
        None
    }
}

/// The date text that an object carries: that of its bytes for a string,
/// none for any other object.
pub open spec fn datetime_text(object: Object) -> Option<Seq<char>> {
    match object {
        Object::String(bytes, _) => string_date_text(bytes@),
        _ => None,
    }
}

/// The date text of a PDF string, with the `D`, `:` and `'` taken out, so
/// that `D:20260710143000+02'00'` is held as `20260710143000+0200`.
#[derive(Clone, Debug)]
pub struct DateTime(pub(crate) String);

impl View for DateTime {
    type V = Seq<char>;

    closed spec fn view(&self) -> Seq<char> {
        self.0@
    }
}

impl DateTime {
    /// The date text.
    pub(crate) fn as_str(&self) -> (text: &str)
        ensures
            text@ == self@,
    {
        self.0.as_str()
    }
}

impl Object {
    /// The bytes of a string object without `D`, `:` and `'`, as a `String`
    /// when they are UTF-8.
    fn datetime_string(&self) -> (text: Option<String>)
        ensures
            match datetime_text(*self) {
                Some(t) => text matches Some(s) && s@ == t,
                None => text is None,
            },
    {
        if let Object::String(bytes, _) = self {
            let mut kept: Vec<u8> = Vec::new();
            let mut i: usize = 0;
            while i < bytes.len()
                invariant
                    i <= bytes@.len(),
                    kept@ == without_markers(bytes@.subrange(0, i as int)),
                decreases bytes@.len() - i,
            {
                let b = bytes[i];
                assert(bytes@.subrange(0, i + 1).drop_last() =~= bytes@.subrange(0, i as int));
                if !(b == 68 || b == 58 || b == 39) {
                    kept.push(b);
                }
                i += 1;
            }
            assert(bytes@.subrange(0, bytes@.len() as int) =~= bytes@);
            std::string::String::from_utf8(kept).ok()
        } else {
            None
        }
    }

    /// The date that a string object holds, as text still to be parsed; see
    /// [`datetime_text`]. `None` for any other object, and for a string
    /// whose remaining bytes are not UTF-8.
    pub fn as_datetime(&self) -> (date: Option<DateTime>)
        ensures
            match datetime_text(*self) {
                Some(t) => date matches Some(d) && d@ == t,
                None => date is None,
            },
    {
        match self.datetime_string() {
            Some(s) => Some(DateTime(s)),
            None => None,
        }
    }
}

/// The `count` digits at `at`, read as a number, when there are that many
/// bytes there and all are digits.
pub open spec fn digits_at(t: Seq<u8>, at: nat, count: nat) -> Option<nat> {
    if at + count <= t.len() && all_digits(t.subrange(at as int, (at + count) as int)) {
        Some(digits_value(t.subrange(at as int, (at + count) as int)))
    } else {
        None
    }
}

/// An optional two-digit field at `at`: its value and the position after it,
/// or `default` and `at` unchanged when the two digits are not there.
pub open spec fn optional_field(t: Seq<u8>, at: nat, default: nat) -> (nat, nat) {
    match digits_at(t, at, 2) {
        Some(v) => (v, at + 2),
        None => (default, at),
    }
}

/// The relation to UT at `at`, in minutes east: `Some(None)` when the text
/// ends there, `Some(Some(0))` for `Z`, and for `+` or `-` two digits of
/// hours (up to 23) and optionally two of minutes (up to 59, else 0).
/// `None` when the text is malformed there. What follows is not read.
pub open spec fn offset_at(t: Seq<u8>, at: nat) -> Option<Option<int>> {
    if at >= t.len() {
        Some(None)
    } else if t[at as int] == 90 {
        Some(Some(0))
    } else if t[at as int] == 43 || t[at as int] == 45 {
        match digits_at(t, at + 1, 2) {
            None => None,
            Some(h) => {
                let m = match digits_at(t, at + 3, 2) {
                    Some(m) => m,
                    None => 0,
                };
                if h > 23 || m > 59 {
                    None
                } else if t[at as int] == 43 {
                    Some(Some((h * 60 + m) as int))
                } else {
                    Some(Some(-(h * 60 + m)))
                }
            },
        }
    } else {
        None
    }
}

/// The date that the text `t` (without `D`, `:` and `'`) writes: four digits
/// of year, then optional two-digit month, day, hour, minute and second in
/// that order (the first absent ends them; they default to 01, 01, 00, 00,
/// 00), then the relation to UT. `None` for malformed text or a field out
/// of its range.
pub open spec fn parse_pdf_date(t: Seq<u8>) -> Option<PdfDateTime> {
    match digits_at(t, 0, 4) {
        None => None,
        Some(year) => {
            let (month, a1) = optional_field(t, 4, 1);
            let (day, a2) = optional_field(t, a1, 1);
            let (hour, a3) = optional_field(t, a2, 0);
            let (minute, a4) = optional_field(t, a3, 0);
            let (second, a5) = optional_field(t, a4, 0);
            match offset_at(t, a5) {
                None => None,
                Some(offset) => {
                    if 1 <= month <= 12 && 1 <= day <= 31 && hour <= 23 && minute <= 59 && second
                        <= 59 {
                        Some(
                            PdfDateTime {
                                year: year as u16,
                                month: month as u8,
                                day: day as u8,
                                hour: hour as u8,
                                minute: minute as u8,
                                second: second as u8,
                                utc_offset_minutes: match offset {
                                    Some(o) => Some(o as i16),
                                    None => None,
                                },
                            },
                        )
                    } else {
                        None
                    }
                },
            }
        },
    }
}

/// The date that a [`DateTime`]'s text writes; see [`parse_pdf_date`].
pub open spec fn parse_datetime_text(text: Seq<char>) -> Option<PdfDateTime> {
    parse_pdf_date(encode_utf8(text))
}

/// The text quoted as `{:?}` quotes a `str`: between double quotes, with
/// quotes, backslashes and control characters escaped.
pub uninterp spec fn debug_quoted(text: Seq<char>) -> Seq<char>;

/// `format!("{:?}", text)`, the `Debug` form of a `str`, taken to be a
/// function of the text alone.
#[verifier::external_body]
fn debug_quote(text: &str) -> (quoted: String)
    ensures
        quoted@ == debug_quoted(text@),
{
    format!("{:?}", text)
}

/// The message of the error for a date text that does not parse.
pub open spec fn malformed_date_message(text: Seq<char>) -> Seq<char> {
    "invalid PDF date "@ + debug_quoted(text)
}

/// Builds the message of the error for a date text that does not parse:
/// `invalid PDF date ` and the text quoted.
fn malformed_date(text: &str) -> (message: String)
    ensures
        message@ == malformed_date_message(text@),
{
    let quoted = debug_quote(text);
    "invalid PDF date ".to_owned().concat(quoted.as_str())
}

/// Reads `count` digits at `at`, advancing it only on success. `None` when
/// the field is absent or is not all digits, which is how the optional
/// trailing fields of a PDF date end.
fn take_digits(bytes: &[u8], at: &mut usize, count: usize) -> (value: Option<u32>)
    requires
        count <= 9,
    ensures
        match digits_at(bytes@, *old(at) as nat, count as nat) {
            Some(v) => v < pow10(count as nat) && value == Some(v as u32) && *final(at) == *old(at)
                + count,
            None => value is None && *final(at) == *old(at),
        },
{
    let start = *at;
    if count > bytes.len() || start > bytes.len() - count {
        return None;
    }
    let end = start + count;
    let ghost field = bytes@.subrange(start as int, end as int);
    let mut acc: u32 = 0;
    let mut i: usize = start;
    proof {
        reveal_with_fuel(pow10, 10);
        lemma_pow10_monotonic(0, 8);
    }
    while i < end
        invariant
            start <= i <= end <= bytes@.len(),
            start == *old(at),
            *at == *old(at),
            end == start + count,
            count <= 9,
            field == bytes@.subrange(start as int, end as int),
            all_digits(bytes@.subrange(start as int, i as int)),
            acc == digits_value(bytes@.subrange(start as int, i as int)),
            acc < pow10((i - start) as nat),
            i < end ==> pow10((i - start) as nat) <= 100000000,
        decreases end - i,
    {
        let b = bytes[i];
        if b < 48 || b > 57 {
            assert(!is_digit(field[i - start]));
            return None;
        }
        let ghost before = bytes@.subrange(start as int, i as int);
        let ghost after = bytes@.subrange(start as int, i + 1);
        assert(after.drop_last() =~= before);
        assert(all_digits(after)) by {
            assert forall|k: int| 0 <= k < after.len() implies #[trigger] is_digit(after[k]) by {
                if k < before.len() {
                    assert(after[k] == before[k]);
                }
            }
        }
        acc = acc * 10 + (b - 48) as u32;
        i += 1;
        proof {
            if i < end {
                lemma_pow10_monotonic((i - start) as nat, 8);
                reveal_with_fuel(pow10, 10);
            }
        }
    }
    *at = end;
    Some(acc)
}

/// Parses date text without `D`, `:` and `'`; see [`parse_pdf_date`].
fn parse_pdf_bytes(bytes: &[u8]) -> (date: Option<PdfDateTime>)
    ensures
        date == parse_pdf_date(bytes@),
{
    let mut at: usize = 0;
    let year = match take_digits(bytes, &mut at, 4) {
        Some(year) => year,
        None => return None,
    };
    proof {
        reveal_with_fuel(pow10, 5);
    }
    // Each remaining pair is optional, in order; the first one absent
    // ends the date.
    let month = take_digits(bytes, &mut at, 2).unwrap_or(1);
    let day = take_digits(bytes, &mut at, 2).unwrap_or(1);
    let hour = take_digits(bytes, &mut at, 2).unwrap_or(0);
    let minute = take_digits(bytes, &mut at, 2).unwrap_or(0);
    let second = take_digits(bytes, &mut at, 2).unwrap_or(0);

    let utc_offset_minutes: Option<i16> = if at >= bytes.len() {
        None
    } else if bytes[at] == 90 {
        Some(0)
    } else if bytes[at] == 43 || bytes[at] == 45 {
        let east = bytes[at] == 43;
        at += 1;
        let offset_hour = match take_digits(bytes, &mut at, 2) {
            Some(h) => h,
            None => return None,
        };
        let offset_minute = take_digits(bytes, &mut at, 2).unwrap_or(0);
        if offset_hour > 23 || offset_minute > 59 {
            return None;
        }
        let total = (offset_hour * 60 + offset_minute) as i16;
        Some(
            if east {
                total
            } else {
                -total
            },
        )
    } else {
        return None;
    };

    if !(1 <= month && month <= 12) || !(1 <= day && day <= 31) || hour > 23 || minute > 59
        || second > 59 {
        return None;
    }
    Some(
        PdfDateTime {
            year: year as u16,
            month: month as u8,
            day: day as u8,
            hour: hour as u8,
            minute: minute as u8,
            second: second as u8,
            utc_offset_minutes,
        },
    )
}

/// A PDF date in its own fields, available without a date library.
///
/// The offset is kept as the file wrote it rather than normalised to UTC or
/// to the local zone, so a date read and written again says the same thing.
///
/// Parsing follows the PDF date format: only the year is required and the
/// remaining fields default to `01` for month and day and `00` for the time.
/// Values outside their range are rejected rather than clamped.
#[derive(Clone, Copy, Debug, PartialEq, Eq, Structural)]
pub struct PdfDateTime {
    pub year: u16,
    /// 1 to 12.
    pub month: u8,
    /// 1 to 31. Not checked against the month's length.
    pub day: u8,
    /// 0 to 23.
    pub hour: u8,
    /// 0 to 59.
    pub minute: u8,
    /// 0 to 59.
    pub second: u8,
    /// Minutes east of UT. `None` when the date carried no offset, which
    /// the PDF format says is to be read as GMT. A `Z` suffix reads as `Some(0)`.
    pub utc_offset_minutes: Option<i16>,
}

/// A date as parsing gives one: a year of at most four digits, each field
/// in its range, and an offset of at most 23 hours 59 minutes either way.
pub open spec fn in_range(date: PdfDateTime) -> bool {
    &&& date.year <= 9999
    &&& 1 <= date.month <= 12
    &&& 1 <= date.day <= 31
    &&& date.hour <= 23
    &&& date.minute <= 59
    &&& date.second <= 59
    &&& date.utc_offset_minutes matches Some(o) ==> -1439 <= o <= 1439
}

/// The offset written as `+HH'mm'` or `-HH'mm'`.
pub open spec fn offset_text(offset: int) -> Seq<u8> {
    let magnitude: nat = if offset < 0 { (-offset) as nat } else { offset as nat };
    seq![if offset < 0 { 45u8 } else { 43u8 }] + padded_decimal(magnitude / 60, 2) + seq![39u8]
        + padded_decimal(magnitude % 60, 2) + seq![39u8]
}

/// The PDF form of a date: `D:`, the year in at least four digits, the other
/// fields in at least two, and the offset when there is one. An absent
/// offset stays absent; `Some(0)` writes as `+00'00'`.
pub open spec fn pdf_text(date: PdfDateTime) -> Seq<u8> {
    seq![68u8, 58u8] + padded_decimal(date.year as nat, 4) + padded_decimal(date.month as nat, 2)
        + padded_decimal(date.day as nat, 2) + padded_decimal(date.hour as nat, 2)
        + padded_decimal(date.minute as nat, 2) + padded_decimal(date.second as nat, 2)
        + match date.utc_offset_minutes {
        Some(o) => offset_text(o as int),
        None => Seq::<u8>::empty(),
    }
}

/// All bytes of the PDF form are ASCII.
pub(crate) proof fn lemma_pdf_text_ascii(date: PdfDateTime)
    ensures
        all_ascii(pdf_text(date)),
{
    let head = seq![68u8, 58u8];
    assert(all_ascii(head)) by {
        assert forall|i: int| 0 <= i < head.len() implies #[trigger] head[i] < 128 by {}
    }
    let y = padded_decimal(date.year as nat, 4);
    let mo = padded_decimal(date.month as nat, 2);
    let d = padded_decimal(date.day as nat, 2);
    let h = padded_decimal(date.hour as nat, 2);
    let mi = padded_decimal(date.minute as nat, 2);
    let se = padded_decimal(date.second as nat, 2);
    lemma_decimal_ascii(date.year as nat, 4);
    lemma_decimal_ascii(date.month as nat, 2);
    lemma_decimal_ascii(date.day as nat, 2);
    lemma_decimal_ascii(date.hour as nat, 2);
    lemma_decimal_ascii(date.minute as nat, 2);
    lemma_decimal_ascii(date.second as nat, 2);
    lemma_concat_ascii(head, y);
    lemma_concat_ascii(head + y, mo);
    lemma_concat_ascii(head + y + mo, d);
    lemma_concat_ascii(head + y + mo + d, h);
    lemma_concat_ascii(head + y + mo + d + h, mi);
    lemma_concat_ascii(head + y + mo + d + h + mi, se);
    let fields = head + y + mo + d + h + mi + se;
    if let Some(o) = date.utc_offset_minutes {
        let m: nat = if o < 0 { (-o) as nat } else { o as nat };
        let sign = seq![if o < 0 { 45u8 } else { 43u8 }];
        let quote = seq![39u8];
        assert(all_ascii(sign)) by {
            assert forall|i: int| 0 <= i < sign.len() implies #[trigger] sign[i] < 128 by {}
        }
        assert(all_ascii(quote)) by {
            assert forall|i: int| 0 <= i < quote.len() implies #[trigger] quote[i] < 128 by {}
        }
        let oh = padded_decimal(m / 60, 2);
        let om = padded_decimal(m % 60, 2);
        lemma_decimal_ascii(m / 60, 2);
        lemma_decimal_ascii(m % 60, 2);
        lemma_concat_ascii(sign, oh);
        lemma_concat_ascii(sign + oh, quote);
        lemma_concat_ascii(sign + oh + quote, om);
        lemma_concat_ascii(sign + oh + quote + om, quote);
        let off = sign + oh + quote + om + quote;
        assert(off == offset_text(o as int));
        lemma_concat_ascii(fields, off);
        assert(pdf_text(date) == fields + off);
    } else {
        assert(pdf_text(date) =~= fields);
    }
}

/// The digits that `padded_decimal` writes are ASCII.
proof fn lemma_decimal_ascii(n: nat, width: nat)
    ensures
        all_ascii(padded_decimal(n, width)),
{
    lemma_padded_decimal(n, width);
    let s = padded_decimal(n, width);
    assert forall|i: int| 0 <= i < s.len() implies #[trigger] s[i] < 128 by {
        assert(is_digit(s[i]));
    }
}

/// Two ASCII strings make an ASCII string.
proof fn lemma_concat_ascii(a: Seq<u8>, b: Seq<u8>)
    requires
        all_ascii(a),
        all_ascii(b),
    ensures
        all_ascii(a + b),
{
    let c = a + b;
    assert forall|i: int| 0 <= i < c.len() implies #[trigger] c[i] < 128 by {
        if i < a.len() {
            assert(c[i] == a[i]);
        } else {
            assert(c[i] == b[i - a.len()]);
        }
    }
}

impl PdfDateTime {
    /// The bytes of the PDF form; see [`pdf_text`].
    fn pdf_bytes(&self) -> (bytes: Vec<u8>)
        ensures
            bytes@ == pdf_text(*self),
    {
        let mut out: Vec<u8> = Vec::new();
        out.push(68);
        out.push(58);
        push_padded_decimal(&mut out, self.year as u32, 4);
        push_padded_decimal(&mut out, self.month as u32, 2);
        push_padded_decimal(&mut out, self.day as u32, 2);
        push_padded_decimal(&mut out, self.hour as u32, 2);
        push_padded_decimal(&mut out, self.minute as u32, 2);
        push_padded_decimal(&mut out, self.second as u32, 2);
        let ghost fields = out@;
        if let Some(offset) = self.utc_offset_minutes {
            let magnitude: u32 = if offset < 0 {
                (-(offset as i32)) as u32
            } else {
                offset as u32
            };
            out.push(if offset < 0 { 45 } else { 43 });
            push_padded_decimal(&mut out, magnitude / 60, 2);
            out.push(39);
            push_padded_decimal(&mut out, magnitude % 60, 2);
            out.push(39);
            assert(out@ =~= fields + offset_text(offset as int));
        }
        assert(out@ =~= pdf_text(*self));
        out
    }

    /// The PDF form of the date, as text whose UTF-8 bytes are
    /// [`pdf_text`]: `D:`, the fields, and `+HH'mm'` or `-HH'mm'` when
    /// there is an offset.
    pub fn to_string(&self) -> (text: String)
        ensures
            encode_utf8(text@) == pdf_text(*self),
    {
        let bytes = self.pdf_bytes();
        proof {
            lemma_pdf_text_ascii(*self);
            lemma_ascii_valid_utf8(bytes@);
            decode_utf8_encode_utf8(bytes@);
        }
        match std::string::String::from_utf8(bytes) {
            Ok(text) => text,
            Err(_) => unreached(),
        }
    }
}

impl From<PdfDateTime> for Object {
    /// The date in its PDF form, as a literal string object.
    fn from(date: PdfDateTime) -> (object: Object)
        ensures
            object matches Object::String(bytes, StringFormat::Literal) && bytes@ == pdf_text(date),
    {
        Object::String(date.pdf_bytes(), StringFormat::Literal)
    }
}

impl FromSpecImpl<PdfDateTime> for Object {
    /// The bytes stand in a `Vec`, of which spec code knows only the view, so
    /// `from` is stated by its own `ensures` rather than by `from_spec`.
    open spec fn obeys_from_spec() -> bool {
        false
    }

    open spec fn from_spec(v: PdfDateTime) -> Object {
        Object::String(
            choose|bytes: Vec<u8>| #![trigger bytes@] bytes@ == pdf_text(v),
            StringFormat::Literal,
        )
    }
}

impl TryFrom<DateTime> for PdfDateTime {
    type Error = Error;

    /// Parses the date text: `Ok` with the date that
    /// [`parse_datetime_text`] gives, else a syntax error quoting the text.
    fn try_from(value: DateTime) -> (date: Result<PdfDateTime, Error>)
        ensures
            match parse_datetime_text(value@) {
                Some(d) => date == Ok::<PdfDateTime, Error>(d),
                None => date matches Err(Error::Syntax(message)) && message@
                    == malformed_date_message(value@),
            },
    {
        // The `D:` prefix and the apostrophes are already gone, so
        // `D:20260710143000+02'00'` arrives as `20260710143000+0200`.
        let text = value.0.as_str();
        match parse_pdf_bytes(text.as_bytes()) {
            Some(date) => Ok(date),
            None => Err(Error::Syntax(malformed_date(text))),
        }
    }
}

impl TryFromSpecImpl<DateTime> for PdfDateTime {
    /// The error holds a `String`, of which spec code knows only the view,
    /// so `try_from` is stated by its own `ensures` rather than here.
    open spec fn obeys_try_from_spec() -> bool {
        false
    }

    open spec fn try_from_spec(v: DateTime) -> Result<PdfDateTime, Error> {
        match parse_datetime_text(v@) {
            Some(d) => Ok(d),
            None => Err(
                Error::Syntax(
                    choose|m: String| #![trigger m@] m@ == malformed_date_message(v@),
                ),
            ),
        }
    }
}

/// `s` with its last `:` turned into `'`, as the PDF form writes the minutes
/// of an offset; unchanged when it has no `:`.
pub open spec fn last_colon_quoted(s: Seq<u8>) -> Seq<u8>
    decreases s.len(),
{
    if s.len() == 0 {
        s
    } else if s.last() == 58 {
        s.drop_last().push(39)
    } else {
        last_colon_quoted(s.drop_last()).push(s.last())
    }
}

/// `last_colon_quoted` changes the `:` at `k`, after which none follows, or
/// nothing when `k` is -1 and there is no `:` at all.
proof fn lemma_last_colon_quoted(s: Seq<u8>, k: int)
    requires
        -1 <= k < s.len(),
        k >= 0 ==> s[k] == 58,
        forall|j: int| k < j < s.len() ==> s[j] != 58,
    ensures
        last_colon_quoted(s) == if k >= 0 {
            s.update(k, 39)
        } else {
            s
        },
    decreases s.len(),
{
    if s.len() > 0 {
        if s.last() == 58 {
            assert(k == s.len() - 1);
            assert(s.drop_last().push(39) =~= s.update(k, 39));
        } else {
            let p = s.drop_last();
            assert forall|j: int| k < j < p.len() implies p[j] != 58 by {
                assert(p[j] == s[j]);
            }
            lemma_last_colon_quoted(p, k);
            if k >= 0 {
                assert(p.update(k, 39).push(s.last()) =~= s.update(k, 39));
            } else {
                assert(p.push(s.last()) =~= s);
            }
        }
    }
}

/// Finds the last `:` and turns it into an `'`, to account for the way the
/// PDF form writes an offset (`+02'00'` where date libraries write `+02:00`).
pub(crate) fn convert_utc_offset(bytes: &mut [u8])
    ensures
        final(bytes)@ == last_colon_quoted(old(bytes)@),
{
    let mut index = bytes.len();
    while index > 0
        invariant
            index <= bytes@.len(),
            bytes@ == old(bytes)@,
            forall|j: int| index <= j < bytes@.len() ==> bytes@[j] != 58,
        decreases index,
    {
        if bytes[index - 1] == 58 {
            proof {
                lemma_last_colon_quoted(bytes@, index - 1);
            }
            bytes[index - 1] = 39;
            return;
        }
        index -= 1;
    }
    proof {
        lemma_last_colon_quoted(bytes@, -1);
    }
}

impl Object {
    /// A literal string object of a date that a date library wrote with a
    /// `+HH:mm` offset: the last `:` becomes `'`, as the PDF form writes it.
    pub fn from_offset_text(text: &str) -> (object: Object)
        ensures
            object matches Object::String(bytes, StringFormat::Literal) && bytes@
                == last_colon_quoted(text.spec_bytes()),
    {
        let mut bytes = str_bytes(text);
        convert_utc_offset(bytes.as_mut_slice());
        Object::String(bytes, StringFormat::Literal)
    }
}

} // verus!
