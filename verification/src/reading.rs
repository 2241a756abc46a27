//! Laws of reading date text, over every length of date: the fields are the
//! leading digits, two by two after the year, and the relation to UT is read
//! from whatever follows them.
use vstd::prelude::*;

use crate::datetime::{digits_at, optional_field, parse_pdf_date};
use crate::text::{all_digits, digits_value, is_digit, lemma_digits_value_bound, pow10};

verus! {

/// The leading digits of a date, the year and then `count` two-digit fields.
pub open spec fn is_field_digits(fields: Seq<u8>) -> bool {
    &&& all_digits(fields)
    &&& 4 <= fields.len() <= 14
    &&& fields.len() % 2 == 0
}

/// What ends the fields: nothing, or a byte that is not a digit.
pub open spec fn ends_fields(suffix: Seq<u8>) -> bool {
    suffix.len() == 0 || !is_digit(suffix[0])
}

/// The two-digit field number `index` after the year (month, day, hour,
/// minute, second for 0 to 4), or `default` when the digits stop before it.
pub open spec fn leading_field(fields: Seq<u8>, index: int, default: nat) -> nat {
    if fields.len() >= 6 + 2 * index {
        digits_value(fields.subrange(4 + 2 * index, 6 + 2 * index))
    } else {
        default
    }
}

/// Digits within the leading digits read as they stand there.
proof fn lemma_digits_within(fields: Seq<u8>, suffix: Seq<u8>, at: nat, count: nat)
    requires
        all_digits(fields),
        at + count <= fields.len(),
    ensures
        digits_at(fields + suffix, at, count) == Some(
            digits_value(fields.subrange(at as int, (at + count) as int)),
        ),
{
    let t = fields + suffix;
    let piece = t.subrange(at as int, (at + count) as int);
    assert(piece =~= fields.subrange(at as int, (at + count) as int));
    assert forall|i: int| 0 <= i < piece.len() implies #[trigger] is_digit(piece[i]) by {
        assert(piece[i] == fields[at + i]);
    }
}

/// One step of the optional fields: at `at` within the leading digits, the
/// field there and the position after it; at their end, the default and the
/// same position.
proof fn lemma_field_step(fields: Seq<u8>, suffix: Seq<u8>, at: nat, default: nat)
    requires
        is_field_digits(fields),
        ends_fields(suffix),
        4 <= at <= fields.len(),
        at % 2 == 0,
    ensures
        at + 2 <= fields.len() ==> optional_field(fields + suffix, at, default) == (
            digits_value(fields.subrange(at as int, (at + 2) as int)),
            at + 2,
        ),
        at == fields.len() ==> optional_field(fields + suffix, at, default) == (default, at),
{
    let t = fields + suffix;
    if at + 2 <= fields.len() {
        lemma_digits_within(fields, suffix, at, 2);
    } else {
        if at + 2 <= t.len() {
            assert(t.subrange(at as int, (at + 2) as int)[0] == suffix[0]);
            assert(!is_digit(t.subrange(at as int, (at + 2) as int)[0]));
        }
    }
}

/// The positions and values of the five optional fields of `fields +
/// suffix`: each is the leading field, and they end where the digits end.
proof fn lemma_fields_chain(fields: Seq<u8>, suffix: Seq<u8>)
    requires
        is_field_digits(fields),
        ends_fields(suffix),
    ensures
        ({
            let t = fields + suffix;
            let (month, a1) = optional_field(t, 4, 1);
            let (day, a2) = optional_field(t, a1, 1);
            let (hour, a3) = optional_field(t, a2, 0);
            let (minute, a4) = optional_field(t, a3, 0);
            let (second, a5) = optional_field(t, a4, 0);
            &&& digits_at(t, 0, 4) == Some(digits_value(fields.subrange(0, 4)))
            &&& month == leading_field(fields, 0, 1)
            &&& day == leading_field(fields, 1, 1)
            &&& hour == leading_field(fields, 2, 0)
            &&& minute == leading_field(fields, 3, 0)
            &&& second == leading_field(fields, 4, 0)
            &&& a5 == fields.len()
        }),
{
    let t = fields + suffix;
    lemma_digits_within(fields, suffix, 0, 4);
    lemma_field_step(fields, suffix, 4, 1);
    let a1 = optional_field(t, 4, 1).1;
    lemma_field_step(fields, suffix, a1, 1);
    let a2 = optional_field(t, a1, 1).1;
    lemma_field_step(fields, suffix, a2, 0);
    let a3 = optional_field(t, a2, 0).1;
    lemma_field_step(fields, suffix, a3, 0);
    let a4 = optional_field(t, a3, 0).1;
    lemma_field_step(fields, suffix, a4, 0);
}

/// Whatever follows them, the fields of a date that reads are its leading
/// digits: the year the first four, then month, day, hour, minute and
/// second two by two for as long as the digits go on, the rest taking
/// their defaults (01 for month and day, 00 for the time).
pub proof fn lemma_fields_are_the_leading_digits(fields: Seq<u8>, suffix: Seq<u8>)
    requires
        is_field_digits(fields),
        ends_fields(suffix),
    ensures
        parse_pdf_date(fields + suffix) matches Some(d) ==> {
            &&& d.year == digits_value(fields.subrange(0, 4))
            &&& d.month == leading_field(fields, 0, 1)
            &&& d.day == leading_field(fields, 1, 1)
            &&& d.hour == leading_field(fields, 2, 0)
            &&& d.minute == leading_field(fields, 3, 0)
            &&& d.second == leading_field(fields, 4, 0)
        },
{
    lemma_fields_chain(fields, suffix);
    let year = fields.subrange(0, 4);
    assert(all_digits(year)) by {
        assert forall|i: int| 0 <= i < 4 implies #[trigger] is_digit(year[i]) by {
            assert(year[i] == fields[i]);
        }
    }
    lemma_digits_value_bound(year);
    reveal_with_fuel(pow10, 5);
}

/// Leading digits alone read as a date exactly when each field is in its
/// range, and then without an offset.
pub proof fn lemma_fields_alone(fields: Seq<u8>)
    requires
        is_field_digits(fields),
    ensures
        parse_pdf_date(fields) is Some <==> {
            &&& 1 <= leading_field(fields, 0, 1) <= 12
            &&& 1 <= leading_field(fields, 1, 1) <= 31
            &&& leading_field(fields, 2, 0) <= 23
            &&& leading_field(fields, 3, 0) <= 59
            &&& leading_field(fields, 4, 0) <= 59
        },
        parse_pdf_date(fields) matches Some(d) ==> d.utc_offset_minutes is None,
{
    let empty = Seq::<u8>::empty();
    assert(fields + empty =~= fields);
    lemma_fields_chain(fields, empty);
}

/// `Z` after the fields, whatever follows it, reads as an offset of zero.
pub proof fn lemma_z_after_the_fields(fields: Seq<u8>, rest: Seq<u8>)
    requires
        is_field_digits(fields),
    ensures
        parse_pdf_date(fields + (seq![90u8] + rest)) matches Some(d) ==> d.utc_offset_minutes
            == Some(0i16),
{
    let suffix = seq![90u8] + rest;
    assert(suffix[0] == 90u8);
    lemma_fields_chain(fields, suffix);
    assert((fields + suffix)[fields.len() as int] == 90u8);
}

/// A sign and two digits of hours and two of minutes after the fields,
/// however many fields there are, read as that many minutes east (`+`) or
/// west (`-`) of UT; hours above 23 or minutes above 59 do not read.
pub proof fn lemma_offset_follows_the_fields(
    fields: Seq<u8>,
    sign: u8,
    hours: Seq<u8>,
    minutes: Seq<u8>,
)
    requires
        is_field_digits(fields),
        sign == 43 || sign == 45,
        hours.len() == 2,
        all_digits(hours),
        minutes.len() == 2,
        all_digits(minutes),
    ensures
        ({
            let total: int = (digits_value(hours) * 60 + digits_value(minutes)) as int;
            let t = fields + (seq![sign] + hours + minutes);
            &&& parse_pdf_date(t) matches Some(d) ==> d.utc_offset_minutes == Some(
                (if sign == 43 {
                    total
                } else {
                    -total
                }) as i16,
            )
            &&& (digits_value(hours) > 23 || digits_value(minutes) > 59) ==> parse_pdf_date(
                t,
            ) is None
        }),
{
    let suffix = seq![sign] + hours + minutes;
    let t = fields + suffix;
    let n: int = fields.len() as int;
    lemma_fields_chain(fields, suffix);
    assert(t[n] == sign);
    assert(t.subrange(n + 1, n + 3) =~= hours);
    assert(t.subrange(n + 3, n + 5) =~= minutes);
    assert(digits_at(t, (n + 1) as nat, 2) == Some(digits_value(hours)));
    assert(digits_at(t, (n + 3) as nat, 2) == Some(digits_value(minutes)));
}

/// A sign and two digits of hours alone after the fields read as that many
/// whole hours east (`+`) or west (`-`) of UT.
pub proof fn lemma_offset_of_whole_hours(fields: Seq<u8>, sign: u8, hours: Seq<u8>)
    requires
        is_field_digits(fields),
        sign == 43 || sign == 45,
        hours.len() == 2,
        all_digits(hours),
    ensures
        ({
            let total: int = (digits_value(hours) * 60) as int;
            parse_pdf_date(fields + (seq![sign] + hours)) matches Some(d) ==> d.utc_offset_minutes
                == Some(
                (if sign == 43 {
                    total
                } else {
                    -total
                }) as i16,
            )
        }),
{
    let suffix = seq![sign] + hours;
    let t = fields + suffix;
    let n: int = fields.len() as int;
    lemma_fields_chain(fields, suffix);
    assert(t[n] == sign);
    assert(t.subrange(n + 1, n + 3) =~= hours);
    assert(digits_at(t, (n + 1) as nat, 2) == Some(digits_value(hours)));
    assert(digits_at(t, (n + 3) as nat, 2) is None);
}

} // verus!
