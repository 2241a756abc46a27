//! The laws that tie reading and writing PDF dates together: a date in
//! range comes back from its PDF form unchanged, and what parses is in
//! range.
use vstd::prelude::*;
use vstd::utf8::*;

use crate::datetime::{
    digits_at, in_range, is_date_marker, lemma_pdf_text_ascii, offset_text, parse_datetime_text,
    parse_pdf_date, pdf_text, string_date_text, without_markers, PdfDateTime,
};
use crate::text::{
    all_ascii, all_digits, digits_value, is_digit, lemma_ascii_valid_utf8, lemma_digits_value_bound,
    lemma_padded_decimal, padded_decimal, pow10,
};

verus! {

/// Removing the date markers from two strings one after the other removes
/// them from the two joined.
proof fn lemma_without_markers_concat(a: Seq<u8>, b: Seq<u8>)
    ensures
        without_markers(a + b) == without_markers(a) + without_markers(b),
    decreases b.len(),
{
    if b.len() == 0 {
        assert(a + b =~= a);
        assert(without_markers(a) + without_markers(b) =~= without_markers(a));
    } else {
        assert((a + b).drop_last() =~= a + b.drop_last());
        assert((a + b).last() == b.last());
        lemma_without_markers_concat(a, b.drop_last());
        if is_date_marker(b.last()) {
        } else {
            assert((without_markers(a) + without_markers(b.drop_last())).push(b.last())
                =~= without_markers(a) + without_markers(b.drop_last()).push(b.last()));
        }
    }
}

/// Digits hold no date marker.
proof fn lemma_without_markers_digits(s: Seq<u8>)
    requires
        all_digits(s),
    ensures
        without_markers(s) == s,
    decreases s.len(),
{
    if s.len() > 0 {
        let p = s.drop_last();
        assert(is_digit(s[s.len() - 1]));
        assert(all_digits(p)) by {
            assert forall|i: int| 0 <= i < p.len() implies #[trigger] is_digit(p[i]) by {
                assert(is_digit(s[i]));
            }
        }
        lemma_without_markers_digits(p);
        assert(p.push(s.last()) =~= s);
    }
}

/// `padded_decimal` of a number that fits in `width` digits: exactly
/// `width` digits, no markers, reading back as the number.
proof fn lemma_fitting_decimal(n: nat, width: nat)
    requires
        1 <= width,
        n < pow10(width),
    ensures
        padded_decimal(n, width).len() == width,
        all_digits(padded_decimal(n, width)),
        digits_value(padded_decimal(n, width)) == n,
        without_markers(padded_decimal(n, width)) == padded_decimal(n, width),
{
    lemma_padded_decimal(n, width);
    lemma_without_markers_digits(padded_decimal(n, width));
}

/// Reading `count` digits where a fitting `padded_decimal` of `n` stands
/// gives `n`.
proof fn lemma_digits_at_piece(t: Seq<u8>, at: nat, n: nat, count: nat)
    requires
        1 <= count,
        n < pow10(count),
        at + count <= t.len(),
        t.subrange(at as int, (at + count) as int) == padded_decimal(n, count),
    ensures
        digits_at(t, at, count) == Some(n),
{
    lemma_fitting_decimal(n, count);
}

/// The bytes left of the PDF form of a date once `D`, `:` and `'` are
/// removed: the fields' digits, then the sign and digits of the offset.
spec fn date_digits(date: PdfDateTime) -> Seq<u8> {
    padded_decimal(date.year as nat, 4) + padded_decimal(date.month as nat, 2) + padded_decimal(
        date.day as nat,
        2,
    ) + padded_decimal(date.hour as nat, 2) + padded_decimal(date.minute as nat, 2)
        + padded_decimal(date.second as nat, 2) + match date.utc_offset_minutes {
        Some(o) => {
            let m: nat = if o < 0 { (-o) as nat } else { o as nat };
            seq![if o < 0 { 45u8 } else { 43u8 }] + padded_decimal(m / 60, 2) + padded_decimal(
                m % 60,
                2,
            )
        },
        None => Seq::<u8>::empty(),
    }
}

proof fn lemma_pdf_text_without_markers(date: PdfDateTime)
    requires
        in_range(date),
    ensures
        without_markers(pdf_text(date)) == date_digits(date),
{
    reveal_with_fuel(pow10, 5);
    let head = seq![68u8, 58u8];
    let y = padded_decimal(date.year as nat, 4);
    let mo = padded_decimal(date.month as nat, 2);
    let d = padded_decimal(date.day as nat, 2);
    let h = padded_decimal(date.hour as nat, 2);
    let mi = padded_decimal(date.minute as nat, 2);
    let se = padded_decimal(date.second as nat, 2);
    lemma_fitting_decimal(date.year as nat, 4);
    lemma_fitting_decimal(date.month as nat, 2);
    lemma_fitting_decimal(date.day as nat, 2);
    lemma_fitting_decimal(date.hour as nat, 2);
    lemma_fitting_decimal(date.minute as nat, 2);
    lemma_fitting_decimal(date.second as nat, 2);
    assert(without_markers(head) =~= Seq::<u8>::empty()) by {
        assert(head.drop_last() =~= seq![68u8]);
        assert(head.drop_last().drop_last() =~= Seq::<u8>::empty());
        reveal_with_fuel(without_markers, 3);
    }
    lemma_without_markers_concat(head, y);
    lemma_without_markers_concat(head + y, mo);
    lemma_without_markers_concat(head + y + mo, d);
    lemma_without_markers_concat(head + y + mo + d, h);
    lemma_without_markers_concat(head + y + mo + d + h, mi);
    lemma_without_markers_concat(head + y + mo + d + h + mi, se);
    let fields = head + y + mo + d + h + mi + se;
    assert(without_markers(fields) =~= y + mo + d + h + mi + se);
    match date.utc_offset_minutes {
        Some(o) => {
            let m: nat = if o < 0 { (-o) as nat } else { o as nat };
            let sign = seq![if o < 0 { 45u8 } else { 43u8 }];
            let quote = seq![39u8];
            let oh = padded_decimal(m / 60, 2);
            let om = padded_decimal(m % 60, 2);
            lemma_fitting_decimal(m / 60, 2);
            lemma_fitting_decimal(m % 60, 2);
            assert(without_markers(sign) =~= sign) by {
                assert(sign.drop_last() =~= Seq::<u8>::empty());
                reveal_with_fuel(without_markers, 2);
                assert(Seq::<u8>::empty().push(sign.last()) =~= sign);
            }
            assert(without_markers(quote) =~= Seq::<u8>::empty()) by {
                assert(quote.drop_last() =~= Seq::<u8>::empty());
                reveal_with_fuel(without_markers, 2);
            }
            lemma_without_markers_concat(sign, oh);
            lemma_without_markers_concat(sign + oh, quote);
            lemma_without_markers_concat(sign + oh + quote, om);
            lemma_without_markers_concat(sign + oh + quote + om, quote);
            let off = sign + oh + quote + om + quote;
            assert(without_markers(off) =~= sign + oh + om);
            assert(off == offset_text(o as int));
            lemma_without_markers_concat(fields, off);
            assert(pdf_text(date) == fields + off);
            assert(date_digits(date) =~= y + mo + d + h + mi + se + (sign + oh + om));
        },
        None => {
            assert(pdf_text(date) =~= fields);
            assert(date_digits(date) =~= y + mo + d + h + mi + se);
        },
    }
}

/// What is left of the PDF form of a date in range, once the markers are
/// gone, parses back to the date.
proof fn lemma_parse_date_digits(date: PdfDateTime)
    requires
        in_range(date),
    ensures
        parse_pdf_date(date_digits(date)) == Some(date),
{
    reveal_with_fuel(pow10, 5);
    let t = date_digits(date);
    let y = padded_decimal(date.year as nat, 4);
    let mo = padded_decimal(date.month as nat, 2);
    let d = padded_decimal(date.day as nat, 2);
    let h = padded_decimal(date.hour as nat, 2);
    let mi = padded_decimal(date.minute as nat, 2);
    let se = padded_decimal(date.second as nat, 2);
    lemma_fitting_decimal(date.year as nat, 4);
    lemma_fitting_decimal(date.month as nat, 2);
    lemma_fitting_decimal(date.day as nat, 2);
    lemma_fitting_decimal(date.hour as nat, 2);
    lemma_fitting_decimal(date.minute as nat, 2);
    lemma_fitting_decimal(date.second as nat, 2);
    let fields = y + mo + d + h + mi + se;
    assert(fields.len() == 14);
    assert(t.subrange(0, 14) =~= fields);
    assert(t.subrange(0, 4) =~= y);
    assert(t.subrange(4, 6) =~= mo);
    assert(t.subrange(6, 8) =~= d);
    assert(t.subrange(8, 10) =~= h);
    assert(t.subrange(10, 12) =~= mi);
    assert(t.subrange(12, 14) =~= se);
    lemma_digits_at_piece(t, 0, date.year as nat, 4);
    lemma_digits_at_piece(t, 4, date.month as nat, 2);
    lemma_digits_at_piece(t, 6, date.day as nat, 2);
    lemma_digits_at_piece(t, 8, date.hour as nat, 2);
    lemma_digits_at_piece(t, 10, date.minute as nat, 2);
    lemma_digits_at_piece(t, 12, date.second as nat, 2);
    match date.utc_offset_minutes {
        Some(o) => {
            let m: nat = if o < 0 { (-o) as nat } else { o as nat };
            let oh = padded_decimal(m / 60, 2);
            let om = padded_decimal(m % 60, 2);
            lemma_fitting_decimal(m / 60, 2);
            lemma_fitting_decimal(m % 60, 2);
            assert(t.len() == 19);
            assert(t[14] == if o < 0 { 45u8 } else { 43u8 });
            assert(t.subrange(15, 17) =~= oh);
            assert(t.subrange(17, 19) =~= om);
            lemma_digits_at_piece(t, 15, m / 60, 2);
            lemma_digits_at_piece(t, 17, m % 60, 2);
            assert(m == (m / 60) * 60 + m % 60);
        },
        None => {
            assert(t.len() == 14);
        },
    }
}

/// A date in range, written in its PDF form to a string object and read
/// back, is the same date: the object's bytes hold date text, and that
/// text parses to the date. The offset in particular comes back as it was
/// written, neither shifted to UT nor to the local zone.
pub proof fn lemma_pdf_round_trip(date: PdfDateTime)
    requires
        in_range(date),
    ensures
        string_date_text(pdf_text(date)) matches Some(text) && parse_datetime_text(text) == Some(
            date,
        ),
{
    lemma_pdf_text_without_markers(date);
    lemma_parse_date_digits(date);
    let t = date_digits(date);
    lemma_pdf_text_ascii(date);
    assert(all_ascii(t)) by {
        lemma_without_markers_ascii(pdf_text(date));
    }
    lemma_ascii_valid_utf8(t);
    decode_utf8_encode_utf8(t);
}

/// Removing bytes from an ASCII string leaves an ASCII string.
proof fn lemma_without_markers_ascii(s: Seq<u8>)
    requires
        all_ascii(s),
    ensures
        all_ascii(without_markers(s)),
    decreases s.len(),
{
    if s.len() > 0 {
        let p = s.drop_last();
        assert(s[s.len() - 1] < 128);
        assert(all_ascii(p)) by {
            assert forall|i: int| 0 <= i < p.len() implies #[trigger] p[i] < 128 by {
                assert(p[i] == s[i]);
            }
        }
        lemma_without_markers_ascii(p);
        let r = without_markers(p);
        if !is_date_marker(s.last()) {
            assert forall|i: int| 0 <= i < r.len() + 1 implies #[trigger] r.push(s.last())[i]
                < 128 by {
                if i < r.len() {
                    assert(r.push(s.last())[i] == r[i]);
                }
            }
        }
    }
}

/// A date that parses is in range: four-digit year, fields within their
/// bounds, offset of at most 23 hours 59 minutes.
pub proof fn lemma_parsed_in_range(t: Seq<u8>)
    ensures
        parse_pdf_date(t) matches Some(date) ==> in_range(date),
{
    reveal_with_fuel(pow10, 5);
    if let Some(year) = digits_at(t, 0, 4) {
        lemma_digits_value_bound(t.subrange(0, 4));
    }
}

/// Writing a parsed date and reading it again gives the same date: what
/// was read once reads the same way every time after.
pub proof fn lemma_reparse_is_stable(t: Seq<u8>)
    ensures
        parse_pdf_date(t) matches Some(date) ==> (string_date_text(pdf_text(date)) matches Some(
            text,
        ) && parse_datetime_text(text) == Some(date)),
{
    lemma_parsed_in_range(t);
    if let Some(date) = parse_pdf_date(t) {
        lemma_pdf_round_trip(date);
    }
}

} // verus!
