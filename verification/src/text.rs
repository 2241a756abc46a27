//! Decimal digits in ASCII, and the step from ASCII bytes to a `String`.
use vstd::prelude::*;
use vstd::utf8::*;

verus! {

/// `std::string::FromUtf8Error`, the error of `String::from_utf8`.
#[verifier::external_type_specification]
#[verifier::external_body]
pub struct ExFromUtf8Error(std::string::FromUtf8Error);

/// `String::from_utf8`: its documentation says it returns `Ok` exactly when
/// the bytes are valid UTF-8, and that the string then holds those bytes,
/// that is, the characters they encode.
pub assume_specification[ std::string::String::from_utf8 ](vec: std::vec::Vec<u8>) -> (res: Result<
    std::string::String,
    std::string::FromUtf8Error,
>)
    ensures
        res is Ok <==> valid_utf8(vec@),
        res matches Ok(s) ==> s@ == decode_utf8(vec@),
;

/// The byte of an ASCII digit.
pub open spec fn is_digit(b: u8) -> bool {
    48 <= b <= 57
}

/// Every byte is an ASCII digit.
pub open spec fn all_digits(s: Seq<u8>) -> bool {
    forall|i: int| 0 <= i < s.len() ==> #[trigger] is_digit(s[i])
}

/// Every byte is ASCII.
pub open spec fn all_ascii(s: Seq<u8>) -> bool {
    forall|i: int| 0 <= i < s.len() ==> #[trigger] s[i] < 128
}

/// The number that a string of decimal digits writes, most significant first.
pub open spec fn digits_value(s: Seq<u8>) -> nat
    decreases s.len(),
{
    if s.len() == 0 {
        0
    } else {
        digits_value(s.drop_last()) * 10 + (s.last() - 48) as nat
    }
}

/// Ten to the power `n`.
pub open spec fn pow10(n: nat) -> nat
    decreases n,
{
    if n == 0 {
        1
    } else {
        10 * pow10((n - 1) as nat)
    }
}

/// The ASCII digit for `d`, which is below ten.
pub open spec fn digit_byte(d: nat) -> u8 {
    (48 + d) as u8
}

/// `n` in decimal, with leading zeros up to `width` digits; a wider number
/// takes as many digits as it needs, as `{:0width$}` writes it.
pub open spec fn padded_decimal(n: nat, width: nat) -> Seq<u8>
    decreases n + width,
{
    if n < 10 && width <= 1 {
        seq![digit_byte(n)]
    } else {
        padded_decimal(n / 10, if width >= 1 { (width - 1) as nat } else { 0 }).push(
            digit_byte(n % 10),
        )
    }
}

pub proof fn lemma_pow10_monotonic(a: nat, b: nat)
    requires
        a <= b,
    ensures
        1 <= pow10(a) <= pow10(b),
    decreases b,
{
    if b > 0 {
        if a == b {
            lemma_pow10_monotonic((a - 1) as nat, (b - 1) as nat);
        } else {
            lemma_pow10_monotonic(a, (b - 1) as nat);
        }
    }
}

/// A string of digits writes a number below ten to the power of its length.
pub proof fn lemma_digits_value_bound(s: Seq<u8>)
    requires
        all_digits(s),
    ensures
        digits_value(s) < pow10(s.len()),
    decreases s.len(),
{
    if s.len() > 0 {
        let p = s.drop_last();
        assert(is_digit(s[s.len() - 1]));
        assert(all_digits(p)) by {
            assert forall|i: int| 0 <= i < p.len() implies #[trigger] is_digit(p[i]) by {
                assert(is_digit(s[i]));
            }
        }
        lemma_digits_value_bound(p);
    }
}

/// What `padded_decimal` writes: digits, at least `width` of them, reading
/// back as `n`, and exactly `width` when `n` fits in them.
pub proof fn lemma_padded_decimal(n: nat, width: nat)
    ensures
        all_digits(padded_decimal(n, width)),
        padded_decimal(n, width).len() >= 1,
        padded_decimal(n, width).len() >= width,
        digits_value(padded_decimal(n, width)) == n,
        width >= 1 && n < pow10(width) ==> padded_decimal(n, width).len() == width,
    decreases n + width,
{
    let s = padded_decimal(n, width);
    if n < 10 && width <= 1 {
        assert(s.drop_last() =~= Seq::<u8>::empty());
        assert(digits_value(s) == digits_value(Seq::<u8>::empty()) * 10 + (s.last() - 48) as nat);
    } else {
        let w = if width >= 1 { (width - 1) as nat } else { 0 };
        lemma_padded_decimal(n / 10, w);
        let p = padded_decimal(n / 10, w);
        assert(s.drop_last() =~= p);
        assert(n == (n / 10) * 10 + n % 10);
        assert(digits_value(s) == digits_value(p) * 10 + (s.last() - 48) as nat);
        assert forall|i: int| 0 <= i < s.len() implies #[trigger] is_digit(s[i]) by {
            if i < p.len() {
                assert(s[i] == p[i]);
            }
        }
        if width >= 1 && n < pow10(width) {
            assert(n / 10 < pow10(w));
        }
    }
}

/// Appends `n` in decimal with leading zeros up to `width` digits.
pub fn push_padded_decimal(out: &mut Vec<u8>, n: u32, width: usize)
    ensures
        final(out)@ == old(out)@ + padded_decimal(n as nat, width as nat),
    decreases n + width,
{
    if n < 10 && width <= 1 {
        out.push(n as u8 + 48);
    } else {
        let w: usize = if width >= 1 { width - 1 } else { 0 };
        push_padded_decimal(out, n / 10, w);
        out.push((n % 10) as u8 + 48);
        assert(padded_decimal(n as nat, width as nat) == padded_decimal((n / 10) as nat, w as nat).push(
            digit_byte((n % 10) as nat),
        ));
    }
}

/// ASCII bytes are valid UTF-8.
pub proof fn lemma_ascii_valid_utf8(s: Seq<u8>)
    requires
        all_ascii(s),
    ensures
        valid_utf8(s),
    decreases s.len(),
{
    if s.len() > 0 {
        let b = s[0];
        assert(b < 128);
        assert(is_leading_byte_width_1(b));
        assert((b & 0x7f) as u32 == b as u32) by (bit_vector)
            requires
                b < 128,
        ;
        let rest = pop_first_scalar(s);
        assert(rest =~= s.subrange(1, s.len() as int));
        assert(all_ascii(rest)) by {
            assert forall|i: int| 0 <= i < rest.len() implies #[trigger] rest[i] < 128 by {
                assert(rest[i] == s[i + 1]);
            }
        }
        lemma_ascii_valid_utf8(rest);
    }
}

} // verus!
