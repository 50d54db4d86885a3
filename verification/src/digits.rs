//! Digit classification for the four supported radices, the value of a digit
//! run, and the canonical rendering of an integer as a digit run.

use vstd::prelude::*;

verus! {

/// Whether `ch` is an ASCII binary digit (`0` or `1`).
pub fn is_valid_binary_number(ch: u8) -> (r: bool)
    ensures
        r == is_binary_digit(ch),
{
    ch == 48 || ch == 49
}

/// Whether `ch` is an ASCII octal digit (`0` through `7`).
pub fn is_valid_octal_number(ch: u8) -> (r: bool)
    ensures
        r == is_octal_digit(ch),
{
    ch >= 48 && ch <= 55
}

/// Whether `ch` is an ASCII decimal digit (`0` through `9`).
pub fn is_valid_decimal_number(ch: u8) -> (r: bool)
    ensures
        r == is_decimal_digit(ch),
{
    ch >= 48 && ch <= 57
}

/// Whether `ch` is an ASCII hexadecimal digit (`0`-`9`, `A`-`F`, `a`-`f`).
pub fn is_valid_hexadecimal_number(ch: u8) -> (r: bool)
    ensures
        r == is_hex_digit(ch),
{
    is_valid_decimal_number(ch) || (ch >= 65 && ch <= 70) || (ch >= 97 && ch <= 102)
}

pub open spec fn is_binary_digit(ch: u8) -> bool {
    ch == 48 || ch == 49
}

pub open spec fn is_octal_digit(ch: u8) -> bool {
    48 <= ch <= 55
}

pub open spec fn is_decimal_digit(ch: u8) -> bool {
    48 <= ch <= 57
}

pub open spec fn is_hex_digit(ch: u8) -> bool {
    is_decimal_digit(ch) || 65 <= ch <= 70 || 97 <= ch <= 102
}

/// Whether `ch` is a digit of the alphabet of the given radix
/// (2, 8, 10 or 16).
pub open spec fn is_digit(ch: u8, radix: int) -> bool {
    if radix == 2 {
        is_binary_digit(ch)
    } else if radix == 8 {
        is_octal_digit(ch)
    } else if radix == 10 {
        is_decimal_digit(ch)
    } else if radix == 16 {
        is_hex_digit(ch)
    } else {
        false
    }
}

/// The numeric value of one ASCII digit (hex letters case-insensitive).
pub open spec fn digit_val(ch: u8) -> int {
    if 48 <= ch <= 57 {
        ch - 48
    } else if 65 <= ch <= 90 {
        ch - 65 + 10
    } else if 97 <= ch <= 122 {
        ch - 97 + 10
    } else {
        0
    }
}

/// The non-negative integer denoted by a digit run read in the given radix;
/// an empty run denotes zero.
pub open spec fn digits_value(s: Seq<u8>, radix: int) -> int
    decreases s.len(),
{
    if s.len() == 0 {
        0
    } else {
        digits_value(s.drop_last(), radix) * radix + digit_val(s.last())
    }
}

/// The ASCII digit for a value in 0..=35, lower case for letters.
pub open spec fn lower_digit(d: int) -> u8 {
    if 0 <= d <= 9 {
        (48 + d) as u8
    } else if 10 <= d <= 35 {
        (97 + d - 10) as u8
    } else {
        48
    }
}

/// The canonical digit run of a non-negative integer in the given radix:
/// no leading zeros, `"0"` for zero, lower-case hex letters.
pub open spec fn digits_of(n: int, radix: int) -> Seq<u8>
    decreases n,
    via digits_of_decreases
{
    if n < 0 || radix < 2 {
        Seq::empty()
    } else if n < radix {
        seq![lower_digit(n)]
    } else {
        digits_of(n / radix, radix) + seq![lower_digit(n % radix)]
    }
}

#[via_fn]
proof fn digits_of_decreases(n: int, radix: int) {
    if n >= 0 && radix >= 2 && n >= radix {
        vstd::arithmetic::div_mod::lemma_div_decreases(n, radix);
        vstd::arithmetic::div_mod::lemma_div_pos_is_pos(n, radix);
    }
}

/// An ASCII byte with lower-case letters folded to upper case.
pub open spec fn upper_byte(ch: u8) -> u8 {
    if 97 <= ch <= 122 {
        (ch - 32) as u8
    } else {
        ch
    }
}

/// A byte run with lower-case ASCII letters folded to upper case.
pub open spec fn upper_seq(s: Seq<u8>) -> Seq<u8> {
    s.map_values(|ch: u8| upper_byte(ch))
}

/// The canonical rendering of an integer in the given radix: a minus sign
/// for a negative value, then the digits of the magnitude, hex letters in
/// upper case.
pub open spec fn rendered(v: int, radix: int) -> Seq<u8> {
    if v < 0 {
        seq![45u8] + upper_seq(digits_of(-v, radix))
    } else {
        upper_seq(digits_of(v, radix))
    }
}

/// An ASCII byte with upper-case letters folded to lower case.
pub open spec fn lower_byte(ch: u8) -> u8 {
    if 65 <= ch <= 90 {
        (ch + 32) as u8
    } else {
        ch
    }
}

/// A byte run with upper-case ASCII letters folded to lower case.
pub open spec fn lower_seq(s: Seq<u8>) -> Seq<u8> {
    s.map_values(|ch: u8| lower_byte(ch))
}

proof fn lemma_digit_val_bounds(ch: u8, radix: int)
    requires
        radix == 2 || radix == 8 || radix == 10 || radix == 16,
        is_digit(ch, radix),
    ensures
        0 <= digit_val(ch) < radix,
{
}

/// The value of a digit run is never negative.
proof fn lemma_digits_value_nonneg(s: Seq<u8>, radix: int)
    requires
        radix >= 2,
    ensures
        digits_value(s, radix) >= 0,
    decreases s.len(),
{
    if s.len() > 0 {
        lemma_digits_value_nonneg(s.drop_last(), radix);
        vstd::arithmetic::mul::lemma_mul_nonnegative(digits_value(s.drop_last(), radix), radix);
    }
}

proof fn lemma_digits_value_pos(s: Seq<u8>, radix: int)
    requires
        radix == 2 || radix == 8 || radix == 10 || radix == 16,
        s.len() > 0,
        forall|i: int| 0 <= i < s.len() ==> is_digit(s[i], radix),
        s[0] != 48,
    ensures
        digits_value(s, radix) >= 1,
    decreases s.len(),
{
    if s.len() == 1 {
        assert(s.last() == s[0]);
        assert(s.drop_last() =~= Seq::<u8>::empty());
    } else {
        lemma_digits_value_pos(s.drop_last(), radix);
        lemma_digit_val_bounds(s.last(), radix);
        vstd::arithmetic::mul::lemma_mul_inequality(1, digits_value(s.drop_last(), radix), radix);
    }
}

/// Parsing a digit run whose first digit is not zero, then rendering the
/// value in the same radix, reproduces the run with letters folded to
/// lower case.
proof fn lemma_digits_of_digits_value(s: Seq<u8>, radix: int)
    requires
        radix == 2 || radix == 8 || radix == 10 || radix == 16,
        s.len() > 0,
        forall|i: int| 0 <= i < s.len() ==> is_digit(s[i], radix),
        s.len() > 1 ==> s[0] != 48,
    ensures
        digits_of(digits_value(s, radix), radix) == lower_seq(s),
    decreases s.len(),
{
    let v = digits_value(s, radix);
    let c = s.last();
    let dc = digit_val(c);
    lemma_digit_val_bounds(c, radix);
    if s.len() == 1 {
        assert(s.drop_last() =~= Seq::<u8>::empty());
        assert(digits_value(Seq::<u8>::empty(), radix) == 0);
        assert(v == dc);
        assert(digits_of(v, radix) =~= seq![lower_digit(v)]);
        assert(lower_digit(dc) == lower_byte(c));
        assert(digits_of(v, radix) =~= lower_seq(s));
    } else {
        let a = s.drop_last();
        let va = digits_value(a, radix);
        assert(forall|i: int| 0 <= i < a.len() ==> is_digit(a[i], radix)) by {
            assert(forall|i: int| 0 <= i < a.len() ==> a[i] == s[i]);
        }
        lemma_digits_of_digits_value(a, radix);
        lemma_digits_value_pos(a, radix);
        assert(v == va * radix + dc);
        vstd::arithmetic::mul::lemma_mul_inequality(1, va, radix);
        assert(v >= radix);
        vstd::arithmetic::div_mod::lemma_fundamental_div_mod_converse(v, radix, va, dc);
        assert(v / radix == va && v % radix == dc);
        assert(digits_of(v, radix) == digits_of(va, radix) + seq![lower_digit(dc)]);
        assert(lower_digit(dc) == lower_byte(c));
        assert(lower_seq(a) + seq![lower_byte(c)] =~= lower_seq(s));
    }
}

/// Round trip across bases: parsing a literal written in any supported
/// radix, without a leading zero, and rendering the value in that radix
/// yields the original digit run, case-normalized to upper case.
pub proof fn lemma_literal_round_trip(s: Seq<u8>, radix: int)
    requires
        radix == 2 || radix == 8 || radix == 10 || radix == 16,
        s.len() > 0,
        forall|i: int| 0 <= i < s.len() ==> is_digit(s[i], radix),
        s.len() > 1 ==> s[0] != 48,
    ensures
        rendered(digits_value(s, radix), radix) == upper_seq(s),
{
    lemma_digits_value_nonneg(s, radix);
    lemma_digits_of_digits_value(s, radix);
    assert(upper_seq(lower_seq(s)) =~= upper_seq(s)) by {
        assert(forall|i: int| 0 <= i < s.len() ==> upper_byte(lower_byte(s[i])) == upper_byte(
            s[i],
        ));
    }
}

/// Decimal round trip: parsing a decimal literal without a leading zero
/// and rendering the value in base ten reproduces the literal exactly.
pub proof fn lemma_decimal_round_trip(s: Seq<u8>)
    requires
        s.len() > 0,
        forall|i: int| 0 <= i < s.len() ==> is_decimal_digit(s[i]),
        s.len() > 1 ==> s[0] != 48,
    ensures
        rendered(digits_value(s, 10), 10) == s,
{
    lemma_literal_round_trip(s, 10);
    assert(upper_seq(s) =~= s) by {
        assert(forall|i: int| 0 <= i < s.len() ==> upper_byte(s[i]) == s[i]);
    }
}

} // verus!
