//! The trusted boundary to the `num_bigint` crate. `BigInt` is opaque to
//! the verifier; `big_value` names the mathematical integer a `BigInt`
//! holds, and each wrapper states over that name what the called operation
//! does, as the crate's source shows.

use vstd::prelude::*;
use crate::bits::{and_int, or_int, xor_int};
use crate::digits::{digits_of, digits_value, is_digit};
use vstd::arithmetic::power2::pow2;

verus! {

#[verifier::external_type_specification]
#[verifier::external_body]
pub struct ExBigInt(num_bigint::BigInt);

/// The mathematical integer held by a `BigInt`.
pub uninterp spec fn big_value(b: num_bigint::BigInt) -> int;

/// Relies on `Clone` for `num_bigint::BigInt`: the copy holds the same
/// integer.
#[verifier::external_body]
pub(crate) fn big_clone(a: &num_bigint::BigInt) -> (r: num_bigint::BigInt)
    ensures
        big_value(r) == big_value(*a),
{
    a.clone()
}

/// Relies on `Add` for `num_bigint::BigInt`: exact integer addition.
#[verifier::external_body]
pub(crate) fn big_add(a: &num_bigint::BigInt, b: &num_bigint::BigInt) -> (r: num_bigint::BigInt)
    ensures
        big_value(r) == big_value(*a) + big_value(*b),
{
    a + b
}

/// Relies on `Sub` for `num_bigint::BigInt`: exact integer subtraction.
#[verifier::external_body]
pub(crate) fn big_sub(a: &num_bigint::BigInt, b: &num_bigint::BigInt) -> (r: num_bigint::BigInt)
    ensures
        big_value(r) == big_value(*a) - big_value(*b),
{
    a - b
}

/// Relies on `BitAnd` for `num_bigint::BigInt`, which follows
/// two's-complement semantics for negative operands.
#[verifier::external_body]
pub(crate) fn big_and(a: &num_bigint::BigInt, b: &num_bigint::BigInt) -> (r: num_bigint::BigInt)
    ensures
        big_value(r) == and_int(big_value(*a), big_value(*b)),
{
    a & b
}

/// Relies on `BitOr` for `num_bigint::BigInt`, which follows
/// two's-complement semantics for negative operands.
#[verifier::external_body]
pub(crate) fn big_or(a: &num_bigint::BigInt, b: &num_bigint::BigInt) -> (r: num_bigint::BigInt)
    ensures
        big_value(r) == or_int(big_value(*a), big_value(*b)),
{
    a | b
}

/// Relies on `BitXor` for `num_bigint::BigInt`, which follows
/// two's-complement semantics for negative operands.
#[verifier::external_body]
pub(crate) fn big_xor(a: &num_bigint::BigInt, b: &num_bigint::BigInt) -> (r: num_bigint::BigInt)
    ensures
        big_value(r) == xor_int(big_value(*a), big_value(*b)),
{
    a ^ b
}

/// Relies on `Shl<usize>` for `num_bigint::BigInt`: multiplication by a
/// power of two.
#[verifier::external_body]
pub(crate) fn big_shl(a: &num_bigint::BigInt, n: usize) -> (r: num_bigint::BigInt)
    ensures
        big_value(r) == big_value(*a) * pow2(n as nat),
{
    a << n
}

/// Relies on `Shr<usize>` for `num_bigint::BigInt`: arithmetic shift, that
/// is division by a power of two rounding toward negative infinity.
#[verifier::external_body]
pub(crate) fn big_shr(a: &num_bigint::BigInt, n: usize) -> (r: num_bigint::BigInt)
    ensures
        big_value(r) == big_value(*a) / (pow2(n as nat) as int),
{
    a >> n
}

/// Relies on `ToPrimitive::to_usize` for `num_bigint::BigInt`: the value as
/// a `usize` when it fits, `None` otherwise.
#[verifier::external_body]
pub(crate) fn big_to_usize(a: &num_bigint::BigInt) -> (r: Option<usize>)
    ensures
        r is Some <==> 0 <= big_value(*a) <= usize::MAX,
        r is Some ==> r->0 == big_value(*a),
{
    num_traits::ToPrimitive::to_usize(a)
}

/// Relies on `BigInt::parse_bytes`: a non-empty run of digits of the
/// radix's alphabet parses to the integer it denotes in that radix.
#[verifier::external_body]
pub(crate) fn big_parse(slice: &[u8], radix: u32) -> (r: Option<num_bigint::BigInt>)
    requires
        radix == 2 || radix == 8 || radix == 10 || radix == 16,
        slice@.len() > 0,
        forall|i: int| 0 <= i < slice@.len() ==> is_digit(slice@[i], radix as int),
    ensures
        r is Some,
        r is Some ==> big_value(r->0) == digits_value(slice@, radix as int),
{
    num_bigint::BigInt::parse_bytes(slice, radix)
}

/// Relies on `BigInt::to_str_radix`: the canonical digit run of the value
/// in the given radix, lower-case letters, with a leading minus sign for a
/// negative value.
#[verifier::external_body]
pub(crate) fn big_to_str_radix(a: &num_bigint::BigInt, radix: u32) -> (r: Vec<u8>)
    requires
        radix == 2 || radix == 8 || radix == 10 || radix == 16,
    ensures
        big_value(*a) >= 0 ==> r@ == digits_of(big_value(*a), radix as int),
        big_value(*a) < 0 ==> r@ == seq![45u8] + digits_of(-big_value(*a), radix as int),
{
    a.to_str_radix(radix).into_bytes()
}

} // verus!
