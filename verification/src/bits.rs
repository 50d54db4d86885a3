//! Bitwise operations on unbounded integers, under two's-complement
//! semantics: a negative integer stands for the infinite bit pattern of its
//! two's complement, so `-1` is all ones, and `!a == -a - 1`.

use vstd::prelude::*;

verus! {

/// Termination measure for the bit recursions: the number of significant
/// bits shrinks as the argument is halved, whether the argument is a
/// non-negative integer or the two's complement of one.
pub open spec fn bit_measure(a: int) -> int {
    if a >= 0 {
        a
    } else {
        -a - 1
    }
}

/// Bitwise AND of two integers in two's complement.
pub open spec fn and_int(a: int, b: int) -> int
    decreases bit_measure(a) + bit_measure(b),
{
    if a == 0 || b == 0 {
        0
    } else if a == -1 {
        b
    } else if b == -1 {
        a
    } else {
        2 * and_int(a / 2, b / 2) + (a % 2) * (b % 2)
    }
}

/// Bitwise OR of two integers in two's complement.
pub open spec fn or_int(a: int, b: int) -> int
    decreases bit_measure(a) + bit_measure(b),
{
    if a == 0 {
        b
    } else if b == 0 {
        a
    } else if a == -1 || b == -1 {
        -1
    } else {
        2 * or_int(a / 2, b / 2) + (a % 2) + (b % 2) - (a % 2) * (b % 2)
    }
}

/// Bitwise XOR of two integers in two's complement.
pub open spec fn xor_int(a: int, b: int) -> int
    decreases bit_measure(a) + bit_measure(b),
{
    if a == 0 {
        b
    } else if b == 0 {
        a
    } else if a == -1 {
        -b - 1
    } else if b == -1 {
        -a - 1
    } else {
        2 * xor_int(a / 2, b / 2) + (a % 2) + (b % 2) - 2 * (a % 2) * (b % 2)
    }
}

} // verus!
