//! `NumberBase` is the radix a literal was written in, or the radix a value
//! is displayed in. `Number` is an arbitrary-precision integer tagged with
//! its display radix; every operation is pure and returns a new value that
//! inherits the left operand's display radix. Subtraction is exact: when
//! the subtrahend is larger, the result is negative.

use vstd::prelude::*;
use crate::bigint::{
    big_add, big_and, big_clone, big_or, big_parse, big_shl, big_shr, big_sub, big_to_str_radix,
    big_to_usize, big_value, big_xor,
};
use crate::bits::{and_int, or_int, xor_int};
use crate::digits::{digits_value, is_digit, rendered, upper_seq};
use vstd::arithmetic::power2::pow2;

verus! {

/// A radix in which literals are written and values are displayed.
#[derive(Clone, Copy, Debug, PartialEq, Eq, Structural)]
pub enum NumberBase {
    BIN,
    OCT,
    DEC,
    HEX,
}

impl NumberBase {
    /// The canonical radix of this base.
    pub open spec fn radix_spec(self) -> int {
        match self {
            NumberBase::BIN => 2,
            NumberBase::OCT => 8,
            NumberBase::DEC => 10,
            NumberBase::HEX => 16,
        }
    }

    /// The canonical radix of this base: 2, 8, 10 or 16.
    pub fn radix(&self) -> (r: u32)
        ensures
            r as int == self.radix_spec(),
    {
        match self {
            NumberBase::BIN => 2,
            NumberBase::OCT => 8,
            NumberBase::DEC => 10,
            NumberBase::HEX => 16,
        }
    }

    /// Reads a base from its command-line name, written in bytes.
    pub fn from_str(s: &[u8]) -> (r: Option<NumberBase>)
        ensures
            r == base_name(s@),
    {
        if s.len() == 1 {
            if s[0] == 50 {
                proof {
                    assert(s@ =~= seq![50u8]);
                }
                return Some(NumberBase::BIN);
            }
            if s[0] == 56 {
                proof {
                    assert(s@ =~= seq![56u8]);
                }
                return Some(NumberBase::OCT);
            }
        } else if s.len() == 2 {
            if s[0] == 49 && s[1] == 48 {
                proof {
                    assert(s@ =~= seq![49u8, 48u8]);
                }
                return Some(NumberBase::DEC);
            }
            if s[0] == 49 && s[1] == 54 {
                proof {
                    assert(s@ =~= seq![49u8, 54u8]);
                }
                return Some(NumberBase::HEX);
            }
        } else if s.len() == 3 {
            if s[0] == 98 && s[1] == 105 && s[2] == 110 {
                proof {
                    assert(s@ =~= seq![98u8, 105u8, 110u8]);
                }
                return Some(NumberBase::BIN);
            }
            if s[0] == 111 && s[1] == 99 && s[2] == 116 {
                proof {
                    assert(s@ =~= seq![111u8, 99u8, 116u8]);
                }
                return Some(NumberBase::OCT);
            }
            if s[0] == 100 && s[1] == 101 && s[2] == 99 {
                proof {
                    assert(s@ =~= seq![100u8, 101u8, 99u8]);
                }
                return Some(NumberBase::DEC);
            }
            if s[0] == 104 && s[1] == 101 && s[2] == 120 {
                proof {
                    assert(s@ =~= seq![104u8, 101u8, 120u8]);
                }
                return Some(NumberBase::HEX);
            }
        }
        None
    }

    /// The display label of this base.
    pub fn to_string(&self) -> (r: &'static str)
        ensures
            *self == NumberBase::BIN ==> r@ == "BIN"@,
            *self == NumberBase::OCT ==> r@ == "OCT"@,
            *self == NumberBase::DEC ==> r@ == "DEC"@,
            *self == NumberBase::HEX ==> r@ == "HEX"@,
    {
        match self {
            NumberBase::BIN => "BIN",
            NumberBase::OCT => "OCT",
            NumberBase::DEC => "DEC",
            NumberBase::HEX => "HEX",
        }
    }
}

/// The base selected by a command-line base name: `bin` or `2`, `oct` or
/// `8`, `dec` or `10`, `hex` or `16`; anything else selects none.
pub open spec fn base_name(s: Seq<u8>) -> Option<NumberBase> {
    if s == seq![98u8, 105u8, 110u8] || s == seq![50u8] {  // "bin" | "2"
        Some(NumberBase::BIN)
    } else if s == seq![111u8, 99u8, 116u8] || s == seq![56u8] {  // "oct" | "8"
        Some(NumberBase::OCT)
    } else if s == seq![100u8, 101u8, 99u8] || s == seq![49u8, 48u8] {  // "dec" | "10"
        Some(NumberBase::DEC)
    } else if s == seq![104u8, 101u8, 120u8] || s == seq![49u8, 54u8] {  // "hex" | "16"
        Some(NumberBase::HEX)
    } else {
        None
    }
}

/// What a `Number` holds, for specifications: its mathematical value and
/// its display base.
pub ghost struct NumberModel {
    pub value: int,
    pub base: NumberBase,
}

/// An arbitrary-precision integer together with the radix it is displayed
/// in. The display radix never influences the value.
pub struct Number {
    value: num_bigint::BigInt,
    base: NumberBase,
}

impl View for Number {
    type V = int;

    /// The mathematical value of this number.
    closed spec fn view(&self) -> int {
        big_value(self.value)
    }
}

impl Number {
    /// The radix this number is displayed in.
    pub closed spec fn base_spec(self) -> NumberBase {
        self.base
    }

    /// The abstract content of this number.
    pub open spec fn model(self) -> NumberModel {
        NumberModel { value: self@, base: self.base_spec() }
    }

    /// Parses a run of digits written in the given base. Exactly the
    /// non-empty runs drawn from the base's digit alphabet are accepted.
    pub fn from_slice(slice: &[u8], base: &NumberBase) -> (r: Result<Number, String>)
        ensures
            r is Ok <==> (slice@.len() > 0 && forall|i: int|
                0 <= i < slice@.len() ==> is_digit(slice@[i], base.radix_spec())),
            r is Ok ==> r->Ok_0@ == digits_value(slice@, base.radix_spec()),
            r is Ok ==> r->Ok_0.base_spec() == *base,
    {
        let radix = base.radix();
        let mut i: usize = 0;
        while i < slice.len()
            invariant
                0 <= i <= slice@.len(),
                radix as int == base.radix_spec(),
                forall|j: int| 0 <= j < i ==> is_digit(slice@[j], base.radix_spec()),
            decreases slice@.len() - i,
        {
            let ch = slice[i];
            let ok = match base {
                NumberBase::BIN => crate::digits::is_valid_binary_number(ch),
                NumberBase::OCT => crate::digits::is_valid_octal_number(ch),
                NumberBase::DEC => crate::digits::is_valid_decimal_number(ch),
                NumberBase::HEX => crate::digits::is_valid_hexadecimal_number(ch),
            };
            if !ok {
                return Err("Error parsing number from slice".to_owned());
            }
            i += 1;
        }
        if slice.len() == 0 {
            return Err("Error parsing number from slice".to_owned());
        }
        match big_parse(slice, radix) {
            Some(value) => Ok(Number { value, base: *base }),
            None => vstd::pervasive::unreached(),
        }
    }

    /// Returns the same value displayed in the given base.
    pub fn set_base(&self, base: &NumberBase) -> (r: Number)
        ensures
            r@ == self@,
            r.base_spec() == *base,
    {
        Number { value: big_clone(&self.value), base: *base }
    }

    /// Exact addition; the result is displayed in `self`'s base.
    pub fn add(&self, rhs: &Number) -> (r: Number)
        ensures
            r@ == self@ + rhs@,
            r.base_spec() == self.base_spec(),
    {
        Number { value: big_add(&self.value, &rhs.value), base: self.base }
    }

    /// Exact subtraction; a larger subtrahend yields a negative result.
    pub fn sub(&self, rhs: &Number) -> (r: Number)
        ensures
            r@ == self@ - rhs@,
            r.base_spec() == self.base_spec(),
    {
        Number { value: big_sub(&self.value, &rhs.value), base: self.base }
    }

    /// Bitwise AND in two's complement.
    pub fn bitand(&self, rhs: &Number) -> (r: Number)
        ensures
            r@ == and_int(self@, rhs@),
            r.base_spec() == self.base_spec(),
    {
        Number { value: big_and(&self.value, &rhs.value), base: self.base }
    }

    /// Bitwise OR in two's complement.
    pub fn bitor(&self, rhs: &Number) -> (r: Number)
        ensures
            r@ == or_int(self@, rhs@),
            r.base_spec() == self.base_spec(),
    {
        Number { value: big_or(&self.value, &rhs.value), base: self.base }
    }

    /// Bitwise XOR in two's complement.
    pub fn bitxor(&self, rhs: &Number) -> (r: Number)
        ensures
            r@ == xor_int(self@, rhs@),
            r.base_spec() == self.base_spec(),
    {
        Number { value: big_xor(&self.value, &rhs.value), base: self.base }
    }

    /// Left shift: multiplication by a power of two. The shift amount must
    /// be a non-negative value that fits a machine word; otherwise the
    /// operation yields nothing.
    pub fn shl(&self, rhs: &Number) -> (r: Option<Number>)
        ensures
            r is Some <==> 0 <= rhs@ <= usize::MAX,
            r is Some ==> r->0@ == self@ * pow2(rhs@ as nat),
            r is Some ==> r->0.base_spec() == self.base_spec(),
    {
        match big_to_usize(&rhs.value) {
            Some(n) => Some(Number { value: big_shl(&self.value, n), base: self.base }),
            None => None,
        }
    }

    /// Right shift: division by a power of two, rounding toward negative
    /// infinity. The shift amount must be a non-negative value that fits a
    /// machine word; otherwise the operation yields nothing.
    pub fn shr(&self, rhs: &Number) -> (r: Option<Number>)
        ensures
            r is Some <==> 0 <= rhs@ <= usize::MAX,
            r is Some ==> r->0@ == self@ / (pow2(rhs@ as nat) as int),
            r is Some ==> r->0.base_spec() == self.base_spec(),
    {
        match big_to_usize(&rhs.value) {
            Some(n) => Some(Number { value: big_shr(&self.value, n), base: self.base }),
            None => None,
        }
    }

    /// The canonical rendering of this number in its display base: no
    /// leading zeros, upper-case hex letters, a leading minus sign for a
    /// negative value.
    pub fn render(&self) -> (r: Vec<u8>)
        ensures
            r@ == rendered(self@, self.base_spec().radix_spec()),
    {
        let raw = big_to_str_radix(&self.value, self.base.radix());
        let mut out: Vec<u8> = Vec::new();
        let mut i: usize = 0;
        while i < raw.len()
            invariant
                0 <= i <= raw@.len(),
                out@ == upper_seq(raw@.take(i as int)),
            decreases raw@.len() - i,
        {
            let ch = raw[i];
            if 97 <= ch && ch <= 122 {
                out.push(ch - 32);
            } else {
                out.push(ch);
            }
            i += 1;
            proof {
                assert(raw@.take(i as int).drop_last() =~= raw@.take(i - 1));
                assert(out@ =~= upper_seq(raw@.take(i as int)));
            }
        }
        proof {
            assert(raw@.take(raw@.len() as int) =~= raw@);
            if self@ < 0 {
                assert(upper_seq(raw@) =~= rendered(self@, self.base_spec().radix_spec()));
            }
        }
        out
    }
}

impl Clone for Number {
    /// The copy holds the same value and display base.
    fn clone(&self) -> (r: Self)
        ensures
            r@ == self@,
            r.base_spec() == self.base_spec(),
    {
        Number { value: big_clone(&self.value), base: self.base }
    }
}

} // verus!
