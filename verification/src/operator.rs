//! The closed set of operators: seven binary operators and the two
//! structural parentheses, with their lexing from raw bytes, precedence,
//! associativity, and application to two numbers.

use vstd::prelude::*;
use crate::number::{Number, NumberModel};
use vstd::arithmetic::power2::pow2;
use crate::bits::{and_int, or_int, xor_int};

verus! {

#[derive(Clone, Copy, Debug, PartialEq, Eq, Structural)]
pub enum Operator {
    SUM,
    SUB,
    AND,
    XOR,
    OR,
    SHIFTL,
    SHIFTR,
    LPARENTHESIS,
    RPARENTHESIS,
}

/// The operator written at the head of a byte run: `+ - & ^ |` and the
/// parentheses take one byte, `<<` and `>>` take two; anything else is no
/// operator.
pub open spec fn operator_at(s: Seq<u8>) -> Option<Operator> {
    if s.len() == 0 {
        None
    } else if s[0] == 43 {
        Some(Operator::SUM)
    } else if s[0] == 45 {
        Some(Operator::SUB)
    } else if s[0] == 38 {
        Some(Operator::AND)
    } else if s[0] == 94 {
        Some(Operator::XOR)
    } else if s[0] == 124 {
        Some(Operator::OR)
    } else if s[0] == 60 {
        if s.len() > 1 && s[1] == 60 {
            Some(Operator::SHIFTL)
        } else {
            None
        }
    } else if s[0] == 62 {
        if s.len() > 1 && s[1] == 62 {
            Some(Operator::SHIFTR)
        } else {
            None
        }
    } else if s[0] == 40 {
        Some(Operator::LPARENTHESIS)
    } else if s[0] == 41 {
        Some(Operator::RPARENTHESIS)
    } else {
        None
    }
}

/// The result of applying an operator to two abstract numbers: the value
/// the operator computes, displayed in the left operand's base. The
/// parentheses apply to nothing, and a shift whose amount is negative or
/// beyond a machine word yields nothing.
pub open spec fn apply_model(op: Operator, a: NumberModel, b: NumberModel) -> Option<NumberModel> {
    match op {
        Operator::SUM => Some(NumberModel { value: a.value + b.value, base: a.base }),
        Operator::SUB => Some(NumberModel { value: a.value - b.value, base: a.base }),
        Operator::AND => Some(NumberModel { value: and_int(a.value, b.value), base: a.base }),
        Operator::XOR => Some(NumberModel { value: xor_int(a.value, b.value), base: a.base }),
        Operator::OR => Some(NumberModel { value: or_int(a.value, b.value), base: a.base }),
        Operator::SHIFTL => if 0 <= b.value <= usize::MAX {
            Some(NumberModel { value: a.value * pow2(b.value as nat), base: a.base })
        } else {
            None
        },
        Operator::SHIFTR => if 0 <= b.value <= usize::MAX {
            Some(NumberModel { value: a.value / (pow2(b.value as nat) as int), base: a.base })
        } else {
            None
        },
        Operator::LPARENTHESIS => None,
        Operator::RPARENTHESIS => None,
    }
}

impl Operator {
    /// Lexes the operator written at the head of the input.
    pub fn from_bytes(input: &[u8]) -> (r: Option<Operator>)
        requires
            input@.len() > 0,
        ensures
            r == operator_at(input@),
    {
        let first = input[0];
        if first == 43 {
            Some(Operator::SUM)
        } else if first == 45 {
            Some(Operator::SUB)
        } else if first == 38 {
            Some(Operator::AND)
        } else if first == 94 {
            Some(Operator::XOR)
        } else if first == 124 {
            Some(Operator::OR)
        } else if first == 60 {
            if input.len() > 1 && input[1] == 60 {
                Some(Operator::SHIFTL)
            } else {
                None
            }
        } else if first == 62 {
            if input.len() > 1 && input[1] == 62 {
                Some(Operator::SHIFTR)
            } else {
                None
            }
        } else if first == 40 {
            Some(Operator::LPARENTHESIS)
        } else if first == 41 {
            Some(Operator::RPARENTHESIS)
        } else {
            None
        }
    }

    /// The precedence rank of this operator; higher binds tighter, and the
    /// parentheses rank lowest of all.
    pub open spec fn precedence_spec(self) -> int {
        match self {
            Operator::SUM => 9,
            Operator::SUB => 9,
            Operator::AND => 7,
            Operator::XOR => 6,
            Operator::OR => 5,
            Operator::SHIFTL => 8,
            Operator::SHIFTR => 8,
            Operator::LPARENTHESIS => 0,
            Operator::RPARENTHESIS => 0,
        }
    }

    /// The precedence rank of this operator.
    pub fn get_precedence(&self) -> (r: u32)
        ensures
            r as int == self.precedence_spec(),
    {
        match self {
            Operator::SUM => 9,
            Operator::SUB => 9,
            Operator::AND => 7,
            Operator::XOR => 6,
            Operator::OR => 5,
            Operator::SHIFTL => 8,
            Operator::SHIFTR => 8,
            Operator::LPARENTHESIS => 0,
            Operator::RPARENTHESIS => 0,
        }
    }

    /// Every binary operator groups to the left; the parentheses have no
    /// associativity.
    pub open spec fn left_associative_spec(self) -> bool {
        match self {
            Operator::LPARENTHESIS => false,
            Operator::RPARENTHESIS => false,
            _ => true,
        }
    }

    /// Whether this operator groups to the left.
    pub fn is_left_associative(&self) -> (r: bool)
        ensures
            r == self.left_associative_spec(),
    {
        match self {
            Operator::LPARENTHESIS => false,
            Operator::RPARENTHESIS => false,
            _ => true,
        }
    }

    /// Applies this operator to two numbers, as `apply_model` states; the
    /// parentheses, and a shift whose amount does not fit a machine word,
    /// yield nothing.
    pub fn operate(&self, a: Number, b: Number) -> (r: Option<Number>)
        ensures
            r is Some <==> apply_model(*self, a.model(), b.model()) is Some,
            r is Some ==> r->0.model() == apply_model(*self, a.model(), b.model())->0,
    {
        match self {
            Operator::SUM => Some(a.add(&b)),
            Operator::SUB => Some(a.sub(&b)),
            Operator::AND => Some(a.bitand(&b)),
            Operator::XOR => Some(a.bitxor(&b)),
            Operator::OR => Some(a.bitor(&b)),
            Operator::SHIFTL => a.shl(&b),
            Operator::SHIFTR => a.shr(&b),
            Operator::LPARENTHESIS => None,
            Operator::RPARENTHESIS => None,
        }
    }

    /// The text this operator is written as.
    pub fn to_string(&self) -> (r: &'static str)
        ensures
            *self == Operator::SUM ==> r@ == "+"@,
            *self == Operator::SUB ==> r@ == "-"@,
            *self == Operator::AND ==> r@ == "&"@,
            *self == Operator::XOR ==> r@ == "^"@,
            *self == Operator::OR ==> r@ == "|"@,
            *self == Operator::SHIFTL ==> r@ == "<<"@,
            *self == Operator::SHIFTR ==> r@ == ">>"@,
            *self == Operator::LPARENTHESIS ==> r@ == "("@,
            *self == Operator::RPARENTHESIS ==> r@ == ")"@,
    {
        match self {
            Operator::SUM => "+",
            Operator::SUB => "-",
            Operator::AND => "&",
            Operator::XOR => "^",
            Operator::OR => "|",
            Operator::SHIFTL => "<<",
            Operator::SHIFTR => ">>",
            Operator::LPARENTHESIS => "(",
            Operator::RPARENTHESIS => ")",
        }
    }
}

} // verus!
