//! A token of the expression language: either a number or an operator,
//! stored in one ordered sequence and recovered by exact variant.

use vstd::prelude::*;
use crate::number::{Number, NumberModel};
use crate::operator::Operator;

verus! {

/// One token of an expression, in infix or in postfix order.
pub enum Token {
    Number(Number),
    Operator(Operator),
}

/// What a `Token` holds, for specifications.
pub ghost enum TokenModel {
    Number(NumberModel),
    Operator(Operator),
}

impl Token {
    /// The abstract content of this token.
    pub open spec fn model(self) -> TokenModel {
        match self {
            Token::Number(n) => TokenModel::Number(n.model()),
            Token::Operator(op) => TokenModel::Operator(op),
        }
    }
}

/// The abstract contents of a token sequence.
pub open spec fn tokens_model(ts: Seq<Token>) -> Seq<TokenModel> {
    ts.map_values(|t: Token| t.model())
}

} // verus!
