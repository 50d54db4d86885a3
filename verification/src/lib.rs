//! A developer's calculator core: it scans an infix arithmetic/bitwise
//! expression written with binary, octal, decimal and hexadecimal literals,
//! converts it to postfix order with the shunting-yard algorithm, and
//! evaluates the postfix sequence over arbitrary-precision integers,
//! recording every reduction step.

mod bigint;
pub mod bits;
pub mod digits;
pub mod eval;
pub mod number;
pub mod operator;
pub mod parser;
pub mod token;
