//! The lexical scanner and the shunting-yard parser: a single forward pass
//! over the input bytes recognizes spaces, numeric literals with an
//! optional base prefix, and operators, and converts the infix token
//! stream into postfix order with an operator stack.
//!
//! `parse_model` is the specification: a recursion that takes exactly the
//! steps the algorithm takes. `shunting_yard` is the implementation,
//! proved to return whatever the model says, token for token.

use vstd::prelude::*;
use crate::digits::{
    digits_value, is_decimal_digit, is_digit, is_hex_digit, is_valid_binary_number,
    is_valid_decimal_number, is_valid_hexadecimal_number, is_valid_octal_number,
};
use crate::number::{Number, NumberBase, NumberModel};
use crate::operator::{operator_at, Operator};
use crate::token::{tokens_model, Token, TokenModel};
use vstd::slice::slice_subrange;
use vstd::string::StringExecFns;

verus! {

/// Why a scan failed.
#[derive(Clone, Copy, Debug, PartialEq, Eq, Structural)]
pub enum ParseErrorKind {
    /// A byte that is a hexadecimal digit but not a digit of the literal's
    /// base ended the literal.
    InvalidNumber(NumberBase),
    /// A byte run that matches no operator.
    InvalidOperator,
    /// A `)` without a matching `(`, or a parenthesis left on the operator
    /// stack when the input ended.
    MismatchedParenthesis,
}

/// A fatal scan failure: its kind, and the one-based column of the
/// offending byte where the failure arises during the scan (a parenthesis
/// left over at the end of the input has no column).
#[derive(Clone, Copy, Debug)]
pub struct ParseError {
    pub kind: ParseErrorKind,
    pub column: Option<usize>,
}

impl ParseError {
    /// The diagnostic text of this failure, as the scanner words it.
    pub fn message(&self) -> (r: String)
        ensures
            self.kind == ParseErrorKind::InvalidNumber(NumberBase::BIN) ==> r@ == "Invalid "@
                + "BIN"@ + " number"@,
            self.kind == ParseErrorKind::InvalidNumber(NumberBase::OCT) ==> r@ == "Invalid "@
                + "OCT"@ + " number"@,
            self.kind == ParseErrorKind::InvalidNumber(NumberBase::DEC) ==> r@ == "Invalid "@
                + "DEC"@ + " number"@,
            self.kind == ParseErrorKind::InvalidNumber(NumberBase::HEX) ==> r@ == "Invalid "@
                + "HEX"@ + " number"@,
            self.kind == ParseErrorKind::InvalidOperator ==> r@ == "Invalid operator"@,
            self.kind == ParseErrorKind::MismatchedParenthesis ==> r@
                == "Error mismatched parenthesis"@,
    {
        match &self.kind {
            ParseErrorKind::InvalidNumber(base) => {
                let mut m = "Invalid ".to_owned();
                m.append(base.to_string());
                m.append(" number");
                m
            },
            ParseErrorKind::InvalidOperator => "Invalid operator".to_owned(),
            ParseErrorKind::MismatchedParenthesis => "Error mismatched parenthesis".to_owned(),
        }
    }
}

/// A scan failure, for specifications.
pub ghost struct ScanErr {
    pub kind: ParseErrorKind,
    pub column: Option<int>,
}

/// Whether a reported failure is the one the model names.
pub open spec fn error_matches(e: ParseError, m: ScanErr) -> bool {
    &&& e.kind == m.kind
    &&& match m.column {
        Some(c) => e.column matches Some(ec) && ec as int == c,
        None => e.column is None,
    }
}

/// The base selected by the literal prefix rule at position `i`: a leading
/// `0` followed by `b`/`B`, `o`/`O` or `x`/`X` selects binary, octal or
/// hexadecimal; anything else is decimal.
pub open spec fn literal_base(input: Seq<u8>, i: int) -> NumberBase {
    if input[i] == 48 && i + 1 < input.len() {
        let next = input[i + 1];
        if next == 98 || next == 66 {
            NumberBase::BIN
        } else if next == 111 || next == 79 {
            NumberBase::OCT
        } else if next == 120 || next == 88 {
            NumberBase::HEX
        } else {
            NumberBase::DEC
        }
    } else {
        NumberBase::DEC
    }
}

/// The first position at or after `j` that does not continue a digit run
/// of the given radix.
pub open spec fn digit_run_end(input: Seq<u8>, j: int, radix: int) -> int
    decreases input.len() - j,
{
    if j < 0 || j >= input.len() {
        j
    } else if is_digit(input[j], radix) {
        digit_run_end(input, j + 1, radix)
    } else {
        j
    }
}

proof fn lemma_digit_run_end(input: Seq<u8>, j: int, radix: int)
    requires
        0 <= j <= input.len(),
    ensures
        j <= digit_run_end(input, j, radix) <= input.len(),
        forall|k: int| j <= k < digit_run_end(input, j, radix) ==> is_digit(input[k], radix),
        digit_run_end(input, j, radix) < input.len() ==> !is_digit(
            input[digit_run_end(input, j, radix)],
            radix,
        ),
    decreases input.len() - j,
{
    if j < input.len() && is_digit(input[j], radix) {
        lemma_digit_run_end(input, j + 1, radix);
    }
}

/// How a numeric literal at position `i` scans: its base, where its digit
/// payload starts (after any prefix), the cursor after the scan, and
/// whether the scan succeeded. On failure the cursor stands one byte past
/// the offending digit, which the reported column reproduces.
pub ghost struct LiteralScan {
    pub base: NumberBase,
    pub num_start: int,
    pub end: int,
    pub ok: bool,
}

pub open spec fn scan_literal(input: Seq<u8>, i: int) -> LiteralScan {
    let base = literal_base(input, i);
    let num_start = if base != NumberBase::DEC {
        i + 2
    } else {
        i
    };
    let end0 = digit_run_end(input, num_start, base.radix_spec());
    if end0 < input.len() && is_hex_digit(input[end0]) {
        LiteralScan { base, num_start, end: end0 + 1, ok: false }
    } else {
        LiteralScan { base, num_start, end: end0, ok: true }
    }
}

/// Pops operators to the output until a `(` is found and discarded; `None`
/// when the stack empties first.
pub open spec fn pop_to_lparen(out: Seq<TokenModel>, ops: Seq<Operator>) -> Option<
    (Seq<TokenModel>, Seq<Operator>),
>
    decreases ops.len(),
{
    if ops.len() == 0 {
        None
    } else if ops.last() == Operator::LPARENTHESIS {
        Some((out, ops.drop_last()))
    } else {
        pop_to_lparen(out.push(TokenModel::Operator(ops.last())), ops.drop_last())
    }
}

/// Whether the operator on top of the stack leaves the stack before `op`
/// is pushed: it is no `(`, and it binds tighter, or as tightly while `op`
/// groups to the left.
pub open spec fn should_pop(top: Operator, op: Operator) -> bool {
    &&& top != Operator::LPARENTHESIS
    &&& {
        ||| top.precedence_spec() > op.precedence_spec()
        ||| (top.precedence_spec() == op.precedence_spec() && op.left_associative_spec())
    }
}

/// Pops operators to the output as long as `should_pop` holds of the top.
pub open spec fn pop_for_precedence(
    out: Seq<TokenModel>,
    ops: Seq<Operator>,
    op: Operator,
) -> (Seq<TokenModel>, Seq<Operator>)
    decreases ops.len(),
{
    if ops.len() == 0 {
        (out, ops)
    } else if should_pop(ops.last(), op) {
        pop_for_precedence(out.push(TokenModel::Operator(ops.last())), ops.drop_last(), op)
    } else {
        (out, ops)
    }
}

/// Pops the remaining operators to the output at the end of the input;
/// `None` when a parenthesis is among them.
pub open spec fn drain_stack(out: Seq<TokenModel>, ops: Seq<Operator>) -> Option<Seq<TokenModel>>
    decreases ops.len(),
{
    if ops.len() == 0 {
        Some(out)
    } else if ops.last() == Operator::LPARENTHESIS || ops.last() == Operator::RPARENTHESIS {
        None
    } else {
        drain_stack(out.push(TokenModel::Operator(ops.last())), ops.drop_last())
    }
}

/// One scan state: the cursor `i`, the output so far, and the operator
/// stack. Each step consumes a space, a literal or an operator, exactly as
/// the scanner does, and the end of the input drains the stack.
pub open spec fn sy(
    input: Seq<u8>,
    i: int,
    out: Seq<TokenModel>,
    ops: Seq<Operator>,
) -> Result<Seq<TokenModel>, ScanErr>
    decreases input.len() - i,
    via sy_decreases
{
    if i < 0 || i >= input.len() {
        match drain_stack(out, ops) {
            Some(toks) => Ok(toks),
            None => Err(ScanErr { kind: ParseErrorKind::MismatchedParenthesis, column: None }),
        }
    } else if input[i] == 32 {
        sy(input, i + 1, out, ops)
    } else if input[i] == 194 && i + 1 < input.len() && input[i + 1] == 160 {
        sy(input, i + 2, out, ops)
    } else if is_decimal_digit(input[i]) {
        let sc = scan_literal(input, i);
        if !sc.ok {
            Err(
                ScanErr {
                    kind: ParseErrorKind::InvalidNumber(sc.base),
                    column: Some(sc.end),
                },
            )
        } else if sc.end > sc.num_start {
            sy(
                input,
                sc.end,
                out.push(
                    TokenModel::Number(
                        NumberModel {
                            value: digits_value(
                                input.subrange(sc.num_start, sc.end),
                                sc.base.radix_spec(),
                            ),
                            base: sc.base,
                        },
                    ),
                ),
                ops,
            )
        } else {
            sy(input, sc.end, out, ops)
        }
    } else {
        match operator_at(input.subrange(i, input.len() as int)) {
            None => Err(
                ScanErr { kind: ParseErrorKind::InvalidOperator, column: Some(i + 1) },
            ),
            Some(op) => {
                if op == Operator::LPARENTHESIS {
                    sy(input, i + 1, out, ops.push(op))
                } else if op == Operator::RPARENTHESIS {
                    match pop_to_lparen(out, ops) {
                        None => Err(
                            ScanErr {
                                kind: ParseErrorKind::MismatchedParenthesis,
                                column: Some(i + 1),
                            },
                        ),
                        Some(popped) => sy(input, i + 1, popped.0, popped.1),
                    }
                } else {
                    let popped = pop_for_precedence(out, ops, op);
                    let adv: int = if op == Operator::SHIFTL || op == Operator::SHIFTR {
                        2
                    } else {
                        1
                    };
                    sy(input, i + adv, popped.0, popped.1.push(op))
                }
            },
        }
    }
}

#[via_fn]
proof fn sy_decreases(input: Seq<u8>, i: int, out: Seq<TokenModel>, ops: Seq<Operator>) {
    if 0 <= i < input.len() && is_decimal_digit(input[i]) {
        let sc = scan_literal(input, i);
        lemma_digit_run_end(input, sc.num_start, sc.base.radix_spec());
        if sc.base != NumberBase::DEC {
            assert(sc.num_start == i + 2 && i + 2 <= input.len());
        } else {
            assert(is_digit(input[i], 10));
            assert(digit_run_end(input, i, 10) == digit_run_end(input, i + 1, 10));
            lemma_digit_run_end(input, i + 1, 10);
        }
    }
}

/// What the whole scan of an input yields: the postfix token sequence, or
/// the first failure.
pub open spec fn parse_model(input: Seq<u8>) -> Result<Seq<TokenModel>, ScanErr> {
    sy(input, 0, Seq::empty(), Seq::empty())
}

/// Whether a token sequence holds no parenthesis token.
pub open spec fn no_parenthesis_tokens(out: Seq<TokenModel>) -> bool {
    forall|k: int|
        0 <= k < out.len() ==> out[k] != TokenModel::Operator(Operator::LPARENTHESIS) && out[k]
            != TokenModel::Operator(Operator::RPARENTHESIS)
}

/// Whether an operator stack holds no `)` (the scanner never pushes one).
spec fn no_rparen_ops(ops: Seq<Operator>) -> bool {
    forall|k: int| 0 <= k < ops.len() ==> ops[k] != Operator::RPARENTHESIS
}

proof fn lemma_drain_no_parenthesis(out: Seq<TokenModel>, ops: Seq<Operator>)
    requires
        no_parenthesis_tokens(out),
        no_rparen_ops(ops),
        drain_stack(out, ops) is Some,
    ensures
        no_parenthesis_tokens(drain_stack(out, ops)->0),
    decreases ops.len(),
{
    if ops.len() > 0 {
        lemma_drain_no_parenthesis(
            out.push(TokenModel::Operator(ops.last())),
            ops.drop_last(),
        );
    }
}

proof fn lemma_pop_to_lparen_no_parenthesis(out: Seq<TokenModel>, ops: Seq<Operator>)
    requires
        no_parenthesis_tokens(out),
        no_rparen_ops(ops),
        pop_to_lparen(out, ops) is Some,
    ensures
        no_parenthesis_tokens((pop_to_lparen(out, ops)->0).0),
        no_rparen_ops((pop_to_lparen(out, ops)->0).1),
    decreases ops.len(),
{
    if ops.len() > 0 && ops.last() != Operator::LPARENTHESIS {
        lemma_pop_to_lparen_no_parenthesis(
            out.push(TokenModel::Operator(ops.last())),
            ops.drop_last(),
        );
    }
}

proof fn lemma_pop_for_precedence_no_parenthesis(
    out: Seq<TokenModel>,
    ops: Seq<Operator>,
    op: Operator,
)
    requires
        no_parenthesis_tokens(out),
        no_rparen_ops(ops),
    ensures
        no_parenthesis_tokens(pop_for_precedence(out, ops, op).0),
        no_rparen_ops(pop_for_precedence(out, ops, op).1),
    decreases ops.len(),
{
    if ops.len() > 0 && should_pop(ops.last(), op) {
        lemma_pop_for_precedence_no_parenthesis(
            out.push(TokenModel::Operator(ops.last())),
            ops.drop_last(),
            op,
        );
    }
}

proof fn lemma_sy_no_parenthesis(input: Seq<u8>, i: int, out: Seq<TokenModel>, ops: Seq<Operator>)
    requires
        no_parenthesis_tokens(out),
        no_rparen_ops(ops),
        sy(input, i, out, ops) is Ok,
    ensures
        no_parenthesis_tokens(sy(input, i, out, ops)->Ok_0),
    decreases input.len() - i,
{
    if i < 0 || i >= input.len() {
        lemma_drain_no_parenthesis(out, ops);
    } else if input[i] == 32 {
        lemma_sy_no_parenthesis(input, i + 1, out, ops);
    } else if input[i] == 194 && i + 1 < input.len() && input[i + 1] == 160 {
        lemma_sy_no_parenthesis(input, i + 2, out, ops);
    } else if is_decimal_digit(input[i]) {
        let sc = scan_literal(input, i);
        lemma_digit_run_end(input, sc.num_start, sc.base.radix_spec());
        if sc.base == NumberBase::DEC {
            assert(is_digit(input[i], 10));
            assert(digit_run_end(input, i, 10) == digit_run_end(input, i + 1, 10));
            lemma_digit_run_end(input, i + 1, 10);
        }
        if sc.ok && sc.end > sc.num_start {
            let token = TokenModel::Number(
                NumberModel {
                    value: digits_value(input.subrange(sc.num_start, sc.end), sc.base.radix_spec()),
                    base: sc.base,
                },
            );
            lemma_sy_no_parenthesis(input, sc.end, out.push(token), ops);
        } else if sc.ok {
            lemma_sy_no_parenthesis(input, sc.end, out, ops);
        }
    } else {
        match operator_at(input.subrange(i, input.len() as int)) {
            None => {},
            Some(op) => {
                if op == Operator::LPARENTHESIS {
                    lemma_sy_no_parenthesis(input, i + 1, out, ops.push(op));
                } else if op == Operator::RPARENTHESIS {
                    match pop_to_lparen(out, ops) {
                        None => {},
                        Some(popped) => {
                            lemma_pop_to_lparen_no_parenthesis(out, ops);
                            lemma_sy_no_parenthesis(input, i + 1, popped.0, popped.1);
                        },
                    }
                } else {
                    let popped = pop_for_precedence(out, ops, op);
                    lemma_pop_for_precedence_no_parenthesis(out, ops, op);
                    let adv: int = if op == Operator::SHIFTL || op == Operator::SHIFTR {
                        2
                    } else {
                        1
                    };
                    lemma_sy_no_parenthesis(input, i + adv, popped.0, popped.1.push(op));
                }
            },
        }
    }
}

/// At parser completion no parenthesis stands in the postfix output: the
/// parentheses are structural boundaries, never tokens of the result, and
/// one left on the operator stack is a mismatch error instead.
pub proof fn lemma_postfix_free_of_parentheses(input: Seq<u8>)
    requires
        parse_model(input) is Ok,
    ensures
        no_parenthesis_tokens(parse_model(input)->Ok_0),
{
    lemma_sy_no_parenthesis(input, 0, Seq::empty(), Seq::empty());
}

/// Whether `ch` continues a digit run of the given base.
fn digit_ok(base: NumberBase, ch: u8) -> (r: bool)
    ensures
        r == is_digit(ch, base.radix_spec()),
{
    match base {
        NumberBase::BIN => is_valid_binary_number(ch),
        NumberBase::OCT => is_valid_octal_number(ch),
        NumberBase::DEC => is_valid_decimal_number(ch),
        NumberBase::HEX => is_valid_hexadecimal_number(ch),
    }
}

/// Whether the operator on top of the stack leaves the stack before `op`
/// is pushed.
fn should_pop_exec(top: Operator, op: Operator) -> (r: bool)
    ensures
        r == should_pop(top, op),
{
    top != Operator::LPARENTHESIS && (top.get_precedence() > op.get_precedence() || (
    top.get_precedence() == op.get_precedence() && op.is_left_associative()))
}

/// Scans the input and returns its tokens in postfix order, or the first
/// lexical or structural failure, exactly as `parse_model` states.
pub fn shunting_yard(input: &[u8]) -> (r: Result<Vec<Token>, ParseError>)
    ensures
        parse_model(input@) is Ok ==> r is Ok && tokens_model(r->Ok_0@) == parse_model(
            input@,
        )->Ok_0,
        parse_model(input@) is Err ==> r is Err && error_matches(
            r->Err_0,
            parse_model(input@)->Err_0,
        ),
{
    let mut tokens: Vec<Token> = Vec::new();
    let mut operator_stack: Vec<Operator> = Vec::new();
    let mut start: usize = 0;

    proof {
        assert(tokens_model(tokens@) =~= Seq::<TokenModel>::empty());
    }

    while start < input.len()
        invariant
            0 <= start <= input@.len(),
            sy(input@, start as int, tokens_model(tokens@), operator_stack@) == parse_model(
                input@,
            ),
        decreases input@.len() - start,
    {
        let b = input[start];

        // A single ASCII space produces no token.
        if b == 32 {
            start += 1;
            continue;
        }

        // A UTF-8 non-breaking space produces no token.
        if b == 194 && start + 1 < input.len() && input[start + 1] == 160 {
            start += 2;
            continue;
        }

        // A numeric literal, with an optional base prefix.
        if is_valid_decimal_number(b) {
            let mut num_base = NumberBase::DEC;
            let mut end: usize = start + 1;
            if b == 48 && end < input.len() {
                let next = input[end];
                if next == 98 || next == 66 {
                    num_base = NumberBase::BIN;
                } else if next == 111 || next == 79 {
                    num_base = NumberBase::OCT;
                } else if next == 120 || next == 88 {
                    num_base = NumberBase::HEX;
                }
                if num_base != NumberBase::DEC {
                    end += 1;
                }
            }
            proof {
                assert(num_base == literal_base(input@, start as int));
            }
            let num_start: usize = if num_base != NumberBase::DEC {
                start + 2
            } else {
                start
            };
            let ghost radix = num_base.radix_spec();
            proof {
                if num_base == NumberBase::DEC {
                    assert(is_digit(input@[start as int], 10));
                    assert(digit_run_end(input@, start as int, 10) == digit_run_end(
                        input@,
                        start + 1,
                        10,
                    ));
                }
            }
            while end < input.len() && digit_ok(num_base, input[end])
                invariant
                    num_start <= input@.len(),
                    num_start <= end <= input@.len(),
                    radix == num_base.radix_spec(),
                    digit_run_end(input@, num_start as int, radix) == digit_run_end(
                        input@,
                        end as int,
                        radix,
                    ),
                decreases input@.len() - end,
            {
                proof {
                    assert(digit_run_end(input@, end as int, radix) == digit_run_end(
                        input@,
                        end + 1,
                        radix,
                    ));
                }
                end += 1;
            }
            proof {
                assert(digit_run_end(input@, num_start as int, radix) == end as int);
                lemma_digit_run_end(input@, num_start as int, radix);
            }
            if end < input.len() && is_valid_hexadecimal_number(input[end]) {
                // A hex-valid digit outside the literal's base is fatal;
                // the column stands one past it, as the scanner leaves the
                // cursor there.
                proof {
                    assert(scan_literal(input@, start as int) == LiteralScan {
                        base: num_base,
                        num_start: num_start as int,
                        end: end + 1,
                        ok: false,
                    });
                }
                return Err(
                    ParseError {
                        kind: ParseErrorKind::InvalidNumber(num_base),
                        column: Some(end + 1),
                    },
                );
            }
            proof {
                assert(scan_literal(input@, start as int) == LiteralScan {
                    base: num_base,
                    num_start: num_start as int,
                    end: end as int,
                    ok: true,
                });
            }
            if end > num_start {
                let slice = slice_subrange(input, num_start, end);
                let ghost old_model = tokens_model(tokens@);
                match Number::from_slice(slice, &num_base) {
                    Ok(number) => {
                        tokens.push(Token::Number(number));
                        proof {
                            assert(tokens_model(tokens@) =~= old_model.push(
                                TokenModel::Number(
                                    NumberModel {
                                        value: digits_value(
                                            input@.subrange(num_start as int, end as int),
                                            radix,
                                        ),
                                        base: num_base,
                                    },
                                ),
                            ));
                        }
                    },
                    Err(_) => {
                        // The digit run was validated above; the parse
                        // cannot fail.
                        proof {
                            assert(false);
                        }
                        return vstd::pervasive::unreached();
                    },
                }
            }
            start = end;
            continue;
        }

        // An operator or a parenthesis.
        let rest = slice_subrange(input, start, input.len());
        match Operator::from_bytes(rest) {
            None => {
                return Err(
                    ParseError { kind: ParseErrorKind::InvalidOperator, column: Some(start + 1) },
                );
            },
            Some(op) => {
                if op == Operator::LPARENTHESIS {
                    operator_stack.push(op);
                    start += 1;
                    continue;
                }
                if op == Operator::RPARENTHESIS {
                    let ghost out0 = tokens_model(tokens@);
                    let ghost ops0 = operator_stack@;
                    let mut found = false;
                    while !found && operator_stack.len() > 0
                        invariant
                            pop_to_lparen(out0, ops0) == if found {
                                Some((tokens_model(tokens@), operator_stack@))
                            } else {
                                pop_to_lparen(tokens_model(tokens@), operator_stack@)
                            },
                        decreases operator_stack@.len() * 2 + (if found {
                            0int
                        } else {
                            1int
                        }),
                    {
                        let top = operator_stack[operator_stack.len() - 1];
                        let ghost cur_out = tokens_model(tokens@);
                        let ghost cur_ops = operator_stack@;
                        if top == Operator::LPARENTHESIS {
                            operator_stack.pop();
                            found = true;
                        } else {
                            match operator_stack.pop() {
                                Some(popped_op) => {
                                    tokens.push(Token::Operator(popped_op));
                                    proof {
                                        assert(operator_stack@ =~= cur_ops.drop_last());
                                        assert(tokens_model(tokens@) =~= cur_out.push(
                                            TokenModel::Operator(popped_op),
                                        ));
                                    }
                                },
                                None => {
                                    proof {
                                        assert(false);
                                    }
                                    return vstd::pervasive::unreached();
                                },
                            }
                        }
                    }
                    if !found {
                        return Err(
                            ParseError {
                                kind: ParseErrorKind::MismatchedParenthesis,
                                column: Some(start + 1),
                            },
                        );
                    }
                    start += 1;
                    continue;
                }
                // A binary operator: pop while the top binds tighter, then
                // push it; a two-byte shift consumes two bytes.
                let ghost out0 = tokens_model(tokens@);
                let ghost ops0 = operator_stack@;
                while operator_stack.len() > 0 && should_pop_exec(
                    operator_stack[operator_stack.len() - 1],
                    op,
                )
                    invariant
                        pop_for_precedence(out0, ops0, op) == pop_for_precedence(
                            tokens_model(tokens@),
                            operator_stack@,
                            op,
                        ),
                    decreases operator_stack@.len(),
                {
                    let ghost cur_out = tokens_model(tokens@);
                    let ghost cur_ops = operator_stack@;
                    match operator_stack.pop() {
                        Some(popped_op) => {
                            tokens.push(Token::Operator(popped_op));
                            proof {
                                assert(operator_stack@ =~= cur_ops.drop_last());
                                assert(tokens_model(tokens@) =~= cur_out.push(
                                    TokenModel::Operator(popped_op),
                                ));
                            }
                        },
                        None => {
                            proof {
                                assert(false);
                            }
                            return vstd::pervasive::unreached();
                        },
                    }
                }
                proof {
                    assert(pop_for_precedence(out0, ops0, op) == (
                        tokens_model(tokens@),
                        operator_stack@,
                    ));
                }
                operator_stack.push(op);
                if op == Operator::SHIFTL || op == Operator::SHIFTR {
                    start += 2;
                } else {
                    start += 1;
                }
            },
        }
    }

    // End of input: pop what remains; a leftover parenthesis is fatal.
    while operator_stack.len() > 0
        invariant
            sy(input@, input@.len() as int, tokens_model(tokens@), operator_stack@) == parse_model(
                input@,
            ),
        decreases operator_stack@.len(),
    {
        let ghost cur_out = tokens_model(tokens@);
        let ghost cur_ops = operator_stack@;
        match operator_stack.pop() {
            Some(op) => {
                if op == Operator::LPARENTHESIS || op == Operator::RPARENTHESIS {
                    return Err(
                        ParseError { kind: ParseErrorKind::MismatchedParenthesis, column: None },
                    );
                }
                tokens.push(Token::Operator(op));
                proof {
                    assert(operator_stack@ =~= cur_ops.drop_last());
                    assert(tokens_model(tokens@) =~= cur_out.push(TokenModel::Operator(op)));
                }
            },
            None => {
                proof {
                    assert(false);
                }
                return vstd::pervasive::unreached();
            },
        }
    }
    Ok(tokens)
}

} // verus!
