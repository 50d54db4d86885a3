//! The postfix evaluator: it consumes the postfix token sequence with a
//! value stack, applying each operator to the two most recently pushed
//! operands and recording every reduction step, and the whole pipeline
//! from raw bytes to a result.

use vstd::prelude::*;
use crate::number::{Number, NumberBase, NumberModel};
use crate::operator::{apply_model, Operator};
use crate::parser::{error_matches, parse_model, shunting_yard, ParseError};
use crate::token::{tokens_model, Token, TokenModel};

verus! {

/// One reduction step: the operands, the operator, and what it computed.
pub struct Step {
    pub a: Number,
    pub op: Operator,
    pub b: Number,
    pub result: Number,
}

/// What a `Step` holds, for specifications.
pub ghost struct StepModel {
    pub a: NumberModel,
    pub op: Operator,
    pub b: NumberModel,
    pub result: NumberModel,
}

impl Step {
    /// The abstract content of this step.
    pub open spec fn model(self) -> StepModel {
        StepModel { a: self.a.model(), op: self.op, b: self.b.model(), result: self.result.model() }
    }
}

/// The abstract contents of a step sequence.
pub open spec fn steps_model(s: Seq<Step>) -> Seq<StepModel> {
    s.map_values(|st: Step| st.model())
}

/// The abstract contents of a value stack.
pub open spec fn stack_model(s: Seq<Number>) -> Seq<NumberModel> {
    s.map_values(|n: Number| n.model())
}

/// Why an evaluation failed.
pub enum EvalError {
    /// An operator arrived with fewer than two values on the stack.
    MalformedExpression,
    /// An operator application yielded no result; the operands are kept
    /// for the diagnostic.
    OperationFailed(Number, Operator, Number),
}

/// What evaluating a postfix sequence yields, for specifications.
pub ghost enum EvalModel {
    /// The recorded reduction steps, in order; empty when the sequence
    /// held no operator.
    Trace(Seq<StepModel>),
    Malformed,
    Failed(NumberModel, Operator, NumberModel),
}

/// One evaluation state: the cursor into the postfix sequence, the value
/// stack, and the steps recorded so far. A number is pushed; an operator
/// pops its right operand, then its left, and pushes what it computes.
pub open spec fn eval_rec(
    toks: Seq<TokenModel>,
    i: int,
    stack: Seq<NumberModel>,
    steps: Seq<StepModel>,
) -> EvalModel
    decreases toks.len() - i,
{
    if i < 0 || i >= toks.len() {
        EvalModel::Trace(steps)
    } else {
        match toks[i] {
            TokenModel::Number(n) => eval_rec(toks, i + 1, stack.push(n), steps),
            TokenModel::Operator(op) => {
                if stack.len() < 2 {
                    EvalModel::Malformed
                } else {
                    let b = stack.last();
                    let a = stack[stack.len() - 2];
                    match apply_model(op, a, b) {
                        None => EvalModel::Failed(a, op, b),
                        Some(res) => eval_rec(
                            toks,
                            i + 1,
                            stack.drop_last().drop_last().push(res),
                            steps.push(StepModel { a, op, b, result: res }),
                        ),
                    }
                }
            },
        }
    }
}

/// What evaluating a whole postfix sequence yields.
pub open spec fn eval_model(toks: Seq<TokenModel>) -> EvalModel {
    eval_rec(toks, 0, Seq::empty(), Seq::empty())
}

/// Evaluates a postfix token sequence, recording every reduction step,
/// exactly as `eval_model` states. A sequence without operators yields an
/// empty trace.
pub fn postfix_eval(tokens: &Vec<Token>) -> (r: Result<Vec<Step>, EvalError>)
    ensures
        eval_model(tokens_model(tokens@)) matches EvalModel::Trace(s) ==> r is Ok && steps_model(
            r->Ok_0@,
        ) == s,
        eval_model(tokens_model(tokens@)) is Malformed ==> r matches Err(
            EvalError::MalformedExpression,
        ),
        eval_model(tokens_model(tokens@)) matches EvalModel::Failed(a, op, b) ==> (r matches Err(
            EvalError::OperationFailed(ea, eop, eb),
        ) && ea.model() == a && eop == op && eb.model() == b),
{
    let mut stack: Vec<Number> = Vec::new();
    let mut operations: Vec<Step> = Vec::new();
    let mut i: usize = 0;

    proof {
        assert(stack_model(stack@) =~= Seq::<NumberModel>::empty());
        assert(steps_model(operations@) =~= Seq::<StepModel>::empty());
    }

    while i < tokens.len()
        invariant
            0 <= i <= tokens@.len(),
            eval_rec(
                tokens_model(tokens@),
                i as int,
                stack_model(stack@),
                steps_model(operations@),
            ) == eval_model(tokens_model(tokens@)),
        decreases tokens@.len() - i,
    {
        let ghost cur_stack = stack_model(stack@);
        let ghost cur_steps = steps_model(operations@);
        match &tokens[i] {
            Token::Number(n) => {
                stack.push(n.clone());
                proof {
                    assert(stack_model(stack@) =~= cur_stack.push(n.model()));
                }
            },
            Token::Operator(op) => {
                if stack.len() >= 2 {
                    let b = match stack.pop() {
                        Some(v) => v,
                        None => vstd::pervasive::unreached(),
                    };
                    let a = match stack.pop() {
                        Some(v) => v,
                        None => vstd::pervasive::unreached(),
                    };
                    proof {
                        assert(stack_model(stack@) =~= cur_stack.drop_last().drop_last());
                        assert(a.model() == cur_stack[cur_stack.len() - 2]);
                        assert(b.model() == cur_stack.last());
                    }
                    match op.operate(a.clone(), b.clone()) {
                        Some(result) => {
                            operations.push(
                                Step { a, op: *op, b, result: result.clone() },
                            );
                            stack.push(result);
                            proof {
                                assert(stack_model(stack@) =~= cur_stack.drop_last().drop_last()
                                    .push(stack@.last().model()));
                                assert(steps_model(operations@) =~= cur_steps.push(
                                    operations@.last().model(),
                                ));
                            }
                        },
                        None => {
                            return Err(EvalError::OperationFailed(a, *op, b));
                        },
                    }
                } else {
                    return Err(EvalError::MalformedExpression);
                }
            },
        }
        i += 1;
    }
    Ok(operations)
}

/// What one run of the calculator produced: a lone literal displayed in
/// the output base, or the reduction steps of a full evaluation.
pub enum Evaluation {
    Single(Number),
    Steps(Vec<Step>),
}

/// The first failure of a run: a scan failure or an evaluation failure.
pub enum CalcError {
    Parse(ParseError),
    Eval(EvalError),
}

/// Whether a postfix sequence is one lone number, which is displayed
/// directly, with no reduction step.
pub open spec fn is_single_number(toks: Seq<TokenModel>) -> bool {
    toks.len() == 1 && toks[0] is Number
}

/// Runs the whole pipeline on an expression: scan and parse to postfix,
/// then either display a lone literal in the output base, or evaluate the
/// postfix sequence and record every step.
pub fn evaluate(input: &[u8], output_base: NumberBase) -> (r: Result<Evaluation, CalcError>)
    ensures
        parse_model(input@) is Err ==> (r matches Err(CalcError::Parse(pe)) && error_matches(
            pe,
            parse_model(input@)->Err_0,
        )),
        (parse_model(input@) is Ok && is_single_number(parse_model(input@)->Ok_0)) ==> (r matches
            Ok(Evaluation::Single(n)) && n.model() == (NumberModel {
            value: parse_model(input@)->Ok_0[0]->Number_0.value,
            base: output_base,
        })),
        (parse_model(input@) is Ok && !is_single_number(parse_model(input@)->Ok_0)) ==> {
            match eval_model(parse_model(input@)->Ok_0) {
                EvalModel::Trace(s) => r matches Ok(Evaluation::Steps(steps)) && steps_model(
                    steps@,
                ) == s,
                EvalModel::Malformed => r matches Err(
                    CalcError::Eval(EvalError::MalformedExpression),
                ),
                EvalModel::Failed(a, op, b) => r matches Err(
                    CalcError::Eval(EvalError::OperationFailed(ea, eop, eb)),
                ) && ea.model() == a && eop == op && eb.model() == b,
            }
        },
{
    match shunting_yard(input) {
        Err(e) => Err(CalcError::Parse(e)),
        Ok(tokens) => {
            if tokens.len() == 1 {
                match &tokens[0] {
                    Token::Number(n) => {
                        proof {
                            assert(tokens_model(tokens@)[0] == tokens@[0].model());
                        }
                        return Ok(Evaluation::Single(n.set_base(&output_base)));
                    },
                    Token::Operator(_) => {},
                }
            }
            proof {
                if tokens@.len() == 1 {
                    assert(tokens_model(tokens@)[0] == tokens@[0].model());
                }
            }
            match postfix_eval(&tokens) {
                Ok(steps) => Ok(Evaluation::Steps(steps)),
                Err(e) => Err(CalcError::Eval(e)),
            }
        },
    }
}

} // verus!
