// Scenario tests of the whole pipeline: scan, parse to postfix, evaluate,
// and render, on concrete expressions.

use devcalc::eval::{evaluate, CalcError, EvalError, Evaluation};
use devcalc::number::NumberBase;

fn final_render(input: &[u8], base: NumberBase) -> Vec<u8> {
    match evaluate(input, base) {
        Ok(Evaluation::Steps(steps)) => {
            assert!(!steps.is_empty(), "expected at least one reduction step");
            steps.last().unwrap().result.set_base(&base).render()
        }
        other => panic!("expected a step trace, got {:?}", result_kind(&other)),
    }
}

fn result_kind(r: &Result<Evaluation, CalcError>) -> &'static str {
    match r {
        Ok(Evaluation::Single(_)) => "single literal",
        Ok(Evaluation::Steps(_)) => "steps",
        Err(CalcError::Parse(_)) => "parse error",
        Err(CalcError::Eval(_)) => "evaluation error",
    }
}

#[test]
fn precedence_sum_binds_before_shift() {
    // SUM ranks 9, SHIFTL ranks 8, so the sum reduces first.
    assert_eq!(final_render(b"2 + 3 << 1", NumberBase::DEC), b"10");
}

#[test]
fn subtraction_groups_to_the_left() {
    assert_eq!(final_render(b"10 - 3 - 2", NumberBase::DEC), b"5");
}

#[test]
fn parentheses_override_precedence() {
    assert_eq!(final_render(b"(2 + 3) << 1", NumberBase::DEC), b"10");
    assert_eq!(final_render(b"2 + (3 << 1)", NumberBase::DEC), b"8");
}

#[test]
fn hex_literal_with_addition() {
    assert_eq!(final_render(b"0xFF + 1", NumberBase::DEC), b"256");
}

#[test]
fn binary_literals_with_and() {
    assert_eq!(final_render(b"0b101 & 0b110", NumberBase::DEC), b"4");
}

#[test]
fn bitwise_or_and_xor() {
    assert_eq!(final_render(b"0b1100 | 0b0011", NumberBase::DEC), b"15");
    assert_eq!(final_render(b"0b1100 ^ 0b0110", NumberBase::DEC), b"10");
}

#[test]
fn shift_right_discards_low_bits() {
    assert_eq!(final_render(b"0b1011 >> 2", NumberBase::DEC), b"2");
}

#[test]
fn precedence_chain_and_after_shift() {
    // "1 + 2 << 2 & 6": the sum first, then the shift, then the AND.
    assert_eq!(final_render(b"1 + 2 << 2 & 6", NumberBase::DEC), b"4");
}

#[test]
fn octal_literal_evaluates() {
    assert_eq!(final_render(b"0o17 + 1", NumberBase::DEC), b"16");
}

#[test]
fn negative_difference_is_exact() {
    assert_eq!(final_render(b"3 - 5", NumberBase::DEC), b"-2");
}

#[test]
fn bitwise_and_on_negative_uses_twos_complement() {
    // (1 - 4) & 5 computes -3 & 5 = 5.
    assert_eq!(final_render(b"1 - 4 & 5", NumberBase::DEC), b"5");
}

#[test]
fn bitwise_xor_on_negative_uses_twos_complement() {
    // (1 - 4) ^ 5 computes -3 ^ 5 = -8.
    assert_eq!(final_render(b"1 - 4 ^ 5", NumberBase::DEC), b"-8");
}

#[test]
fn bitwise_or_on_negative_uses_twos_complement() {
    // (1 - 4) | 5 computes -3 | 5 = -3.
    assert_eq!(final_render(b"1 - 4 | 5", NumberBase::DEC), b"-3");
}

#[test]
fn bitwise_and_of_two_negatives() {
    // (0 - 6) & (0 - 4) computes -6 & -4 = -8.
    assert_eq!(final_render(b"(0 - 6) & (0 - 4)", NumberBase::DEC), b"-8");
}

#[test]
fn shift_left_of_negative_keeps_the_sign() {
    assert_eq!(final_render(b"0 - 3 << 1", NumberBase::DEC), b"-6");
}

#[test]
fn shift_right_of_negative_rounds_down() {
    // (0 - 3) >> 1 computes -2, rounding toward negative infinity.
    assert_eq!(final_render(b"0 - 3 >> 1", NumberBase::DEC), b"-2");
}

#[test]
fn single_literal_fast_path_renders_hex() {
    match evaluate(b"42", NumberBase::HEX) {
        Ok(Evaluation::Single(n)) => assert_eq!(n.render(), b"2A"),
        other => panic!("expected the single-literal fast path, got {:?}", result_kind(&other)),
    }
}

#[test]
fn single_literal_fast_path_renders_bin() {
    match evaluate(b"42", NumberBase::BIN) {
        Ok(Evaluation::Single(n)) => assert_eq!(n.render(), b"101010"),
        other => panic!("expected the single-literal fast path, got {:?}", result_kind(&other)),
    }
}

#[test]
fn reduction_steps_record_operands_and_results() {
    match evaluate(b"2 + 3 << 1", NumberBase::DEC) {
        Ok(Evaluation::Steps(steps)) => {
            assert_eq!(steps.len(), 2);
            assert_eq!(steps[0].a.render(), b"2");
            assert_eq!(steps[0].b.render(), b"3");
            assert_eq!(steps[0].result.render(), b"5");
            assert_eq!(steps[1].a.render(), b"5");
            assert_eq!(steps[1].b.render(), b"1");
            assert_eq!(steps[1].result.render(), b"10");
        }
        other => panic!("expected a step trace, got {:?}", result_kind(&other)),
    }
}

#[test]
fn nonbreaking_space_is_skipped() {
    let mut input: Vec<u8> = Vec::new();
    input.extend_from_slice(b"1");
    input.extend_from_slice(&[194, 160]);
    input.extend_from_slice(b"+ 2");
    assert_eq!(final_render(&input, NumberBase::DEC), b"3");
}

#[test]
fn empty_input_yields_no_steps() {
    match evaluate(b"", NumberBase::DEC) {
        Ok(Evaluation::Steps(steps)) => assert!(steps.is_empty()),
        other => panic!("expected an empty step trace, got {:?}", result_kind(&other)),
    }
}

#[test]
fn two_literals_without_operator_yield_no_steps() {
    match evaluate(b"1 2", NumberBase::DEC) {
        Ok(Evaluation::Steps(steps)) => assert!(steps.is_empty()),
        other => panic!("expected an empty step trace, got {:?}", result_kind(&other)),
    }
}

#[test]
fn bare_base_prefix_produces_no_token() {
    // A prefix with no digits after it scans to nothing, as the scanner
    // drops an empty digit payload.
    match evaluate(b"0x", NumberBase::DEC) {
        Ok(Evaluation::Steps(steps)) => assert!(steps.is_empty()),
        other => panic!("expected an empty step trace, got {:?}", result_kind(&other)),
    }
}

#[test]
fn operator_without_operands_is_malformed() {
    match evaluate(b"+ 1", NumberBase::DEC) {
        Err(CalcError::Eval(EvalError::MalformedExpression)) => {}
        other => panic!("expected a malformed-expression error, got {:?}", result_kind(&other)),
    }
}

#[test]
fn shift_by_negative_amount_fails_evaluation() {
    match evaluate(b"2 << (1 - 2)", NumberBase::DEC) {
        Err(CalcError::Eval(EvalError::OperationFailed(a, op, b))) => {
            assert_eq!(a.render(), b"2");
            assert_eq!(op.to_string(), "<<");
            assert_eq!(b.render(), b"-1");
        }
        other => panic!("expected an operation failure, got {:?}", result_kind(&other)),
    }
}
