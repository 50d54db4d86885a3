// Error reporting: kinds, columns and diagnostic texts of failed scans.

use devcalc::eval::{evaluate, CalcError, Evaluation};
use devcalc::number::NumberBase;
use devcalc::parser::{shunting_yard, ParseErrorKind};

fn parse_failure(input: &[u8]) -> devcalc::parser::ParseError {
    match shunting_yard(input) {
        Err(e) => e,
        Ok(_) => panic!("expected the scan to fail"),
    }
}

#[test]
fn invalid_binary_digit_reports_its_column() {
    let e = parse_failure(b"0b12");
    assert!(matches!(e.kind, ParseErrorKind::InvalidNumber(NumberBase::BIN)));
    assert_eq!(e.column, Some(4));
    assert_eq!(e.message(), "Invalid BIN number");
}

#[test]
fn invalid_decimal_digit_reports_its_column() {
    let e = parse_failure(b"12a + 1");
    assert!(matches!(e.kind, ParseErrorKind::InvalidNumber(NumberBase::DEC)));
    assert_eq!(e.column, Some(3));
    assert_eq!(e.message(), "Invalid DEC number");
}

#[test]
fn invalid_octal_digit_reports_its_column() {
    let e = parse_failure(b"0o18");
    assert!(matches!(e.kind, ParseErrorKind::InvalidNumber(NumberBase::OCT)));
    assert_eq!(e.column, Some(4));
    assert_eq!(e.message(), "Invalid OCT number");
}

#[test]
fn unrecognized_byte_is_an_invalid_operator() {
    let e = parse_failure(b"1 $ 2");
    assert!(matches!(e.kind, ParseErrorKind::InvalidOperator));
    assert_eq!(e.column, Some(3));
    assert_eq!(e.message(), "Invalid operator");
}

#[test]
fn lone_left_angle_is_an_invalid_operator() {
    let e = parse_failure(b"1 < 2");
    assert!(matches!(e.kind, ParseErrorKind::InvalidOperator));
    assert_eq!(e.column, Some(3));
}

#[test]
fn unmatched_left_parenthesis_fails_structurally() {
    let e = parse_failure(b"(1 + 2");
    assert!(matches!(e.kind, ParseErrorKind::MismatchedParenthesis));
    assert_eq!(e.column, None);
    assert_eq!(e.message(), "Error mismatched parenthesis");
}

#[test]
fn unmatched_right_parenthesis_fails_structurally() {
    let e = parse_failure(b"1 + 2)");
    assert!(matches!(e.kind, ParseErrorKind::MismatchedParenthesis));
    assert_eq!(e.column, Some(6));
}

#[test]
fn parse_errors_surface_through_evaluate() {
    match evaluate(b"(1 + 2", NumberBase::DEC) {
        Err(CalcError::Parse(e)) => {
            assert!(matches!(e.kind, ParseErrorKind::MismatchedParenthesis));
        }
        Err(CalcError::Eval(_)) => panic!("expected a parse error, got an evaluation error"),
        Ok(Evaluation::Single(_)) => panic!("expected a parse error, got a single literal"),
        Ok(Evaluation::Steps(_)) => panic!("expected a parse error, got a step trace"),
    }
}
