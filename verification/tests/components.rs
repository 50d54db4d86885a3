// Component tests: bases, literal parsing and rendering, operator lexing,
// precedence, associativity, and direct operator application.

use devcalc::number::{Number, NumberBase};
use devcalc::operator::Operator;

#[test]
fn base_labels() {
    assert_eq!(NumberBase::BIN.to_string(), "BIN");
    assert_eq!(NumberBase::OCT.to_string(), "OCT");
    assert_eq!(NumberBase::DEC.to_string(), "DEC");
    assert_eq!(NumberBase::HEX.to_string(), "HEX");
}

#[test]
fn base_names_parse() {
    assert_eq!(NumberBase::from_str(b"bin"), Some(NumberBase::BIN));
    assert_eq!(NumberBase::from_str(b"2"), Some(NumberBase::BIN));
    assert_eq!(NumberBase::from_str(b"oct"), Some(NumberBase::OCT));
    assert_eq!(NumberBase::from_str(b"8"), Some(NumberBase::OCT));
    assert_eq!(NumberBase::from_str(b"dec"), Some(NumberBase::DEC));
    assert_eq!(NumberBase::from_str(b"10"), Some(NumberBase::DEC));
    assert_eq!(NumberBase::from_str(b"hex"), Some(NumberBase::HEX));
    assert_eq!(NumberBase::from_str(b"16"), Some(NumberBase::HEX));
    assert_eq!(NumberBase::from_str(b"ternary"), None);
    assert_eq!(NumberBase::from_str(b""), None);
}

#[test]
fn decimal_literal_round_trips_exactly() {
    let n = Number::from_slice(b"12345", &NumberBase::DEC).unwrap();
    assert_eq!(n.render(), b"12345");
    let zero = Number::from_slice(b"0", &NumberBase::DEC).unwrap();
    assert_eq!(zero.render(), b"0");
}

#[test]
fn hex_literal_round_trips_case_normalized() {
    let n = Number::from_slice(b"ff", &NumberBase::HEX).unwrap();
    assert_eq!(n.render(), b"FF");
    let m = Number::from_slice(b"a0C4", &NumberBase::HEX).unwrap();
    assert_eq!(m.render(), b"A0C4");
}

#[test]
fn binary_and_octal_literals_round_trip() {
    let b = Number::from_slice(b"10110", &NumberBase::BIN).unwrap();
    assert_eq!(b.render(), b"10110");
    let o = Number::from_slice(b"7654", &NumberBase::OCT).unwrap();
    assert_eq!(o.render(), b"7654");
}

#[test]
fn leading_zeros_render_canonically() {
    let n = Number::from_slice(b"00042", &NumberBase::DEC).unwrap();
    assert_eq!(n.render(), b"42");
}

#[test]
fn from_slice_rejects_digits_outside_the_base() {
    assert!(Number::from_slice(b"12", &NumberBase::BIN).is_err());
    assert!(Number::from_slice(b"8", &NumberBase::OCT).is_err());
    assert!(Number::from_slice(b"fg", &NumberBase::HEX).is_err());
    assert!(Number::from_slice(b"", &NumberBase::DEC).is_err());
}

#[test]
fn set_base_keeps_the_value() {
    let n = Number::from_slice(b"255", &NumberBase::DEC).unwrap();
    assert_eq!(n.set_base(&NumberBase::HEX).render(), b"FF");
    assert_eq!(n.set_base(&NumberBase::BIN).render(), b"11111111");
    assert_eq!(n.set_base(&NumberBase::OCT).render(), b"377");
    assert_eq!(n.render(), b"255");
}

#[test]
fn big_values_exceed_machine_words() {
    // 2 ** 200, written as a shift, rendered in decimal.
    let one = Number::from_slice(b"1", &NumberBase::DEC).unwrap();
    let amount = Number::from_slice(b"200", &NumberBase::DEC).unwrap();
    let shifted = Operator::SHIFTL.operate(one, amount).unwrap();
    assert_eq!(
        shifted.render(),
        &b"1606938044258990275541962092341162602522202993782792835301376"[..]
    );
}

#[test]
fn operator_lexing_from_bytes() {
    assert_eq!(Operator::from_bytes(b"+"), Some(Operator::SUM));
    assert_eq!(Operator::from_bytes(b"-"), Some(Operator::SUB));
    assert_eq!(Operator::from_bytes(b"&"), Some(Operator::AND));
    assert_eq!(Operator::from_bytes(b"^"), Some(Operator::XOR));
    assert_eq!(Operator::from_bytes(b"|"), Some(Operator::OR));
    assert_eq!(Operator::from_bytes(b"<<"), Some(Operator::SHIFTL));
    assert_eq!(Operator::from_bytes(b">>"), Some(Operator::SHIFTR));
    assert_eq!(Operator::from_bytes(b"("), Some(Operator::LPARENTHESIS));
    assert_eq!(Operator::from_bytes(b")"), Some(Operator::RPARENTHESIS));
    assert_eq!(Operator::from_bytes(b"<"), None);
    assert_eq!(Operator::from_bytes(b"<>"), None);
    assert_eq!(Operator::from_bytes(b"*"), None);
}

#[test]
fn precedence_table() {
    assert_eq!(Operator::SUM.get_precedence(), 9);
    assert_eq!(Operator::SUB.get_precedence(), 9);
    assert_eq!(Operator::SHIFTL.get_precedence(), 8);
    assert_eq!(Operator::SHIFTR.get_precedence(), 8);
    assert_eq!(Operator::AND.get_precedence(), 7);
    assert_eq!(Operator::XOR.get_precedence(), 6);
    assert_eq!(Operator::OR.get_precedence(), 5);
    assert_eq!(Operator::LPARENTHESIS.get_precedence(), 0);
    assert_eq!(Operator::RPARENTHESIS.get_precedence(), 0);
}

#[test]
fn binary_operators_group_left() {
    assert!(Operator::SUM.is_left_associative());
    assert!(Operator::SUB.is_left_associative());
    assert!(Operator::AND.is_left_associative());
    assert!(Operator::XOR.is_left_associative());
    assert!(Operator::OR.is_left_associative());
    assert!(Operator::SHIFTL.is_left_associative());
    assert!(Operator::SHIFTR.is_left_associative());
    assert!(!Operator::LPARENTHESIS.is_left_associative());
    assert!(!Operator::RPARENTHESIS.is_left_associative());
}

#[test]
fn operate_applies_each_binary_operator() {
    let n = |s: &[u8]| Number::from_slice(s, &NumberBase::DEC).unwrap();
    let render = |r: Option<Number>| r.unwrap().render();
    assert_eq!(render(Operator::SUM.operate(n(b"6"), n(b"7"))), b"13");
    assert_eq!(render(Operator::SUB.operate(n(b"6"), n(b"7"))), b"-1");
    assert_eq!(render(Operator::AND.operate(n(b"12"), n(b"10"))), b"8");
    assert_eq!(render(Operator::XOR.operate(n(b"12"), n(b"10"))), b"6");
    assert_eq!(render(Operator::OR.operate(n(b"12"), n(b"10"))), b"14");
    assert_eq!(render(Operator::SHIFTL.operate(n(b"3"), n(b"2"))), b"12");
    assert_eq!(render(Operator::SHIFTR.operate(n(b"12"), n(b"2"))), b"3");
}

#[test]
fn parentheses_apply_to_nothing() {
    let a = Number::from_slice(b"1", &NumberBase::DEC).unwrap();
    let b = Number::from_slice(b"2", &NumberBase::DEC).unwrap();
    assert!(Operator::LPARENTHESIS.operate(a.clone(), b.clone()).is_none());
    assert!(Operator::RPARENTHESIS.operate(a, b).is_none());
}

#[test]
fn operate_result_inherits_the_left_base() {
    let a = Number::from_slice(b"ff", &NumberBase::HEX).unwrap();
    let b = Number::from_slice(b"1", &NumberBase::DEC).unwrap();
    let r = Operator::SUM.operate(a, b).unwrap();
    assert_eq!(r.render(), b"100");
}

#[test]
fn operator_texts() {
    assert_eq!(Operator::SUM.to_string(), "+");
    assert_eq!(Operator::SUB.to_string(), "-");
    assert_eq!(Operator::AND.to_string(), "&");
    assert_eq!(Operator::XOR.to_string(), "^");
    assert_eq!(Operator::OR.to_string(), "|");
    assert_eq!(Operator::SHIFTL.to_string(), "<<");
    assert_eq!(Operator::SHIFTR.to_string(), ">>");
    assert_eq!(Operator::LPARENTHESIS.to_string(), "(");
    assert_eq!(Operator::RPARENTHESIS.to_string(), ")");
}

#[test]
fn digit_classifiers() {
    assert!(devcalc::digits::is_valid_binary_number(b'1'));
    assert!(!devcalc::digits::is_valid_binary_number(b'2'));
    assert!(devcalc::digits::is_valid_octal_number(b'7'));
    assert!(!devcalc::digits::is_valid_octal_number(b'8'));
    assert!(devcalc::digits::is_valid_decimal_number(b'9'));
    assert!(!devcalc::digits::is_valid_decimal_number(b'a'));
    assert!(devcalc::digits::is_valid_hexadecimal_number(b'a'));
    assert!(devcalc::digits::is_valid_hexadecimal_number(b'F'));
    assert!(!devcalc::digits::is_valid_hexadecimal_number(b'g'));
}
