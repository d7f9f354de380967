//! The value model: conversions, equality and the built-in operations.

use yarnspinner::value::Value;
use yarnspinner::vm::call_builtin;

#[test]
fn every_value_converts_to_text() {
    assert_eq!(Value::Number(42).to_text(), "42");
    assert_eq!(Value::Number(-7).to_text(), "-7");
    assert_eq!(Value::Number(0).to_text(), "0");
    assert_eq!(Value::Text("hi".to_string()).to_text(), "hi");
    assert_eq!(Value::Boolean(true).to_text(), "true");
    assert_eq!(Value::Boolean(false).to_text(), "false");
    assert_eq!(Value::Null.to_text(), "null");
}

#[test]
fn numbers_read_from_text_and_booleans() {
    assert_eq!(Value::Text("123".to_string()).to_number(), Some(123));
    assert_eq!(Value::Text("-5".to_string()).to_number(), Some(-5));
    assert_eq!(Value::Text("foo".to_string()).to_number(), None);
    assert_eq!(Value::Text("".to_string()).to_number(), None);
    assert_eq!(Value::Boolean(true).to_number(), Some(1));
    assert_eq!(Value::Boolean(false).to_number(), Some(0));
    assert_eq!(Value::Null.to_number(), None);
    assert_eq!(
        Value::Text("9223372036854775807".to_string()).to_number(),
        Some(i64::MAX)
    );
    assert_eq!(
        Value::Text("-9223372036854775808".to_string()).to_number(),
        Some(i64::MIN)
    );
    assert_eq!(Value::Text("9223372036854775808".to_string()).to_number(), None);
}

#[test]
fn booleans_read_from_numbers_and_text() {
    assert_eq!(Value::Number(0).to_bool(), Some(false));
    assert_eq!(Value::Number(3).to_bool(), Some(true));
    assert_eq!(Value::Text("true".to_string()).to_bool(), Some(true));
    assert_eq!(Value::Text("false".to_string()).to_bool(), Some(false));
    assert_eq!(Value::Text("maybe".to_string()).to_bool(), None);
    assert_eq!(Value::Null.to_bool(), None);
}

#[test]
fn equality_is_by_variant_then_value() {
    assert!(Value::Number(1).equals(&Value::Number(1)));
    assert!(!Value::Number(1).equals(&Value::Number(2)));
    assert!(!Value::Number(1).equals(&Value::Text("1".to_string())));
    assert!(Value::Text("a".to_string()).equals(&Value::Text("a".to_string())));
    assert!(Value::Null.equals(&Value::Null));
    assert!(!Value::Null.equals(&Value::Boolean(false)));
}

fn num2(a: i64, b: i64) -> Vec<Value> {
    vec![Value::Number(a), Value::Number(b)]
}

#[test]
fn builtin_arithmetic_is_exact() {
    assert!(matches!(
        call_builtin("Number.Add", &num2(2, 3)),
        Some(Ok(Value::Number(5)))
    ));
    assert!(matches!(
        call_builtin("Number.Subtract", &num2(2, 3)),
        Some(Ok(Value::Number(-1)))
    ));
    assert!(matches!(
        call_builtin("Number.Multiply", &num2(4, -3)),
        Some(Ok(Value::Number(-12)))
    ));
    assert!(matches!(
        call_builtin("Number.Divide", &num2(7, 2)),
        Some(Ok(Value::Number(3)))
    ));
    assert!(matches!(
        call_builtin("Number.Divide", &num2(7, 0)),
        Some(Ok(Value::Number(0)))
    ));
    assert!(matches!(
        call_builtin("Number.Modulo", &num2(7, 2)),
        Some(Ok(Value::Number(1)))
    ));
    // Sums saturate rather than wrap.
    assert!(matches!(
        call_builtin("Number.Add", &num2(i64::MAX, 1)),
        Some(Ok(Value::Number(i64::MAX)))
    ));
}

#[test]
fn builtin_comparisons_and_logic() {
    assert!(matches!(
        call_builtin("Number.LessThan", &num2(1, 2)),
        Some(Ok(Value::Boolean(true)))
    ));
    assert!(matches!(
        call_builtin("Number.GreaterThanOrEqualTo", &num2(2, 2)),
        Some(Ok(Value::Boolean(true)))
    ));
    let both = vec![Value::Boolean(true), Value::Boolean(false)];
    assert!(matches!(
        call_builtin("Bool.And", &both),
        Some(Ok(Value::Boolean(false)))
    ));
    assert!(matches!(
        call_builtin("Bool.Or", &both),
        Some(Ok(Value::Boolean(true)))
    ));
    let texts = vec![
        Value::Text("ab".to_string()),
        Value::Text("cd".to_string()),
    ];
    match call_builtin("String.Concat", &texts) {
        Some(Ok(Value::Text(s))) => assert_eq!(s, "abcd"),
        other => panic!("unexpected {:?}", other),
    }
}

#[test]
fn builtin_type_mismatch_is_reported() {
    let bad = vec![Value::Null, Value::Number(1)];
    assert!(matches!(
        call_builtin("Number.Add", &bad),
        Some(Err(yarnspinner::vm::RuntimeError::TypeMismatch))
    ));
    // Coercions apply first: text that reads as a number is accepted.
    let text_num = vec![Value::Text("4".to_string()), Value::Number(1)];
    assert!(matches!(
        call_builtin("Number.Add", &text_num),
        Some(Ok(Value::Number(5)))
    ));
    // A name that is not built in is not handled here.
    assert!(call_builtin("mystery", &num2(1, 2)).is_none());
}
