use ignis::data_type::DataType;
use ignis::environment::{Environment, EvaluatorDiagnosticError, EvaluatorValue, VariableEnvironment};
use ignis::token::{Span, Token, TokenType};

fn token(name: &str) -> Token {
    Token::new(TokenType::Identifier, Span::new("main.ign".to_string(), 3, 4, 4 + name.len(), name.to_string()))
}

fn number(value: i64, is_mutable: bool) -> VariableEnvironment {
    VariableEnvironment::new(EvaluatorValue::Int { value }, is_mutable)
}

fn int_of(env: &Environment, name: &str) -> i64 {
    match env.get(token(name)) {
        Ok(Some(VariableEnvironment { values: EvaluatorValue::Int { value }, .. })) => *value,
        _ => panic!("not an integer variable"),
    }
}

#[test]
fn define_then_get() {
    let mut env = Environment::new(None);
    assert!(env.define("x".to_string(), number(7, false)).is_ok());
    assert_eq!(int_of(&env, "x"), 7);
}

#[test]
fn define_twice_is_refused() {
    let mut env = Environment::new(None);
    assert!(env.define("x".to_string(), VariableEnvironment::new(EvaluatorValue::Boolean { value: true }, true)).is_ok());
    match env.define("x".to_string(), number(1, true)) {
        Err(EvaluatorDiagnosticError::VariableAlreadyDefined(name, DataType::Boolean)) => assert_eq!(name, "x"),
        _ => panic!("expected VariableAlreadyDefined"),
    }
    assert!(matches!(
        env.get(token("x")),
        Ok(Some(VariableEnvironment { values: EvaluatorValue::Boolean { value: true }, .. }))
    ));
}

#[test]
fn get_undefined_is_refused() {
    let env = Environment::new(None);
    match env.get(token("missing")) {
        Err(EvaluatorDiagnosticError::UndefinedVariable(t)) => assert_eq!(t.span.literal, "missing"),
        _ => panic!("expected UndefinedVariable"),
    }
}

#[test]
fn get_reaches_enclosing_scope() {
    let mut outer = Environment::new(None);
    assert!(outer.define("y".to_string(), number(5, false)).is_ok());
    let inner = Environment::new(Some(Box::new(outer)));
    assert_eq!(int_of(&inner, "y"), 5);
}

#[test]
fn inner_definition_shadows_outer() {
    let mut outer = Environment::new(None);
    assert!(outer.define("y".to_string(), number(5, false)).is_ok());
    let mut inner = Environment::new(Some(Box::new(outer)));
    assert!(inner.define("y".to_string(), number(9, false)).is_ok());
    assert_eq!(int_of(&inner, "y"), 9);
    assert_eq!(int_of(inner.enclosing.as_ref().unwrap(), "y"), 5);
}

#[test]
fn assign_mutable_variable() {
    let mut env = Environment::new(None);
    let mut diagnostics = Vec::new();
    assert!(env.define("x".to_string(), number(1, true)).is_ok());
    assert!(env.assign(&token("x"), number(2, true), &mut diagnostics).is_ok());
    assert_eq!(int_of(&env, "x"), 2);
    assert!(diagnostics.is_empty());
}

#[test]
fn assign_immutable_is_refused() {
    let mut env = Environment::new(None);
    let mut diagnostics = Vec::new();
    assert!(env.define("x".to_string(), number(1, false)).is_ok());
    match env.assign(&token("x"), number(2, true), &mut diagnostics) {
        Err(EvaluatorDiagnosticError::InvalidReassignedVariable(span)) => assert_eq!(span.literal, "x"),
        _ => panic!("expected InvalidReassignedVariable"),
    }
    assert_eq!(int_of(&env, "x"), 1);
}

#[test]
fn assign_other_kind_is_refused() {
    let mut env = Environment::new(None);
    let mut diagnostics = Vec::new();
    assert!(env.define("x".to_string(), number(1, true)).is_ok());
    let text = VariableEnvironment::new(EvaluatorValue::String { value: "hi".to_string() }, true);
    match env.assign(&token("x"), text, &mut diagnostics) {
        Err(EvaluatorDiagnosticError::AssingInvalidType(DataType::String, DataType::Int, t)) => {
            assert_eq!(t.span.literal, "x")
        }
        _ => panic!("expected AssingInvalidType"),
    }
    assert_eq!(int_of(&env, "x"), 1);
}

#[test]
fn assign_null_is_refused() {
    let mut env = Environment::new(None);
    let mut diagnostics = Vec::new();
    assert!(env.define("n".to_string(), VariableEnvironment::new(EvaluatorValue::Null, true)).is_ok());
    let again = VariableEnvironment::new(EvaluatorValue::Null, true);
    assert!(matches!(
        env.assign(&token("n"), again, &mut diagnostics),
        Err(EvaluatorDiagnosticError::AssingInvalidType(DataType::Null, DataType::Null, _))
    ));
}

#[test]
fn assign_floats_and_booleans() {
    let mut env = Environment::new(None);
    let mut diagnostics = Vec::new();
    assert!(env.define("f".to_string(), VariableEnvironment::new(EvaluatorValue::Float { bits: 1 }, true)).is_ok());
    let next = VariableEnvironment::new(EvaluatorValue::Float { bits: 2 }, false);
    assert!(env.assign(&token("f"), next, &mut diagnostics).is_ok());
    assert!(matches!(
        env.get(token("f")),
        Ok(Some(VariableEnvironment { values: EvaluatorValue::Float { bits: 2 }, is_mutable: false }))
    ));
}

#[test]
fn assign_undefined_is_refused() {
    let mut env = Environment::new(None);
    let mut diagnostics = Vec::new();
    assert!(matches!(
        env.assign(&token("z"), number(2, true), &mut diagnostics),
        Err(EvaluatorDiagnosticError::UndefinedVariable(_))
    ));
}

#[test]
fn assign_reaches_enclosing_scope() {
    let mut outer = Environment::new(None);
    let mut diagnostics = Vec::new();
    assert!(outer.define("count".to_string(), number(0, true)).is_ok());
    let mut inner = Environment::new(Some(Box::new(outer)));
    assert!(inner.define("other".to_string(), number(3, true)).is_ok());
    assert!(inner.assign(&token("count"), number(10, true), &mut diagnostics).is_ok());
    assert_eq!(int_of(&inner, "count"), 10);
    assert_eq!(int_of(inner.enclosing.as_ref().unwrap(), "count"), 10);
    assert_eq!(int_of(&inner, "other"), 3);
    assert!(inner.values.get("count").is_none());
}

#[test]
fn value_types() {
    assert!(matches!(EvaluatorValue::Int { value: 1 }.to_data_type(), DataType::Int));
    assert!(matches!(EvaluatorValue::Float { bits: 0 }.to_data_type(), DataType::Float));
    assert!(matches!(EvaluatorValue::String { value: String::new() }.to_data_type(), DataType::String));
    assert!(matches!(EvaluatorValue::Boolean { value: false }.to_data_type(), DataType::Boolean));
    assert!(matches!(EvaluatorValue::Null.to_data_type(), DataType::Null));
}

#[test]
fn variable_environment_clone_keeps_fields() {
    let v = VariableEnvironment::new(EvaluatorValue::String { value: "abc".to_string() }, true);
    let c = v.clone();
    assert!(c.is_mutable);
    assert!(matches!(c.values, EvaluatorValue::String { ref value } if value == "abc"));
}
