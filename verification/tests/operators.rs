use lib::analysis_context::LocalContext;
use lib::ast::BinaryOperator;
use lib::diagnostics::{Diagnostic, DiagnosticKind, DiagnosticLevel};
use lib::locations::{Location, Span};
use lib::operators::{check_binary_expression, get_binary_expression_type};
use lib::type_store::{BOOLEAN, FLOAT, INTEGER, STRING, UNKNOWN};

fn check(op: BinaryOperator, left: usize, right: usize) -> (usize, Vec<Diagnostic>) {
    let mut ctx = LocalContext::new();
    let mut diagnostics = Vec::new();
    let ty = check_binary_expression(
        &mut ctx,
        &mut diagnostics,
        op,
        Location::dummy(),
        left,
        Location::dummy(),
        right,
        Location::dummy(),
    );
    (ty, diagnostics)
}

#[test]
fn test_arithmetic_expression() {
    let (ty, errors) = check(BinaryOperator::Add, INTEGER, INTEGER);
    assert_eq!(ty, INTEGER);
    assert_eq!(errors.len(), 0);
}

#[test]
fn test_invalid_arithmetic_expression() {
    let (ty, errors) = check(BinaryOperator::Add, INTEGER, FLOAT);
    assert_eq!(ty, UNKNOWN);
    assert_eq!(errors.len(), 1);
    assert!(matches!(errors[0].kind, DiagnosticKind::MismatchedTypes { .. }));
}

#[test]
fn test_string_concat() {
    let (ty, errors) = check(BinaryOperator::Add, STRING, STRING);
    assert_eq!(ty, STRING);
    assert_eq!(errors.len(), 0);
}

#[test]
fn mismatch_names_both_types() {
    let (_, errors) = check(BinaryOperator::Add, INTEGER, FLOAT);
    assert_eq!(
        errors[0].kind,
        DiagnosticKind::MismatchedTypes { left_name: "int".to_string(), right_name: "float".to_string() }
    );
}

#[test]
fn boolean_operand_of_subtraction_is_reported() {
    let left_loc = Location::new(0, Span::new(0, 4));
    let mut ctx = LocalContext::new();
    let mut diagnostics = Vec::new();
    let ty = check_binary_expression(
        &mut ctx,
        &mut diagnostics,
        BinaryOperator::Sub,
        Location::new(0, Span::new(0, 8)),
        BOOLEAN,
        left_loc,
        INTEGER,
        Location::new(0, Span::new(7, 8)),
    );
    assert_eq!(ty, UNKNOWN);
    assert_eq!(
        diagnostics,
        vec![Diagnostic {
            level: DiagnosticLevel::Error,
            loc: left_loc,
            kind: DiagnosticKind::InvalidTypeForOperator { operator: BinaryOperator::Sub, type_text: "bool".to_string() },
        }]
    );
}

#[test]
fn unknown_operands_are_not_reported() {
    let (ty, errors) = check(BinaryOperator::Mul, UNKNOWN, INTEGER);
    assert_eq!(ty, UNKNOWN);
    assert!(errors.is_empty());
    let (ty, errors) = check(BinaryOperator::EqEq, UNKNOWN, STRING);
    assert_eq!(ty, BOOLEAN);
    assert!(errors.is_empty());
}

#[test]
fn comparing_different_types_is_a_mismatch() {
    let (ty, errors) = check(BinaryOperator::Neq, INTEGER, STRING);
    assert_eq!(ty, BOOLEAN);
    assert_eq!(errors.len(), 1);
    assert!(matches!(errors[0].kind, DiagnosticKind::MismatchedTypes { .. }));
}

#[test]
fn logical_operators_need_booleans() {
    let (ty, errors) = check(BinaryOperator::LAnd, INTEGER, STRING);
    assert_eq!(ty, BOOLEAN);
    assert_eq!(errors.len(), 2);
}

#[test]
fn binary_expression_types() {
    assert_eq!(get_binary_expression_type(BinaryOperator::Add, FLOAT, FLOAT), FLOAT);
    assert_eq!(get_binary_expression_type(BinaryOperator::Pow, INTEGER, INTEGER), INTEGER);
    assert_eq!(get_binary_expression_type(BinaryOperator::Div, INTEGER, FLOAT), UNKNOWN);
    assert_eq!(get_binary_expression_type(BinaryOperator::Less, INTEGER, INTEGER), BOOLEAN);
    assert_eq!(get_binary_expression_type(BinaryOperator::Mod, STRING, STRING), UNKNOWN);
}
