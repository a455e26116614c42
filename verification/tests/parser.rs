use lib::ast::{
    Alternate, ArrayExpression, BinaryExpression, BinaryOperator, BlockExpression, BooleanLiteral,
    CallArgument, CallExpression, Callback, CallbackParam, Expression, ForExpression, Identifier,
    IfExpression, IntLiteral, Loop, MemberExpression, MemberProp, StringLiteral, TupleExpression,
    UnaryExpression, UnaryOperator,
};
use lib::diagnostics::{Diagnostic, DiagnosticKind, DiagnosticLevel};
use lib::locations::{Location, Span};
use lib::parser::Parser;
use lib::tokens::Token;

fn loc(start: u32, end: u32) -> Location {
    Location::new(0, Span::new(start, end))
}

fn parse(input: &str) -> (Option<Expression>, Vec<Diagnostic>) {
    let mut parser = Parser::new(0, input);
    let result = parser.parse_expression();
    (result, parser.diagnostics)
}

fn test_expression(input: &str, expected: Expression, diagnostics: Vec<Diagnostic>) {
    let (result, found) = parse(input);
    assert_eq!(result, Some(expected));
    assert_eq!(found, diagnostics);
}

fn int_lit(start: u32, end: u32, value: i64) -> Expression {
    Expression::IntLiteral(IntLiteral { loc: loc(start, end), value })
}

fn ident(start: u32, end: u32, text: &str) -> Expression {
    Expression::Identifier(Identifier { loc: loc(start, end), text: text.to_string() })
}

fn error(kind: DiagnosticKind, start: u32, end: u32) -> Diagnostic {
    Diagnostic { level: DiagnosticLevel::Error, loc: loc(start, end), kind }
}

fn float_text(input: &str) -> (Location, f64) {
    match parse(input) {
        (Some(Expression::FloatLiteral(f)), d) => {
            assert!(d.is_empty());
            (f.loc, f.text.replace('_', "").parse::<f64>().unwrap())
        },
        other => panic!("expected a float literal, got {:?}", other),
    }
}

#[test]
fn parse_empty_array() {
    test_expression(
        "[]",
        Expression::Array(ArrayExpression { loc: loc(0, 2), elements: vec![] }),
        vec![],
    );
}

#[test]
fn parse_array() {
    test_expression(
        "[1]",
        Expression::Array(ArrayExpression { loc: loc(0, 3), elements: vec![int_lit(1, 2, 1)] }),
        vec![],
    );
}

#[test]
fn test_parse_int() {
    test_expression("42", int_lit(0, 2, 42), vec![]);
}

#[test]
fn parse_int_with_underscore() {
    test_expression("42_000", int_lit(0, 6, 42000), vec![]);
}

#[test]
fn test_parse_float() {
    assert_eq!(float_text("3.14"), (loc(0, 4), 3.14));
}

#[test]
fn test_parse_float_no_decimals() {
    assert_eq!(float_text("3."), (loc(0, 2), 3.));
}

#[test]
fn test_parse_float_with_underscore() {
    assert_eq!(float_text("3.14_000"), (loc(0, 8), 3.14));
}

#[test]
fn test_parse_float_only_decimals() {
    assert_eq!(float_text(".14"), (loc(0, 3), 0.14));
}

#[test]
fn parse_bool_true() {
    test_expression(
        "true",
        Expression::BooleanLiteral(BooleanLiteral { loc: loc(0, 4), value: true }),
        vec![],
    );
}

#[test]
fn parse_bool_false() {
    test_expression(
        "false",
        Expression::BooleanLiteral(BooleanLiteral { loc: loc(0, 5), value: false }),
        vec![],
    );
}

#[test]
fn parse_string() {
    test_expression(
        "\"hello world\"",
        Expression::StringLiteral(StringLiteral { loc: loc(0, 13), text: "hello world".to_string() }),
        vec![],
    );
}

#[test]
fn parse_string_with_escaped_quote() {
    test_expression(
        "\"hello \\\"world\\\"\"",
        Expression::StringLiteral(StringLiteral { loc: loc(0, 17), text: "hello \"world\"".to_string() }),
        vec![],
    );
}

#[test]
fn test_parse_identifier() {
    test_expression("x", ident(0, 1, "x"), vec![]);
}

#[test]
fn parse_binary_expression() {
    test_expression(
        "1 + 2",
        Expression::Binary(BinaryExpression {
            loc: loc(0, 5),
            left: Box::new(int_lit(0, 1, 1)),
            operator: BinaryOperator::Add,
            right: Box::new(int_lit(4, 5, 2)),
        }),
        vec![],
    );
}

#[test]
fn test_parse_if_expression() {
    test_expression(
        "if true {}",
        Expression::If(IfExpression {
            loc: loc(0, 10),
            condition: Box::new(Expression::BooleanLiteral(BooleanLiteral { loc: loc(3, 7), value: true })),
            consequent: Box::new(BlockExpression { statements: vec![], loc: loc(8, 10) }),
            alternate: None,
        }),
        vec![],
    );
}

#[test]
fn test_parse_if_expression_with_alternate() {
    test_expression(
        "if true {} else {}",
        Expression::If(IfExpression {
            loc: loc(0, 18),
            condition: Box::new(Expression::BooleanLiteral(BooleanLiteral { loc: loc(3, 7), value: true })),
            consequent: Box::new(BlockExpression { statements: vec![], loc: loc(8, 10) }),
            alternate: Some(Box::new(Alternate::Block(BlockExpression { statements: vec![], loc: loc(16, 18) }))),
        }),
        vec![],
    );
}

#[test]
fn test_parse_if_expression_missing_consequent() {
    test_expression(
        "if true",
        Expression::If(IfExpression {
            loc: loc(0, 7),
            condition: Box::new(Expression::BooleanLiteral(BooleanLiteral { loc: loc(3, 7), value: true })),
            consequent: Box::new(BlockExpression { statements: vec![], loc: loc(7, 7) }),
            alternate: None,
        }),
        vec![error(DiagnosticKind::ExpectedToken { expected: vec!["{".to_string()] }, 7, 7)],
    );
}

#[test]
fn parse_for_loop() {
    test_expression(
        "for true {}",
        Expression::Loop(Loop::For(ForExpression {
            loc: loc(0, 11),
            condition: Some(Box::new(Expression::BooleanLiteral(BooleanLiteral { loc: loc(4, 8), value: true }))),
            body: Some(BlockExpression { loc: loc(9, 11), statements: vec![] }),
        })),
        vec![],
    );
}

#[test]
fn parse_field_access() {
    test_expression(
        "object.field",
        Expression::Member(MemberExpression {
            loc: loc(0, 12),
            object: Box::new(ident(0, 6, "object")),
            prop: Some(MemberProp::FieldName(Identifier { loc: loc(7, 12), text: "field".to_string() })),
        }),
        vec![],
    );
}

#[test]
fn parse_tuple_index() {
    test_expression(
        "object.0",
        Expression::Member(MemberExpression {
            loc: loc(0, 8),
            object: Box::new(ident(0, 6, "object")),
            prop: Some(MemberProp::Index(IntLiteral { loc: loc(7, 8), value: 0 })),
        }),
        vec![],
    );
}

#[test]
fn parse_two_indices() {
    test_expression(
        "object.0.1",
        Expression::Member(MemberExpression {
            loc: loc(0, 10),
            object: Box::new(Expression::Member(MemberExpression {
                loc: loc(0, 8),
                object: Box::new(ident(0, 6, "object")),
                prop: Some(MemberProp::Index(IntLiteral { loc: loc(7, 8), value: 0 })),
            })),
            prop: Some(MemberProp::Index(IntLiteral { loc: loc(9, 10), value: 1 })),
        }),
        vec![],
    );
}

#[test]
fn parse_member_expression_with_trailing_dot() {
    test_expression(
        "object.",
        Expression::Member(MemberExpression { loc: loc(0, 7), object: Box::new(ident(0, 6, "object")), prop: None }),
        vec![error(DiagnosticKind::InvalidMember, 7, 8)],
    );
}

#[test]
fn parse_call_expression_no_args() {
    test_expression(
        "function()",
        Expression::Call(CallExpression { loc: loc(0, 10), callee: Box::new(ident(0, 8, "function")), args: vec![] }),
        vec![],
    );
}

#[test]
fn parse_call_expression_one_arg() {
    test_expression(
        "function(1)",
        Expression::Call(CallExpression {
            loc: loc(0, 11),
            callee: Box::new(ident(0, 8, "function")),
            args: vec![CallArgument::Expression(int_lit(9, 10, 1))],
        }),
        vec![],
    );
}

#[test]
fn test_parse_empty_tuple() {
    test_expression("()", Expression::Tuple(TupleExpression { loc: loc(0, 2), elements: vec![] }), vec![]);
}

#[test]
fn test_parse_simple_tuple() {
    test_expression(
        "(0)",
        Expression::Tuple(TupleExpression { loc: loc(0, 3), elements: vec![int_lit(1, 2, 0)] }),
        vec![],
    );
}

#[test]
fn test_parse_tuple() {
    test_expression(
        "(0, 1)",
        Expression::Tuple(TupleExpression { loc: loc(0, 6), elements: vec![int_lit(1, 2, 0), int_lit(4, 5, 1)] }),
        vec![],
    );
}

#[test]
fn test_parse_tuple_with_trailing_comma() {
    test_expression(
        "(0,)",
        Expression::Tuple(TupleExpression { loc: loc(0, 4), elements: vec![int_lit(1, 2, 0)] }),
        vec![],
    );
}

#[test]
fn test_parse_tuple_with_missing_comma() {
    let expected: Vec<String> = vec![Token::Newline, Token::Comma, Token::RParen].into_iter().map(|d| d.to_string()).collect();
    test_expression(
        "(0 1)",
        Expression::Tuple(TupleExpression { loc: loc(0, 5), elements: vec![int_lit(1, 2, 0)] }),
        vec![error(DiagnosticKind::ExpectedToken { expected }, 3, 4)],
    );
}

#[test]
fn test_parse_unary() {
    test_expression(
        "&a",
        Expression::Unary(UnaryExpression {
            loc: loc(0, 2),
            operator: UnaryOperator::Ampersand,
            operand: Box::new(ident(1, 2, "a")),
        }),
        vec![],
    );
}

#[test]
fn test_parse_nested_unary() {
    test_expression(
        "&*a",
        Expression::Unary(UnaryExpression {
            loc: loc(0, 3),
            operator: UnaryOperator::Ampersand,
            operand: Box::new(Expression::Unary(UnaryExpression {
                loc: loc(1, 3),
                operator: UnaryOperator::Star,
                operand: Box::new(ident(2, 3, "a")),
            })),
        }),
        vec![],
    );
}

#[test]
fn test_parse_unary_with_missing_expression() {
    test_expression(
        "&",
        Expression::Unary(UnaryExpression {
            loc: loc(0, 1),
            operator: UnaryOperator::Ampersand,
            operand: Box::new(Expression::Empty),
        }),
        vec![error(DiagnosticKind::MissingExpression, 1, 2)],
    );
}

// ----- further cases -----

fn binary(start: u32, end: u32, left: Expression, operator: BinaryOperator, right: Expression) -> Expression {
    Expression::Binary(BinaryExpression { loc: loc(start, end), left: Box::new(left), operator, right: Box::new(right) })
}

#[test]
fn multiplication_binds_tighter_than_addition() {
    test_expression(
        "1 + 2 * 3",
        binary(0, 9, int_lit(0, 1, 1), BinaryOperator::Add, binary(4, 9, int_lit(4, 5, 2), BinaryOperator::Mul, int_lit(8, 9, 3))),
        vec![],
    );
}

#[test]
fn subtraction_groups_to_the_left() {
    test_expression(
        "1 - 2 - 3",
        binary(0, 9, binary(0, 5, int_lit(0, 1, 1), BinaryOperator::Sub, int_lit(4, 5, 2)), BinaryOperator::Sub, int_lit(8, 9, 3)),
        vec![],
    );
}

#[test]
fn exponentiation_groups_to_the_right() {
    test_expression(
        "1 ** 2 ** 3",
        binary(0, 11, int_lit(0, 1, 1), BinaryOperator::Pow, binary(5, 11, int_lit(5, 6, 2), BinaryOperator::Pow, int_lit(10, 11, 3))),
        vec![],
    );
}

#[test]
fn logical_operators_bind_loosest() {
    test_expression(
        "a || b && c == d",
        binary(
            0,
            16,
            ident(0, 1, "a"),
            BinaryOperator::LOr,
            binary(5, 16, ident(5, 6, "b"), BinaryOperator::LAnd, binary(10, 16, ident(10, 11, "c"), BinaryOperator::EqEq, ident(15, 16, "d"))),
        ),
        vec![],
    );
}

#[test]
fn binary_with_missing_right_operand() {
    test_expression(
        "1 +",
        binary(0, 3, int_lit(0, 1, 1), BinaryOperator::Add, Expression::Empty),
        vec![error(DiagnosticKind::MissingExpression, 3, 4)],
    );
}

#[test]
fn exponent_with_missing_right_operand() {
    test_expression(
        "2 **",
        binary(0, 4, int_lit(0, 1, 2), BinaryOperator::Pow, Expression::Empty),
        vec![error(DiagnosticKind::MissingExpression, 4, 5)],
    );
}

#[test]
fn nested_tuple_consumes_both_parentheses() {
    test_expression(
        "((1)) + 2",
        binary(
            0,
            9,
            Expression::Tuple(TupleExpression {
                loc: loc(0, 5),
                elements: vec![Expression::Tuple(TupleExpression { loc: loc(1, 4), elements: vec![int_lit(2, 3, 1)] })],
            }),
            BinaryOperator::Add,
            int_lit(8, 9, 2),
        ),
        vec![],
    );
}

#[test]
fn stray_comma_in_tuple() {
    test_expression(
        "(, 1)",
        Expression::Tuple(TupleExpression { loc: loc(0, 5), elements: vec![int_lit(3, 4, 1)] }),
        vec![error(DiagnosticKind::UnexpectedToken { token: ",".to_string() }, 1, 2)],
    );
}

#[test]
fn unclosed_array() {
    test_expression(
        "[1",
        Expression::Array(ArrayExpression { loc: loc(0, 2), elements: vec![int_lit(1, 2, 1)] }),
        vec![error(DiagnosticKind::ExpectedToken { expected: vec!["]".to_string()] }, 2, 2)],
    );
}

#[test]
fn call_with_callback_argument() {
    test_expression(
        "f((a, b) => a)",
        Expression::Call(CallExpression {
            loc: loc(0, 14),
            callee: Box::new(ident(0, 1, "f")),
            args: vec![CallArgument::Callback(Callback {
                loc: loc(2, 13),
                params: vec![
                    CallbackParam::Identifier(Identifier { loc: loc(3, 4), text: "a".to_string() }),
                    CallbackParam::Identifier(Identifier { loc: loc(6, 7), text: "b".to_string() }),
                ],
                body: Box::new(ident(12, 13, "a")),
            })],
        }),
        vec![],
    );
}

#[test]
fn member_with_float_after_dot_gives_two_indices() {
    test_expression(
        "t. 1.2",
        Expression::Member(MemberExpression {
            loc: loc(0, 6),
            object: Box::new(Expression::Member(MemberExpression {
                loc: loc(0, 4),
                object: Box::new(ident(0, 1, "t")),
                prop: Some(MemberProp::Index(IntLiteral { loc: loc(3, 4), value: 1 })),
            })),
            prop: Some(MemberProp::Index(IntLiteral { loc: loc(5, 6), value: 2 })),
        }),
        vec![],
    );
}

#[test]
fn block_of_expressions() {
    test_expression(
        "{\n1\nx\n}",
        Expression::Block(BlockExpression {
            statements: vec![
                lib::ast::Statement::Expression(int_lit(2, 3, 1)),
                lib::ast::Statement::Expression(ident(4, 5, "x")),
            ],
            loc: loc(0, 7),
        }),
        vec![],
    );
}

#[test]
fn else_if_chain() {
    let (result, diagnostics) = parse("if a {} else if b {}");
    assert!(diagnostics.is_empty());
    match result {
        Some(Expression::If(i)) => {
            assert_eq!(i.loc, loc(0, 20));
            match i.alternate.as_deref() {
                Some(Alternate::If(inner)) => assert_eq!(inner.loc, loc(13, 20)),
                other => panic!("expected an else-if, got {:?}", other),
            }
        },
        other => panic!("expected an if expression, got {:?}", other),
    }
}

#[test]
fn for_loop_without_body() {
    test_expression(
        "for x",
        Expression::Loop(Loop::For(ForExpression { loc: loc(0, 5), condition: Some(Box::new(ident(4, 5, "x"))), body: None })),
        vec![error(DiagnosticKind::MissingConsequent, 5, 5)],
    );
}

#[test]
fn nothing_to_parse() {
    assert_eq!(parse(""), (None, vec![]));
    assert_eq!(parse(")"), (None, vec![]));
}

#[test]
fn earlier_diagnostics_stay_in_front() {
    let mut parser = Parser::new(0, "1 +");
    parser.error(DiagnosticKind::InvalidMember, loc(0, 1));
    let result = parser.parse_expression();
    assert!(result.is_some());
    assert_eq!(parser.diagnostics.len(), 2);
    assert_eq!(parser.diagnostics[0], error(DiagnosticKind::InvalidMember, 0, 1));
    assert_eq!(parser.diagnostics[1].kind, DiagnosticKind::MissingExpression);
}

#[test]
fn float_rounding_to_one_is_not_a_member_index() {
    assert!(Parser::accepts("a.99999999999999999"));
    let (result, diagnostics) = parse("a.99999999999999999");
    assert_eq!(result, Some(ident(0, 1, "a")));
    assert!(diagnostics.is_empty());
}

#[test]
fn float_below_one_after_expression_is_a_member_index() {
    test_expression(
        "a.5",
        Expression::Member(MemberExpression {
            loc: loc(0, 3),
            object: Box::new(ident(0, 1, "a")),
            prop: Some(MemberProp::Index(IntLiteral { loc: loc(2, 3), value: 5 })),
        }),
        vec![],
    );
}

#[test]
fn long_float_literal_outside_member_position_is_accepted() {
    assert!(Parser::accepts("123456789012345678901234.5"));
    assert!(!Parser::accepts("t. 123456789012345678901234.5"));
}
