//! The expression grammar, as functions from a parser state to the parsed
//! value and the state after it. Each parsing method of `Parser` is proved
//! to compute exactly what the function of the same name here describes.
//!
//! A step that follows a nested parse is only taken when that parse kept to
//! its input and did not move backwards (`stepped`); every parsing method
//! guarantees this, so the other branch never happens. It only serves to make
//! the recursion visibly terminate: each function either consumes a lexeme
//! before recursing or calls a function of lower rank (the second component
//! of the measure).
use vstd::prelude::*;

use crate::ast::{AltModel, ArgModel, BinaryOperator, BlockModel, ExprModel, IfModel, PropModel, UnaryOperator, model_loc};
use crate::diagnostics::DiagnosticKindModel;
use crate::locations::{Location, decremented, incremented, merged};
use crate::parser::{
    ParserModel, advance, advanced, at_one_of, at_token, char_digits_value, expect_either_result,
    expect_result, float_below_one, float_left, float_right, loc_at, next_loc, range_at,
    recover_before_result, skip_if, stepped, tok, with_error,
};
use crate::tokens::{TokenModel, token_precedence, token_text};

verus! {

/// The binary operator a token stands for.
pub open spec fn binary_op_of(t: TokenModel) -> BinaryOperator {
    match t {
        TokenModel::PipePipe => BinaryOperator::LOr,
        TokenModel::AndAnd => BinaryOperator::LAnd,
        TokenModel::EqEq => BinaryOperator::EqEq,
        TokenModel::NotEq => BinaryOperator::Neq,
        TokenModel::Ge => BinaryOperator::Geq,
        TokenModel::Le => BinaryOperator::Leq,
        TokenModel::Lt => BinaryOperator::Less,
        TokenModel::Gt => BinaryOperator::Grt,
        TokenModel::Minus => BinaryOperator::Sub,
        TokenModel::Star => BinaryOperator::Mul,
        TokenModel::Slash => BinaryOperator::Div,
        TokenModel::Mod => BinaryOperator::Mod,
        TokenModel::StarStar => BinaryOperator::Pow,
        _ => BinaryOperator::Add,
    }
}

/// The symbol that writes a binary operator in source text.
pub open spec fn op_symbol(op: BinaryOperator) -> Seq<char> {
    match op {
        BinaryOperator::Add => "+"@,
        BinaryOperator::Sub => "-"@,
        BinaryOperator::Mul => "*"@,
        BinaryOperator::Div => "/"@,
        BinaryOperator::Mod => "%"@,
        BinaryOperator::Pow => "**"@,
        BinaryOperator::EqEq => "=="@,
        BinaryOperator::Neq => "!="@,
        BinaryOperator::Geq => ">="@,
        BinaryOperator::Grt => ">"@,
        BinaryOperator::Leq => "<="@,
        BinaryOperator::Less => "<"@,
        BinaryOperator::LAnd => "&&"@,
        BinaryOperator::LOr => "||"@,
    }
}

/// A binary operator token stands for the operator written with the same
/// text: `<` is `Less`, `>` is `Grt`, `**` is `Pow`, and so on.
pub proof fn lemma_operator_is_its_token(t: TokenModel)
    requires
        token_precedence(t) > 0,
    ensures
        op_symbol(binary_op_of(t)) == token_text(t),
{
}

/// The precedence of a binary operator (that of its token).
pub open spec fn op_precedence(op: BinaryOperator) -> int {
    match op {
        BinaryOperator::LOr => 1,
        BinaryOperator::LAnd => 2,
        BinaryOperator::EqEq | BinaryOperator::Neq => 3,
        BinaryOperator::Geq | BinaryOperator::Leq | BinaryOperator::Less | BinaryOperator::Grt => 4,
        BinaryOperator::Add | BinaryOperator::Sub => 5,
        BinaryOperator::Mul | BinaryOperator::Div | BinaryOperator::Mod => 6,
        BinaryOperator::Pow => 7,
    }
}

/// The precedence of a binary operator token is that of its operator.
pub proof fn lemma_op_precedence(t: TokenModel)
    requires
        token_precedence(t) > 0,
    ensures
        op_precedence(binary_op_of(t)) == token_precedence(t),
        (binary_op_of(t) is Pow) == (t is StarStar),
{
}

/// Whether the binary operators of `e` are grouped by precedence, below
/// level `min`: an operator node binds tighter than `min`; the operands of
/// an operator other than `**` are grouped below it, its left operand
/// allowing operators of the same precedence (left grouping) and its right
/// operand only tighter ones; `**` has no binary left operand and allows
/// `**` on its right (right grouping).
pub open spec fn binds_tighter_than(e: ExprModel, min: int) -> bool
    decreases e,
{
    match e {
        ExprModel::Binary(_, l, op, r) => {
            &&& op_precedence(op) > min
            &&& if op is Pow {
                binds_tighter_than(*l, 7) && binds_tighter_than(*r, 6)
            } else {
                binds_tighter_than(*l, op_precedence(op) - 1) && binds_tighter_than(*r, op_precedence(op))
            }
        },
        _ => true,
    }
}

/// A grouping below one level is a grouping below any lower level.
pub proof fn lemma_binds_weaken(e: ExprModel, j: int, k: int)
    requires
        binds_tighter_than(e, k),
        j <= k,
    ensures
        binds_tighter_than(e, j),
{
}

/// The level below which `parse_binary_expression(min)` groups: `min`,
/// except at the top level, where chains of `**` are allowed.
pub open spec fn level(min: int) -> int {
    if min < 7 {
        min
    } else {
        6
    }
}

/// Whether the next lexeme is not a binary operator binding tighter than `k`.
pub open spec fn next_binds_at_most(m: ParserModel, k: int) -> bool {
    match tok(m) {
        Some(t) => token_precedence(t) <= k,
        None => true,
    }
}

/// Whether a token is a prefix operator.
pub open spec fn is_unary_token(t: TokenModel) -> bool {
    t is And || t is At || t is Bang || t is Dollar || t is Minus || t is Star
}

/// The prefix operator a token stands for.
pub open spec fn unary_op_of(t: TokenModel) -> UnaryOperator {
    match t {
        TokenModel::And => UnaryOperator::Ampersand,
        TokenModel::At => UnaryOperator::At,
        TokenModel::Bang => UnaryOperator::Bang,
        TokenModel::Dollar => UnaryOperator::Dollar,
        TokenModel::Minus => UnaryOperator::Minus,
        _ => UnaryOperator::Star,
    }
}

/// The symbol that writes a prefix operator in source text.
pub open spec fn unary_symbol(op: UnaryOperator) -> Seq<char> {
    match op {
        UnaryOperator::Ampersand => "&"@,
        UnaryOperator::At => "@"@,
        UnaryOperator::Bang => "!"@,
        UnaryOperator::Dollar => "$"@,
        UnaryOperator::Minus => "-"@,
        UnaryOperator::Star => "*"@,
    }
}

/// A prefix operator token stands for the operator written with the same
/// text.
pub proof fn lemma_unary_operator_is_its_token(t: TokenModel)
    requires
        is_unary_token(t),
    ensures
        unary_symbol(unary_op_of(t)) == token_text(t),
{
}

/// The location of what follows `else`.
pub open spec fn alt_loc(a: AltModel) -> Location {
    match a {
        AltModel::If(i) => i.loc,
        AltModel::Block(b) => b.loc,
    }
}

/// Whether every expression of `s` is an identifier.
#[verifier::opaque]
pub open spec fn all_idents(s: Seq<ExprModel>) -> bool {
    forall|i: int| 0 <= i < s.len() ==> (#[trigger] s[i]) is Ident
}

/// The callback parameters named by identifiers.
#[verifier::opaque]
pub open spec fn params_of(s: Seq<ExprModel>) -> Seq<(Location, Seq<char>)> {
    s.map_values(|e: ExprModel| (model_loc(e), e->Ident_1))
}

/// An expression: `if`, `for` and blocks, or else an expression without a block.
pub open spec fn expression_result(m: ParserModel) -> (Option<ExprModel>, ParserModel)
    decreases m.toks.len() - m.pos, 30nat,
{
    if at_token(m, TokenModel::If) {
        let (e, m1) = condition_result(m);
        (Some(ExprModel::If(e)), m1)
    } else if at_token(m, TokenModel::For) {
        let (e, m1) = loop_result(m);
        (Some(e), m1)
    } else if at_token(m, TokenModel::LBrace) {
        let (b, m1) = block_result(m);
        (Some(ExprModel::Block(b)), m1)
    } else {
        without_block_result(m)
    }
}

/// A binary expression, if there is one.
pub open spec fn without_block_result(m: ParserModel) -> (Option<ExprModel>, ParserModel)
    decreases m.toks.len() - m.pos, 20nat,
{
    let (e, m1) = binary_result(m, 0);
    if e is Empty {
        (None, m1)
    } else {
        (Some(e), m1)
    }
}

/// A binary expression whose operators bind tighter than `min`.
pub open spec fn binary_result(m: ParserModel, min: u8) -> (ExprModel, ParserModel)
    decreases m.toks.len() - m.pos, (if min < 7 { 19 - min } else { 12int }) as nat,
{
    if min >= 7 {
        exponent_result(m)
    } else {
        let (e, m1) = binary_result(m, (min + 1) as u8);
        if !stepped(m, m1) {
            (e, m1)
        } else {
            binary_rest(m1, min, e)
        }
    }
}

/// The operators (tighter than `min`) and right operands that follow `lhs`.
pub open spec fn binary_rest(m: ParserModel, min: u8, lhs: ExprModel) -> (ExprModel, ParserModel)
    decreases m.toks.len() - m.pos, 2nat,
{
    match tok(m) {
        Some(t) => if token_precedence(t) > min && min < 7 {
            let op_loc = next_loc(m);
            let m1 = advance(m);
            let (right, m2) = binary_result(m1, (min + 1) as u8);
            if !stepped(m1, m2) {
                (lhs, m2)
            } else {
                let (loc, m3) = if right is Empty {
                    (merged(model_loc(lhs), op_loc), with_error(m2, DiagnosticKindModel::MissingExpression, incremented(op_loc)))
                } else {
                    (merged(model_loc(lhs), model_loc(right)), m2)
                };
                binary_rest(m3, min, ExprModel::Binary(loc, Box::new(lhs), binary_op_of(t), Box::new(right)))
            }
        } else {
            (lhs, m)
        },
        None => (lhs, m),
    }
}

/// Exponentiation, which groups to the right.
pub open spec fn exponent_result(m: ParserModel) -> (ExprModel, ParserModel)
    decreases m.toks.len() - m.pos, 11nat,
{
    let (lhs, m1) = unary_result(m);
    if !stepped(m, m1) {
        (lhs, m1)
    } else if at_token(m1, TokenModel::StarStar) {
        let op_loc = next_loc(m1);
        let (rhs, m2) = exponent_result(advance(m1));
        if rhs is Empty {
            (
                ExprModel::Binary(merged(model_loc(lhs), op_loc), Box::new(lhs), BinaryOperator::Pow, Box::new(rhs)),
                with_error(m2, DiagnosticKindModel::MissingExpression, incremented(op_loc)),
            )
        } else {
            (ExprModel::Binary(merged(model_loc(lhs), model_loc(rhs)), Box::new(lhs), BinaryOperator::Pow, Box::new(rhs)), m2)
        }
    } else {
        (lhs, m1)
    }
}

/// Prefix operators, then a postfix expression.
pub open spec fn unary_result(m: ParserModel) -> (ExprModel, ParserModel)
    decreases m.toks.len() - m.pos, 10nat,
{
    match tok(m) {
        Some(t) => if is_unary_token(t) {
            let op_loc = next_loc(m);
            let (e, m1) = unary_result(advance(m));
            let m2 = if e is Empty {
                with_error(m1, DiagnosticKindModel::MissingExpression, incremented(op_loc))
            } else {
                m1
            };
            (ExprModel::Unary(merged(op_loc, model_loc(e)), unary_op_of(t), Box::new(e)), m2)
        } else {
            postfix_result(m)
        },
        None => postfix_result(m),
    }
}

/// An atom followed by member accesses and calls.
pub open spec fn postfix_result(m: ParserModel) -> (ExprModel, ParserModel)
    decreases m.toks.len() - m.pos, 9nat,
{
    let (e, m1) = atom_result(m);
    if !stepped(m, m1) {
        (e, m1)
    } else {
        postfix_rest(m1, e)
    }
}

/// The member accesses and calls that follow `e`.
pub open spec fn postfix_rest(m: ParserModel, e: ExprModel) -> (ExprModel, ParserModel)
    decreases m.toks.len() - m.pos, 3nat,
{
    let (next, m1) = match tok(m) {
        Some(TokenModel::Dot) => member_result(m, e),
        Some(TokenModel::Float(text)) => if float_below_one(text) {
            member_float_result(m, e)
        } else {
            (e, m)
        },
        Some(TokenModel::LParen) => call_result(m, e),
        _ => (e, m),
    };
    if advanced(m, m1) {
        postfix_rest(m1, next)
    } else {
        (next, m1)
    }
}

/// A member access `object.prop`, at the dot.
pub open spec fn member_result(m: ParserModel, object: ExprModel) -> (ExprModel, ParserModel)
    decreases m.toks.len() - m.pos, 1nat,
{
    let loc = merged(model_loc(object), next_loc(m));
    let m1 = advance(m);
    let (a, b) = range_at(m1);
    match tok(m1) {
        Some(TokenModel::Ident(text)) => (
            ExprModel::Member(merged(loc, loc_at(m1, a, b)), Box::new(object), Some(PropModel::Field(loc_at(m1, a, b), text))),
            advance(m1),
        ),
        Some(TokenModel::Int(v)) => (
            ExprModel::Member(merged(loc, loc_at(m1, a, b)), Box::new(object), Some(PropModel::Index(loc_at(m1, a, b), v))),
            advance(m1),
        ),
        Some(TokenModel::Float(text)) => {
            let left = float_left(text);
            let right = float_right(text);
            let left_loc = loc_at(m1, a, a + left.len());
            let (inner_prop, m2) = if left.len() == 0 {
                (None, with_error(m1, DiagnosticKindModel::InvalidMember, incremented(decremented(loc_at(m1, a, b)))))
            } else {
                (Some(PropModel::Index(left_loc, char_digits_value(left))), m1)
            };
            let inner = ExprModel::Member(merged(loc, left_loc), Box::new(object), inner_prop);
            let (outer_prop, m3) = if right.len() == 0 {
                (None, with_error(m2, DiagnosticKindModel::InvalidMember, incremented(loc_at(m1, a, b))))
            } else {
                (Some(PropModel::Index(loc_at(m1, a + left.len() + 1, b), char_digits_value(right))), m2)
            };
            (ExprModel::Member(merged(loc, loc_at(m1, a, b)), Box::new(inner), outer_prop), advance(m3))
        },
        _ => (
            ExprModel::Member(loc, Box::new(object), None),
            with_error(m1, DiagnosticKindModel::InvalidMember, incremented(loc)),
        ),
    }
}

/// A member access written as a float literal `.n`, at the float.
pub open spec fn member_float_result(m: ParserModel, object: ExprModel) -> (ExprModel, ParserModel)
    decreases m.toks.len() - m.pos, 1nat,
{
    let (a, b) = range_at(m);
    let text = tok(m)->0->Float_0;
    let m1 = advance(m);
    let loc = merged(model_loc(object), loc_at(m, a, b));
    let index_loc = loc_at(m, a + 1, b);
    let right = float_right(text);
    if right.len() == 0 {
        (ExprModel::Member(loc, Box::new(object), None), with_error(m1, DiagnosticKindModel::InvalidMember, index_loc))
    } else {
        (ExprModel::Member(loc, Box::new(object), Some(PropModel::Index(index_loc, char_digits_value(right)))), m1)
    }
}

/// A call `callee(args)`, at the opening parenthesis.
pub open spec fn call_result(m: ParserModel, callee: ExprModel) -> (ExprModel, ParserModel)
    decreases m.toks.len() - m.pos, 1nat,
{
    if !at_token(m, TokenModel::LParen) {
        (callee, m)
    } else {
        let (args, m1) = arg_list_result(advance(m), Seq::empty());
        let (end, m2) = expect_result(m1, TokenModel::RParen);
        (ExprModel::Call(merged(model_loc(callee), loc_at(m1, end.0, end.1)), Box::new(callee), args), m2)
    }
}

/// The tokens at which an element of a list may end.
pub open spec fn list_stops(separator: TokenModel, terminator: TokenModel) -> Seq<TokenModel> {
    seq![TokenModel::Newline, separator, terminator]
}

/// After an element of a list: skips to the next stop token unless one
/// comes next, then consumes a separator if there is one.
pub open spec fn after_element(m: ParserModel, separator: TokenModel, terminator: TokenModel) -> ParserModel {
    let m1 = match tok(m) {
        Some(t) => if !list_stops(separator, terminator).contains(t) {
            recover_before_result(m, list_stops(separator, terminator), Seq::empty()).1
        } else {
            m
        },
        None => m,
    };
    skip_if(m1, separator)
}

/// At a separator where an element is expected: reports it and consumes it
/// and a newline after it.
pub open spec fn stray_separator(m: ParserModel, separator: TokenModel) -> ParserModel {
    skip_if(
        advance(with_error(m, DiagnosticKindModel::UnexpectedToken(token_text(separator)), next_loc(m))),
        TokenModel::Newline,
    )
}

/// The rest of a list of expressions, after `acc`, up to the terminator
/// (which is not consumed), the end, or a lexeme that did not lex.
pub open spec fn expr_list_result(
    m: ParserModel,
    separator: TokenModel,
    terminator: TokenModel,
    acc: Seq<ExprModel>,
) -> (Seq<ExprModel>, ParserModel)
    decreases m.toks.len() - m.pos, 40nat,
{
    match tok(m) {
        Some(t) => if t == TokenModel::Newline {
            expr_list_result(advance(m), separator, terminator, acc)
        } else if t == terminator {
            (acc, m)
        } else if t == separator {
            expr_list_result(stray_separator(m, separator), separator, terminator, acc)
        } else {
            let (e, m1) = expression_result(m);
            let acc1 = match e {
                Some(x) => acc.push(x),
                None => acc,
            };
            let m2 = after_element(m1, separator, terminator);
            if advanced(m, m2) {
                expr_list_result(m2, separator, terminator, acc1)
            } else {
                (acc1, m2)
            }
        },
        None => (acc, m),
    }
}

/// The rest of a list of call arguments, after `acc`, up to `)`.
pub open spec fn arg_list_result(m: ParserModel, acc: Seq<ArgModel>) -> (Seq<ArgModel>, ParserModel)
    decreases m.toks.len() - m.pos, 40nat,
{
    match tok(m) {
        Some(t) => if t == TokenModel::Newline {
            arg_list_result(advance(m), acc)
        } else if t == TokenModel::RParen {
            (acc, m)
        } else if t == TokenModel::Comma {
            arg_list_result(stray_separator(m, TokenModel::Comma), acc)
        } else {
            let (a, m1) = argument_result(m);
            let acc1 = match a {
                Some(x) => acc.push(x),
                None => acc,
            };
            let m2 = after_element(m1, TokenModel::Comma, TokenModel::RParen);
            if advanced(m, m2) {
                arg_list_result(m2, acc1)
            } else {
                (acc1, m2)
            }
        },
        None => (acc, m),
    }
}

/// A call argument: an expression, or a callback `(a, b) => body`.
pub open spec fn argument_result(m: ParserModel) -> (Option<ArgModel>, ParserModel)
    decreases m.toks.len() - m.pos, 35nat,
{
    let (e, m1) = expression_result(m);
    match e {
        Some(ExprModel::Tuple(tuple_loc, elements)) => if at_token(m1, TokenModel::FatArrow) && all_idents(elements)
            && stepped(m, m1) {
            let loc = merged(tuple_loc, next_loc(m1));
            let (body, m2) = expression_result(advance(m1));
            match body {
                Some(b) => (Some(ArgModel::Callback(merged(loc, model_loc(b)), params_of(elements), Box::new(b))), m2),
                None => (
                    Some(ArgModel::Callback(loc, params_of(elements), Box::new(ExprModel::Empty))),
                    with_error(m2, DiagnosticKindModel::MissingExpression, incremented(loc)),
                ),
            }
        } else {
            (Some(ArgModel::Expr(ExprModel::Tuple(tuple_loc, elements))), m1)
        },
        Some(x) => (Some(ArgModel::Expr(x)), m1),
        None => (None, m1),
    }
}

/// A literal, a name, a tuple or an array; `Empty` if none comes next.
pub open spec fn atom_result(m: ParserModel) -> (ExprModel, ParserModel)
    decreases m.toks.len() - m.pos, 8nat,
{
    let loc = next_loc(m);
    match tok(m) {
        Some(TokenModel::Bool(v)) => (ExprModel::Bool(loc, v), advance(m)),
        Some(TokenModel::Int(v)) => (ExprModel::Int(loc, v), advance(m)),
        Some(TokenModel::Float(text)) => (ExprModel::Float(loc, text), advance(m)),
        Some(TokenModel::String(text)) => (ExprModel::Str(loc, text), advance(m)),
        Some(TokenModel::Ident(text)) => (ExprModel::Ident(loc, text), advance(m)),
        Some(TokenModel::LParen) => tuple_result(m),
        Some(TokenModel::LBracket) => array_result(m),
        _ => (ExprModel::Empty, m),
    }
}

/// A tuple `(a, b, ...)`, at the opening parenthesis.
pub open spec fn tuple_result(m: ParserModel) -> (ExprModel, ParserModel)
    decreases m.toks.len() - m.pos, 1nat,
{
    if !at_token(m, TokenModel::LParen) {
        (ExprModel::Empty, m)
    } else {
        let start = range_at(m);
        let (elements, m1) = expr_list_result(advance(m), TokenModel::Comma, TokenModel::RParen, Seq::empty());
        let (end, m2) = expect_result(m1, TokenModel::RParen);
        (ExprModel::Tuple(loc_at(m, start.0, end.1), elements), m2)
    }
}

/// An array `[a, b, ...]`, at the opening bracket.
pub open spec fn array_result(m: ParserModel) -> (ExprModel, ParserModel)
    decreases m.toks.len() - m.pos, 1nat,
{
    if !at_token(m, TokenModel::LBracket) {
        (ExprModel::Empty, m)
    } else {
        let start = next_loc(m);
        let (elements, m1) = expr_list_result(advance(m), TokenModel::Comma, TokenModel::RBracket, Seq::empty());
        let (end, m2) = expect_result(m1, TokenModel::RBracket);
        (ExprModel::Array(merged(start, loc_at(m1, end.0, end.1)), elements), m2)
    }
}

/// A block `{ ... }` of newline-separated expressions, at the brace.
pub open spec fn block_result(m: ParserModel) -> (BlockModel, ParserModel)
    decreases m.toks.len() - m.pos, 5nat,
{
    if !at_token(m, TokenModel::LBrace) {
        (BlockModel { loc: next_loc(m), statements: Seq::empty() }, m)
    } else {
        let start = range_at(m);
        let (statements, m1) = expr_list_result(advance(m), TokenModel::Newline, TokenModel::RBrace, Seq::empty());
        let (end, m2) = expect_result(m1, TokenModel::RBrace);
        (BlockModel { loc: loc_at(m, start.0, end.1), statements }, m2)
    }
}

/// An `if` expression, at the keyword.
pub open spec fn condition_result(m: ParserModel) -> (IfModel, ParserModel)
    decreases m.toks.len() - m.pos, 25nat,
{
    if !at_token(m, TokenModel::If) {
        let kw = next_loc(m);
        (IfModel { loc: kw, condition: Box::new(ExprModel::Empty), consequent: BlockModel { loc: kw, statements: Seq::empty() }, alternate: None }, m)
    } else {
        if_result(advance(m), next_loc(m))
    }
}

/// The rest of an `if` expression after its keyword at `kw`.
pub open spec fn if_result(m: ParserModel, kw: Location) -> (IfModel, ParserModel)
    decreases m.toks.len() - m.pos, 24nat,
{
    let (c, m1) = without_block_result(m);
    let (condition, m2) = match c {
        Some(e) => (e, m1),
        None => (ExprModel::Empty, with_error(m1, DiagnosticKindModel::MissingExpression, next_loc(m1))),
    };
    if !stepped(m, m2) {
        (IfModel { loc: kw, condition: Box::new(condition), consequent: BlockModel { loc: kw, statements: Seq::empty() }, alternate: None }, m2)
    } else {
        let (consequent, m3) = if_body_result(m2);
        let (alternate, m4) = if at_token(m3, TokenModel::Else) && stepped(m2, m3) {
            alternate_result(m3)
        } else {
            (None, m3)
        };
        let end = match alternate {
            Some(a) => alt_loc(a),
            None => consequent.loc,
        };
        (
            IfModel {
                loc: merged(kw, end),
                condition: Box::new(condition),
                consequent,
                alternate: match alternate {
                    Some(a) => Some(Box::new(a)),
                    None => None,
                },
            },
            m4,
        )
    }
}

/// The block of an `if`; when it is missing, reports it and stands an empty
/// block at the next lexeme.
pub open spec fn if_body_result(m: ParserModel) -> (BlockModel, ParserModel)
    decreases m.toks.len() - m.pos, 23nat,
{
    if at_token(m, TokenModel::LBrace) {
        block_result(m)
    } else {
        let m1 = recover_before_result(m, seq![TokenModel::LBrace], seq![TokenModel::Newline]).1;
        (BlockModel { loc: next_loc(m1), statements: Seq::empty() }, m1)
    }
}

/// What follows `else`, at the keyword.
pub open spec fn alternate_result(m: ParserModel) -> (Option<AltModel>, ParserModel)
    decreases m.toks.len() - m.pos, 23nat,
{
    let m1 = advance(m);
    let m2 = expect_either_result(m1, seq![TokenModel::LBrace, TokenModel::If, TokenModel::Newline]);
    if !stepped(m1, m2) {
        (None, m2)
    } else if at_token(m2, TokenModel::If) {
        let (i, m3) = condition_result(m2);
        (Some(AltModel::If(i)), m3)
    } else if at_token(m2, TokenModel::LBrace) {
        let (b, m3) = block_result(m2);
        (Some(AltModel::Block(b)), m3)
    } else {
        (None, m2)
    }
}

/// A `for` loop, at the keyword.
pub open spec fn loop_result(m: ParserModel) -> (ExprModel, ParserModel)
    decreases m.toks.len() - m.pos, 25nat,
{
    let start = next_loc(m);
    let m1 = advance(m);
    let (c, m2) = if at_token(m, TokenModel::For) {
        without_block_result(m1)
    } else {
        (None, m)
    };
    let loc = match c {
        Some(e) => merged(start, model_loc(e)),
        None => start,
    };
    if !stepped(m1, m2) {
        (ExprModel::For(loc, None, None), m2)
    } else {
        let (body, m3) = loop_body_result(m2);
        let loc2 = match body {
            Some(b) => merged(loc, b.loc),
            None => loc,
        };
        (
            ExprModel::For(
                loc2,
                match c {
                    Some(e) => Some(Box::new(e)),
                    None => None,
                },
                body,
            ),
            m3,
        )
    }
}

/// The block of a loop; reports it when missing.
pub open spec fn loop_body_result(m: ParserModel) -> (Option<BlockModel>, ParserModel)
    decreases m.toks.len() - m.pos, 23nat,
{
    if at_token(m, TokenModel::LBrace) {
        let (b, m1) = block_result(m);
        (Some(b), m1)
    } else {
        (None, with_error(m, DiagnosticKindModel::MissingConsequent, next_loc(m)))
    }
}

} // verus!
