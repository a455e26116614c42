//! The parser only ever adds diagnostics: whatever it parses, the
//! diagnostics reported before stay, in order, at the front.
use vstd::prelude::*;

use crate::ast::ExprModel;
use crate::parser::grammar::{
    after_element, alternate_result, arg_list_result, argument_result, array_result, atom_result,
    binary_rest, binary_result, block_result, call_result, condition_result, exponent_result,
    expr_list_result, expression_result, if_body_result, if_result, list_stops, loop_body_result,
    loop_result, member_float_result, member_result, postfix_rest, postfix_result,
    stray_separator, tuple_result, unary_result, without_block_result,
};
use crate::ast::ArgModel;
use crate::locations::Location;
use crate::parser::{
    ParserModel, advance, expect_either_result, expect_result, recover_at_result,
    recover_before_result, skip_if, skip_until, stepped,
};
use crate::tokens::TokenModel;

verus! {

/// The diagnostics of `m0` are the first diagnostics of `m1`.
pub open spec fn grows(m0: ParserModel, m1: ParserModel) -> bool {
    &&& m0.diags.len() <= m1.diags.len()
    &&& forall|i: int| 0 <= i < m0.diags.len() ==> #[trigger] m1.diags[i] == m0.diags[i]
}

proof fn lemma_skip_keeps(m: ParserModel, set: Seq<TokenModel>, end: int)
    ensures
        skip_until(m, set, end).1.diags == m.diags,
    decreases m.toks.len() - m.pos,
{
    if 0 <= m.pos < m.toks.len() && !crate::parser::at_one_of(m, set) {
        lemma_skip_keeps(advance(m), set, m.toks[m.pos].2);
    }
}

proof fn lemma_recover_grows(m: ParserModel, tokens: Seq<TokenModel>, sync: Seq<TokenModel>)
    ensures
        grows(m, recover_before_result(m, tokens, sync).1),
        grows(m, recover_at_result(m, tokens).1),
{
    lemma_skip_keeps(m, tokens + sync, crate::parser::range_at(m).1);
    lemma_skip_keeps(m, tokens + Seq::empty(), crate::parser::range_at(m).1);
}

proof fn lemma_steps_grow(m: ParserModel, t: TokenModel, tokens: Seq<TokenModel>, separator: TokenModel, terminator: TokenModel)
    ensures
        grows(m, expect_result(m, t).1),
        grows(m, expect_either_result(m, tokens)),
        grows(m, after_element(m, separator, terminator)),
        grows(m, stray_separator(m, separator)),
        grows(m, skip_if(m, t)),
{
    lemma_recover_grows(m, seq![t], Seq::empty());
    lemma_recover_grows(m, tokens, Seq::empty());
    lemma_recover_grows(m, list_stops(separator, terminator), Seq::empty());
}

proof fn lemma_expression_grows(m: ParserModel)
    ensures
        grows(m, expression_result(m).1),
    decreases m.toks.len() - m.pos, 30nat,
{
    if crate::parser::at_token(m, TokenModel::If) {
        lemma_condition_grows(m);
    } else if crate::parser::at_token(m, TokenModel::For) {
        lemma_loop_grows(m);
    } else if crate::parser::at_token(m, TokenModel::LBrace) {
        lemma_block_grows(m);
    } else {
        lemma_without_block_grows(m);
    }
}

proof fn lemma_without_block_grows(m: ParserModel)
    ensures
        grows(m, without_block_result(m).1),
    decreases m.toks.len() - m.pos, 20nat,
{
    lemma_binary_grows(m, 0);
}

proof fn lemma_binary_grows(m: ParserModel, min: u8)
    ensures
        grows(m, binary_result(m, min).1),
    decreases m.toks.len() - m.pos, (if min < 7 { 19 - min } else { 12int }) as nat,
{
    if min >= 7 {
        lemma_exponent_grows(m);
    } else {
        lemma_binary_grows(m, (min + 1) as u8);
        let (e, m1) = binary_result(m, (min + 1) as u8);
        if stepped(m, m1) {
            lemma_binary_rest_grows(m1, min, e);
        }
    }
}

proof fn lemma_binary_rest_grows(m: ParserModel, min: u8, lhs: ExprModel)
    ensures
        grows(m, binary_rest(m, min, lhs).1),
    decreases m.toks.len() - m.pos, 2nat,
{
    match crate::parser::tok(m) {
        Some(t) => if crate::tokens::token_precedence(t) > min && min < 7 {
            let m1 = advance(m);
            lemma_binary_grows(m1, (min + 1) as u8);
            let (right, m2) = binary_result(m1, (min + 1) as u8);
            if stepped(m1, m2) {
                let op_loc = crate::parser::next_loc(m);
                let (loc, m3) = if right is Empty {
                    (
                        crate::locations::merged(crate::ast::model_loc(lhs), op_loc),
                        crate::parser::with_error(
                            m2,
                            crate::diagnostics::DiagnosticKindModel::MissingExpression,
                            crate::locations::incremented(op_loc),
                        ),
                    )
                } else {
                    (crate::locations::merged(crate::ast::model_loc(lhs), crate::ast::model_loc(right)), m2)
                };
                lemma_binary_rest_grows(
                    m3,
                    min,
                    ExprModel::Binary(loc, Box::new(lhs), crate::parser::grammar::binary_op_of(t), Box::new(right)),
                );
            }
        },
        None => {},
    }
}

proof fn lemma_exponent_grows(m: ParserModel)
    ensures
        grows(m, exponent_result(m).1),
    decreases m.toks.len() - m.pos, 11nat,
{
    lemma_unary_grows(m);
    let (lhs, m1) = unary_result(m);
    if stepped(m, m1) && crate::parser::at_token(m1, TokenModel::StarStar) {
        lemma_exponent_grows(advance(m1));
    }
}

proof fn lemma_unary_grows(m: ParserModel)
    ensures
        grows(m, unary_result(m).1),
    decreases m.toks.len() - m.pos, 10nat,
{
    match crate::parser::tok(m) {
        Some(t) => if crate::parser::grammar::is_unary_token(t) {
            lemma_unary_grows(advance(m));
        } else {
            lemma_postfix_grows(m);
        },
        None => lemma_postfix_grows(m),
    }
}

proof fn lemma_postfix_grows(m: ParserModel)
    ensures
        grows(m, postfix_result(m).1),
    decreases m.toks.len() - m.pos, 9nat,
{
    lemma_atom_grows(m);
    let (e, m1) = atom_result(m);
    if stepped(m, m1) {
        lemma_postfix_rest_grows(m1, e);
    }
}

proof fn lemma_postfix_rest_grows(m: ParserModel, e: ExprModel)
    ensures
        grows(m, postfix_rest(m, e).1),
    decreases m.toks.len() - m.pos, 3nat,
{
    lemma_member_grows(m, e);
    lemma_member_float_grows(m, e);
    lemma_call_grows(m, e);
    let (next, m1) = match crate::parser::tok(m) {
        Some(TokenModel::Dot) => member_result(m, e),
        Some(TokenModel::Float(text)) => if crate::parser::float_below_one(text) {
            member_float_result(m, e)
        } else {
            (e, m)
        },
        Some(TokenModel::LParen) => call_result(m, e),
        _ => (e, m),
    };
    if crate::parser::advanced(m, m1) {
        lemma_postfix_rest_grows(m1, next);
    }
}

proof fn lemma_member_grows(m: ParserModel, object: ExprModel)
    ensures
        grows(m, member_result(m, object).1),
{
}

proof fn lemma_member_float_grows(m: ParserModel, object: ExprModel)
    ensures
        grows(m, member_float_result(m, object).1),
{
}

proof fn lemma_call_grows(m: ParserModel, callee: ExprModel)
    ensures
        grows(m, call_result(m, callee).1),
    decreases m.toks.len() - m.pos, 1nat,
{
    if crate::parser::at_token(m, TokenModel::LParen) {
        lemma_arg_list_grows(advance(m), Seq::empty());
        let (args, m1) = arg_list_result(advance(m), Seq::empty());
        lemma_steps_grow(m1, TokenModel::RParen, Seq::empty(), TokenModel::Comma, TokenModel::RParen);
    }
}

proof fn lemma_expr_list_grows(m: ParserModel, separator: TokenModel, terminator: TokenModel, acc: Seq<ExprModel>)
    ensures
        grows(m, expr_list_result(m, separator, terminator, acc).1),
    decreases m.toks.len() - m.pos, 40nat,
{
    match crate::parser::tok(m) {
        Some(t) => if t == TokenModel::Newline {
            lemma_expr_list_grows(advance(m), separator, terminator, acc);
        } else if t == terminator {
        } else if t == separator {
            lemma_steps_grow(m, separator, Seq::empty(), separator, terminator);
            lemma_expr_list_grows(stray_separator(m, separator), separator, terminator, acc);
        } else {
            lemma_expression_grows(m);
            let (e, m1) = expression_result(m);
            let acc1 = match e {
                Some(x) => acc.push(x),
                None => acc,
            };
            lemma_steps_grow(m1, separator, Seq::empty(), separator, terminator);
            let m2 = after_element(m1, separator, terminator);
            if crate::parser::advanced(m, m2) {
                lemma_expr_list_grows(m2, separator, terminator, acc1);
            }
        },
        None => {},
    }
}

proof fn lemma_arg_list_grows(m: ParserModel, acc: Seq<ArgModel>)
    ensures
        grows(m, arg_list_result(m, acc).1),
    decreases m.toks.len() - m.pos, 40nat,
{
    match crate::parser::tok(m) {
        Some(t) => if t == TokenModel::Newline {
            lemma_arg_list_grows(advance(m), acc);
        } else if t == TokenModel::RParen {
        } else if t == TokenModel::Comma {
            lemma_steps_grow(m, TokenModel::Comma, Seq::empty(), TokenModel::Comma, TokenModel::RParen);
            lemma_arg_list_grows(stray_separator(m, TokenModel::Comma), acc);
        } else {
            lemma_argument_grows(m);
            let (a, m1) = argument_result(m);
            let acc1 = match a {
                Some(x) => acc.push(x),
                None => acc,
            };
            lemma_steps_grow(m1, TokenModel::Comma, Seq::empty(), TokenModel::Comma, TokenModel::RParen);
            let m2 = after_element(m1, TokenModel::Comma, TokenModel::RParen);
            if crate::parser::advanced(m, m2) {
                lemma_arg_list_grows(m2, acc1);
            }
        },
        None => {},
    }
}

proof fn lemma_argument_grows(m: ParserModel)
    ensures
        grows(m, argument_result(m).1),
    decreases m.toks.len() - m.pos, 35nat,
{
    lemma_expression_grows(m);
    let (e, m1) = expression_result(m);
    if stepped(m, m1) && crate::parser::at_token(m1, TokenModel::FatArrow) {
        lemma_expression_grows(advance(m1));
    }
}

proof fn lemma_atom_grows(m: ParserModel)
    ensures
        grows(m, atom_result(m).1),
    decreases m.toks.len() - m.pos, 8nat,
{
    lemma_tuple_grows(m);
    lemma_array_grows(m);
}

proof fn lemma_tuple_grows(m: ParserModel)
    ensures
        grows(m, tuple_result(m).1),
    decreases m.toks.len() - m.pos, 1nat,
{
    if crate::parser::at_token(m, TokenModel::LParen) {
        lemma_expr_list_grows(advance(m), TokenModel::Comma, TokenModel::RParen, Seq::empty());
        let (e, m1) = expr_list_result(advance(m), TokenModel::Comma, TokenModel::RParen, Seq::empty());
        lemma_steps_grow(m1, TokenModel::RParen, Seq::empty(), TokenModel::Comma, TokenModel::RParen);
    }
}

proof fn lemma_array_grows(m: ParserModel)
    ensures
        grows(m, array_result(m).1),
    decreases m.toks.len() - m.pos, 1nat,
{
    if crate::parser::at_token(m, TokenModel::LBracket) {
        lemma_expr_list_grows(advance(m), TokenModel::Comma, TokenModel::RBracket, Seq::empty());
        let (e, m1) = expr_list_result(advance(m), TokenModel::Comma, TokenModel::RBracket, Seq::empty());
        lemma_steps_grow(m1, TokenModel::RBracket, Seq::empty(), TokenModel::Comma, TokenModel::RBracket);
    }
}

proof fn lemma_block_grows(m: ParserModel)
    ensures
        grows(m, block_result(m).1),
    decreases m.toks.len() - m.pos, 5nat,
{
    if crate::parser::at_token(m, TokenModel::LBrace) {
        lemma_expr_list_grows(advance(m), TokenModel::Newline, TokenModel::RBrace, Seq::empty());
        let (e, m1) = expr_list_result(advance(m), TokenModel::Newline, TokenModel::RBrace, Seq::empty());
        lemma_steps_grow(m1, TokenModel::RBrace, Seq::empty(), TokenModel::Newline, TokenModel::RBrace);
    }
}

proof fn lemma_condition_grows(m: ParserModel)
    ensures
        grows(m, condition_result(m).1),
    decreases m.toks.len() - m.pos, 25nat,
{
    if crate::parser::at_token(m, TokenModel::If) {
        lemma_if_grows(advance(m), crate::parser::next_loc(m));
    }
}

proof fn lemma_if_grows(m: ParserModel, kw: Location)
    ensures
        grows(m, if_result(m, kw).1),
    decreases m.toks.len() - m.pos, 24nat,
{
    lemma_without_block_grows(m);
    let (c, m1) = without_block_result(m);
    let m2 = match c {
        Some(e) => m1,
        None => crate::parser::with_error(
            m1,
            crate::diagnostics::DiagnosticKindModel::MissingExpression,
            crate::parser::next_loc(m1),
        ),
    };
    if stepped(m, m2) {
        lemma_if_body_grows(m2);
        let (consequent, m3) = if_body_result(m2);
        if crate::parser::at_token(m3, TokenModel::Else) && stepped(m2, m3) {
            lemma_alternate_grows(m3);
        }
    }
}

proof fn lemma_if_body_grows(m: ParserModel)
    ensures
        grows(m, if_body_result(m).1),
    decreases m.toks.len() - m.pos, 23nat,
{
    if crate::parser::at_token(m, TokenModel::LBrace) {
        lemma_block_grows(m);
    } else {
        lemma_recover_grows(m, seq![TokenModel::LBrace], seq![TokenModel::Newline]);
    }
}

proof fn lemma_alternate_grows(m: ParserModel)
    ensures
        grows(m, alternate_result(m).1),
    decreases m.toks.len() - m.pos, 23nat,
{
    let m1 = advance(m);
    let tokens = seq![TokenModel::LBrace, TokenModel::If, TokenModel::Newline];
    lemma_steps_grow(m1, TokenModel::If, tokens, TokenModel::Comma, TokenModel::RParen);
    let m2 = expect_either_result(m1, tokens);
    if stepped(m1, m2) {
        if crate::parser::at_token(m2, TokenModel::If) {
            lemma_condition_grows(m2);
        } else if crate::parser::at_token(m2, TokenModel::LBrace) {
            lemma_block_grows(m2);
        }
    }
}

proof fn lemma_loop_grows(m: ParserModel)
    ensures
        grows(m, loop_result(m).1),
    decreases m.toks.len() - m.pos, 25nat,
{
    let m1 = advance(m);
    if crate::parser::at_token(m, TokenModel::For) {
        lemma_without_block_grows(m1);
        let (c, m2) = without_block_result(m1);
        if stepped(m1, m2) {
            lemma_loop_body_grows(m2);
        }
    }
}

proof fn lemma_loop_body_grows(m: ParserModel)
    ensures
        grows(m, loop_body_result(m).1),
    decreases m.toks.len() - m.pos, 23nat,
{
    if crate::parser::at_token(m, TokenModel::LBrace) {
        lemma_block_grows(m);
    }
}

/// Parsing an expression never removes or changes a diagnostic reported
/// before: it only adds new ones after them.
pub proof fn lemma_diagnostics_grow(m: ParserModel)
    ensures
        grows(m, expression_result(m).1),
{
    lemma_expression_grows(m);
}

} // verus!
