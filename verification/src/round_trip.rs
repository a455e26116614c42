use vstd::prelude::*;

use crate::lexer::{byte_at, digits_span, digits_value, ident_span, is_blank, is_digit, lex_from, lex_spec, next_lexeme, breaks_span, run_len, word_token};
use crate::text::digits_text;
use crate::tokens::{token_text, TokenModel};

verus! {

/// The bytes of an ASCII text.
pub open spec fn ascii_bytes(s: Seq<char>) -> Seq<u8> {
    s.map_values(|c: char| c as u8)
}

/// Whether the message text of `t` is its source text: keywords, booleans,
/// operators, punctuation and line breaks.
pub open spec fn text_is_source(t: TokenModel) -> bool {
    match t {
        TokenModel::Break => true,
        TokenModel::Continue => true,
        TokenModel::Const => true,
        TokenModel::Else => true,
        TokenModel::Enum => true,
        TokenModel::Fn => true,
        TokenModel::For => true,
        TokenModel::If => true,
        TokenModel::In => true,
        TokenModel::Match => true,
        TokenModel::Return => true,
        TokenModel::Struct => true,
        TokenModel::Trait => true,
        TokenModel::Type => true,
        TokenModel::Use => true,
        TokenModel::Var => true,
        TokenModel::Bool(true) => true,
        TokenModel::Bool(false) => true,
        TokenModel::AndAnd => true,
        TokenModel::PipePipe => true,
        TokenModel::EqEq => true,
        TokenModel::NotEq => true,
        TokenModel::TagClose => true,
        TokenModel::LtSlash => true,
        TokenModel::Le => true,
        TokenModel::Lt => true,
        TokenModel::Ge => true,
        TokenModel::Gt => true,
        TokenModel::And => true,
        TokenModel::Pipe => true,
        TokenModel::At => true,
        TokenModel::Bang => true,
        TokenModel::Dollar => true,
        TokenModel::Eq => true,
        TokenModel::Plus => true,
        TokenModel::Minus => true,
        TokenModel::StarStar => true,
        TokenModel::Star => true,
        TokenModel::Slash => true,
        TokenModel::Mod => true,
        TokenModel::QMark => true,
        TokenModel::LParen => true,
        TokenModel::RParen => true,
        TokenModel::LBracket => true,
        TokenModel::RBracket => true,
        TokenModel::LBrace => true,
        TokenModel::RBrace => true,
        TokenModel::Comma => true,
        TokenModel::Dot => true,
        TokenModel::FatArrow => true,
        TokenModel::Newline => true,
        TokenModel::Int(i) => i >= 0,
        _ => false,
    }
}

/// A text whose first lexeme is the whole text is lexed as that one lexeme.
proof fn lemma_single(s: Seq<u8>, t: TokenModel)
    requires
        0 < s.len(),
        !is_blank(s[0]),
        next_lexeme(s, 0) == (Some(t), s.len() as int),
    ensures
        lex_spec(s) == seq![(Some(t), 0int, s.len() as int)],
{
    assert(lex_from(s, s.len() as int) == Seq::<(Option<TokenModel>, int, int)>::empty());
    assert(seq![(Some(t), 0int, s.len() as int)] + Seq::<(Option<TokenModel>, int, int)>::empty() =~= seq![(Some(t), 0int, s.len() as int)]);
}

proof fn lemma_text_0()
    ensures
        lex_spec(ascii_bytes(token_text(TokenModel::Break))) == seq![(Some(TokenModel::Break), 0int, token_text(TokenModel::Break).len() as int)],
{
    reveal_strlit("break");
    let s = ascii_bytes(token_text(TokenModel::Break));
    assert(s =~= seq![98u8, 114u8, 101u8, 97u8, 107u8]);
    reveal_with_fuel(ident_span, 7);
    assert(ident_span(s, 0) == 5);
    assert(s.subrange(0, 5) =~= s);
    lemma_single(s, TokenModel::Break);
}

proof fn lemma_text_1()
    ensures
        lex_spec(ascii_bytes(token_text(TokenModel::Continue))) == seq![(Some(TokenModel::Continue), 0int, token_text(TokenModel::Continue).len() as int)],
{
    reveal_strlit("continue");
    let s = ascii_bytes(token_text(TokenModel::Continue));
    assert(s =~= seq![99u8, 111u8, 110u8, 116u8, 105u8, 110u8, 117u8, 101u8]);
    reveal_with_fuel(ident_span, 10);
    assert(ident_span(s, 0) == 8);
    assert(s.subrange(0, 8) =~= s);
    lemma_single(s, TokenModel::Continue);
}

proof fn lemma_text_2()
    ensures
        lex_spec(ascii_bytes(token_text(TokenModel::Const))) == seq![(Some(TokenModel::Const), 0int, token_text(TokenModel::Const).len() as int)],
{
    reveal_strlit("const");
    let s = ascii_bytes(token_text(TokenModel::Const));
    assert(s =~= seq![99u8, 111u8, 110u8, 115u8, 116u8]);
    reveal_with_fuel(ident_span, 7);
    assert(ident_span(s, 0) == 5);
    assert(s.subrange(0, 5) =~= s);
    lemma_single(s, TokenModel::Const);
}

proof fn lemma_text_3()
    ensures
        lex_spec(ascii_bytes(token_text(TokenModel::Else))) == seq![(Some(TokenModel::Else), 0int, token_text(TokenModel::Else).len() as int)],
{
    reveal_strlit("else");
    let s = ascii_bytes(token_text(TokenModel::Else));
    assert(s =~= seq![101u8, 108u8, 115u8, 101u8]);
    reveal_with_fuel(ident_span, 6);
    assert(ident_span(s, 0) == 4);
    assert(s.subrange(0, 4) =~= s);
    lemma_single(s, TokenModel::Else);
}

proof fn lemma_text_4()
    ensures
        lex_spec(ascii_bytes(token_text(TokenModel::Enum))) == seq![(Some(TokenModel::Enum), 0int, token_text(TokenModel::Enum).len() as int)],
{
    reveal_strlit("enum");
    let s = ascii_bytes(token_text(TokenModel::Enum));
    assert(s =~= seq![101u8, 110u8, 117u8, 109u8]);
    reveal_with_fuel(ident_span, 6);
    assert(ident_span(s, 0) == 4);
    assert(s.subrange(0, 4) =~= s);
    lemma_single(s, TokenModel::Enum);
}

proof fn lemma_text_5()
    ensures
        lex_spec(ascii_bytes(token_text(TokenModel::Fn))) == seq![(Some(TokenModel::Fn), 0int, token_text(TokenModel::Fn).len() as int)],
{
    reveal_strlit("fn");
    let s = ascii_bytes(token_text(TokenModel::Fn));
    assert(s =~= seq![102u8, 110u8]);
    reveal_with_fuel(ident_span, 4);
    assert(ident_span(s, 0) == 2);
    assert(s.subrange(0, 2) =~= s);
    lemma_single(s, TokenModel::Fn);
}

proof fn lemma_text_6()
    ensures
        lex_spec(ascii_bytes(token_text(TokenModel::For))) == seq![(Some(TokenModel::For), 0int, token_text(TokenModel::For).len() as int)],
{
    reveal_strlit("for");
    let s = ascii_bytes(token_text(TokenModel::For));
    assert(s =~= seq![102u8, 111u8, 114u8]);
    reveal_with_fuel(ident_span, 5);
    assert(ident_span(s, 0) == 3);
    assert(s.subrange(0, 3) =~= s);
    lemma_single(s, TokenModel::For);
}

proof fn lemma_text_7()
    ensures
        lex_spec(ascii_bytes(token_text(TokenModel::If))) == seq![(Some(TokenModel::If), 0int, token_text(TokenModel::If).len() as int)],
{
    reveal_strlit("if");
    let s = ascii_bytes(token_text(TokenModel::If));
    assert(s =~= seq![105u8, 102u8]);
    reveal_with_fuel(ident_span, 4);
    assert(ident_span(s, 0) == 2);
    assert(s.subrange(0, 2) =~= s);
    lemma_single(s, TokenModel::If);
}

proof fn lemma_text_8()
    ensures
        lex_spec(ascii_bytes(token_text(TokenModel::In))) == seq![(Some(TokenModel::In), 0int, token_text(TokenModel::In).len() as int)],
{
    reveal_strlit("in");
    let s = ascii_bytes(token_text(TokenModel::In));
    assert(s =~= seq![105u8, 110u8]);
    reveal_with_fuel(ident_span, 4);
    assert(ident_span(s, 0) == 2);
    assert(s.subrange(0, 2) =~= s);
    lemma_single(s, TokenModel::In);
}

proof fn lemma_text_9()
    ensures
        lex_spec(ascii_bytes(token_text(TokenModel::Match))) == seq![(Some(TokenModel::Match), 0int, token_text(TokenModel::Match).len() as int)],
{
    reveal_strlit("match");
    let s = ascii_bytes(token_text(TokenModel::Match));
    assert(s =~= seq![109u8, 97u8, 116u8, 99u8, 104u8]);
    reveal_with_fuel(ident_span, 7);
    assert(ident_span(s, 0) == 5);
    assert(s.subrange(0, 5) =~= s);
    lemma_single(s, TokenModel::Match);
}

proof fn lemma_text_10()
    ensures
        lex_spec(ascii_bytes(token_text(TokenModel::Return))) == seq![(Some(TokenModel::Return), 0int, token_text(TokenModel::Return).len() as int)],
{
    reveal_strlit("return");
    let s = ascii_bytes(token_text(TokenModel::Return));
    assert(s =~= seq![114u8, 101u8, 116u8, 117u8, 114u8, 110u8]);
    reveal_with_fuel(ident_span, 8);
    assert(ident_span(s, 0) == 6);
    assert(s.subrange(0, 6) =~= s);
    lemma_single(s, TokenModel::Return);
}

proof fn lemma_text_11()
    ensures
        lex_spec(ascii_bytes(token_text(TokenModel::Struct))) == seq![(Some(TokenModel::Struct), 0int, token_text(TokenModel::Struct).len() as int)],
{
    reveal_strlit("struct");
    let s = ascii_bytes(token_text(TokenModel::Struct));
    assert(s =~= seq![115u8, 116u8, 114u8, 117u8, 99u8, 116u8]);
    reveal_with_fuel(ident_span, 8);
    assert(ident_span(s, 0) == 6);
    assert(s.subrange(0, 6) =~= s);
    lemma_single(s, TokenModel::Struct);
}

proof fn lemma_text_12()
    ensures
        lex_spec(ascii_bytes(token_text(TokenModel::Trait))) == seq![(Some(TokenModel::Trait), 0int, token_text(TokenModel::Trait).len() as int)],
{
    reveal_strlit("trait");
    let s = ascii_bytes(token_text(TokenModel::Trait));
    assert(s =~= seq![116u8, 114u8, 97u8, 105u8, 116u8]);
    reveal_with_fuel(ident_span, 7);
    assert(ident_span(s, 0) == 5);
    assert(s.subrange(0, 5) =~= s);
    lemma_single(s, TokenModel::Trait);
}

proof fn lemma_text_13()
    ensures
        lex_spec(ascii_bytes(token_text(TokenModel::Type))) == seq![(Some(TokenModel::Type), 0int, token_text(TokenModel::Type).len() as int)],
{
    reveal_strlit("type");
    let s = ascii_bytes(token_text(TokenModel::Type));
    assert(s =~= seq![116u8, 121u8, 112u8, 101u8]);
    reveal_with_fuel(ident_span, 6);
    assert(ident_span(s, 0) == 4);
    assert(s.subrange(0, 4) =~= s);
    lemma_single(s, TokenModel::Type);
}

proof fn lemma_text_14()
    ensures
        lex_spec(ascii_bytes(token_text(TokenModel::Use))) == seq![(Some(TokenModel::Use), 0int, token_text(TokenModel::Use).len() as int)],
{
    reveal_strlit("use");
    let s = ascii_bytes(token_text(TokenModel::Use));
    assert(s =~= seq![117u8, 115u8, 101u8]);
    reveal_with_fuel(ident_span, 5);
    assert(ident_span(s, 0) == 3);
    assert(s.subrange(0, 3) =~= s);
    lemma_single(s, TokenModel::Use);
}

proof fn lemma_text_15()
    ensures
        lex_spec(ascii_bytes(token_text(TokenModel::Var))) == seq![(Some(TokenModel::Var), 0int, token_text(TokenModel::Var).len() as int)],
{
    reveal_strlit("var");
    let s = ascii_bytes(token_text(TokenModel::Var));
    assert(s =~= seq![118u8, 97u8, 114u8]);
    reveal_with_fuel(ident_span, 5);
    assert(ident_span(s, 0) == 3);
    assert(s.subrange(0, 3) =~= s);
    lemma_single(s, TokenModel::Var);
}

proof fn lemma_text_16()
    ensures
        lex_spec(ascii_bytes(token_text(TokenModel::Bool(true)))) == seq![(Some(TokenModel::Bool(true)), 0int, token_text(TokenModel::Bool(true)).len() as int)],
{
    reveal_strlit("true");
    let s = ascii_bytes(token_text(TokenModel::Bool(true)));
    assert(s =~= seq![116u8, 114u8, 117u8, 101u8]);
    reveal_with_fuel(ident_span, 6);
    assert(ident_span(s, 0) == 4);
    assert(s.subrange(0, 4) =~= s);
    lemma_single(s, TokenModel::Bool(true));
}

proof fn lemma_text_17()
    ensures
        lex_spec(ascii_bytes(token_text(TokenModel::Bool(false)))) == seq![(Some(TokenModel::Bool(false)), 0int, token_text(TokenModel::Bool(false)).len() as int)],
{
    reveal_strlit("false");
    let s = ascii_bytes(token_text(TokenModel::Bool(false)));
    assert(s =~= seq![102u8, 97u8, 108u8, 115u8, 101u8]);
    reveal_with_fuel(ident_span, 7);
    assert(ident_span(s, 0) == 5);
    assert(s.subrange(0, 5) =~= s);
    lemma_single(s, TokenModel::Bool(false));
}

proof fn lemma_text_18()
    ensures
        lex_spec(ascii_bytes(token_text(TokenModel::AndAnd))) == seq![(Some(TokenModel::AndAnd), 0int, token_text(TokenModel::AndAnd).len() as int)],
{
    reveal_strlit("&&");
    let s = ascii_bytes(token_text(TokenModel::AndAnd));
    assert(s =~= seq![38u8, 38u8]);
    lemma_single(s, TokenModel::AndAnd);
}

proof fn lemma_text_19()
    ensures
        lex_spec(ascii_bytes(token_text(TokenModel::PipePipe))) == seq![(Some(TokenModel::PipePipe), 0int, token_text(TokenModel::PipePipe).len() as int)],
{
    reveal_strlit("||");
    let s = ascii_bytes(token_text(TokenModel::PipePipe));
    assert(s =~= seq![124u8, 124u8]);
    lemma_single(s, TokenModel::PipePipe);
}

proof fn lemma_text_20()
    ensures
        lex_spec(ascii_bytes(token_text(TokenModel::EqEq))) == seq![(Some(TokenModel::EqEq), 0int, token_text(TokenModel::EqEq).len() as int)],
{
    reveal_strlit("==");
    let s = ascii_bytes(token_text(TokenModel::EqEq));
    assert(s =~= seq![61u8, 61u8]);
    lemma_single(s, TokenModel::EqEq);
}

proof fn lemma_text_21()
    ensures
        lex_spec(ascii_bytes(token_text(TokenModel::NotEq))) == seq![(Some(TokenModel::NotEq), 0int, token_text(TokenModel::NotEq).len() as int)],
{
    reveal_strlit("!=");
    let s = ascii_bytes(token_text(TokenModel::NotEq));
    assert(s =~= seq![33u8, 61u8]);
    lemma_single(s, TokenModel::NotEq);
}

proof fn lemma_text_22()
    ensures
        lex_spec(ascii_bytes(token_text(TokenModel::TagClose))) == seq![(Some(TokenModel::TagClose), 0int, token_text(TokenModel::TagClose).len() as int)],
{
    reveal_strlit("/>");
    let s = ascii_bytes(token_text(TokenModel::TagClose));
    assert(s =~= seq![47u8, 62u8]);
    lemma_single(s, TokenModel::TagClose);
}

proof fn lemma_text_23()
    ensures
        lex_spec(ascii_bytes(token_text(TokenModel::LtSlash))) == seq![(Some(TokenModel::LtSlash), 0int, token_text(TokenModel::LtSlash).len() as int)],
{
    reveal_strlit("</");
    let s = ascii_bytes(token_text(TokenModel::LtSlash));
    assert(s =~= seq![60u8, 47u8]);
    lemma_single(s, TokenModel::LtSlash);
}

proof fn lemma_text_24()
    ensures
        lex_spec(ascii_bytes(token_text(TokenModel::Le))) == seq![(Some(TokenModel::Le), 0int, token_text(TokenModel::Le).len() as int)],
{
    reveal_strlit("<=");
    let s = ascii_bytes(token_text(TokenModel::Le));
    assert(s =~= seq![60u8, 61u8]);
    lemma_single(s, TokenModel::Le);
}

proof fn lemma_text_25()
    ensures
        lex_spec(ascii_bytes(token_text(TokenModel::Lt))) == seq![(Some(TokenModel::Lt), 0int, token_text(TokenModel::Lt).len() as int)],
{
    reveal_strlit("<");
    let s = ascii_bytes(token_text(TokenModel::Lt));
    assert(s =~= seq![60u8]);
    lemma_single(s, TokenModel::Lt);
}

proof fn lemma_text_26()
    ensures
        lex_spec(ascii_bytes(token_text(TokenModel::Ge))) == seq![(Some(TokenModel::Ge), 0int, token_text(TokenModel::Ge).len() as int)],
{
    reveal_strlit(">=");
    let s = ascii_bytes(token_text(TokenModel::Ge));
    assert(s =~= seq![62u8, 61u8]);
    lemma_single(s, TokenModel::Ge);
}

proof fn lemma_text_27()
    ensures
        lex_spec(ascii_bytes(token_text(TokenModel::Gt))) == seq![(Some(TokenModel::Gt), 0int, token_text(TokenModel::Gt).len() as int)],
{
    reveal_strlit(">");
    let s = ascii_bytes(token_text(TokenModel::Gt));
    assert(s =~= seq![62u8]);
    lemma_single(s, TokenModel::Gt);
}

proof fn lemma_text_28()
    ensures
        lex_spec(ascii_bytes(token_text(TokenModel::And))) == seq![(Some(TokenModel::And), 0int, token_text(TokenModel::And).len() as int)],
{
    reveal_strlit("&");
    let s = ascii_bytes(token_text(TokenModel::And));
    assert(s =~= seq![38u8]);
    lemma_single(s, TokenModel::And);
}

proof fn lemma_text_29()
    ensures
        lex_spec(ascii_bytes(token_text(TokenModel::Pipe))) == seq![(Some(TokenModel::Pipe), 0int, token_text(TokenModel::Pipe).len() as int)],
{
    reveal_strlit("|");
    let s = ascii_bytes(token_text(TokenModel::Pipe));
    assert(s =~= seq![124u8]);
    lemma_single(s, TokenModel::Pipe);
}

proof fn lemma_text_30()
    ensures
        lex_spec(ascii_bytes(token_text(TokenModel::At))) == seq![(Some(TokenModel::At), 0int, token_text(TokenModel::At).len() as int)],
{
    reveal_strlit("@");
    let s = ascii_bytes(token_text(TokenModel::At));
    assert(s =~= seq![64u8]);
    lemma_single(s, TokenModel::At);
}

proof fn lemma_text_31()
    ensures
        lex_spec(ascii_bytes(token_text(TokenModel::Bang))) == seq![(Some(TokenModel::Bang), 0int, token_text(TokenModel::Bang).len() as int)],
{
    reveal_strlit("!");
    let s = ascii_bytes(token_text(TokenModel::Bang));
    assert(s =~= seq![33u8]);
    lemma_single(s, TokenModel::Bang);
}

proof fn lemma_text_32()
    ensures
        lex_spec(ascii_bytes(token_text(TokenModel::Dollar))) == seq![(Some(TokenModel::Dollar), 0int, token_text(TokenModel::Dollar).len() as int)],
{
    reveal_strlit("$");
    let s = ascii_bytes(token_text(TokenModel::Dollar));
    assert(s =~= seq![36u8]);
    lemma_single(s, TokenModel::Dollar);
}

proof fn lemma_text_33()
    ensures
        lex_spec(ascii_bytes(token_text(TokenModel::Eq))) == seq![(Some(TokenModel::Eq), 0int, token_text(TokenModel::Eq).len() as int)],
{
    reveal_strlit("=");
    let s = ascii_bytes(token_text(TokenModel::Eq));
    assert(s =~= seq![61u8]);
    lemma_single(s, TokenModel::Eq);
}

proof fn lemma_text_34()
    ensures
        lex_spec(ascii_bytes(token_text(TokenModel::Plus))) == seq![(Some(TokenModel::Plus), 0int, token_text(TokenModel::Plus).len() as int)],
{
    reveal_strlit("+");
    let s = ascii_bytes(token_text(TokenModel::Plus));
    assert(s =~= seq![43u8]);
    lemma_single(s, TokenModel::Plus);
}

proof fn lemma_text_35()
    ensures
        lex_spec(ascii_bytes(token_text(TokenModel::Minus))) == seq![(Some(TokenModel::Minus), 0int, token_text(TokenModel::Minus).len() as int)],
{
    reveal_strlit("-");
    let s = ascii_bytes(token_text(TokenModel::Minus));
    assert(s =~= seq![45u8]);
    lemma_single(s, TokenModel::Minus);
}

proof fn lemma_text_36()
    ensures
        lex_spec(ascii_bytes(token_text(TokenModel::StarStar))) == seq![(Some(TokenModel::StarStar), 0int, token_text(TokenModel::StarStar).len() as int)],
{
    reveal_strlit("**");
    let s = ascii_bytes(token_text(TokenModel::StarStar));
    assert(s =~= seq![42u8, 42u8]);
    lemma_single(s, TokenModel::StarStar);
}

proof fn lemma_text_37()
    ensures
        lex_spec(ascii_bytes(token_text(TokenModel::Star))) == seq![(Some(TokenModel::Star), 0int, token_text(TokenModel::Star).len() as int)],
{
    reveal_strlit("*");
    let s = ascii_bytes(token_text(TokenModel::Star));
    assert(s =~= seq![42u8]);
    lemma_single(s, TokenModel::Star);
}

proof fn lemma_text_38()
    ensures
        lex_spec(ascii_bytes(token_text(TokenModel::Slash))) == seq![(Some(TokenModel::Slash), 0int, token_text(TokenModel::Slash).len() as int)],
{
    reveal_strlit("/");
    let s = ascii_bytes(token_text(TokenModel::Slash));
    assert(s =~= seq![47u8]);
    lemma_single(s, TokenModel::Slash);
}

proof fn lemma_text_39()
    ensures
        lex_spec(ascii_bytes(token_text(TokenModel::Mod))) == seq![(Some(TokenModel::Mod), 0int, token_text(TokenModel::Mod).len() as int)],
{
    reveal_strlit("%");
    let s = ascii_bytes(token_text(TokenModel::Mod));
    assert(s =~= seq![37u8]);
    lemma_single(s, TokenModel::Mod);
}

proof fn lemma_text_40()
    ensures
        lex_spec(ascii_bytes(token_text(TokenModel::QMark))) == seq![(Some(TokenModel::QMark), 0int, token_text(TokenModel::QMark).len() as int)],
{
    reveal_strlit("?");
    let s = ascii_bytes(token_text(TokenModel::QMark));
    assert(s =~= seq![63u8]);
    lemma_single(s, TokenModel::QMark);
}

proof fn lemma_text_41()
    ensures
        lex_spec(ascii_bytes(token_text(TokenModel::LParen))) == seq![(Some(TokenModel::LParen), 0int, token_text(TokenModel::LParen).len() as int)],
{
    reveal_strlit("(");
    let s = ascii_bytes(token_text(TokenModel::LParen));
    assert(s =~= seq![40u8]);
    lemma_single(s, TokenModel::LParen);
}

proof fn lemma_text_42()
    ensures
        lex_spec(ascii_bytes(token_text(TokenModel::RParen))) == seq![(Some(TokenModel::RParen), 0int, token_text(TokenModel::RParen).len() as int)],
{
    reveal_strlit(")");
    let s = ascii_bytes(token_text(TokenModel::RParen));
    assert(s =~= seq![41u8]);
    lemma_single(s, TokenModel::RParen);
}

proof fn lemma_text_43()
    ensures
        lex_spec(ascii_bytes(token_text(TokenModel::LBracket))) == seq![(Some(TokenModel::LBracket), 0int, token_text(TokenModel::LBracket).len() as int)],
{
    reveal_strlit("[");
    let s = ascii_bytes(token_text(TokenModel::LBracket));
    assert(s =~= seq![91u8]);
    lemma_single(s, TokenModel::LBracket);
}

proof fn lemma_text_44()
    ensures
        lex_spec(ascii_bytes(token_text(TokenModel::RBracket))) == seq![(Some(TokenModel::RBracket), 0int, token_text(TokenModel::RBracket).len() as int)],
{
    reveal_strlit("]");
    let s = ascii_bytes(token_text(TokenModel::RBracket));
    assert(s =~= seq![93u8]);
    lemma_single(s, TokenModel::RBracket);
}

proof fn lemma_text_45()
    ensures
        lex_spec(ascii_bytes(token_text(TokenModel::LBrace))) == seq![(Some(TokenModel::LBrace), 0int, token_text(TokenModel::LBrace).len() as int)],
{
    reveal_strlit("{");
    let s = ascii_bytes(token_text(TokenModel::LBrace));
    assert(s =~= seq![123u8]);
    lemma_single(s, TokenModel::LBrace);
}

proof fn lemma_text_46()
    ensures
        lex_spec(ascii_bytes(token_text(TokenModel::RBrace))) == seq![(Some(TokenModel::RBrace), 0int, token_text(TokenModel::RBrace).len() as int)],
{
    reveal_strlit("}");
    let s = ascii_bytes(token_text(TokenModel::RBrace));
    assert(s =~= seq![125u8]);
    lemma_single(s, TokenModel::RBrace);
}

proof fn lemma_text_47()
    ensures
        lex_spec(ascii_bytes(token_text(TokenModel::Comma))) == seq![(Some(TokenModel::Comma), 0int, token_text(TokenModel::Comma).len() as int)],
{
    reveal_strlit(",");
    let s = ascii_bytes(token_text(TokenModel::Comma));
    assert(s =~= seq![44u8]);
    lemma_single(s, TokenModel::Comma);
}

proof fn lemma_text_48()
    ensures
        lex_spec(ascii_bytes(token_text(TokenModel::Dot))) == seq![(Some(TokenModel::Dot), 0int, token_text(TokenModel::Dot).len() as int)],
{
    reveal_strlit(".");
    let s = ascii_bytes(token_text(TokenModel::Dot));
    assert(s =~= seq![46u8]);
    lemma_single(s, TokenModel::Dot);
}

proof fn lemma_text_49()
    ensures
        lex_spec(ascii_bytes(token_text(TokenModel::FatArrow))) == seq![(Some(TokenModel::FatArrow), 0int, token_text(TokenModel::FatArrow).len() as int)],
{
    reveal_strlit("=>");
    let s = ascii_bytes(token_text(TokenModel::FatArrow));
    assert(s =~= seq![61u8, 62u8]);
    lemma_single(s, TokenModel::FatArrow);
}

proof fn lemma_text_newline()
    ensures
        lex_spec(ascii_bytes(token_text(TokenModel::Newline))) == seq![(Some(TokenModel::Newline), 0int, 1int)],
{
    reveal_strlit("\n");
    let s = ascii_bytes(token_text(TokenModel::Newline));
    assert(s =~= seq![10u8]);
    reveal_with_fuel(breaks_span, 3);
    assert(breaks_span(s, 0) == 1);
    lemma_single(s, TokenModel::Newline);
}

/// `digits_value` reads only the bytes in its range.
proof fn lemma_digits_value_same(s: Seq<u8>, t: Seq<u8>, b: int)
    requires
        0 <= b <= s.len(),
        b <= t.len(),
        forall|k: int| 0 <= k < b ==> s[k] == t[k],
    ensures
        digits_value(s, 0, b) == digits_value(t, 0, b),
    decreases b,
{
    if b > 0 {
        lemma_digits_value_same(s, t, b - 1);
    }
}

/// The bytes of the decimal digits of `n` are digits, and read back as `n`.
proof fn lemma_digits_bytes(n: nat)
    ensures
        ascii_bytes(digits_text(n)).len() >= 1,
        forall|k: int| 0 <= k < ascii_bytes(digits_text(n)).len() ==> is_digit(#[trigger] ascii_bytes(digits_text(n))[k]),
        digits_value(ascii_bytes(digits_text(n)), 0, ascii_bytes(digits_text(n)).len() as int) == n,
    decreases n,
{
    let s = ascii_bytes(digits_text(n));
    if n < 10 {
        assert(s =~= seq![(n + 48) as u8]);
        assert(digits_value(s, 0, 0) == 0);
    } else {
        lemma_digits_bytes(n / 10);
        let p = ascii_bytes(digits_text(n / 10));
        let d = ((n % 10) + 48) as u8;
        assert(s =~= p.push(d));
        lemma_digits_value_same(s, p, p.len() as int);
        assert(s[s.len() - 1] == d);
        assert forall|k: int| 0 <= k < s.len() implies is_digit(#[trigger] s[k]) by {
            if k < p.len() {
                assert(s[k] == p[k]);
            }
        }
    }
}

/// In a text of digits only, the digits from `p` run to the end.
proof fn lemma_digits_span_all(s: Seq<u8>, p: int)
    requires
        0 <= p <= s.len(),
        forall|k: int| 0 <= k < s.len() ==> is_digit(#[trigger] s[k]),
    ensures
        digits_span(s, p) == s.len() - p,
    decreases s.len() - p,
{
    if p < s.len() {
        lemma_digits_span_all(s, p + 1);
    }
}

proof fn lemma_text_int(i: int)
    requires
        i >= 0,
    ensures
        lex_spec(ascii_bytes(token_text(TokenModel::Int(i)))) == seq![(Some(TokenModel::Int(i)), 0int, token_text(TokenModel::Int(i)).len() as int)],
{
    let s = ascii_bytes(token_text(TokenModel::Int(i)));
    assert(s == ascii_bytes(digits_text(i as nat)));
    lemma_digits_bytes(i as nat);
    lemma_digits_span_all(s, 0);
    assert(byte_at(s, s.len() as int) == 0);
    assert(run_len(s, 0) == s.len());
    assert(is_digit(s[0]));
    lemma_single(s, TokenModel::Int(i));
}

/// Lexing the text of a keyword, boolean, operator, punctuation, line break
/// or non-negative integer token gives back exactly that token, spanning the
/// whole text.
pub proof fn lemma_token_round_trip(t: TokenModel)
    requires
        text_is_source(t),
    ensures
        lex_spec(ascii_bytes(token_text(t))) == seq![(Some(t), 0int, token_text(t).len() as int)],
{
    match t {
        TokenModel::Break => lemma_text_0(),
        TokenModel::Continue => lemma_text_1(),
        TokenModel::Const => lemma_text_2(),
        TokenModel::Else => lemma_text_3(),
        TokenModel::Enum => lemma_text_4(),
        TokenModel::Fn => lemma_text_5(),
        TokenModel::For => lemma_text_6(),
        TokenModel::If => lemma_text_7(),
        TokenModel::In => lemma_text_8(),
        TokenModel::Match => lemma_text_9(),
        TokenModel::Return => lemma_text_10(),
        TokenModel::Struct => lemma_text_11(),
        TokenModel::Trait => lemma_text_12(),
        TokenModel::Type => lemma_text_13(),
        TokenModel::Use => lemma_text_14(),
        TokenModel::Var => lemma_text_15(),
        TokenModel::AndAnd => lemma_text_18(),
        TokenModel::PipePipe => lemma_text_19(),
        TokenModel::EqEq => lemma_text_20(),
        TokenModel::NotEq => lemma_text_21(),
        TokenModel::TagClose => lemma_text_22(),
        TokenModel::LtSlash => lemma_text_23(),
        TokenModel::Le => lemma_text_24(),
        TokenModel::Lt => lemma_text_25(),
        TokenModel::Ge => lemma_text_26(),
        TokenModel::Gt => lemma_text_27(),
        TokenModel::And => lemma_text_28(),
        TokenModel::Pipe => lemma_text_29(),
        TokenModel::At => lemma_text_30(),
        TokenModel::Bang => lemma_text_31(),
        TokenModel::Dollar => lemma_text_32(),
        TokenModel::Eq => lemma_text_33(),
        TokenModel::Plus => lemma_text_34(),
        TokenModel::Minus => lemma_text_35(),
        TokenModel::StarStar => lemma_text_36(),
        TokenModel::Star => lemma_text_37(),
        TokenModel::Slash => lemma_text_38(),
        TokenModel::Mod => lemma_text_39(),
        TokenModel::QMark => lemma_text_40(),
        TokenModel::LParen => lemma_text_41(),
        TokenModel::RParen => lemma_text_42(),
        TokenModel::LBracket => lemma_text_43(),
        TokenModel::RBracket => lemma_text_44(),
        TokenModel::LBrace => lemma_text_45(),
        TokenModel::RBrace => lemma_text_46(),
        TokenModel::Comma => lemma_text_47(),
        TokenModel::Dot => lemma_text_48(),
        TokenModel::FatArrow => lemma_text_49(),
        TokenModel::Bool(b) => if b { lemma_text_16() } else { lemma_text_17() },
        TokenModel::Newline => {
            reveal_strlit("\n");
            lemma_text_newline();
        },
        TokenModel::Int(i) => lemma_text_int(i),
        _ => {},
    }
}

} // verus!
