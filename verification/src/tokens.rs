use vstd::prelude::*;

use crate::text::{decimal_text, int_to_string};

verus! {

/// The source text of a float literal.
#[derive(Debug, Clone)]
pub struct Float {
    pub src: String,
}

/// A token of the language.
#[derive(Debug, Clone)]
pub enum Token {
    LineComment(String),
    Break,
    Continue,
    Const,
    Else,
    Enum,
    Fn,
    For,
    If,
    In,
    Match,
    Return,
    Struct,
    Trait,
    Type,
    Use,
    Var,
    Int(i64),
    Float(Float),
    Bool(bool),
    String(String),
    Ident(String),
    AndAnd,
    PipePipe,
    EqEq,
    NotEq,
    TagClose,
    LtSlash,
    Le,
    Lt,
    Ge,
    Gt,
    And,
    Pipe,
    At,
    Bang,
    Dollar,
    Eq,
    Plus,
    Minus,
    StarStar,
    Star,
    Slash,
    Mod,
    QMark,
    LParen,
    RParen,
    LBracket,
    RBracket,
    LBrace,
    RBrace,
    Comma,
    Dot,
    FatArrow,
    Whitespace,
    Newline,
}

/// The mathematical value of a token.
pub enum TokenModel {
    LineComment(Seq<char>),
    Break,
    Continue,
    Const,
    Else,
    Enum,
    Fn,
    For,
    If,
    In,
    Match,
    Return,
    Struct,
    Trait,
    Type,
    Use,
    Var,
    Int(int),
    Float(Seq<char>),
    Bool(bool),
    String(Seq<char>),
    Ident(Seq<char>),
    AndAnd,
    PipePipe,
    EqEq,
    NotEq,
    TagClose,
    LtSlash,
    Le,
    Lt,
    Ge,
    Gt,
    And,
    Pipe,
    At,
    Bang,
    Dollar,
    Eq,
    Plus,
    Minus,
    StarStar,
    Star,
    Slash,
    Mod,
    QMark,
    LParen,
    RParen,
    LBracket,
    RBracket,
    LBrace,
    RBrace,
    Comma,
    Dot,
    FatArrow,
    Whitespace,
    Newline,
}

impl View for Token {
    type V = TokenModel;

    open spec fn view(&self) -> TokenModel {
        match self {
            Token::LineComment(s) => TokenModel::LineComment(s@),
            Token::Break => TokenModel::Break,
            Token::Continue => TokenModel::Continue,
            Token::Const => TokenModel::Const,
            Token::Else => TokenModel::Else,
            Token::Enum => TokenModel::Enum,
            Token::Fn => TokenModel::Fn,
            Token::For => TokenModel::For,
            Token::If => TokenModel::If,
            Token::In => TokenModel::In,
            Token::Match => TokenModel::Match,
            Token::Return => TokenModel::Return,
            Token::Struct => TokenModel::Struct,
            Token::Trait => TokenModel::Trait,
            Token::Type => TokenModel::Type,
            Token::Use => TokenModel::Use,
            Token::Var => TokenModel::Var,
            Token::Int(i) => TokenModel::Int(*i as int),
            Token::Float(f) => TokenModel::Float(f.src@),
            Token::Bool(b) => TokenModel::Bool(*b),
            Token::String(s) => TokenModel::String(s@),
            Token::Ident(s) => TokenModel::Ident(s@),
            Token::AndAnd => TokenModel::AndAnd,
            Token::PipePipe => TokenModel::PipePipe,
            Token::EqEq => TokenModel::EqEq,
            Token::NotEq => TokenModel::NotEq,
            Token::TagClose => TokenModel::TagClose,
            Token::LtSlash => TokenModel::LtSlash,
            Token::Le => TokenModel::Le,
            Token::Lt => TokenModel::Lt,
            Token::Ge => TokenModel::Ge,
            Token::Gt => TokenModel::Gt,
            Token::And => TokenModel::And,
            Token::Pipe => TokenModel::Pipe,
            Token::At => TokenModel::At,
            Token::Bang => TokenModel::Bang,
            Token::Dollar => TokenModel::Dollar,
            Token::Eq => TokenModel::Eq,
            Token::Plus => TokenModel::Plus,
            Token::Minus => TokenModel::Minus,
            Token::StarStar => TokenModel::StarStar,
            Token::Star => TokenModel::Star,
            Token::Slash => TokenModel::Slash,
            Token::Mod => TokenModel::Mod,
            Token::QMark => TokenModel::QMark,
            Token::LParen => TokenModel::LParen,
            Token::RParen => TokenModel::RParen,
            Token::LBracket => TokenModel::LBracket,
            Token::RBracket => TokenModel::RBracket,
            Token::LBrace => TokenModel::LBrace,
            Token::RBrace => TokenModel::RBrace,
            Token::Comma => TokenModel::Comma,
            Token::Dot => TokenModel::Dot,
            Token::FatArrow => TokenModel::FatArrow,
            Token::Whitespace => TokenModel::Whitespace,
            Token::Newline => TokenModel::Newline,
        }
    }
}

/// The text that stands for a token in messages.
pub open spec fn token_text(t: TokenModel) -> Seq<char> {
    match t {
        TokenModel::LineComment(_) => "comment"@,
        TokenModel::Break => "break"@,
        TokenModel::Continue => "continue"@,
        TokenModel::Const => "const"@,
        TokenModel::Else => "else"@,
        TokenModel::Enum => "enum"@,
        TokenModel::Fn => "fn"@,
        TokenModel::For => "for"@,
        TokenModel::If => "if"@,
        TokenModel::In => "in"@,
        TokenModel::Match => "match"@,
        TokenModel::Return => "return"@,
        TokenModel::Struct => "struct"@,
        TokenModel::Trait => "trait"@,
        TokenModel::Type => "type"@,
        TokenModel::Use => "use"@,
        TokenModel::Var => "var"@,
        TokenModel::Int(i) => decimal_text(i),
        TokenModel::Float(s) => s,
        TokenModel::Bool(b) => if b { "true"@ } else { "false"@ },
        TokenModel::String(s) => "\""@ + s + "\""@,
        TokenModel::Ident(s) => s,
        TokenModel::AndAnd => "&&"@,
        TokenModel::PipePipe => "||"@,
        TokenModel::EqEq => "=="@,
        TokenModel::NotEq => "!="@,
        TokenModel::TagClose => "/>"@,
        TokenModel::LtSlash => "</"@,
        TokenModel::Le => "<="@,
        TokenModel::Lt => "<"@,
        TokenModel::Ge => ">="@,
        TokenModel::Gt => ">"@,
        TokenModel::And => "&"@,
        TokenModel::Pipe => "|"@,
        TokenModel::At => "@"@,
        TokenModel::Bang => "!"@,
        TokenModel::Dollar => "$"@,
        TokenModel::Eq => "="@,
        TokenModel::Plus => "+"@,
        TokenModel::Minus => "-"@,
        TokenModel::StarStar => "**"@,
        TokenModel::Star => "*"@,
        TokenModel::Slash => "/"@,
        TokenModel::Mod => "%"@,
        TokenModel::QMark => "?"@,
        TokenModel::LParen => "("@,
        TokenModel::RParen => ")"@,
        TokenModel::LBracket => "["@,
        TokenModel::RBracket => "]"@,
        TokenModel::LBrace => "{"@,
        TokenModel::RBrace => "}"@,
        TokenModel::Comma => ","@,
        TokenModel::Dot => "."@,
        TokenModel::FatArrow => "=>"@,
        TokenModel::Whitespace => " "@,
        TokenModel::Newline => "\n"@,
    }
}

/// The binding strength of a binary operator token (0 for other tokens).
pub open spec fn token_precedence(t: TokenModel) -> u8 {
    match t {
        TokenModel::PipePipe => 1,
        TokenModel::AndAnd => 2,
        TokenModel::EqEq => 3,
        TokenModel::NotEq => 3,
        TokenModel::Ge => 4,
        TokenModel::Le => 4,
        TokenModel::Lt => 4,
        TokenModel::Gt => 4,
        TokenModel::Plus => 5,
        TokenModel::Minus => 5,
        TokenModel::Star => 6,
        TokenModel::Slash => 6,
        TokenModel::Mod => 6,
        TokenModel::StarStar => 7,
        _ => 0,
    }
}

/// Whether a token carries no payload.
pub open spec fn is_fixed(t: TokenModel) -> bool {
    match t {
        TokenModel::LineComment(_) | TokenModel::Int(_) | TokenModel::Float(_) | TokenModel::Bool(_)
        | TokenModel::String(_) | TokenModel::Ident(_) => false,
        _ => true,
    }
}

/// The models of a list of tokens.
pub open spec fn token_models(s: Seq<Token>) -> Seq<TokenModel> {
    s.map_values(|t: Token| t@)
}

/// The message texts of a list of token models.
pub open spec fn token_texts(s: Seq<TokenModel>) -> Seq<Seq<char>> {
    s.map_values(|t: TokenModel| token_text(t))
}

impl Token {
    /// The text that stands for the token in messages.
    pub fn to_string(&self) -> (r: String)
        ensures
            r@ == token_text(self@),
    {
        match self {
            Token::LineComment(_) => String::from_str("comment"),
            Token::Break => String::from_str("break"),
            Token::Continue => String::from_str("continue"),
            Token::Const => String::from_str("const"),
            Token::Else => String::from_str("else"),
            Token::Enum => String::from_str("enum"),
            Token::Fn => String::from_str("fn"),
            Token::For => String::from_str("for"),
            Token::If => String::from_str("if"),
            Token::In => String::from_str("in"),
            Token::Match => String::from_str("match"),
            Token::Return => String::from_str("return"),
            Token::Struct => String::from_str("struct"),
            Token::Trait => String::from_str("trait"),
            Token::Type => String::from_str("type"),
            Token::Use => String::from_str("use"),
            Token::Var => String::from_str("var"),
            Token::Int(i) => int_to_string(*i),
            Token::Float(f) => f.src.clone(),
            Token::Bool(b) => if *b {
                String::from_str("true")
            } else {
                String::from_str("false")
            },
            Token::String(s) => {
                let mut r = String::from_str("\"");
                r.append(s.as_str());
                r.append("\"");
                r
            },
            Token::Ident(i) => i.clone(),
            Token::AndAnd => String::from_str("&&"),
            Token::PipePipe => String::from_str("||"),
            Token::EqEq => String::from_str("=="),
            Token::NotEq => String::from_str("!="),
            Token::TagClose => String::from_str("/>"),
            Token::LtSlash => String::from_str("</"),
            Token::Le => String::from_str("<="),
            Token::Lt => String::from_str("<"),
            Token::Ge => String::from_str(">="),
            Token::Gt => String::from_str(">"),
            Token::And => String::from_str("&"),
            Token::Pipe => String::from_str("|"),
            Token::At => String::from_str("@"),
            Token::Bang => String::from_str("!"),
            Token::Dollar => String::from_str("$"),
            Token::Eq => String::from_str("="),
            Token::Plus => String::from_str("+"),
            Token::Minus => String::from_str("-"),
            Token::StarStar => String::from_str("**"),
            Token::Star => String::from_str("*"),
            Token::Slash => String::from_str("/"),
            Token::Mod => String::from_str("%"),
            Token::QMark => String::from_str("?"),
            Token::LParen => String::from_str("("),
            Token::RParen => String::from_str(")"),
            Token::LBracket => String::from_str("["),
            Token::RBracket => String::from_str("]"),
            Token::LBrace => String::from_str("{"),
            Token::RBrace => String::from_str("}"),
            Token::Comma => String::from_str(","),
            Token::Dot => String::from_str("."),
            Token::FatArrow => String::from_str("=>"),
            Token::Whitespace => String::from_str(" "),
            Token::Newline => String::from_str("\n"),
        }
    }

    /// The binding strength of a binary operator token (0 for other tokens).
    pub fn precedence(&self) -> (r: u8)
        ensures
            r == token_precedence(self@),
    {
        match self {
            Token::PipePipe => 1,
            Token::AndAnd => 2,
            Token::EqEq => 3,
            Token::NotEq => 3,
            Token::Ge => 4,
            Token::Le => 4,
            Token::Lt => 4,
            Token::Gt => 4,
            Token::Plus => 5,
            Token::Minus => 5,
            Token::Star => 6,
            Token::Slash => 6,
            Token::Mod => 6,
            Token::StarStar => 7,
            _ => 0,
        }
    }

    /// Whether two tokens are equal.
    pub fn is(&self, other: &Token) -> (r: bool)
        ensures
            r == (self@ == other@),
    {
        match (self, other) {
            (Token::LineComment(a), Token::LineComment(b)) => crate::types::string_eq(a, b),
            (Token::Int(a), Token::Int(b)) => *a == *b,
            (Token::Float(a), Token::Float(b)) => crate::types::string_eq(&a.src, &b.src),
            (Token::Bool(a), Token::Bool(b)) => *a == *b,
            (Token::String(a), Token::String(b)) => crate::types::string_eq(a, b),
            (Token::Ident(a), Token::Ident(b)) => crate::types::string_eq(a, b),
            (Token::Break, Token::Break) => true,
            (Token::Continue, Token::Continue) => true,
            (Token::Const, Token::Const) => true,
            (Token::Else, Token::Else) => true,
            (Token::Enum, Token::Enum) => true,
            (Token::Fn, Token::Fn) => true,
            (Token::For, Token::For) => true,
            (Token::If, Token::If) => true,
            (Token::In, Token::In) => true,
            (Token::Match, Token::Match) => true,
            (Token::Return, Token::Return) => true,
            (Token::Struct, Token::Struct) => true,
            (Token::Trait, Token::Trait) => true,
            (Token::Type, Token::Type) => true,
            (Token::Use, Token::Use) => true,
            (Token::Var, Token::Var) => true,
            (Token::AndAnd, Token::AndAnd) => true,
            (Token::PipePipe, Token::PipePipe) => true,
            (Token::EqEq, Token::EqEq) => true,
            (Token::NotEq, Token::NotEq) => true,
            (Token::TagClose, Token::TagClose) => true,
            (Token::LtSlash, Token::LtSlash) => true,
            (Token::Le, Token::Le) => true,
            (Token::Lt, Token::Lt) => true,
            (Token::Ge, Token::Ge) => true,
            (Token::Gt, Token::Gt) => true,
            (Token::And, Token::And) => true,
            (Token::Pipe, Token::Pipe) => true,
            (Token::At, Token::At) => true,
            (Token::Bang, Token::Bang) => true,
            (Token::Dollar, Token::Dollar) => true,
            (Token::Eq, Token::Eq) => true,
            (Token::Plus, Token::Plus) => true,
            (Token::Minus, Token::Minus) => true,
            (Token::StarStar, Token::StarStar) => true,
            (Token::Star, Token::Star) => true,
            (Token::Slash, Token::Slash) => true,
            (Token::Mod, Token::Mod) => true,
            (Token::QMark, Token::QMark) => true,
            (Token::LParen, Token::LParen) => true,
            (Token::RParen, Token::RParen) => true,
            (Token::LBracket, Token::LBracket) => true,
            (Token::RBracket, Token::RBracket) => true,
            (Token::LBrace, Token::LBrace) => true,
            (Token::RBrace, Token::RBrace) => true,
            (Token::Comma, Token::Comma) => true,
            (Token::Dot, Token::Dot) => true,
            (Token::FatArrow, Token::FatArrow) => true,
            (Token::Whitespace, Token::Whitespace) => true,
            (Token::Newline, Token::Newline) => true,
            _ => false,
        }
    }

    /// Whether the token is one of `tokens`.
    pub fn is_one_of(&self, tokens: &[Token]) -> (r: bool)
        ensures
            r == exists|i: int| 0 <= i < tokens@.len() && tokens@[i]@ == self@,
            r == token_models(tokens@).contains(self@),
    {
        proof {
            let ms = token_models(tokens@);
            if ms.contains(self@) {
                let i = choose|i: int| 0 <= i < ms.len() && ms[i] == self@;
                assert(tokens@[i]@ == self@);
            }
            if exists|i: int| 0 <= i < tokens@.len() && tokens@[i]@ == self@ {
                let i = choose|i: int| 0 <= i < tokens@.len() && tokens@[i]@ == self@;
                assert(ms[i] == self@);
            }
        }
        let mut i: usize = 0;
        while i < tokens.len()
            invariant
                i <= tokens@.len(),
                forall|k: int| 0 <= k < i ==> tokens@[k]@ != self@,
            decreases tokens@.len() - i,
        {
            if tokens[i].is(self) {
                assert(token_models(tokens@)[i as int] == self@);
                return true;
            }
            i = i + 1;
        }
        false
    }
}

} // verus!
