use lib::lexer::tokenize;
use lib::parser::Parser;
use lib::tokens::Token;

#[test]
fn tokens_and_ranges() {
    let lexemes = tokenize(b"let_x = 42_0 + y1").unwrap();
    assert_eq!(lexemes.len(), 5);
    assert!(matches!(&lexemes[0].token, Some(Token::Ident(s)) if s == "let_x"));
    assert_eq!((lexemes[0].start, lexemes[0].end), (0, 5));
    assert!(matches!(lexemes[1].token, Some(Token::Eq)));
    assert!(matches!(lexemes[2].token, Some(Token::Int(420))));
    assert_eq!((lexemes[2].start, lexemes[2].end), (8, 12));
    assert!(matches!(lexemes[3].token, Some(Token::Plus)));
    assert!(matches!(&lexemes[4].token, Some(Token::Ident(s)) if s == "y1"));
}

#[test]
fn longest_operator_wins() {
    let lexemes = tokenize(b"a**b<=c=>d").unwrap();
    let kinds: Vec<bool> = vec![
        matches!(lexemes[1].token, Some(Token::StarStar)),
        matches!(lexemes[3].token, Some(Token::Le)),
        matches!(lexemes[5].token, Some(Token::FatArrow)),
    ];
    assert_eq!(kinds, vec![true, true, true]);
    assert_eq!(lexemes.len(), 7);
}

#[test]
fn keywords_and_booleans() {
    let lexemes = tokenize(b"if iffy true for").unwrap();
    assert!(matches!(lexemes[0].token, Some(Token::If)));
    assert!(matches!(&lexemes[1].token, Some(Token::Ident(s)) if s == "iffy"));
    assert!(matches!(lexemes[2].token, Some(Token::Bool(true))));
    assert!(matches!(lexemes[3].token, Some(Token::For)));
}

#[test]
fn newlines_and_comments() {
    let lexemes = tokenize(b"a // note\n\n b").unwrap();
    assert_eq!(lexemes.len(), 4);
    assert!(matches!(&lexemes[1].token, Some(Token::LineComment(s)) if s == "// note"));
    assert!(matches!(lexemes[2].token, Some(Token::Newline)));
    assert_eq!((lexemes[2].start, lexemes[2].end), (9, 11));
}

#[test]
fn string_escapes_and_utf8() {
    let lexemes = tokenize("\"a\\n\\tb\" \"h\u{e9}llo\"".as_bytes()).unwrap();
    assert!(matches!(&lexemes[0].token, Some(Token::String(s)) if s == "a\n\tb"));
    assert!(matches!(&lexemes[1].token, Some(Token::String(s)) if s == "h\u{e9}llo"));
}

#[test]
fn invalid_utf8_string_is_a_lexical_error() {
    let lexemes = tokenize(b"\"\xff\" x").unwrap();
    assert_eq!(lexemes.len(), 2);
    assert!(lexemes[0].token.is_none());
    assert_eq!((lexemes[0].start, lexemes[0].end), (0, 3));
}

#[test]
fn unknown_character_is_a_lexical_error() {
    let lexemes = tokenize(b"a # b").unwrap();
    assert_eq!(lexemes.len(), 3);
    assert!(lexemes[1].token.is_none());
}

#[test]
fn floats_keep_their_text() {
    let lexemes = tokenize(b"3.14 .5 7.").unwrap();
    assert!(matches!(&lexemes[0].token, Some(Token::Float(f)) if f.src == "3.14"));
    assert!(matches!(&lexemes[1].token, Some(Token::Float(f)) if f.src == ".5"));
    assert!(matches!(&lexemes[2].token, Some(Token::Float(f)) if f.src == "7."));
}

#[test]
fn integer_too_large_is_refused() {
    assert!(tokenize(b"9223372036854775807").is_some());
    assert!(tokenize(b"9223372036854775808").is_none());
    assert!(Parser::accepts("x + 9223372036854775807"));
    assert!(!Parser::accepts("x + 9223372036854775808"));
}

#[test]
fn float_index_too_large_is_refused() {
    assert!(Parser::accepts("t.0.1"));
    assert!(!Parser::accepts("t .099999999999999999999"));
    assert!(Parser::accepts("t .99999999999999999999"));
}

#[test]
fn every_byte_is_a_blank_or_in_a_lexeme() {
    let src = b"(a, b)\t=> {a}";
    let lexemes = tokenize(src).unwrap();
    for i in 0..src.len() {
        let blank = src[i] == b' ' || src[i] == b'\t';
        let covered = lexemes.iter().any(|l| l.start <= i && i < l.end);
        assert!(blank || covered);
    }
    for w in lexemes.windows(2) {
        assert!(w[0].end <= w[1].start);
    }
}

#[test]
fn token_texts() {
    assert_eq!(Token::LBrace.to_string(), "{");
    assert_eq!(Token::StarStar.to_string(), "**");
    assert_eq!(Token::Plus.precedence(), 5);
    assert_eq!(Token::StarStar.precedence(), 7);
    assert_eq!(Token::Comma.precedence(), 0);
}

#[test]
fn token_text_lexes_back_to_the_token() {
    let tokens = vec![
        Token::Continue,
        Token::Bool(false),
        Token::StarStar,
        Token::FatArrow,
        Token::TagClose,
        Token::Slash,
        Token::Dot,
        Token::Newline,
        Token::Int(42),
        Token::Int(0),
    ];
    for t in tokens {
        let text = t.to_string();
        let lexemes = tokenize(text.as_bytes()).unwrap();
        assert_eq!(lexemes.len(), 1, "{}", text);
        assert_eq!((lexemes[0].start, lexemes[0].end), (0, text.len()));
        assert_eq!(lexemes[0].token.as_ref().map(|x| x.to_string()), Some(text.clone()));
        assert_eq!(
            std::mem::discriminant(lexemes[0].token.as_ref().unwrap()),
            std::mem::discriminant(&t)
        );
    }
}
