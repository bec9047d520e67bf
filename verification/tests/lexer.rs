use lambda_cicle::parser::lexer::{LexError, Lexer, Token};

fn lex(src: &str) -> Result<Vec<Token>, LexError> {
    let mut lexer = Lexer::new(src);
    lexer.tokenize()
}

#[test]
fn lexes_let_expression() {
    let toks = lex("let x = 42 in x").unwrap();
    assert_eq!(toks.len(), 7);
    assert!(matches!(toks[0], Token::KwLet(1, 4)));
    assert!(matches!(&toks[1], Token::Ident(s, 1, 6) if s == "x"));
    assert!(matches!(toks[2], Token::Equals(1, 8)));
    assert!(matches!(toks[3], Token::IntLit(42, 1, 9)));
    assert!(matches!(toks[4], Token::KwIn(1, 14)));
    assert!(matches!(&toks[5], Token::Ident(s, 1, 16) if s == "x"));
    assert!(matches!(toks[6], Token::EOF(1, 16)));
}

#[test]
fn lexes_empty_input() {
    let toks = lex("").unwrap();
    assert_eq!(toks.len(), 1);
    assert!(matches!(toks[0], Token::EOF(1, 1)));
}

#[test]
fn lexes_punctuation_and_arrows() {
    let toks = lex("( ) { } : , . .. | = => -> _ & ω").unwrap();
    assert!(matches!(toks[0], Token::LParen(..)));
    assert!(matches!(toks[1], Token::RParen(..)));
    assert!(matches!(toks[2], Token::LBrace(..)));
    assert!(matches!(toks[3], Token::RBrace(..)));
    assert!(matches!(toks[4], Token::Colon(..)));
    assert!(matches!(toks[5], Token::Comma(..)));
    assert!(matches!(toks[6], Token::Dot(..)));
    assert!(matches!(toks[7], Token::DotDot(..)));
    assert!(matches!(toks[8], Token::Pipe(..)));
    assert!(matches!(toks[9], Token::Equals(..)));
    assert!(matches!(toks[10], Token::FatArrow(..)));
    assert!(matches!(toks[11], Token::Arrow(..)));
    assert!(matches!(toks[12], Token::Underscore(..)));
    assert!(matches!(toks[13], Token::MultiplicityBorrow(..)));
    assert!(matches!(toks[14], Token::MultiplicityOmega(..)));
    assert!(matches!(toks[15], Token::EOF(..)));
}

#[test]
fn lexes_keywords_and_types() {
    let toks = lex("match view with forall Unit lambda pub use type trait impl no_prelude where val as Int Float Char omega").unwrap();
    assert!(matches!(toks[0], Token::KwMatch(..)));
    assert!(matches!(toks[1], Token::KwView(..)));
    assert!(matches!(toks[2], Token::KwWith(..)));
    assert!(matches!(toks[3], Token::KwForall(..)));
    assert!(matches!(toks[4], Token::KwUnit(..)));
    assert!(matches!(toks[5], Token::KwLambda(..)));
    assert!(matches!(toks[6], Token::KwPub(..)));
    assert!(matches!(toks[7], Token::KwUse(..)));
    assert!(matches!(toks[8], Token::KwType(..)));
    assert!(matches!(toks[9], Token::KwTrait(..)));
    assert!(matches!(toks[10], Token::KwImpl(..)));
    assert!(matches!(toks[11], Token::KwNoPrelude(..)));
    assert!(matches!(toks[12], Token::KwWhere(..)));
    assert!(matches!(toks[13], Token::KwVal(..)));
    assert!(matches!(toks[14], Token::KwAs(..)));
    assert!(matches!(toks[15], Token::TyInt(..)));
    assert!(matches!(toks[16], Token::TyFloat(..)));
    assert!(matches!(toks[17], Token::TyChar(..)));
    assert!(matches!(toks[18], Token::MultiplicityOmega(..)));
}

#[test]
fn lexes_lambda_forms() {
    let toks = lex("λ \\ lambda").unwrap();
    assert!(matches!(toks[0], Token::KwLambda(..)));
    assert!(matches!(toks[1], Token::KwLambda(..)));
    assert!(matches!(toks[2], Token::KwLambda(..)));
}

#[test]
fn lexes_underscore_identifier() {
    let toks = lex("_foo _").unwrap();
    assert!(matches!(&toks[0], Token::Ident(s, _, _) if s == "_foo"));
    assert!(matches!(toks[1], Token::Underscore(..)));
}

#[test]
fn lexes_numbers() {
    let toks = lex("0 123 3.25").unwrap();
    assert!(matches!(toks[0], Token::IntLit(0, 1, 1)));
    assert!(matches!(toks[1], Token::IntLit(123, 1, 3)));
    assert!(matches!(&toks[2], Token::FloatLit(s, 1, 7) if s == "3.25"));
}

#[test]
fn lexes_largest_int() {
    let toks = lex("9223372036854775807").unwrap();
    assert!(matches!(toks[0], Token::IntLit(i64::MAX, 1, 1)));
}

#[test]
fn rejects_int_overflow() {
    match lex("9223372036854775808") {
        Err(LexError::InvalidNumber(s)) => assert_eq!(s, "9223372036854775808"),
        other => panic!("unexpected {:?}", other),
    }
}

#[test]
fn rejects_second_dot() {
    match lex("1.2.3") {
        Err(LexError::UnexpectedChar('.', 1, 4)) => {}
        other => panic!("unexpected {:?}", other),
    }
}

#[test]
fn lexes_strings_with_escapes() {
    let toks = lex("\"a\\nb\\t\\\\\\\"c\\q\"").unwrap();
    assert!(matches!(&toks[0], Token::StringLit(s, _, _) if s == "a\nb\t\\\"c\\q"));
}

#[test]
fn rejects_unterminated_string() {
    assert!(matches!(lex("\"abc"), Err(LexError::UnexpectedChar('"', _, _))));
}

#[test]
fn skips_comments_and_tracks_lines() {
    let toks = lex("-- a comment\n  x").unwrap();
    assert!(matches!(&toks[0], Token::Ident(s, 2, 4) if s == "x"));
}

#[test]
fn rejects_lone_minus() {
    match lex("a - b") {
        Err(LexError::UnexpectedChar('-', 1, 4)) => {}
        other => panic!("unexpected {:?}", other),
    }
}

#[test]
fn rejects_unknown_char() {
    match lex("x # y") {
        Err(e) => assert_eq!(e.message(), "Unexpected character '#' at line 1, column 3"),
        Ok(_) => panic!("expected an error"),
    }
}

#[test]
fn token_positions() {
    let toks = lex("let").unwrap();
    assert_eq!(toks[0].position(), Some((1, 4)));
}

#[test]
fn tokens_compare_by_variant() {
    assert!(Token::KwLet(1, 1) == Token::KwLet(3, 7));
    assert!(Token::Ident("a".to_string(), 1, 1) == Token::Ident("b".to_string(), 2, 2));
    assert!(Token::KwLet(1, 1) != Token::KwIn(1, 1));
    assert!(Token::IntLit(1, 1, 1) != Token::FloatLit("1.0".to_string(), 1, 1));
}

#[test]
fn tokenize_ends_with_eof() {
    let toks = lex("a b c").unwrap();
    assert!(matches!(toks.last(), Some(Token::EOF(1, 6))));
}

#[test]
fn unicode_spaces_separate_tokens() {
    let toks = lex("a\u{3000}b\u{a0}c").unwrap();
    assert_eq!(toks.len(), 4);
    assert!(matches!(&toks[0], Token::Ident(s, _, _) if s == "a"));
    assert!(matches!(&toks[1], Token::Ident(s, _, _) if s == "b"));
    assert!(matches!(&toks[2], Token::Ident(s, _, _) if s == "c"));
}
