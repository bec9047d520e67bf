use lambda_cicle::ast::patterns::Pattern;
use lambda_cicle::ast::terms::{Arm, Decl, Literal, MethodDef, MethodSig, Term, UseMode, Visibility};
use lambda_cicle::ast::types::{MethodName, Multiplicity, TraitName, Type};
use lambda_cicle::parser::grammar::Parser;
use lambda_cicle::parser::lexer::Lexer;
use lambda_cicle::parser::{parse, ParseError};

fn lit_int(n: i64) -> Term {
    Term::literal(Literal::Int(n))
}

fn program(src: &str) -> Vec<Decl> {
    let tokens = Lexer::new(src).tokenize().unwrap();
    let mut parser = Parser::new(&tokens);
    parser.parse_program().unwrap()
}

#[test]
fn parses_let_with_annotation() {
    let t = parse("let x : Int = 5 in x").unwrap();
    assert_eq!(t, Term::let_in("x", Multiplicity::One, Type::int_type(), lit_int(5), Term::var("x")));
}

#[test]
fn parses_lambda_with_multiplicity() {
    let t = parse("\\x : ω : Int . x").unwrap();
    assert_eq!(t, Term::abs("x", Multiplicity::Omega, Type::int_type(), Term::var("x")));
    let t = parse("λy : 0 : Int . y").unwrap();
    assert_eq!(t, Term::abs("y", Multiplicity::Zero, Type::int_type(), Term::var("y")));
    let t = parse("λy . y").unwrap();
    assert_eq!(t, Term::abs("y", Multiplicity::One, Type::unit(), Term::var("y")));
}

#[test]
fn parses_application_left_to_right() {
    let t = parse("f x 3").unwrap();
    assert_eq!(t, Term::app(Term::app(Term::var("f"), Term::var("x")), lit_int(3)));
}

#[test]
fn parses_constructors_and_literals() {
    assert_eq!(parse("Nil").unwrap(), Term::Constructor("Nil".to_string(), vec![]));
    assert_eq!(parse("Unit").unwrap(), Term::literal(Literal::Unit));
    // The lexer reads `()` as two parentheses, around nothing.
    assert!(parse("()").is_err());
    assert_eq!(parse("\"hi\"").unwrap(), Term::literal(Literal::Str("hi".to_string())));
    assert_eq!(parse("2.5").unwrap(), Term::literal(Literal::Float("2.5".to_string())));
}

#[test]
fn parses_match_arms() {
    let t = parse("match xs with { Nil => 0 | Cons h t => h }").unwrap();
    let arms = vec![
        Arm::new(Pattern::Constructor("Nil".to_string(), vec![]), lit_int(0)),
        Arm::new(
            Pattern::Constructor("Cons".to_string(), vec![Pattern::Var("h".to_string()), Pattern::Var("t".to_string())]),
            Term::var("h"),
        ),
    ];
    assert_eq!(t, Term::match_on(Term::var("xs"), arms));
}

#[test]
fn parses_types() {
    let t = parse("λf : (Int -> Int) . f").unwrap();
    let arrow = Type::arrow(Type::int_type(), Multiplicity::One, Type::int_type());
    assert_eq!(t, Term::abs("f", Multiplicity::One, arrow, Term::var("f")));
    let t = parse("λp : (Int, Char) . p").unwrap();
    assert_eq!(t, Term::abs("p", Multiplicity::One, Type::product(Type::int_type(), Type::char()), Term::var("p")));
    let t = parse("λl : List Int . l").unwrap();
    assert_eq!(t, Term::abs("l", Multiplicity::One, Type::inductive("List", vec![Type::int_type()]), Term::var("l")));
}

#[test]
fn reports_syntax_errors() {
    match parse("let") {
        Err(ParseError::SyntaxError(m)) => assert_eq!(m, "Unexpected token: expected variable"),
        other => panic!("unexpected {:?}", other),
    }
    match parse("(x") {
        Err(ParseError::SyntaxError(m)) => assert_eq!(m, "Expected RParen, found EOF"),
        other => panic!("unexpected {:?}", other),
    }
    match parse("x )") {
        Err(ParseError::SyntaxError(m)) => assert_eq!(m, "Expected EOF, found RParen"),
        other => panic!("unexpected {:?}", other),
    }
    match parse("λx : 2 : Int . x") {
        Err(ParseError::SyntaxError(m)) => assert_eq!(m, "Unexpected token: expected multiplicity (0, 1), found 2"),
        other => panic!("unexpected {:?}", other),
    }
}

#[test]
fn reports_lexer_errors() {
    match parse("x # y") {
        Err(ParseError::LexerError(e)) => assert_eq!(e.message(), "Unexpected character '#' at line 1, column 3"),
        other => panic!("unexpected {:?}", other),
    }
}

#[test]
fn parses_type_and_val_decls() {
    let decls = program("type Bool = True | False\nval x : Int = 5");
    assert_eq!(decls.len(), 2);
    let sum = Type::sum(Type::inductive("True", vec![]), Type::sum(Type::inductive("False", vec![]), Type::unit()));
    assert_eq!(
        decls[0],
        Decl::TypeDecl { visibility: Visibility::Private, name: "Bool".to_string(), params: vec![], ty: sum, transparent: false }
    );
    assert_eq!(
        decls[1],
        Decl::ValDecl { visibility: Visibility::Private, name: "x".to_string(), ty: Type::int_type(), term: Box::new(lit_int(5)) }
    );
}

#[test]
fn parses_public_and_abstract_types() {
    let decls = program("pub type Handle (..)");
    assert_eq!(
        decls[0],
        Decl::TypeDecl {
            visibility: Visibility::Public,
            name: "Handle".to_string(),
            params: vec![],
            ty: Type::unit(),
            transparent: true,
        }
    );
}

#[test]
fn parses_trait_and_impl_decls() {
    let decls = program("trait Show a { val show : a -> Int }\nimpl Add for Int with add = prim_iadd");
    assert_eq!(
        decls[0],
        Decl::TraitDecl {
            visibility: Visibility::Private,
            name: "Show".to_string(),
            params: vec!["a".to_string()],
            methods: vec![MethodSig {
                name: MethodName::new("show"),
                ty: Type::arrow(Type::Var("a".to_string()), Multiplicity::One, Type::int_type()),
            }],
        }
    );
    assert_eq!(
        decls[1],
        Decl::ImplDecl {
            ty: Type::int_type(),
            trait_name: TraitName::new("Add"),
            methods: vec![MethodDef { name: MethodName::new("add"), ty: Type::unit(), term: Box::new(Term::var("prim_iadd")) }],
        }
    );
}

#[test]
fn parses_use_decls() {
    let decls = program("use Std.List (map, filter)\nuse Std.Map as M\nuse Std (..)\nno_prelude");
    assert_eq!(
        decls[0],
        Decl::UseDecl {
            path: vec!["Std".to_string(), "List".to_string()],
            mode: UseMode::Selective(vec!["map".to_string(), "filter".to_string()]),
        }
    );
    assert_eq!(decls[1], Decl::UseDecl { path: vec!["Std".to_string(), "Map".to_string()], mode: UseMode::Aliased("M".to_string()) });
    assert_eq!(decls[2], Decl::UseDecl { path: vec!["Std".to_string()], mode: UseMode::Unqualified });
    assert_eq!(decls[3], Decl::NoPrelude);
}

#[test]
fn rejects_uppercase_type_parameter() {
    let tokens = Lexer::new("type T A = A").tokenize().unwrap();
    let mut parser = Parser::new(&tokens);
    match parser.parse_program() {
        Err(e) => assert_eq!(e.message(), "Unexpected token: type parameter must be lowercase, found 'A'"),
        Ok(d) => panic!("unexpected {:?}", d),
    }
}

#[test]
fn bare_term_becomes_main() {
    let decls = program("42");
    assert_eq!(
        decls[0],
        Decl::ValDecl { visibility: Visibility::Private, name: "main".to_string(), ty: Type::int_type(), term: Box::new(lit_int(42)) }
    );
}
