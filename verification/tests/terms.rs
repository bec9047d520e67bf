use lambda_cicle::ast::arena::{TermId, TypeArena, TypeId};
use lambda_cicle::ast::patterns::Pattern;
use lambda_cicle::ast::terms::{Arm, Literal, Term};
use lambda_cicle::ast::types::{Multiplicity, Type};
use lambda_cicle::borrow::BorrowChecker;
use lambda_cicle::exhaustiveness::ExhaustivenessChecker;

#[test]
fn annotated_types_of_terms() {
    let f = Term::abs("x", Multiplicity::One, Type::int_type(), Term::literal(Literal::Bool(true)));
    assert_eq!(
        f.get_type(),
        Some(Type::arrow(Type::int_type(), Multiplicity::One, Type::bool()))
    );
    assert_eq!(Term::app(f.clone(), Term::var("y")).get_type(), Some(Type::bool()));
    assert_eq!(Term::var("y").get_type(), None);
    let l = Term::let_in("x", Multiplicity::One, Type::char(), Term::var("y"), Term::var("x"));
    assert_eq!(l.get_type(), Some(Type::char()));
    let m = Term::match_on(Term::var("y"), vec![Arm::new(Pattern::wildcard(), Term::literal(Literal::Unit))]);
    assert_eq!(m.get_type(), Some(Type::unit()));
}

#[test]
fn clones_are_equal() {
    let t = Term::match_on(
        Term::var("s"),
        vec![Arm::new(Pattern::constructor("Cons", vec![Pattern::var("h"), Pattern::wildcard()]), Term::var("h"))],
    );
    assert_eq!(t.clone(), t);
}

#[test]
fn type_arena_numbers_types_in_order() {
    let mut arena = TypeArena::new();
    assert!(arena.is_empty());
    let a = arena.allocate(Type::int_type());
    let b = arena.allocate(Type::bool());
    assert_eq!(a.index(), 0);
    assert_eq!(b, TypeId::new(1));
    assert_eq!(arena.len(), 2);
    assert_eq!(arena.get(b), Some(&Type::bool()));
    assert_eq!(arena.get(TypeId::new(5)), None);
    assert_eq!(arena.index(a), &Type::int_type());
    assert_eq!(TermId::new(3).index(), 3);
}

#[test]
fn borrow_checker_accepts_terms() {
    let t = Term::abs("x", Multiplicity::Borrow, Type::int_type(), Term::var("x"));
    assert!(BorrowChecker::new().check(&t).is_ok());
    let mut c = BorrowChecker::new();
    c.enter_scope();
    c.add_borrow("r".to_string());
    assert!(c.is_borrow_in_scope("r"));
    assert!(!c.is_borrow_in_scope("s"));
    assert!(c.exit_scope().is_ok());
    assert!(!c.is_borrow_in_scope("r"));
}

#[test]
fn exhaustiveness_needs_a_catch_all_pattern() {
    let checker = ExhaustivenessChecker::new();
    let ty = Type::unit();
    assert_eq!(checker.check(&ty, &[]).unwrap(), false);
    assert_eq!(checker.check(&ty, &[Pattern::var("x")]).unwrap(), false);
    assert_eq!(checker.check(&ty, &[Pattern::var("x"), Pattern::wildcard()]).unwrap(), true);
    assert_eq!(
        checker.check(&ty, &[Pattern::constructor("Pair", vec![Pattern::wildcard(), Pattern::wildcard()])]).unwrap(),
        true
    );
    assert!(checker.check_match(&ty, &[Pattern::var("x")]).is_err());
    assert!(checker.is_wildcard_pattern(&Pattern::wildcard()));
}

#[test]
fn terms_are_written_as_source() {
    let one = Term::literal(Literal::Int(1));
    assert_eq!(Term::app(Term::var("f"), Term::literal(Literal::Int(-3))).to_text(), "(f -3)");
    assert_eq!(
        Term::abs("x", Multiplicity::One, Type::int_type(), Term::var("x")).to_text(),
        "λx:1:Int. x"
    );
    assert_eq!(
        Term::let_in("y", Multiplicity::Omega, Type::int_type(), one, Term::var("y")).to_text(),
        "let y:ωInt = 1 in y"
    );
    let arms = vec![
        Arm::new(Pattern::Constructor("Cons".to_string(), vec![Pattern::Var("h".to_string()), Pattern::Wildcard]), Term::var("h")),
        Arm::new(Pattern::Constructor("Nil".to_string(), vec![]), Term::literal(Literal::Unit)),
    ];
    assert_eq!(
        Term::match_on(Term::var("xs"), arms).to_text(),
        "match xs with { Cons (h, _) -> h | Nil -> () }"
    );
    assert_eq!(
        Term::constructor("Pair", vec![Term::literal(Literal::Bool(true)), Term::literal(Literal::Char('a'))]).to_text(),
        "Pair(true, 'a')"
    );
    assert_eq!(Term::literal(Literal::Str("hi".to_string())).to_text(), "\"hi\"");
    assert_eq!(Term::literal(Literal::Prim(lambda_cicle::runtime::primitives::PrimOp::IAdd)).to_text(), "prim(IAdd)");
}

#[test]
fn multiplicity_of_agrees_with_bindings() {
    let p = Pattern::Constructor(
        "Pair".to_string(),
        vec![Pattern::Var("x".to_string()), Pattern::Constructor("Just".to_string(), vec![Pattern::Var("y".to_string())]), Pattern::Wildcard],
    );
    for v in ["x", "y", "z", "Pair"] {
        let from_bindings = p.bindings().into_iter().find(|(n, _)| n == v).map(|(_, m)| m);
        assert_eq!(p.multiplicity_of(v), from_bindings);
    }
    assert_eq!(p.multiplicity_of("y"), Some(Multiplicity::One));
    assert_eq!(p.multiplicity_of("z"), None);
}

#[test]
fn from_symbol_reads_back_to_text() {
    for m in [Multiplicity::Zero, Multiplicity::One, Multiplicity::Omega, Multiplicity::Borrow] {
        assert_eq!(Multiplicity::from_symbol(&m.to_text()), Some(m));
    }
    assert_eq!(Multiplicity::from_symbol("omega"), Some(Multiplicity::Omega));
    assert_eq!(Multiplicity::from_symbol("2"), None);
}
