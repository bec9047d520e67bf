use lambda_cicle::ast::patterns::Pattern;
use lambda_cicle::ast::terms::{Arm, Literal, Term};
use lambda_cicle::ast::types::{Multiplicity, NativeKind, TraitName, Type, TypeName};
use lambda_cicle::runtime::primitives::PrimOp;
use lambda_cicle::typecheck::context::{ConstructorInfo, TypeContext};
use lambda_cicle::typecheck::errors::TypeError;
use lambda_cicle::typecheck::positivity::check_strict_positivity;
use lambda_cicle::typecheck::rules::{type_check, type_check_with_borrow_check};

fn int_lit(n: i64) -> Term {
    Term::literal(Literal::Int(n))
}

#[test]
fn literal_types() {
    assert_eq!(type_check_with_borrow_check(&int_lit(3)).unwrap(), Type::int_type());
    assert_eq!(type_check_with_borrow_check(&Term::literal(Literal::Bool(true))).unwrap(), Type::bool());
    assert_eq!(type_check_with_borrow_check(&Term::literal(Literal::Unit)).unwrap(), Type::unit());
}

#[test]
fn identity_function_has_arrow_type() {
    let id = Term::abs("x", Multiplicity::One, Type::int_type(), Term::var("x"));
    let ty = type_check_with_borrow_check(&id).unwrap();
    assert_eq!(ty, Type::arrow(Type::int_type(), Multiplicity::One, Type::int_type()));
    assert_eq!(ty.to_text(), "(Int →^1 Int)");
}

#[test]
fn application_checks_the_argument_type() {
    let id = Term::abs("x", Multiplicity::One, Type::int_type(), Term::var("x"));
    let ok = Term::app(id.clone(), int_lit(1));
    assert_eq!(type_check_with_borrow_check(&ok).unwrap(), Type::int_type());
    let bad = Term::app(id, Term::literal(Literal::Bool(false)));
    match type_check_with_borrow_check(&bad) {
        Err(TypeError::TypeMismatch { expected, found }) => {
            assert_eq!(expected, Type::int_type());
            assert_eq!(found, Type::bool());
        }
        other => panic!("unexpected {:?}", other),
    }
}

#[test]
fn applying_a_non_function_is_rejected() {
    let bad = Term::app(int_lit(1), int_lit(2));
    match type_check_with_borrow_check(&bad) {
        Err(TypeError::InvalidApplication(msg)) => assert_eq!(msg, "Expected function type, found Int"),
        other => panic!("unexpected {:?}", other),
    }
}

#[test]
fn unknown_variables() {
    match type_check_with_borrow_check(&Term::var("zzz")) {
        Err(e) => {
            assert!(matches!(e, TypeError::UnknownVariable(ref n) if n == "zzz"));
            assert_eq!(e.message(), "Unknown variable: zzz");
        }
        other => panic!("unexpected {:?}", other),
    }
    match type_check_with_borrow_check(&Term::var("myAdd")) {
        Err(TypeError::UnknownVariable(msg)) => assert_eq!(
            msg,
            "'myAdd' - trait method not found. Make sure the type has an implementation of the required trait."
        ),
        other => panic!("unexpected {:?}", other),
    }
}

#[test]
fn primitives_are_in_scope() {
    let call = Term::PrimCall { prim_name: "prim_iadd".to_string(), args: vec![int_lit(1), int_lit(2)] };
    assert_eq!(type_check_with_borrow_check(&call).unwrap(), Type::int_type());
    let partial = Term::PrimCall { prim_name: "prim_iadd".to_string(), args: vec![int_lit(1)] };
    assert_eq!(
        type_check_with_borrow_check(&partial).unwrap(),
        Type::arrow(Type::int_type(), Multiplicity::One, Type::int_type())
    );
    let too_many = Term::PrimCall { prim_name: "prim_ineg".to_string(), args: vec![int_lit(1), int_lit(2)] };
    match type_check_with_borrow_check(&too_many) {
        Err(TypeError::InvalidApplication(msg)) => assert_eq!(msg, "Primitive prim_ineg expects more arguments"),
        other => panic!("unexpected {:?}", other),
    }
    let unknown = Term::PrimCall { prim_name: "prim_nope".to_string(), args: vec![] };
    assert!(matches!(type_check_with_borrow_check(&unknown), Err(TypeError::UnknownVariable(_))));
}

#[test]
fn let_with_borrow_multiplicity_is_rejected() {
    let t = Term::let_in("x", Multiplicity::Borrow, Type::int_type(), int_lit(1), Term::var("x"));
    match type_check_with_borrow_check(&t) {
        Err(TypeError::MultiplicityMismatch { expected, found }) => {
            assert_eq!(expected, Multiplicity::One);
            assert_eq!(found, Multiplicity::Borrow);
        }
        other => panic!("unexpected {:?}", other),
    }
    let ok = Term::let_in("x", Multiplicity::One, Type::int_type(), int_lit(1), Term::var("x"));
    assert_eq!(type_check_with_borrow_check(&ok).unwrap(), Type::int_type());
}

#[test]
fn match_arms_must_agree() {
    let arms = vec![Arm::new(Pattern::var("x"), int_lit(1)), Arm::new(Pattern::wildcard(), int_lit(2))];
    let m = Term::match_on(int_lit(0), arms);
    assert_eq!(type_check_with_borrow_check(&m).unwrap(), Type::int_type());
    let arms = vec![Arm::new(Pattern::wildcard(), int_lit(1)), Arm::new(Pattern::wildcard(), Term::literal(Literal::Unit))];
    let m = Term::match_on(int_lit(0), arms);
    assert!(matches!(type_check_with_borrow_check(&m), Err(TypeError::TypeMismatch { .. })));
    let empty = Term::match_on(int_lit(0), vec![]);
    assert!(matches!(type_check_with_borrow_check(&empty), Err(TypeError::NonExhaustivePattern)));
}

#[test]
fn view_cannot_borrow_from_constructors() {
    let arms = vec![Arm::new(Pattern::constructor("Some", vec![Pattern::var("x")]), int_lit(1))];
    let v = Term::view_on(int_lit(0), arms);
    match type_check_with_borrow_check(&v) {
        Err(TypeError::InvalidApplication(msg)) => assert_eq!(msg, "Cannot borrow from constructor pattern"),
        other => panic!("unexpected {:?}", other),
    }
}

#[test]
fn constructors_check_their_fields() {
    let ctx = TypeContext::new().register_constructor(
        "Box".to_string(),
        ConstructorInfo {
            ty_name: "Boxed".to_string(),
            field_types: vec![Type::int_type()],
            result_type: Type::inductive("Boxed", vec![]),
        },
    );
    let ok = Term::constructor("Box", vec![int_lit(4)]);
    let (ty, _, term) = type_check(&ok, &ctx).unwrap();
    assert_eq!(ty, Type::inductive("Boxed", vec![]));
    assert_eq!(term, ok);
    let wrong_arity = Term::constructor("Box", vec![]);
    match type_check(&wrong_arity, &ctx) {
        Err(TypeError::InvalidApplication(msg)) => assert_eq!(msg, "Constructor Box expects 1 arguments, got 0"),
        other => panic!("unexpected {:?}", other.map(|r| r.0)),
    }
    let unknown = Term::constructor("Nope", vec![]);
    match type_check(&unknown, &ctx) {
        Err(TypeError::InvalidApplication(msg)) => assert_eq!(msg, "Unknown constructor: Nope"),
        other => panic!("unexpected {:?}", other.map(|r| r.0)),
    }
}

#[test]
fn trait_methods_are_not_found() {
    let t = Term::trait_method(
        TraitName::new("Show"),
        lambda_cicle::ast::types::MethodName::new("show"),
        int_lit(1),
    );
    match type_check_with_borrow_check(&t) {
        Err(TypeError::TraitNotFound(name, ty)) => {
            assert_eq!(name, TraitName::new("Show"));
            assert_eq!(ty, Type::int_type());
        }
        other => panic!("unexpected {:?}", other),
    }
}

#[test]
fn prim_literals_have_function_types() {
    assert_eq!(
        Literal::Prim(PrimOp::IAdd).ty(),
        Type::arrow(Type::int_type(), Multiplicity::One, Type::arrow(Type::int_type(), Multiplicity::One, Type::int_type()))
    );
    assert_eq!(Literal::Prim(PrimOp::INeg).ty().to_text(), "(Int →^1 Int)");
}

#[test]
fn strict_positivity() {
    let list = Type::inductive("List", vec![Type::Var("a".to_string())]);
    assert!(check_strict_positivity(&list).is_ok());
    let bad = Type::inductive("Bad", vec![Type::inductive("Wrap", vec![Type::inductive("Bad", vec![])])]);
    match check_strict_positivity(&bad) {
        Err(TypeError::StrictPositivityViolation(name)) => assert_eq!(name, TypeName::new("Wrap")),
        other => panic!("unexpected {:?}", other),
    }
    let neg = Type::inductive("Neg", vec![Type::arrow(Type::inductive("Neg", vec![]), Multiplicity::One, Type::unit())]);
    assert!(check_strict_positivity(&neg).is_ok());
}

#[test]
fn type_texts() {
    let t = Type::app(Type::Var("F".to_string()), vec![Type::int_type(), Type::bool()]);
    assert_eq!(t.to_text(), "F<Int, Bool>");
    let p = Type::product(Type::char(), Type::sum(Type::unit(), Type::float()));
    assert_eq!(p.to_text(), "(Char, Unit + Float)");
    let f = Type::for_all("a", Type::borrow(Type::Var("a".to_string())));
    assert_eq!(f.to_text(), "∀a. &a");
    assert_eq!(Type::inductive("Pair", vec![Type::int_type(), Type::int_type()]).to_text(), "Pair Int Int");
    assert_eq!(NativeKind::Char.to_text(), "Char");
}

#[test]
fn context_of_a_new_checker_binds_primitives() {
    let ctx = TypeContext::new();
    assert_eq!(ctx.len(), 25);
    assert!(ctx.contains("prim_iadd"));
    assert_eq!(ctx.get("prim_chash").unwrap().0, Multiplicity::Omega);
    let weakened = ctx.weaken("w".to_string(), Type::unit());
    assert_eq!(weakened.get("w").unwrap().0, Multiplicity::Zero);
}
