use lambda_cicle::ast::terms::{Decl, Literal, MethodDef, MethodSig, Term, Visibility};
use lambda_cicle::ast::types::{MethodName, Multiplicity, TraitName, Type};
use lambda_cicle::desugar::desugar_term;
use lambda_cicle::traits::registry::{build_registry_from_decls, Implementation, Registry};
use lambda_cicle::traits::TraitError;

fn int_binop() -> Type {
    Type::arrow(Type::int_type(), Multiplicity::One, Type::arrow(Type::int_type(), Multiplicity::One, Type::int_type()))
}

fn add_registry() -> Registry {
    let mut registry = Registry::new();
    let imp = Implementation::new(TraitName::new("Add"), Type::int_type())
        .add_method(MethodName::new("add"), Term::var("prim_iadd"))
        .with_method_type(MethodName::new("add"), int_binop());
    registry.insert(imp).unwrap();
    registry
}

fn lit_int(n: i64) -> Term {
    Term::literal(Literal::Int(n))
}

#[test]
fn registry_refuses_second_impl() {
    let mut registry = add_registry();
    let again = Implementation::new(TraitName::new("Add"), Type::int_type());
    match registry.insert(again) {
        Err(TraitError::DuplicateImpl(t, ty)) => {
            assert_eq!(t.0, "Add");
            assert_eq!(ty, Type::int_type());
        }
        other => panic!("unexpected {:?}", other),
    }
    assert_eq!(registry.all_impls().len(), 1);
    let other = Implementation::new(TraitName::new("Add"), Type::float());
    assert!(registry.insert(other).is_ok());
    assert_eq!(registry.all_impls().len(), 2);
    assert_eq!(registry.iter().len(), 2);
}

#[test]
fn registry_get_and_methods() {
    let registry = add_registry();
    let imp = registry.get(&TraitName::new("Add"), &Type::int_type()).unwrap();
    assert_eq!(imp.get_method(&MethodName::new("add")), Some(&Term::var("prim_iadd")));
    assert_eq!(imp.get_method_type(&MethodName::new("add")), Some(&int_binop()));
    assert!(imp.get_method(&MethodName::new("sub")).is_none());
    assert!(registry.get(&TraitName::new("Add"), &Type::float()).is_none());
    assert!(registry.get(&TraitName::new("Mul"), &Type::int_type()).is_none());
}

#[test]
fn registry_declares_traits() {
    let mut registry = Registry::new();
    registry.declare_trait(TraitName::new("Ord"), vec![TraitName::new("Eq")]).unwrap();
    let sups = registry.get_trait_declaration(&TraitName::new("Ord")).unwrap();
    assert_eq!(sups.len(), 1);
    assert_eq!(sups[0].0, "Eq");
    assert!(registry.get_trait_declaration(&TraitName::new("Eq")).is_none());
}

#[test]
fn find_method_matches_argument_types() {
    let registry = add_registry();
    let found = registry.find_method_by_name("add", &[Type::int_type(), Type::int_type()]);
    let (t, ty, m) = found.unwrap();
    assert_eq!(t.0, "Add");
    assert_eq!(ty, Type::int_type());
    assert_eq!(m, Term::var("prim_iadd"));
    assert!(registry.find_method_by_name("add", &[Type::float(), Type::float()]).is_none());
    assert!(registry.find_method_by_name("sub", &[Type::int_type()]).is_none());
    assert!(registry.find_method_by_name("add", &[Type::int_type(), Type::int_type(), Type::int_type()]).is_none());
}

#[test]
fn find_method_binds_type_variables() {
    let mut registry = Registry::new();
    let a = Type::Var("a".to_string());
    let eq_ty = Type::arrow(a.clone(), Multiplicity::One, Type::arrow(a.clone(), Multiplicity::One, Type::bool()));
    let imp = Implementation::new(TraitName::new("Eq"), a.clone())
        .add_method(MethodName::new("eq"), Term::var("generic_eq"))
        .with_method_type(MethodName::new("eq"), eq_ty);
    registry.insert(imp).unwrap();
    // `a` is bound to `Int`, so the implementation's type resolves.
    let (t, ty, m) = registry.find_method_by_name("eq", &[Type::int_type(), Type::int_type()]).unwrap();
    assert_eq!(t.0, "Eq");
    assert_eq!(ty, a);
    assert_eq!(m, Term::var("generic_eq"));
    // Two different types for the same variable do not match.
    assert!(registry.find_method_by_name("eq", &[Type::int_type(), Type::float()]).is_none());
}

#[test]
fn find_method_refuses_unbound_impl_type() {
    let mut registry = Registry::new();
    let b = Type::Var("b".to_string());
    let show_ty = Type::arrow(b.clone(), Multiplicity::One, Type::int_type());
    let imp = Implementation::new(TraitName::new("Show"), Type::Var("a".to_string()))
        .add_method(MethodName::new("show"), Term::var("show_any"))
        .with_method_type(MethodName::new("show"), show_ty);
    registry.insert(imp).unwrap();
    // The implementation's own type stays a bare variable: refused.
    assert!(registry.find_method_by_name("show", &[Type::int_type()]).is_none());
}

#[test]
fn build_registry_reads_impls_and_traits() {
    let decls = vec![
        Decl::TraitDecl {
            visibility: Visibility::Public,
            name: "Add".to_string(),
            params: vec!["a".to_string()],
            methods: vec![MethodSig { name: MethodName::new("add"), ty: int_binop() }],
        },
        Decl::ImplDecl {
            ty: Type::int_type(),
            trait_name: TraitName::new("Add"),
            methods: vec![MethodDef {
                name: MethodName::new("add"),
                ty: Type::unit(),
                term: Box::new(Term::var("prim_iadd")),
            }],
        },
        Decl::ImplDecl { ty: Type::int_type(), trait_name: TraitName::new("Add"), methods: vec![] },
    ];
    let registry = build_registry_from_decls(&decls);
    assert!(registry.get_trait_declaration(&TraitName::new("Add")).unwrap().is_empty());
    assert_eq!(registry.all_impls().len(), 1);
    let imp = registry.get(&TraitName::new("Add"), &Type::int_type()).unwrap();
    assert_eq!(imp.get_method_type(&MethodName::new("add")), Some(&int_binop()));
}

#[test]
fn desugar_full_application_to_prim_call() {
    let registry = add_registry();
    let term = Term::app(Term::app(Term::var("add"), lit_int(3)), lit_int(5));
    let out = desugar_term(&term, &registry);
    assert_eq!(out, Term::PrimCall { prim_name: "prim_iadd".to_string(), args: vec![lit_int(3), lit_int(5)] });
}

#[test]
fn desugar_partial_application_waits_for_argument() {
    let registry = add_registry();
    let term = Term::app(Term::var("add"), lit_int(3));
    let out = desugar_term(&term, &registry);
    let expected = Term::abs(
        "_arg0",
        Multiplicity::One,
        Type::int_type(),
        Term::PrimCall { prim_name: "prim_iadd".to_string(), args: vec![lit_int(3), Term::var("_arg0")] },
    );
    assert_eq!(out, expected);
}

#[test]
fn desugar_trait_method_to_prim_call() {
    let registry = add_registry();
    let term = Term::trait_method(TraitName::new("Add"), MethodName::new("add"), lit_int(4));
    let out = desugar_term(&term, &registry);
    assert_eq!(out, Term::PrimCall { prim_name: "prim_iadd".to_string(), args: vec![lit_int(4)] });
}

#[test]
fn desugar_leaves_unknown_calls() {
    let registry = add_registry();
    let term = Term::app(Term::app(Term::var("mul"), lit_int(3)), lit_int(5));
    assert_eq!(desugar_term(&term, &registry), term);
    let float_term = Term::app(Term::app(Term::var("add"), Term::literal(Literal::Float("0.0".to_string()))), lit_int(5));
    assert_eq!(desugar_term(&float_term, &registry), float_term);
}

#[test]
fn desugar_applies_term_impls_in_reverse() {
    let mut registry = Registry::new();
    let imp = Implementation::new(TraitName::new("Sub"), Type::int_type())
        .add_method(MethodName::new("sub"), Term::var("int_sub"))
        .with_method_type(MethodName::new("sub"), int_binop());
    registry.insert(imp).unwrap();
    let term = Term::app(Term::app(Term::var("sub"), lit_int(7)), lit_int(2));
    let out = desugar_term(&term, &registry);
    assert_eq!(out, Term::app(Term::app(Term::var("int_sub"), lit_int(2)), lit_int(7)));
}
