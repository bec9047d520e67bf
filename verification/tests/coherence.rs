use lambda_cicle::ast::terms::{Literal, Term};
use lambda_cicle::ast::types::{MethodName, TraitName, Type};
use lambda_cicle::traits::coherence::check_coherence;
use lambda_cicle::traits::registry::{Implementation, Registry};
use lambda_cicle::traits::coherence::{check_orphan_rule, DefiningModules};
use lambda_cicle::traits::TraitError;

#[test]
fn test_orphan_impl_in_trait_module_legal() {
    let mut def_modules = DefiningModules::new();
    def_modules.register_trait("Add", "Std");
    def_modules.register_type("Int", "Std");

    let result = check_orphan_rule("Std", "Add", "Int", &def_modules);
    assert!(result.is_ok());
}

#[test]
fn test_orphan_impl_in_type_module_legal() {
    let mut def_modules = DefiningModules::new();
    def_modules.register_trait("Add", "Std");
    def_modules.register_type("Int", "MyModule");

    let result = check_orphan_rule("MyModule", "Add", "Int", &def_modules);
    assert!(result.is_ok());
}

#[test]
fn test_orphan_impl_in_other_module_illegal() {
    let mut def_modules = DefiningModules::new();
    def_modules.register_trait("Add", "Std");
    def_modules.register_type("Int", "Std");

    let result = check_orphan_rule("MyModule", "Add", "Int", &def_modules);
    assert!(result.is_err());
    match result.unwrap_err() {
        TraitError::OrphanImpl { .. } => (),
        _ => panic!("Expected OrphanImpl error"),
    }
}

#[test]
fn unregistered_names_make_an_orphan() {
    let def_modules = DefiningModules::new();
    match check_orphan_rule("M", "Show", "Tree", &def_modules) {
        Err(TraitError::OrphanImpl { impl_module, trait_name, ty_name }) => {
            assert_eq!(impl_module, "M");
            assert_eq!(trait_name.0, "Show");
            assert_eq!(ty_name, "Tree");
        }
        _ => panic!("expected an orphan implementation"),
    }
}

#[test]
fn registering_again_replaces_the_module() {
    let mut def_modules = DefiningModules::new();
    def_modules.register_trait("Add", "Std");
    def_modules.register_trait("Add", "Other");
    assert_eq!(def_modules.get_trait_module("Add").map(|s| s.as_str()), Some("Other"));
    assert_eq!(def_modules.get_type_module("Add"), None);
}

#[test]
fn test_coherence_no_duplicates() {
    let mut registry = Registry::new();
    let impl1 = Implementation::new(TraitName::new("Add"), Type::int_type())
        .add_method(MethodName::new("add"), Term::NativeLiteral(Literal::Unit));

    registry.insert(impl1).unwrap();
    assert!(check_coherence(&registry).is_ok());
}

#[test]
fn test_coherence_duplicate() {
    let mut registry = Registry::new();
    let impl1 = Implementation::new(TraitName::new("Add"), Type::int_type())
        .add_method(MethodName::new("add"), Term::NativeLiteral(Literal::Unit));

    let impl2 = Implementation::new(TraitName::new("Add"), Type::int_type())
        .add_method(MethodName::new("add"), Term::NativeLiteral(Literal::Unit));

    registry.insert(impl1).unwrap();
    registry.insert(impl2).unwrap_err();
}
