use lambda_cicle::ast::terms::Term;
use lambda_cicle::ast::types::{MethodName, TraitName, Type};
use lambda_cicle::traits::registry::{Implementation, Registry};
use lambda_cicle::traits::resolution::{resolve_method, resolve_method_with_cache};
use lambda_cicle::traits::TraitError;

fn registry() -> Registry {
    let mut registry = Registry::new();
    let show = Implementation::new(TraitName::new("Show"), Type::int_type())
        .add_method(MethodName::new("show"), Term::var("prim_int_to_string"));
    registry.insert(show).unwrap();
    registry.declare_trait(TraitName::new("Ord"), vec![TraitName::new("Eq"), TraitName::new("Show")]).unwrap();
    registry.declare_trait(TraitName::new("Eq"), vec![TraitName::new("Ord")]).unwrap();
    registry
}

#[test]
fn method_found_in_the_implementation() {
    let r = registry();
    let t = resolve_method(&TraitName::new("Show"), &Type::int_type(), &MethodName::new("show"), &r);
    assert_eq!(t.unwrap().to_text(), "prim_int_to_string");
}

#[test]
fn method_found_through_supertraits() {
    // Ord's supertraits are tried in order: Eq (whose supertrait Ord was
    // already tried), then Show
    let r = registry();
    let t = resolve_method(&TraitName::new("Ord"), &Type::int_type(), &MethodName::new("show"), &r);
    assert_eq!(t.unwrap().to_text(), "prim_int_to_string");
}

#[test]
fn missing_method_is_trait_not_found() {
    let r = registry();
    match resolve_method(&TraitName::new("Ord"), &Type::float(), &MethodName::new("show"), &r) {
        Err(TraitError::TraitNotFound(n, t)) => {
            assert_eq!(n, TraitName::new("Ord"));
            assert_eq!(t, Type::float());
        }
        other => panic!("unexpected {:?}", other),
    }
}

#[test]
fn search_under_way_is_not_repeated() {
    let r = registry();
    let mut cache = vec![(TraitName::new("Show"), Type::int_type(), MethodName::new("show"))];
    assert!(resolve_method_with_cache(&TraitName::new("Show"), &Type::int_type(), &MethodName::new("show"), &r, &mut cache).is_err());
    assert_eq!(cache.len(), 1);
    cache.clear();
    assert!(resolve_method_with_cache(&TraitName::new("Show"), &Type::int_type(), &MethodName::new("show"), &r, &mut cache).is_ok());
    assert!(cache.is_empty());
}
