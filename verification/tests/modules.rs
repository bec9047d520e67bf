use lambda_cicle::ast::terms::{Decl, Literal, MethodDef, Term, UseMode, Visibility};
use lambda_cicle::ast::types::{MethodName, Multiplicity, TraitName, Type};
use lambda_cicle::modules::export::Exports;
use lambda_cicle::modules::loader::{
    check_module_name, extract_imports, module_name_from_parts, module_name_from_path, validate_module_name, verify_no_cycles,
};
use lambda_cicle::name_resolver::{build_import_graph, has_no_prelude, resolve_qualified_name, resolve_selective_import, NameResolutionError};
use lambda_cicle::strmap::StrMap;

fn use_decl(path: &[&str]) -> Decl {
    Decl::UseDecl { path: path.iter().map(|s| s.to_string()).collect(), mode: UseMode::Qualified }
}

#[test]
fn test_prelude_detection() {
    let decls_no_prelude = vec![Decl::NoPrelude];
    assert!(has_no_prelude(&decls_no_prelude));

    let decls_with_prelude = vec![Decl::ValDecl {
        visibility: Visibility::Private,
        name: "x".to_string(),
        ty: Type::int_type(),
        term: Box::new(Term::NativeLiteral(Literal::Int(1))),
    }];
    assert!(!has_no_prelude(&decls_with_prelude));
}

#[test]
fn test_extract_imports_simple() {
    let decls = vec![use_decl(&["Std", "List"]), use_decl(&["Std", "Map"])];
    let imports = extract_imports(&decls);
    assert_eq!(imports.len(), 2);
    assert!(imports.contains(&("__main__".to_string(), "Std.List".to_string())));
    assert!(imports.contains(&("__main__".to_string(), "Std.Map".to_string())));
}

#[test]
fn imports_belong_to_the_last_type_declaration() {
    let decls = vec![
        use_decl(&["A"]),
        Decl::TypeDecl {
            visibility: Visibility::Public,
            name: "T".to_string(),
            params: vec![],
            ty: Type::unit(),
            transparent: true,
        },
        use_decl(&["B", "C"]),
    ];
    let imports = extract_imports(&decls);
    assert_eq!(
        imports,
        vec![("__main__".to_string(), "A".to_string()), ("T".to_string(), "B.C".to_string())]
    );
}

#[test]
fn import_cycles_among_declarations() {
    let decls = vec![
        Decl::TypeDecl { visibility: Visibility::Public, name: "A".to_string(), params: vec![], ty: Type::unit(), transparent: false },
        use_decl(&["A"]),
    ];
    let err = verify_no_cycles(&decls).unwrap_err();
    assert_eq!(err.message, "Cycle detected: A -> A");
    assert!(verify_no_cycles(&[use_decl(&["Std"])]).is_ok());
}

#[test]
fn module_names_from_paths() {
    let parts = vec!["src".to_string(), "Data".to_string(), ".".to_string()];
    assert_eq!(module_name_from_parts(&parts, Some("List".to_string())), "Data.List");
    assert_eq!(module_name_from_parts(&vec![], None), "Main");
    assert!(check_module_name("a/B.l", "a.B", "a.B").is_ok());
    assert_eq!(
        check_module_name("a/B.l", "a.B", "C").unwrap_err().message,
        "Module name mismatch: file 'a/B.l' defines module 'a.B' but expected 'C'"
    );
    assert!(validate_module_name("src/Data/List.lc", "Data.List").is_ok());
    assert!(validate_module_name("src/Data/List.lc", "List").is_err());
}

#[test]
fn import_graph_of_a_module() {
    let decls = vec![use_decl(&["Std", "List"]), Decl::NoPrelude, use_decl(&["Std"])];
    let (graph, imports) = build_import_graph("Main", &decls);
    assert_eq!(imports.len(), 2);
    assert_eq!(imports[0].module_name(), "Std.List");
    assert_eq!(graph.get_dependencies("Main"), vec!["Std.List", "Std"]);
    assert!(graph.detect_cycle().is_none());
}

#[test]
fn exports_from_declarations() {
    let decls = vec![
        Decl::TypeDecl { visibility: Visibility::Public, name: "T".to_string(), params: vec![], ty: Type::unit(), transparent: true },
        Decl::TypeDecl { visibility: Visibility::Private, name: "Hidden".to_string(), params: vec![], ty: Type::unit(), transparent: false },
        Decl::ValDecl {
            visibility: Visibility::Public,
            name: "x".to_string(),
            ty: Type::int_type(),
            term: Box::new(Term::NativeLiteral(Literal::Int(1))),
        },
        Decl::TraitDecl { visibility: Visibility::Public, name: "Eq".to_string(), params: vec!["a".to_string()], methods: vec![] },
        Decl::ImplDecl {
            ty: Type::int_type(),
            trait_name: TraitName::new("Eq"),
            methods: vec![MethodDef {
                name: MethodName::new("eq"),
                ty: Type::bool(),
                term: Box::new(Term::NativeLiteral(Literal::Unit)),
            }],
        },
    ];
    let e = Exports::from_decl(&decls);
    assert!(e.get_type("T").unwrap().transparent);
    assert!(e.get_type("Hidden").is_none());
    assert_eq!(e.get_value("x").unwrap().ty, Type::int_type());
    assert_eq!(e.get_value("eq").unwrap().ty, Type::bool());
    assert_eq!(e.get_trait("Eq").unwrap().ty, Type::inductive("Eq", vec![]));
    assert_eq!(e.public_values().len(), 2);
    assert_eq!(e.public_types().len(), 1);
    assert_eq!(e.public_traits().len(), 1);
}

#[test]
fn exports_from_a_term() {
    let t = Term::abs("x", Multiplicity::One, Type::int_type(), Term::var("x"));
    let e = Exports::from_term(&t, Type::arrow(Type::int_type(), Multiplicity::One, Type::bool()));
    assert_eq!(e.get_value("main").unwrap().ty, Type::bool());
    assert_eq!(
        e.get_value("x").unwrap().ty,
        Type::arrow(Type::int_type(), Multiplicity::One, Type::unit())
    );
    assert_eq!(e.get_value("x").unwrap().visibility, Visibility::Private);
    assert!(e.public_values().iter().all(|(n, _)| n == "main"));
}

#[test]
fn resolving_names_through_exports() {
    let mut std_exports = Exports::new();
    std_exports.add_value("id".to_string(), Type::int_type(), Visibility::Public);
    std_exports.add_type("List".to_string(), Type::unit(), Visibility::Public, true);
    let mut all = StrMap::new();
    all.insert("Std".to_string(), std_exports);
    assert_eq!(resolve_qualified_name("Std", "id", &all).unwrap(), Some(Type::int_type()));
    assert_eq!(resolve_qualified_name("Std", "List", &all).unwrap(), Some(Type::unit()));
    assert!(matches!(resolve_qualified_name("Nope", "id", &all), Err(NameResolutionError::ModuleNotFound(_))));
    assert!(matches!(
        resolve_qualified_name("Std", "zzz", &all),
        Err(NameResolutionError::NameNotFound { .. })
    ));
    let items = vec!["id".to_string(), "List".to_string()];
    let m = resolve_selective_import("Std", &items, &all).unwrap();
    assert_eq!(m.get("id"), Some(&Type::int_type()));
    let missing = vec!["id".to_string(), "x".to_string(), "y".to_string()];
    match resolve_selective_import("Std", &missing, &all) {
        Err(NameResolutionError::NameNotFound { module, name }) => {
            assert_eq!(module, "Std");
            assert_eq!(name, "x");
        }
        _ => panic!("expected a missing name"),
    }
}

#[test]
fn module_name_of_a_plain_path() {
    assert_eq!(module_name_from_path("src/Std/List.\u{3bb}"), "Std.List");
    assert_eq!(module_name_from_path("Main.lc"), "Main");
    assert_eq!(module_name_from_path("lib/a/b.tar.gz"), "lib.a.b.tar");
    assert_eq!(module_name_from_path("src/.hidden"), ".hidden");
    assert_eq!(module_name_from_path("./Main.\u{3bb}"), "Main");
    assert_eq!(module_name_from_path("./src/A/b.x"), "A.b");
    assert_eq!(module_name_from_path("lib/src/Foo.\u{3bb}"), "lib.Foo");
    assert_eq!(module_name_from_path(""), "Main");
    assert!(validate_module_name("", "Main").is_ok());
    let e = validate_module_name("src/Std/List.lc", "Std").unwrap_err();
    assert_eq!(e.message, "Module name mismatch: file 'src/Std/List.lc' defines module 'Std.List' but expected 'Std'");
}
