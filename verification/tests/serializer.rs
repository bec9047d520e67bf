use lambda_cicle::ast::types::{Multiplicity, NativeKind, TraitName, TypeName};
use lambda_cicle::ast::terms::Visibility;
use lambda_cicle::ast::types::Type;
use lambda_cicle::modules::export::Exports;
use lambda_cicle::modules::serializer::{deserialize_module, serialize_module};
use lambda_cicle::modules::Module;
use lambda_cicle::runtime::net::node::Node;
use lambda_cicle::runtime::net::{Net, PortIndex};

fn empty_module(name: &str) -> Module {
    Module { name: name.to_string(), exports: Exports::new(), impls: Vec::new(), net: Net::new() }
}

fn section(bytes: &[u8]) -> Vec<u8> {
    let mut v = bytes.len().to_le_bytes().to_vec();
    v.extend_from_slice(bytes);
    v
}

#[test]
fn test_serialize_basic_module() {
    let module = empty_module("Test");
    let data = serialize_module(&module);
    assert!(data.is_ok());
}

#[test]
fn test_roundtrip() {
    let module = empty_module("Test");
    let data = serialize_module(&module).unwrap();
    let result = deserialize_module(&data);
    assert!(result.is_ok());
}

#[test]
fn empty_module_bytes_are_exact() {
    let data = serialize_module(&empty_module("Test")).unwrap();
    let mut expected = b"LC10".to_vec();
    expected.extend(section(&[0, 0, 0, 0]));
    expected.extend(section(&[0, 0, 0, 0]));
    expected.extend(section(&[0, 0, 0, 0, 0, 0, 0, 0]));
    expected.extend(section(&[0, 0, 0, 0, 0, 0, 0, 0]));
    expected.extend(section(&[4, 0, 0, 0, b'T', b'e', b's', b't']));
    assert_eq!(data, expected);
}

#[test]
fn exports_and_nodes_are_written() {
    let mut exports = Exports::new();
    exports.add_type("T".to_string(), Type::Var("a".to_string()), Visibility::Public, true);
    exports.add_value("f".to_string(), Type::Var("a".to_string()), Visibility::Public);
    exports.add_value("g".to_string(), Type::Var("a".to_string()), Visibility::Private);
    let mut net = Net::new();
    let a = net.add_node(Node::delta());
    let b = net.add_node(Node::epsilon());
    net.connect(a, PortIndex(1), b, PortIndex(0));
    let module = Module { name: "M".to_string(), exports, impls: Vec::new(), net };
    let data = serialize_module(&module).unwrap();
    let mut expected = b"LC10".to_vec();
    expected.extend(section(&[1, 0, 0, 0, 1, 0, 0, 0, b'T', 1]));
    expected.extend(section(&[0, 0, 0, 0]));
    expected.extend(section(&[2, 0, 0, 0, 2, 3, 3, 1, 1, 0, 0, 0, 0, 0, 0, 0, 1, 1, 0, 0, 0, 0]));
    expected.extend(section(&[1, 0, 0, 0, 1, 0, 0, 0, b'f', 1, 0, 0, 0, 1, 0, 0, 0, b'T', 1]));
    expected.extend(section(&[1, 0, 0, 0, b'M']));
    assert_eq!(data, expected);
}

#[test]
fn hash_block_is_little_endian_then_zero() {
    let h = lambda_cicle::modules::serializer::hash_bytes(0x0102_0304_0506_0708);
    assert_eq!(&h[..8], &[8, 7, 6, 5, 4, 3, 2, 1]);
    assert!(h[8..].iter().all(|&b| b == 0));
}

#[test]
fn export_hash_ends_in_zeros_and_is_repeatable() {
    let mut exports = Exports::new();
    exports.add_value("f".to_string(), Type::Var("a".to_string()), Visibility::Public);
    exports.add_type("T".to_string(), Type::Var("a".to_string()), Visibility::Public, false);
    let a = lambda_cicle::modules::serializer::get_export_hash(&exports);
    let b = lambda_cicle::modules::serializer::get_export_hash(&exports);
    assert_eq!(a, b);
    assert!(a[8..].iter().all(|&x| x == 0));
    assert_ne!(a, lambda_cicle::modules::serializer::get_export_hash(&Exports::new()));
}

#[test]
fn debug_text_matches_derived_debug() {
    let types = vec![
        Type::Native(NativeKind::Int),
        Type::Var("a\"b\\c\n".to_string()),
        Type::Arrow(Multiplicity::Omega, Box::new(Type::Native(NativeKind::Bool)), Box::new(Type::Var("x".to_string()))),
        Type::Forall("t".to_string(), Box::new(Type::Borrow(Box::new(Type::Var("t".to_string()))))),
        Type::TraitConstraint(TraitName("Eq".to_string()), Box::new(Type::Var("λ".to_string()))),
        Type::Inductive(TypeName("List".to_string()), vec![]),
        Type::Inductive(TypeName("Pair".to_string()), vec![Type::Native(NativeKind::Char), Type::Native(NativeKind::Unit)]),
        Type::Product(Box::new(Type::Native(NativeKind::Float)), Box::new(Type::Native(NativeKind::Int))),
        Type::Sum(Box::new(Type::Native(NativeKind::Int)), Box::new(Type::Native(NativeKind::Int))),
        Type::App(Box::new(Type::Var("f".to_string())), vec![Type::Var("a".to_string()), Type::Var("b".to_string())]),
    ];
    for t in &types {
        assert_eq!(t.debug_text(), format!("{:?}", t));
    }
}

#[test]
fn export_hash_ignores_traits_and_private_entries() {
    let empty = lambda_cicle::modules::serializer::get_export_hash(&Exports::new());
    let mut e = Exports::new();
    e.add_value("hidden".to_string(), Type::Var("a".to_string()), Visibility::Private);
    e.add_type("H".to_string(), Type::Var("a".to_string()), Visibility::Private, true);
    assert_eq!(lambda_cicle::modules::serializer::get_export_hash(&e), empty);
    e.add_value("f".to_string(), Type::Var("a".to_string()), Visibility::Public);
    let with_f = lambda_cicle::modules::serializer::get_export_hash(&e);
    assert_ne!(with_f, empty);
    e.add_trait("Eq".to_string(), Type::Var("a".to_string()), Visibility::Public);
    assert_eq!(lambda_cicle::modules::serializer::get_export_hash(&e), with_f);
}
