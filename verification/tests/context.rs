use lambda_cicle::ast::types::{Multiplicity, Type};
use lambda_cicle::multiplicity::context::{ctx_add, ctx_scale, BorrowContextMix, Context, QuantityContext};
use lambda_cicle::multiplicity::semiring::{quantity_add, quantity_mul, Quantity};

fn ctx(entries: &[(&str, Multiplicity)]) -> Context {
    let mut c = Context::new();
    for (name, m) in entries {
        c = c.extend(name.to_string(), *m, Type::int_type());
    }
    c
}

#[test]
fn adding_contexts_adds_multiplicities() {
    let a = ctx(&[("x", Multiplicity::One), ("y", Multiplicity::Zero)]);
    let b = ctx(&[("x", Multiplicity::One), ("z", Multiplicity::Omega)]);
    let sum = a.add(&b).unwrap();
    assert_eq!(sum.len(), 3);
    assert_eq!(sum.get("x").unwrap().0, Multiplicity::Omega);
    assert_eq!(sum.get("y").unwrap().0, Multiplicity::Zero);
    assert_eq!(sum.get("z").unwrap().0, Multiplicity::Omega);
}

#[test]
fn adding_a_borrow_fails() {
    let a = ctx(&[("x", Multiplicity::Borrow)]);
    let b = ctx(&[("x", Multiplicity::Zero)]);
    assert_eq!(a.add(&b).unwrap_err(), BorrowContextMix::CannotMixBorrowWithQuantity);
    let c = ctx(&[("y", Multiplicity::One)]);
    assert!(a.add(&c).is_ok());
    assert!(ctx_add(a, c).is_ok());
}

#[test]
fn adding_the_empty_context_changes_nothing() {
    let a = ctx(&[("x", Multiplicity::One)]);
    let sum = a.add(&Context::new()).unwrap();
    assert_eq!(sum.len(), 1);
    assert_eq!(sum.get("x").unwrap().0, Multiplicity::One);
}

#[test]
fn scaling_a_context() {
    let a = ctx(&[("x", Multiplicity::One), ("y", Multiplicity::Omega), ("z", Multiplicity::Zero)]);
    let zero = a.scale(Quantity::Zero).unwrap();
    assert_eq!(zero.get("x").unwrap().0, Multiplicity::Zero);
    assert_eq!(zero.get("y").unwrap().0, Multiplicity::Omega);
    let omega = a.scale(Quantity::Omega).unwrap();
    assert_eq!(omega.get("x").unwrap().0, Multiplicity::Omega);
    let one = ctx_scale(Quantity::One, a).unwrap();
    assert_eq!(one.get("x").unwrap().0, Multiplicity::One);
    let b = ctx(&[("r", Multiplicity::Borrow)]);
    assert_eq!(b.scale(Quantity::One).unwrap_err(), BorrowContextMix::CannotScaleBorrow);
}

#[test]
fn quantity_context_drops_borrows() {
    let a = ctx(&[("x", Multiplicity::One), ("r", Multiplicity::Borrow)]);
    let q = a.to_quantity_context();
    assert_eq!(q.len(), 1);
    assert_eq!(q.get("x").unwrap().0, Quantity::One);
    assert!(q.get("r").is_none());
}

#[test]
fn quantity_contexts_add_and_scale() {
    let a = QuantityContext::new().extend("x".to_string(), Quantity::One, Type::unit());
    let b = QuantityContext::new().extend("x".to_string(), Quantity::One, Type::bool());
    let sum = a.add(&b).unwrap();
    assert_eq!(sum.get("x").unwrap().0, Quantity::Omega);
    assert_eq!(sum.get("x").unwrap().1, Type::unit());
    let scaled = sum.scale(Quantity::Zero);
    assert_eq!(scaled.get("x").unwrap().0, Quantity::Zero);
    assert!(QuantityContext::new().is_empty());
}

#[test]
fn context_queries() {
    let a = ctx(&[("x", Multiplicity::One), ("y", Multiplicity::One)]);
    assert!(a.contains("x"));
    assert!(!a.contains("w"));
    assert!(!a.is_empty());
    assert!(Context::new().is_empty());
    let mut keys = a.keys();
    keys.sort();
    assert_eq!(keys, vec!["x", "y"]);
    let replaced = a.extend("x".to_string(), Multiplicity::Omega, Type::unit());
    assert_eq!(replaced.len(), 2);
    assert_eq!(replaced.get("x").unwrap().0, Multiplicity::Omega);
    assert_eq!(BorrowContextMix::CannotScaleBorrow.message(), "Cannot scale borrow");
}

#[test]
fn semiring_operations() {
    assert_eq!(quantity_add(Quantity::Zero, Quantity::One), Quantity::One);
    assert_eq!(quantity_add(Quantity::One, Quantity::One), Quantity::Omega);
    assert_eq!(quantity_mul(Quantity::Zero, Quantity::Omega), Quantity::Zero);
    assert_eq!(quantity_mul(Quantity::One, Quantity::Omega), Quantity::Omega);
    assert_eq!(Quantity::zero(), Quantity::Zero);
    assert_eq!(Quantity::one(), Quantity::One);
    assert_eq!(Quantity::omega(), Quantity::Omega);
}
