use lambda_cicle::ast::terms::{Literal, Term};
use lambda_cicle::ast::types::{Multiplicity, Type};
use lambda_cicle::runtime::net::{Agent, InteractionResult, NodeId, PortIndex, StepOutcome};
use lambda_cicle::runtime::primitives::{PrimOp, PrimVal};
use lambda_cicle::runtime::translation::{can_translate, translate, NetBuilder};

fn lit_int(n: i64) -> Term {
    Term::literal(Literal::Int(n))
}

#[test]
fn literal_becomes_a_value_with_a_free_port() {
    let mut net = translate(&lit_int(42));
    assert_eq!(net.nodes().len(), 1);
    assert_eq!(net.get_node(NodeId(0)).unwrap().agent, Agent::PrimVal(PrimVal::Int(42)));
    assert_eq!(net.take_free_port(), Some((NodeId(0), PortIndex(0))));
    assert_eq!(net.take_free_port(), None);
}

#[test]
fn primitive_application_is_translated_and_evaluated() {
    let t = Term::app(Term::app(Term::var("prim_iadd"), lit_int(2)), lit_int(3));
    let empty: Vec<String> = Vec::new();
    assert!(can_translate(&t, &empty, &Vec::new()));
    let mut net = translate(&t);
    assert_eq!(net.get_node(NodeId(0)).unwrap().agent, Agent::Prim(PrimOp::IAdd));
    assert_eq!(net.get_connected_port(NodeId(0), PortIndex(1)), Some((NodeId(1), PortIndex(0))));
    assert_eq!(net.get_connected_port(NodeId(0), PortIndex(2)), Some((NodeId(2), PortIndex(0))));
    match net.step() {
        StepOutcome::Done(r) => assert_eq!(r, InteractionResult::PrimEval),
        other => panic!("unexpected {:?}", other),
    }
    assert_eq!(net.get_node(NodeId(0)).unwrap().agent, Agent::PrimVal(PrimVal::Int(5)));
}

#[test]
fn applying_an_io_primitive_cannot_be_translated() {
    let t = Term::app(Term::var("prim_io_println"), Term::literal(Literal::Str("hi".to_string())));
    assert!(!can_translate(&t, &Vec::new(), &Vec::new()));
    let unknown = Term::app(Term::var("prim_nothing"), lit_int(1));
    assert!(!can_translate(&unknown, &Vec::new(), &Vec::new()));
    assert!(can_translate(&Term::var("prim_io_println"), &Vec::new(), &Vec::new()));
}

#[test]
fn float_literal_takes_its_bits_from_the_table() {
    let t = Term::literal(Literal::Float("1.5".to_string()));
    assert!(!can_translate(&t, &Vec::new(), &Vec::new()));
    let texts = vec!["1.5".to_string()];
    let bits = vec![1.5f64.to_bits()];
    assert!(can_translate(&t, &texts, &bits));
    let net = NetBuilder::with_floats(texts, bits).build(&t);
    assert_eq!(net.get_node(NodeId(0)).unwrap().agent, Agent::PrimVal(PrimVal::Float(1.5f64.to_bits())));
}

#[test]
fn shared_abstraction_gets_a_duplicator() {
    let t = Term::abs("x", Multiplicity::Omega, Type::int_type(), Term::var("x"));
    let net = translate(&t);
    // λ, the body's name, then the δ
    assert_eq!(net.nodes().len(), 3);
    assert_eq!(net.get_node(NodeId(0)).unwrap().agent, Agent::Lambda);
    assert_eq!(net.get_node(NodeId(1)).unwrap().agent, Agent::Constructor("x".to_string()));
    assert_eq!(net.get_node(NodeId(2)).unwrap().agent, Agent::Delta);
    assert_eq!(net.get_connected_port(NodeId(0), PortIndex(2)), Some((NodeId(1), PortIndex(0))));
    assert_eq!(net.get_connected_port(NodeId(1), PortIndex(1)), Some((NodeId(0), PortIndex(0))));
    assert_eq!(net.get_connected_port(NodeId(0), PortIndex(1)), Some((NodeId(2), PortIndex(1))));
}

#[test]
fn erased_abstraction_gets_an_eraser() {
    let t = Term::abs("x", Multiplicity::Zero, Type::int_type(), lit_int(1));
    let mut net = translate(&t);
    assert_eq!(net.get_node(NodeId(2)).unwrap().agent, Agent::Epsilon);
    assert_eq!(net.get_connected_port(NodeId(2), PortIndex(0)), Some((NodeId(0), PortIndex(1))));
    assert_eq!(net.take_free_port(), Some((NodeId(0), PortIndex(1))));
}

#[test]
fn constructor_arguments_are_wired_in_order() {
    let t = Term::constructor("Pair", vec![lit_int(1), lit_int(2)]);
    let net = translate(&t);
    assert_eq!(net.get_node(NodeId(0)).unwrap().agent, Agent::Constructor("Pair".to_string()));
    assert_eq!(net.get_connected_port(NodeId(0), PortIndex(0)), Some((NodeId(1), PortIndex(0))));
    assert_eq!(net.get_connected_port(NodeId(0), PortIndex(1)), Some((NodeId(2), PortIndex(0))));
}
