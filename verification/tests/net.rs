use lambda_cicle::runtime::net::{
    wire_io_entry_point, Agent, InteractionResult, Net, Node, NodeId, PortIndex, StepOutcome, WireId,
};
use lambda_cicle::runtime::primitives::{IOOp, PrimOp, PrimVal};

fn p(i: usize) -> PortIndex {
    PortIndex(i)
}

fn done(outcome: StepOutcome) -> InteractionResult {
    match outcome {
        StepOutcome::Done(r) => r,
        other => panic!("expected a finished step, got {:?}", other),
    }
}

#[test]
fn empty_net_has_nothing_to_do() {
    let mut net = Net::new();
    assert!(net.is_empty());
    assert!(net.is_stuck());
    assert_eq!(done(net.step()), InteractionResult::NoInteraction);
}

#[test]
fn connect_links_both_ends() {
    let mut net = Net::new();
    let a = net.add_node(Node::lambda());
    let b = net.add_node(Node::app());
    assert_eq!(a, NodeId(0));
    assert_eq!(b, NodeId(1));
    net.connect(a, p(1), b, p(0));
    assert_eq!(net.get_connected_port(a, p(1)), Some((b, p(0))));
    assert_eq!(net.get_connected_port(b, p(0)), Some((a, p(1))));
    assert_eq!(net.get_wire_at_port(a, p(1)), Some(WireId(0)));
    assert_eq!(net.wires().len(), 1);
    assert!(!net.is_stuck());
}

#[test]
fn disconnect_unlinks_both_ends() {
    let mut net = Net::new();
    let a = net.add_node(Node::epsilon());
    let b = net.add_node(Node::epsilon());
    net.connect(a, p(0), b, p(0));
    assert_eq!(net.disconnect_port(b, p(0)), Some(WireId(0)));
    assert_eq!(net.get_connected_port(a, p(0)), None);
    assert_eq!(net.get_wire_at_port(b, p(0)), None);
    assert_eq!(net.disconnect_port(a, p(0)), None);
    // the wire stays in the list
    assert_eq!(net.wires().len(), 1);
}

#[test]
fn free_ports_come_back_last_first() {
    let mut net = Net::new();
    assert_eq!(net.take_free_port(), None);
    net.add_free_port(NodeId(3), p(1));
    net.add_free_port(NodeId(4), p(2));
    assert_eq!(net.take_free_port(), Some((NodeId(4), p(2))));
    assert_eq!(net.take_free_port(), Some((NodeId(3), p(1))));
    assert_eq!(net.take_free_port(), None);
}

#[test]
fn nodes_are_made_with_their_ports() {
    assert_eq!(Node::lambda().num_ports(), 3);
    assert_eq!(Node::epsilon().num_ports(), 1);
    assert_eq!(Node::prim(PrimOp::IAdd).num_ports(), 3);
    assert_eq!(Node::prim(PrimOp::INeg).num_ports(), 2);
    assert_eq!(Node::prim_io(IOOp::Write).num_ports(), 4);
    assert_eq!(Node::constructor("Pair".to_string(), 2).num_ports(), 2);
    let mut n = Node::delta();
    n.set_port(1, p(7));
    n.set_port(9, p(7));
    assert_eq!(n.get_port(1), Some(p(7)));
    assert_eq!(n.get_port(3), None);
    assert!(Agent::IOToken.is_value());
    assert!(!Agent::Lambda.is_value());
    assert!(Agent::Constructor("Nil".to_string()).is_constructor());
    assert_eq!(Agent::Prim(PrimOp::IAdd).arity(), 3);
    assert_eq!(Agent::Constructor("Nil".to_string()).arity(), 0);
}

#[test]
fn beta_reduction_wires_argument_to_body() {
    let mut net = Net::new();
    let lam = net.add_node(Node::lambda());
    let app = net.add_node(Node::app());
    let arg = net.add_node(Node::prim_val(PrimVal::Int(5)));
    net.connect(lam, p(1), app, p(0));
    net.connect(arg, p(0), app, p(1));
    assert_eq!(done(net.step()), InteractionResult::BetaReduction);
    assert_eq!(net.get_connected_port(lam, p(2)), Some((arg, p(0))));
    assert_eq!(net.get_connected_port(lam, p(0)), Some((app, p(2))));
    assert_eq!(net.get_connected_port(lam, p(1)), None);
}

#[test]
fn duplication_adds_a_lambda_sharing_the_body() {
    let mut net = Net::new();
    let delta = net.add_node(Node::delta());
    let lam = net.add_node(Node::lambda());
    let body = net.add_node(Node::prim_val(PrimVal::Bool(true)));
    net.connect(delta, p(1), lam, p(1));
    net.connect(lam, p(2), body, p(0));
    assert_eq!(done(net.step()), InteractionResult::Duplication);
    let fresh = NodeId(3);
    assert_eq!(net.nodes().len(), 4);
    assert_eq!(net.get_node(fresh).unwrap().agent, Agent::Lambda);
    assert_eq!(net.get_connected_port(delta, p(2)), Some((fresh, p(1))));
    assert_eq!(net.get_connected_port(fresh, p(2)), Some((body, p(0))));
}

#[test]
fn erasure_cuts_the_eraser_wire_then_gives_up() {
    // cutting the eraser's wire also unrecords the lambda's port 1, so the
    // rule's second cut finds no wire and the rule gives up
    let mut net = Net::new();
    let eps = net.add_node(Node::epsilon());
    let lam = net.add_node(Node::lambda());
    let body = net.add_node(Node::prim_val(PrimVal::Unit));
    net.connect(eps, p(0), lam, p(1));
    net.connect(lam, p(2), body, p(0));
    assert_eq!(done(net.step()), InteractionResult::NoInteraction);
    assert_eq!(net.get_connected_port(eps, p(0)), None);
    assert_eq!(net.get_connected_port(lam, p(1)), None);
    assert_eq!(net.get_connected_port(lam, p(2)), Some((body, p(0))));
    assert_eq!(net.take_free_port(), None);
}

#[test]
fn commuting_deltas_cut_their_principal_wire_then_give_up() {
    let mut net = Net::new();
    let d1 = net.add_node(Node::delta());
    let d2 = net.add_node(Node::delta());
    let a = net.add_node(Node::prim_val(PrimVal::Int(1)));
    let b = net.add_node(Node::prim_val(PrimVal::Int(2)));
    net.connect(d1, p(0), d2, p(0));
    net.connect(d2, p(1), a, p(0));
    net.connect(d1, p(1), b, p(0));
    assert_eq!(done(net.step()), InteractionResult::NoInteraction);
    assert_eq!(net.get_connected_port(d1, p(0)), None);
    assert_eq!(net.get_connected_port(d2, p(1)), Some((a, p(0))));
    assert_eq!(net.get_connected_port(d1, p(1)), Some((b, p(0))));
}

#[test]
fn value_at_delta_input_is_duplicated() {
    let mut net = Net::new();
    let delta = net.add_node(Node::delta());
    let eps = net.add_node(Node::epsilon());
    let x = net.add_node(Node::prim_val(PrimVal::Int(1)));
    net.connect(delta, p(1), x, p(1));
    net.connect(delta, p(2), eps, p(0));
    // the branch erasure cuts the eraser's wire and gives up; then the value
    // at the delta's port 1 is copied onto its port 2
    assert_eq!(done(net.step()), InteractionResult::PrimValDup);
    let copy = NodeId(3);
    assert_eq!(net.get_node(copy).unwrap().agent, Agent::PrimVal(PrimVal::Int(1)));
    assert_eq!(net.get_connected_port(delta, p(2)), Some((copy, p(1))));
    assert_eq!(net.get_connected_port(eps, p(0)), None);
}

#[test]
fn integer_primitive_is_evaluated_in_place() {
    let mut net = Net::new();
    let prim = net.add_node(Node::prim(PrimOp::IAdd));
    let x = net.add_node(Node::prim_val(PrimVal::Int(2)));
    let y = net.add_node(Node::prim_val(PrimVal::Int(3)));
    net.connect(x, p(0), prim, p(1));
    net.connect(y, p(0), prim, p(2));
    assert_eq!(done(net.step()), InteractionResult::PrimEval);
    assert_eq!(net.get_node(prim).unwrap().agent, Agent::PrimVal(PrimVal::Int(5)));
    assert_eq!(net.get_connected_port(prim, p(1)), None);
    assert!(net.is_stuck());
}

#[test]
fn float_primitive_is_handed_out_and_resumed() {
    let mut net = Net::new();
    let prim = net.add_node(Node::prim(PrimOp::FAdd));
    let x = net.add_node(Node::prim_val(PrimVal::Float(1.5f64.to_bits())));
    let y = net.add_node(Node::prim_val(PrimVal::Float(2.0f64.to_bits())));
    net.connect(x, p(0), prim, p(1));
    net.connect(y, p(0), prim, p(2));
    match net.step() {
        StepOutcome::Float { node, op, args } => {
            assert_eq!(node, prim);
            assert_eq!(op, PrimOp::FAdd);
            assert_eq!(args, vec![PrimVal::Float(1.5f64.to_bits()), PrimVal::Float(2.0f64.to_bits())]);
        }
        other => panic!("expected a float request, got {:?}", other),
    }
    let r = net.resume_prim(Some(PrimVal::Float(3.5f64.to_bits())));
    assert_eq!(done(r), InteractionResult::PrimEval);
    assert_eq!(net.get_node(prim).unwrap().agent, Agent::PrimVal(PrimVal::Float(3.5f64.to_bits())));
}

#[test]
fn overflowing_negation_is_handed_out() {
    let mut net = Net::new();
    let prim = net.add_node(Node::prim(PrimOp::INeg));
    let x = net.add_node(Node::prim_val(PrimVal::Int(i64::MIN)));
    net.connect(x, p(0), prim, p(1));
    match net.step() {
        StepOutcome::Overflow { node, op, .. } => {
            assert_eq!(node, prim);
            assert_eq!(op, PrimOp::INeg);
        }
        other => panic!("expected an overflow, got {:?}", other),
    }
}

#[test]
fn value_meeting_eraser_loses_its_wire() {
    let mut net = Net::new();
    let x = net.add_node(Node::prim_val(PrimVal::Char('a')));
    let eps = net.add_node(Node::epsilon());
    net.connect(x, p(0), eps, p(0));
    assert_eq!(done(net.step()), InteractionResult::NoInteraction);
    assert_eq!(net.get_connected_port(x, p(0)), None);
    assert_eq!(net.get_connected_port(eps, p(0)), None);
}

#[test]
fn io_operation_gets_token_and_result() {
    let mut net = Net::new();
    let io = net.add_node(Node::prim_io(IOOp::Println));
    let s = net.add_node(Node::prim_val(PrimVal::String("hi".to_string())));
    net.connect(s, p(0), io, p(2));
    wire_io_entry_point(&mut net);
    let token = NodeId(2);
    assert_eq!(net.get_node(token).unwrap().agent, Agent::IOToken);
    assert_eq!(net.get_connected_port(io, p(1)), Some((token, p(0))));
    // a second call changes nothing
    wire_io_entry_point(&mut net);
    assert_eq!(net.nodes().len(), 3);
    match net.step() {
        StepOutcome::Io { node, op, args } => {
            assert_eq!(node, io);
            assert_eq!(op, IOOp::Println);
            assert_eq!(args, vec![PrimVal::String("hi".to_string())]);
        }
        other => panic!("expected an IO request, got {:?}", other),
    }
    assert_eq!(net.resume_io(Some(PrimVal::Unit)), InteractionResult::PrimEval);
    let new_token = NodeId(3);
    let result = NodeId(4);
    assert_eq!(net.get_node(new_token).unwrap().agent, Agent::IOToken);
    assert_eq!(net.get_connected_port(io, p(1)), Some((new_token, p(0))));
    assert_eq!(net.get_connected_port(io, p(0)), Some((result, p(0))));
    assert_eq!(net.get_node(result).unwrap().agent, Agent::PrimVal(PrimVal::Unit));
    assert_eq!(net.get_connected_port(s, p(0)), None);
}

#[test]
fn failed_io_is_no_interaction() {
    let mut net = Net::new();
    let io = net.add_node(Node::prim_io(IOOp::Print));
    let s = net.add_node(Node::prim_val(PrimVal::Int(1)));
    net.connect(s, p(0), io, p(2));
    wire_io_entry_point(&mut net);
    assert!(matches!(net.step(), StepOutcome::Io { .. }));
    assert_eq!(net.resume_io(None), InteractionResult::NoInteraction);
    assert_eq!(net.get_connected_port(s, p(0)), Some((io, p(2))));
}
