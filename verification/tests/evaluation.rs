use lambda_cicle::runtime::evaluator::{next_action, StepAction};
use lambda_cicle::runtime::net::InteractionResult;
use lambda_cicle::tools::pipeline::{compile_source, compiled_net, ToolError};
use lambda_cicle::runtime::evaluator::{
    closed_result, find_parallel_subgraphs, find_root_deltas, reachable_nodes, verify_s5_prime, EvalError,
};
use lambda_cicle::runtime::net::{Net, Node, NodeId, PortIndex};
use lambda_cicle::runtime::primitives::PrimVal;
use lambda_cicle::runtime::result::{extract_result, parse_int, Extracted};
use lambda_cicle::tools::dot::net_to_dot;
use lambda_cicle::tools::repl::{classify, toggle_debug, ReplCommand};
use lambda_cicle::tools::trace::{active_nodes, epsilon_events, TraceDebugger};

fn p(i: usize) -> PortIndex {
    PortIndex(i)
}

fn sorted(mut v: Vec<usize>) -> Vec<usize> {
    v.sort();
    v
}

#[test]
fn reachable_nodes_follow_wires_both_ways() {
    let mut net = Net::new();
    let a = net.add_node(Node::delta());
    let b = net.add_node(Node::delta());
    let c = net.add_node(Node::epsilon());
    let d = net.add_node(Node::epsilon());
    net.connect(a, p(1), b, p(0));
    net.connect(c, p(0), b, p(2));
    assert_eq!(sorted(reachable_nodes(&net, a)), vec![0, 1, 2]);
    assert_eq!(sorted(reachable_nodes(&net, c)), vec![0, 1, 2]);
    assert_eq!(reachable_nodes(&net, d), vec![3]);
    // a node number past the last node reaches only itself
    assert_eq!(reachable_nodes(&net, NodeId(99)), vec![99]);
}

#[test]
fn root_deltas_have_no_input_from_the_set() {
    let mut net = Net::new();
    let top = net.add_node(Node::delta());
    let inner = net.add_node(Node::delta());
    net.connect(top, p(1), inner, p(0));
    let sub = reachable_nodes(&net, top);
    assert_eq!(find_root_deltas(&net, &sub), vec![0]);
}

#[test]
fn shared_root_is_a_violation() {
    let mut net = Net::new();
    let d = net.add_node(Node::delta());
    let r = net.add_node(Node::delta());
    net.connect(d, p(1), r, p(1));
    net.connect(d, p(2), r, p(2));
    match verify_s5_prime(&net) {
        Err(EvalError::S5PrimeViolation(m)) => assert_eq!(m, "δ at NodeId(0) shares root with both branches"),
        other => panic!("expected a violation, got {:?}", other),
    }
}

#[test]
fn fed_duplicator_passes() {
    let mut net = Net::new();
    let d = net.add_node(Node::delta());
    let z = net.add_node(Node::epsilon());
    let x = net.add_node(Node::prim_val(PrimVal::Int(1)));
    let y = net.add_node(Node::prim_val(PrimVal::Int(2)));
    net.connect(z, p(0), d, p(0));
    net.connect(d, p(1), x, p(0));
    net.connect(d, p(2), y, p(0));
    assert!(verify_s5_prime(&net).is_ok());
    assert!(verify_s5_prime(&Net::new()).is_ok());
}

#[test]
fn result_is_the_first_value() {
    assert!(matches!(extract_result(&Net::new()), Some(Extracted::Unit)));
    let mut net = Net::new();
    net.add_node(Node::lambda());
    assert!(extract_result(&net).is_none());
    net.add_node(Node::prim_val(PrimVal::String("skipped".to_string())));
    net.add_node(Node::constructor("Cons".to_string(), 2));
    assert!(extract_result(&net).is_none());
    net.add_node(Node::prim_val(PrimVal::Int(7)));
    match extract_result(&net) {
        Some(Extracted::Value(v)) => assert_eq!(v, PrimVal::Int(7)),
        other => panic!("unexpected {:?}", other),
    }
}

#[test]
fn result_read_from_constructor_names() {
    let named = |name: &str| {
        let mut net = Net::new();
        net.add_node(Node::constructor(name.to_string(), 0));
        extract_result(&net)
    };
    assert!(matches!(named("-7"), Some(Extracted::Int(-7))));
    assert!(matches!(named("true"), Some(Extracted::Bool(true))));
    assert!(matches!(named("false"), Some(Extracted::Bool(false))));
    assert!(matches!(named("Unit"), Some(Extracted::Unit)));
    assert!(matches!(named("()"), Some(Extracted::Unit)));
    assert!(named("Nil").is_none());
}

#[test]
fn integers_parse_as_std_does() {
    assert_eq!(parse_int("+5"), Some(5));
    assert_eq!(parse_int("0042"), Some(42));
    assert_eq!(parse_int("-9223372036854775808"), Some(i64::MIN));
    assert_eq!(parse_int("9223372036854775807"), Some(i64::MAX));
    assert_eq!(parse_int("9223372036854775808"), None);
    assert_eq!(parse_int(""), None);
    assert_eq!(parse_int("-"), None);
    assert_eq!(parse_int("12a"), None);
    assert_eq!(parse_int(" 1"), None);
    for s in ["17", "-3", "+0", "99999999999999999999"] {
        assert_eq!(parse_int(s), s.parse::<i64>().ok());
    }
}

#[test]
fn net_is_written_as_dot() {
    let mut net = Net::new();
    let lam = net.add_node(Node::lambda());
    let app = net.add_node(Node::app());
    net.connect(lam, p(1), app, p(0));
    let expected = "digraph lambda_cicle {\n    rankdir=LR;\n    node [shape=box];\n\n    0 [label=\"λ\" style=filled fillcolor=lightblue];\n    1 [label=\"@\" style=filled fillcolor=lightcoral];\n\n    0 -> 1 [label=\"1\"];\n    1 -> 0 [label=\"0\"];\n}\n";
    assert_eq!(net_to_dot(&net), expected);
}

#[test]
fn trace_records_active_nodes_and_erasers() {
    let mut net = Net::new();
    let lam = net.add_node(Node::lambda());
    let eps = net.add_node(Node::epsilon());
    net.add_node(Node::prim_val(PrimVal::Unit));
    let lone = net.add_node(Node::epsilon());
    net.connect(eps, p(0), lam, p(1));
    assert_eq!(active_nodes(&net), vec![lam]);
    let events = epsilon_events(&net);
    assert_eq!(events.len(), 1);
    assert_eq!(events[0].epsilon_node, eps);
    assert_eq!(events[0].target, lam);
    assert_eq!(events[0].target_port, p(1));
    assert_ne!(events[0].epsilon_node, lone);
    let d = TraceDebugger::new().with_max_steps(5);
    assert_eq!(d.max_steps, 5);
    assert!(d.show_steps && d.highlight_epsilon);
}

#[test]
fn repl_lines_are_classified() {
    assert_eq!(classify(":q"), ReplCommand::Quit);
    assert_eq!(classify(":help"), ReplCommand::Help);
    assert_eq!(classify(":debug"), ReplCommand::Debug(None));
    assert_eq!(classify(":debug  2 "), ReplCommand::Debug(Some("2".to_string())));
    assert_eq!(classify(":type"), ReplCommand::TypeUsage);
    assert_eq!(classify(":type 1"), ReplCommand::Type("1".to_string()));
    assert_eq!(classify(":clear"), ReplCommand::Clear);
    assert_eq!(classify("1 + 2"), ReplCommand::Eval("1 + 2".to_string()));
    let mut level = None;
    assert_eq!(toggle_debug(&mut level, None), "Debug mode: on (level 1)");
    assert_eq!(level, Some(1));
    assert_eq!(toggle_debug(&mut level, Some("3")), "Debug mode: level 3");
    assert_eq!(level, Some(3));
    assert_eq!(toggle_debug(&mut level, Some("9")), "Usage: :debug [1|2|3|off]");
    assert_eq!(level, Some(3));
    assert_eq!(toggle_debug(&mut level, None), "Debug mode: off");
    assert_eq!(level, None);
}

#[test]
fn parallel_parts_and_closed_results() {
    let mut net = Net::new();
    let d = net.add_node(Node::delta());
    let x = net.add_node(Node::prim_val(PrimVal::Int(1)));
    let y = net.add_node(Node::prim_val(PrimVal::Int(2)));
    let lone = net.add_node(Node::delta());
    net.connect(d, p(1), x, p(0));
    net.connect(d, p(2), y, p(0));
    net.connect(lone, p(1), x, p(1));
    assert_eq!(find_parallel_subgraphs(&net), vec![(x, y)]);
    assert!(closed_result(&net).is_none());
    net.add_node(Node::constructor("Nil".to_string(), 0));
    assert_eq!(closed_result(&net).unwrap().to_text(), "Nil");
    assert_eq!(closed_result(&Net::new()).unwrap().to_text(), "()");
}

#[test]
fn default_sequential_evaluator_gives_up_after_ten_million_steps() {
    let e = lambda_cicle::runtime::evaluator::SequentialEvaluator::default();
    assert_eq!(e.max_steps, 10_000_000);
}

#[test]
fn step_decisions_follow_the_budget() {
    assert_eq!(next_action(0, 10, None), StepAction::Continue);
    assert_eq!(next_action(0, 0, None), StepAction::GiveUp);
    assert_eq!(next_action(3, 10, Some(InteractionResult::BetaReduction)), StepAction::Continue);
    assert_eq!(next_action(3, 10, Some(InteractionResult::NoInteraction)), StepAction::Finished);
    assert_eq!(next_action(10, 10, Some(InteractionResult::NoInteraction)), StepAction::GiveUp);
    assert_eq!(next_action(10, 10, Some(InteractionResult::Erasure)), StepAction::GiveUp);
}

#[test]
fn compile_source_parses_checks_and_translates() {
    let c = compile_source("let x : Int = 5 in x").unwrap();
    assert!(c.float_texts.is_empty());
    assert!(compiled_net(&c, Vec::new()).is_some());
    let f = compile_source("1.5").unwrap();
    assert_eq!(f.float_texts, vec!["1.5".to_string()]);
    assert!(compiled_net(&f, Vec::new()).is_none());
    assert!(compiled_net(&f, vec![1.5f64.to_bits()]).is_some());
    assert!(matches!(compile_source("()"), Err(ToolError::Parse(_))));
    assert!(matches!(compile_source("y"), Err(ToolError::Typecheck(_))));
}
