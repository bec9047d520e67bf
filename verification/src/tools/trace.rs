//! What a reduction trace records at each step.
use vstd::prelude::*;

use crate::runtime::net::{active, AgentView, InteractionResult, Net, NetView, NodeId, PortIndex};

verus! {

/// Settings of a trace: whether step numbers are shown, whether erasers
/// about to fire are shown, and how many steps are taken at most.
#[derive(Debug, Clone, Copy)]
pub struct TraceDebugger {
    pub show_steps: bool,
    pub highlight_epsilon: bool,
    pub max_steps: usize,
}

impl TraceDebugger {
    /// Shows steps and erasers, for at most a thousand steps.
    pub fn new() -> (r: TraceDebugger)
        ensures
            r.show_steps && r.highlight_epsilon && r.max_steps == 1000,
    {
        TraceDebugger { show_steps: true, highlight_epsilon: true, max_steps: 1000 }
    }

    pub fn with_max_steps(self, max_steps: usize) -> (r: TraceDebugger)
        ensures
            r.max_steps == max_steps,
            r.show_steps == self.show_steps,
            r.highlight_epsilon == self.highlight_epsilon,
    {
        TraceDebugger { max_steps, ..self }
    }
}

impl Default for TraceDebugger {
    fn default() -> (r: TraceDebugger)
        ensures
            r.show_steps && r.highlight_epsilon && r.max_steps == 1000,
    {
        TraceDebugger::new()
    }
}

/// An eraser whose port 0 is wired to port `target_port` of `target`.
#[derive(Debug, Clone, Copy)]
pub struct EpsilonEvent {
    pub epsilon_node: NodeId,
    pub target: NodeId,
    pub target_port: PortIndex,
}

/// One step of a trace: its number, the rewrite it made, and the active
/// nodes and eraser events seen before it.
#[derive(Debug)]
pub struct TraceStep {
    pub step_number: usize,
    pub interaction: InteractionResult,
    pub active_nodes: Vec<NodeId>,
    pub epsilon_events: Vec<EpsilonEvent>,
}

/// The steps of a trace.
#[derive(Debug)]
pub struct Trace {
    pub steps: Vec<TraceStep>,
}

/// The numbers of the active nodes among the first `k`, in order.
pub open spec fn active_upto(v: NetView, k: nat) -> Seq<usize>
    decreases k,
{
    if k == 0 || k > v.nodes.len() {
        Seq::empty()
    } else if active(v.nodes[k - 1].agent) {
        active_upto(v, (k - 1) as nat).push((k - 1) as usize)
    } else {
        active_upto(v, (k - 1) as nat)
    }
}

/// The eraser events among the first `k` nodes, in order.
pub open spec fn epsilon_upto(v: NetView, k: nat) -> Seq<(usize, (NodeId, PortIndex))>
    decreases k,
{
    if k == 0 || k > v.nodes.len() {
        Seq::empty()
    } else if v.nodes[k - 1].agent is Epsilon && v.connected((k - 1) as usize, 0) is Some {
        epsilon_upto(v, (k - 1) as nat).push(((k - 1) as usize, v.connected((k - 1) as usize, 0)->0))
    } else {
        epsilon_upto(v, (k - 1) as nat)
    }
}

/// The view of an eraser event.
pub open spec fn event_view(e: EpsilonEvent) -> (usize, (NodeId, PortIndex)) {
    (e.epsilon_node.0, (e.target, e.target_port))
}

/// The nodes that can still take part in a rewrite, in order.
pub fn active_nodes(net: &Net) -> (r: Vec<NodeId>)
    ensures
        r@.map_values(|n: NodeId| n.0) == active_upto(net@, net@.nodes.len()),
{
    let ghost v = net@;
    let n = net.nodes().len();
    let mut r: Vec<NodeId> = Vec::new();
    let mut i: usize = 0;
    while i < n
        invariant
            v == net@,
            n == v.nodes.len(),
            i <= n,
            r@.map_values(|x: NodeId| x.0) == active_upto(v, i as nat),
        decreases n - i,
    {
        let node = net.get_node(NodeId(i)).unwrap();
        let is_active = match &node.agent {
            crate::runtime::net::Agent::Lambda | crate::runtime::net::Agent::App | crate::runtime::net::Agent::Delta
            | crate::runtime::net::Agent::Prim(_) | crate::runtime::net::Agent::PrimIO(_) => true,
            _ => false,
        };
        assert(is_active == active(v.nodes[i as int].agent));
        if is_active {
            let ghost before = r@.map_values(|x: NodeId| x.0);
            r.push(NodeId(i));
            assert(r@.map_values(|x: NodeId| x.0) =~= before.push(i));
        }
        i += 1;
    }
    r
}

/// The erasers whose port 0 is wired, in order, with what they are wired to.
pub fn epsilon_events(net: &Net) -> (r: Vec<EpsilonEvent>)
    ensures
        r@.map_values(|e: EpsilonEvent| event_view(e)) == epsilon_upto(net@, net@.nodes.len()),
{
    let ghost v = net@;
    let n = net.nodes().len();
    let mut r: Vec<EpsilonEvent> = Vec::new();
    let mut i: usize = 0;
    while i < n
        invariant
            v == net@,
            n == v.nodes.len(),
            i <= n,
            r@.map_values(|e: EpsilonEvent| event_view(e)) == epsilon_upto(v, i as nat),
        decreases n - i,
    {
        let node = net.get_node(NodeId(i)).unwrap();
        let is_eps = match &node.agent {
            crate::runtime::net::Agent::Epsilon => true,
            _ => false,
        };
        assert(is_eps == (v.nodes[i as int].agent is Epsilon));
        if is_eps {
            match net.get_connected_port(NodeId(i), PortIndex(0)) {
                Some((target, port)) => {
                    let ghost before = r@.map_values(|e: EpsilonEvent| event_view(e));
                    let e = EpsilonEvent { epsilon_node: NodeId(i), target, target_port: port };
                    r.push(e);
                    assert(r@.map_values(|e: EpsilonEvent| event_view(e)) =~= before.push(event_view(e)));
                },
                None => {},
            }
        }
        i += 1;
    }
    r
}

} // verus!
