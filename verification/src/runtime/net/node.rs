//! The nodes of an interaction net and the agents they carry.
use vstd::prelude::*;

use crate::runtime::net::PortIndex;
use crate::runtime::primitives::{IOOp, PrimOp, PrimVal, SpecPrimVal};

verus! {

/// What a node does when it meets another one.
#[derive(Debug, PartialEq)]
pub enum Agent {
    Lambda,
    App,
    Delta,
    Epsilon,
    Constructor(String),
    Prim(PrimOp),
    PrimVal(PrimVal),
    PrimIO(IOOp),
    IOToken,
}

/// The mathematical value of an [`Agent`].
pub enum AgentView {
    Lambda,
    App,
    Delta,
    Epsilon,
    Constructor(Seq<char>),
    Prim(PrimOp),
    PrimVal(SpecPrimVal),
    PrimIO(IOOp),
    IOToken,
}

impl View for Agent {
    type V = AgentView;

    open spec fn view(&self) -> AgentView {
        match self {
            Agent::Lambda => AgentView::Lambda,
            Agent::App => AgentView::App,
            Agent::Delta => AgentView::Delta,
            Agent::Epsilon => AgentView::Epsilon,
            Agent::Constructor(n) => AgentView::Constructor(n@),
            Agent::Prim(op) => AgentView::Prim(*op),
            Agent::PrimVal(v) => AgentView::PrimVal(v@),
            Agent::PrimIO(op) => AgentView::PrimIO(*op),
            Agent::IOToken => AgentView::IOToken,
        }
    }
}

impl AgentView {
    pub open spec fn arity(self) -> usize {
        match self {
            AgentView::Lambda | AgentView::App | AgentView::Delta => 3,
            AgentView::Epsilon | AgentView::PrimVal(_) | AgentView::IOToken => 1,
            AgentView::Constructor(_) => 0,
            AgentView::Prim(op) => ((op.spec_arity() + 1) as nat) as usize,
            AgentView::PrimIO(op) => ((op.spec_arity() + 2) as nat) as usize,
        }
    }
}

impl Clone for Agent {
    fn clone(&self) -> (r: Agent)
        ensures
            r@ == self@,
    {
        match self {
            Agent::Lambda => Agent::Lambda,
            Agent::App => Agent::App,
            Agent::Delta => Agent::Delta,
            Agent::Epsilon => Agent::Epsilon,
            Agent::Constructor(n) => Agent::Constructor(n.clone()),
            Agent::Prim(op) => Agent::Prim(*op),
            Agent::PrimVal(v) => Agent::PrimVal(v.clone()),
            Agent::PrimIO(op) => Agent::PrimIO(*op),
            Agent::IOToken => Agent::IOToken,
        }
    }
}

impl Agent {
    /// The number of ports a node with this agent is made with; a constructor
    /// counts none here.
    pub fn arity(&self) -> (r: usize)
        ensures
            r == self@.arity(),
    {
        match self {
            Agent::Lambda => 3,
            Agent::App => 3,
            Agent::Delta => 3,
            Agent::Epsilon => 1,
            Agent::Constructor(_) => 0,
            Agent::Prim(op) => op.arity() + 1,
            Agent::PrimVal(_) => 1,
            Agent::PrimIO(op) => op.arity() + 2,
            Agent::IOToken => 1,
        }
    }

    pub fn is_constructor(&self) -> (r: bool)
        ensures
            r == (self@ is Constructor),
    {
        match self {
            Agent::Constructor(_) => true,
            _ => false,
        }
    }

    /// Values: primitive values, constructors and the IO token.
    pub fn is_value(&self) -> (r: bool)
        ensures
            r == (self@ is PrimVal || self@ is Constructor || self@ is IOToken),
    {
        match self {
            Agent::PrimVal(_) | Agent::Constructor(_) | Agent::IOToken => true,
            _ => false,
        }
    }
}

/// A node: its agent and the numbers recorded for its ports.
#[derive(Debug)]
pub struct Node {
    pub agent: Agent,
    pub ports: Vec<PortIndex>,
}

/// The mathematical value of a [`Node`].
pub struct NodeView {
    pub agent: AgentView,
    pub ports: Seq<PortIndex>,
}

impl View for Node {
    type V = NodeView;

    open spec fn view(&self) -> NodeView {
        NodeView { agent: self.agent@, ports: self.ports@ }
    }
}

/// The view of a node made by [`Node::new`].
pub open spec fn fresh_node(agent: AgentView, num_ports: nat) -> NodeView {
    NodeView { agent, ports: Seq::new(num_ports, |i: int| PortIndex(0)) }
}

impl Clone for Node {
    fn clone(&self) -> (r: Node)
        ensures
            r@ == self@,
    {
        Node { agent: self.agent.clone(), ports: self.ports.clone() }
    }
}

impl Node {
    /// A node with `num_ports` ports, each recorded as port 0.
    pub fn new(agent: Agent, num_ports: usize) -> (r: Node)
        ensures
            r@ == fresh_node(agent@, num_ports as nat),
    {
        let mut ports: Vec<PortIndex> = Vec::new();
        let mut i: usize = 0;
        while i < num_ports
            invariant
                i <= num_ports,
                ports@ == Seq::new(i as nat, |j: int| PortIndex(0)),
            decreases num_ports - i,
        {
            ports.push(PortIndex(0));
            i += 1;
            assert(ports@ =~= Seq::new(i as nat, |j: int| PortIndex(0)));
        }
        Node { agent, ports }
    }

    pub fn lambda() -> (r: Node)
        ensures
            r@ == fresh_node(AgentView::Lambda, 3),
    {
        Node::new(Agent::Lambda, 3)
    }

    pub fn app() -> (r: Node)
        ensures
            r@ == fresh_node(AgentView::App, 3),
    {
        Node::new(Agent::App, 3)
    }

    pub fn delta() -> (r: Node)
        ensures
            r@ == fresh_node(AgentView::Delta, 3),
    {
        Node::new(Agent::Delta, 3)
    }

    pub fn epsilon() -> (r: Node)
        ensures
            r@ == fresh_node(AgentView::Epsilon, 1),
    {
        Node::new(Agent::Epsilon, 1)
    }

    pub fn constructor(name: String, arity: usize) -> (r: Node)
        ensures
            r@ == fresh_node(AgentView::Constructor(name@), arity as nat),
    {
        Node::new(Agent::Constructor(name), arity)
    }

    /// A primitive operation, with a port for its result and one for each
    /// argument.
    pub fn prim(op: PrimOp) -> (r: Node)
        ensures
            r@ == fresh_node(AgentView::Prim(op), (op.spec_arity() + 1) as nat),
    {
        let arity = op.arity() + 1;
        Node::new(Agent::Prim(op), arity)
    }

    pub fn prim_val(val: PrimVal) -> (r: Node)
        ensures
            r@ == fresh_node(AgentView::PrimVal(val@), 1),
    {
        Node::new(Agent::PrimVal(val), 1)
    }

    /// An IO operation, with ports for its result, the IO token and each
    /// argument.
    pub fn prim_io(op: IOOp) -> (r: Node)
        ensures
            r@ == fresh_node(AgentView::PrimIO(op), (op.spec_arity() + 2) as nat),
    {
        let arity = op.arity() + 2;
        Node::new(Agent::PrimIO(op), arity)
    }

    pub fn io_token() -> (r: Node)
        ensures
            r@ == fresh_node(AgentView::IOToken, 1),
    {
        Node::new(Agent::IOToken, 1)
    }

    pub fn num_ports(&self) -> (r: usize)
        ensures
            r == self.ports.len(),
    {
        self.ports.len()
    }

    /// Records `port` at `index`; an index past the last port changes nothing.
    pub fn set_port(&mut self, index: usize, port: PortIndex)
        ensures
            final(self).agent == old(self).agent,
            final(self).ports@ == (if index < old(self).ports.len() {
                old(self).ports@.update(index as int, port)
            } else {
                old(self).ports@
            }),
    {
        if index < self.ports.len() {
            self.ports.set(index, port);
        }
    }

    pub fn get_port(&self, index: usize) -> (r: Option<PortIndex>)
        ensures
            r == (if index < self.ports.len() { Some(self.ports@[index as int]) } else { None }),
    {
        if index < self.ports.len() {
            Some(self.ports[index])
        } else {
            None
        }
    }
}

} // verus!
