//! The interaction net: nodes with numbered ports, joined by wires.
use vstd::prelude::*;

pub mod node;
pub mod rules;
pub mod step;
pub mod laws;

pub use node::{Agent, AgentView, Node, NodeView};
pub use step::{wire_io_entry_point, StepOutcome};

verus! {

/// The number of a node of a net.
#[derive(Debug, Clone, Copy, PartialEq, Eq, Hash, Structural)]
pub struct NodeId(pub usize);

impl NodeId {
    pub fn new(id: usize) -> (r: NodeId)
        ensures
            r.0 == id,
    {
        NodeId(id)
    }
}

/// The number of a port of a node; port 0 is the principal port.
#[derive(Debug, Clone, Copy, PartialEq, Eq, Hash, Structural)]
pub struct PortIndex(pub usize);

impl PortIndex {
    pub fn new(index: usize) -> (r: PortIndex)
        ensures
            r.0 == index,
    {
        PortIndex(index)
    }

    pub fn index(&self) -> (r: usize)
        ensures
            r == self.0,
    {
        self.0
    }
}

/// A port of a node.
#[derive(Debug, Clone, Copy, PartialEq, Eq, Hash, Structural)]
pub struct Port {
    pub node: NodeId,
    pub index: PortIndex,
}

impl Port {
    pub fn new(node: NodeId, index: PortIndex) -> (r: Port)
        ensures
            r.node == node,
            r.index == index,
    {
        Port { node, index }
    }
}

/// The number of a wire of a net.
#[derive(Debug, Clone, Copy, PartialEq, Eq, Hash, Structural)]
pub struct WireId(pub usize);

impl WireId {
    pub fn new(id: usize) -> (r: WireId)
        ensures
            r.0 == id,
    {
        WireId(id)
    }
}

/// A wire between two ports.
#[derive(Debug, Clone, Copy, PartialEq, Eq, Structural)]
pub struct Wire {
    pub source: Port,
    pub target: Port,
}

impl Wire {
    pub fn new(source: Port, target: Port) -> (r: Wire)
        ensures
            r.source == source,
            r.target == target,
    {
        Wire { source, target }
    }
}

/// The kind of rewrite one step of reduction performed, or `NoInteraction`
/// when no rule applied.
#[derive(Debug, Clone, Copy, PartialEq, Eq, Structural)]
pub enum InteractionResult {
    BetaReduction,
    Duplication,
    Erasure,
    Commute,
    EraseBranch,
    PrimEval,
    PrimValErase,
    PrimValDup,
    NoInteraction,
}


/// A `hashbrown::HashMap` from a port, given as the numbers of its node and of
/// the port, to the number of a wire.
#[verifier::external_body]
#[derive(Debug)]
pub struct PortTable {
    map: hashbrown::HashMap<(usize, usize), usize>,
}

/// The entries of a [`PortTable`], each port as (node number, port number).
pub uninterp spec fn port_table(t: PortTable) -> Map<(usize, usize), usize>;

/// `hashbrown::HashMap::new`: an empty map.
#[verifier::external_body]
fn ports_new() -> (r: PortTable)
    ensures
        port_table(r).dom().is_empty(),
{
    PortTable { map: hashbrown::HashMap::new() }
}

/// `hashbrown::HashMap::insert`: afterwards the port maps to `wire`, and every
/// other port keeps its entry.
#[verifier::external_body]
fn ports_insert(t: &mut PortTable, node: usize, port: usize, wire: usize)
    ensures
        port_table(*final(t)) == port_table(*old(t)).insert((node, port), wire),
{
    t.map.insert((node, port), wire);
}

/// `hashbrown::HashMap::get`: the wire of the port, if the map holds one.
#[verifier::external_body]
fn ports_get(t: &PortTable, node: usize, port: usize) -> (r: Option<usize>)
    ensures
        r == (if port_table(*t).dom().contains((node, port)) {
            Some(port_table(*t)[(node, port)])
        } else {
            None
        }),
{
    t.map.get(&(node, port)).copied()
}

/// `hashbrown::HashMap::remove`: takes the port's entry out and returns its
/// wire, if the map held one; the other entries stay.
#[verifier::external_body]
fn ports_remove(t: &mut PortTable, node: usize, port: usize) -> (r: Option<usize>)
    ensures
        r == (if port_table(*old(t)).dom().contains((node, port)) {
            Some(port_table(*old(t))[(node, port)])
        } else {
            None
        }),
        port_table(*final(t)) == port_table(*old(t)).remove((node, port)),
{
    t.map.remove(&(node, port))
}

/// A net: its nodes, its wires, the ports left free by erasure, and for each
/// port the wire that ends at it.
#[derive(Debug)]
pub struct Net {
    nodes: Vec<Node>,
    wires: Vec<Wire>,
    free_ports: Vec<(NodeId, PortIndex)>,
    port_to_wire: PortTable,
}

/// The mathematical value of a [`Net`]; a port is keyed by the numbers of its
/// node and of the port.
pub struct NetView {
    pub nodes: Seq<NodeView>,
    pub wires: Seq<Wire>,
    pub free_ports: Seq<(NodeId, PortIndex)>,
    pub ports: Map<(usize, usize), usize>,
}

impl View for Net {
    type V = NetView;

    closed spec fn view(&self) -> NetView {
        NetView {
            nodes: self.nodes@.map_values(|n: Node| n@),
            wires: self.wires@,
            free_ports: self.free_ports@,
            ports: port_table(self.port_to_wire),
        }
    }
}

impl NetView {
    /// Every port that the index knows names an existing wire.
    pub open spec fn wf(self) -> bool {
        forall|k: (usize, usize)| #[trigger] self.ports.dom().contains(k) ==> self.ports[k] < self.wires.len()
    }

    /// The node numbered `id`, if there is one.
    pub open spec fn node(self, id: usize) -> Option<NodeView> {
        if id < self.nodes.len() { Some(self.nodes[id as int]) } else { None }
    }

    /// The wire that ends at port `port` of node `node`, if any.
    pub open spec fn wire_at(self, node: usize, port: usize) -> Option<usize> {
        if self.ports.dom().contains((node, port)) { Some(self.ports[(node, port)]) } else { None }
    }

    /// The port at the other end of the wire at port `port` of node `node`;
    /// `None` when no wire is recorded there, or when the recorded wire does
    /// not end at that port.
    pub open spec fn connected(self, node: usize, port: usize) -> Option<(NodeId, PortIndex)> {
        match self.wire_at(node, port) {
            Some(w) => if w < self.wires.len() {
                let wire = self.wires[w as int];
                if wire.source.node.0 == node && wire.source.index.0 == port {
                    Some((wire.target.node, wire.target.index))
                } else if wire.target.node.0 == node && wire.target.index.0 == port {
                    Some((wire.source.node, wire.source.index))
                } else {
                    None
                }
            } else {
                None
            },
            None => None,
        }
    }

    /// Removes the wire at a port from the index, at both of its ends, and
    /// gives its number. The wire itself stays in the list of wires.
    pub open spec fn disconnect(self, node: usize, port: usize) -> (NetView, Option<WireId>) {
        match self.wire_at(node, port) {
            Some(w) => {
                let wire = self.wires[w as int];
                let other = if wire.source.node.0 == node && wire.source.index.0 == port {
                    (wire.target.node.0, wire.target.index.0)
                } else {
                    (wire.source.node.0, wire.source.index.0)
                };
                (NetView { ports: self.ports.remove((node, port)).remove(other), ..self }, Some(WireId(w)))
            },
            None => (self, None),
        }
    }

    /// Appends a wire and records it at both of its ends.
    pub open spec fn add_wire(self, wire: Wire) -> NetView {
        let id = self.wires.len() as usize;
        NetView {
            wires: self.wires.push(wire),
            ports: self.ports.insert((wire.source.node.0, wire.source.index.0), id).insert(
                (wire.target.node.0, wire.target.index.0),
                id,
            ),
            ..self
        }
    }

    /// Joins two ports with a new wire.
    pub open spec fn connect(self, n1: usize, p1: usize, n2: usize, p2: usize) -> NetView {
        self.add_wire(Wire { source: Port { node: NodeId(n1), index: PortIndex(p1) }, target: Port { node: NodeId(n2), index: PortIndex(p2) } })
    }

    pub open spec fn add_node(self, node: NodeView) -> NetView {
        NetView { nodes: self.nodes.push(node), ..self }
    }

    pub open spec fn add_free_port(self, node: usize, port: usize) -> NetView {
        NetView { free_ports: self.free_ports.push((NodeId(node), PortIndex(port))), ..self }
    }

    pub open spec fn set_node(self, id: usize, node: NodeView) -> NetView {
        NetView { nodes: self.nodes.update(id as int, node), ..self }
    }
}

/// Adding a wire keeps the index pointing at existing wires.
pub proof fn lemma_add_wire_wf(v: NetView, w: Wire)
    requires
        v.wf(),
    ensures
        v.add_wire(w).wf(),
{
    let v2 = v.add_wire(w);
    assert forall|k: (usize, usize)| #[trigger] v2.ports.dom().contains(k) implies v2.ports[k] < v2.wires.len() by {
        if k != (w.target.node.0, w.target.index.0) && k != (w.source.node.0, w.source.index.0) {
            assert(v.ports.dom().contains(k));
        }
    }
}

impl Net {
    pub open spec fn wf(&self) -> bool {
        self@.wf()
    }

    /// An empty net.
    pub fn new() -> (r: Net)
        ensures
            r@.nodes == Seq::<NodeView>::empty(),
            r@.wires == Seq::<Wire>::empty(),
            r@.free_ports == Seq::<(NodeId, PortIndex)>::empty(),
            r@.ports == Map::<(usize, usize), usize>::empty(),
            r.wf(),
    {
        let r = Net { nodes: Vec::new(), wires: Vec::new(), free_ports: Vec::new(), port_to_wire: ports_new() };
        assert(r@.nodes =~= Seq::<NodeView>::empty());
        r
    }

    /// The number of nodes.
    fn node_count(&self) -> (r: usize)
        ensures
            r == self@.nodes.len(),
    {
        self.nodes.len()
    }

    /// Appends a node and gives its number.
    pub fn add_node(&mut self, node: Node) -> (r: NodeId)
        ensures
            r.0 == old(self)@.nodes.len(),
            final(self)@ == old(self)@.add_node(node@),
            old(self).wf() ==> final(self).wf(),
    {
        let id = NodeId(self.nodes.len());
        let ghost nv = node@;
        self.nodes.push(node);
        assert(self@.nodes =~= old(self)@.nodes.push(nv));
        id
    }

    pub fn get_node(&self, id: NodeId) -> (r: Option<&Node>)
        ensures
            r matches Some(n) ==> self@.node(id.0) == Some(n@),
            r is None ==> self@.node(id.0) is None,
    {
        if id.0 < self.nodes.len() {
            Some(&self.nodes[id.0])
        } else {
            None
        }
    }

    /// Replaces the node numbered `id`, if there is one, and says whether there was.
    pub fn set_node(&mut self, id: NodeId, node: Node) -> (r: bool)
        ensures
            r == (id.0 < old(self)@.nodes.len()),
            final(self)@ == (if r { old(self)@.set_node(id.0, node@) } else { old(self)@ }),
    {
        if id.0 < self.nodes.len() {
            let ghost nv = node@;
            self.nodes.set(id.0, node);
            assert(self@.nodes =~= old(self)@.nodes.update(id.0 as int, nv));
            true
        } else {
            false
        }
    }

    /// Appends a wire, records it at both of its ends, and gives its number.
    pub fn add_wire(&mut self, wire: Wire) -> (r: WireId)
        ensures
            r.0 == old(self)@.wires.len(),
            final(self)@ == old(self)@.add_wire(wire),
            old(self).wf() ==> final(self).wf(),
    {
        let id = WireId(self.wires.len());
        self.wires.push(wire);
        let source = wire.source;
        let target = wire.target;
        ports_insert(&mut self.port_to_wire, source.node.0, source.index.0, id.0);
        ports_insert(&mut self.port_to_wire, target.node.0, target.index.0, id.0);
        assert(self@.nodes =~= old(self)@.add_wire(wire).nodes);
        proof {
            if old(self).wf() {
                lemma_add_wire_wf(old(self)@, wire);
            }
        }
        id
    }

    pub fn get_wire(&self, id: WireId) -> (r: Option<&Wire>)
        ensures
            r == (if id.0 < self@.wires.len() { Some(&self@.wires[id.0 as int]) } else { None }),
    {
        if id.0 < self.wires.len() {
            Some(&self.wires[id.0])
        } else {
            None
        }
    }

    pub fn nodes(&self) -> (r: &[Node])
        ensures
            r@.map_values(|n: Node| n@) == self@.nodes,
    {
        self.nodes.as_slice()
    }

    pub fn wires(&self) -> (r: &[Wire])
        ensures
            r@ == self@.wires,
    {
        self.wires.as_slice()
    }

    pub fn add_free_port(&mut self, node_id: NodeId, port: PortIndex)
        ensures
            final(self)@ == old(self)@.add_free_port(node_id.0, port.0),
            old(self).wf() ==> final(self).wf(),
    {
        self.free_ports.push((node_id, port));
        assert(self@.nodes =~= old(self)@.nodes);
    }

    /// Takes the port left free last, if any.
    pub fn take_free_port(&mut self) -> (r: Option<(NodeId, PortIndex)>)
        ensures
            old(self)@.free_ports.len() == 0 ==> r is None && final(self)@ == old(self)@,
            old(self)@.free_ports.len() > 0 ==> r == Some(old(self)@.free_ports.last())
                && final(self)@ == (NetView { free_ports: old(self)@.free_ports.drop_last(), ..old(self)@ }),
    {
        let r = self.free_ports.pop();
        assert(self@.nodes =~= old(self)@.nodes);
        r
    }

    pub fn is_empty(&self) -> (r: bool)
        ensures
            r == (self@.nodes.len() == 0 && self@.wires.len() == 0),
    {
        self.nodes.len() == 0 && self.wires.len() == 0
    }

    pub fn get_wire_at_port(&self, node_id: NodeId, port: PortIndex) -> (r: Option<WireId>)
        ensures
            r == (match self@.wire_at(node_id.0, port.0) { Some(w) => Some(WireId(w)), None => None }),
    {
        match ports_get(&self.port_to_wire, node_id.0, port.0) {
            Some(w) => Some(WireId(w)),
            None => None,
        }
    }

    pub fn get_connected_port(&self, node_id: NodeId, port: PortIndex) -> (r: Option<(NodeId, PortIndex)>)
        ensures
            r == self@.connected(node_id.0, port.0),
    {
        let wire_id = match self.get_wire_at_port(node_id, port) {
            Some(w) => w,
            None => return None,
        };
        let wire = match self.get_wire(wire_id) {
            Some(w) => w,
            None => return None,
        };
        let source = &wire.source;
        let target = &wire.target;
        if source.node.0 == node_id.0 && source.index.0 == port.0 {
            Some((target.node, target.index))
        } else if target.node.0 == node_id.0 && target.index.0 == port.0 {
            Some((source.node, source.index))
        } else {
            None
        }
    }

    /// Removes the wire at a port from the index, at both of its ends, and
    /// gives its number; `None` when no wire ends there.
    pub fn disconnect_port(&mut self, node_id: NodeId, port: PortIndex) -> (r: Option<WireId>)
        requires
            old(self).wf(),
        ensures
            (final(self)@, r) == old(self)@.disconnect(node_id.0, port.0),
            final(self).wf(),
    {
        let wire_id = match ports_remove(&mut self.port_to_wire, node_id.0, port.0) {
            Some(w) => w,
            None => {
                assert(self@ == old(self)@) by {
                    assert(self@.nodes =~= old(self)@.nodes);
                    assert(self@.ports =~= old(self)@.ports);
                }
                return None;
            },
        };
        assert(old(self)@.ports.dom().contains((node_id.0, port.0)));
        let wire = &self.wires[wire_id];
        let source = &wire.source;
        let target = &wire.target;
        if source.node.0 == node_id.0 && source.index.0 == port.0 {
            ports_remove(&mut self.port_to_wire, target.node.0, target.index.0);
        } else {
            ports_remove(&mut self.port_to_wire, source.node.0, source.index.0);
        }
        proof {
            assert(self@.nodes =~= old(self)@.nodes);
            assert forall|k: (usize, usize)| #[trigger] self@.ports.dom().contains(k) implies self@.ports[k] < self@.wires.len() by {
                assert(old(self)@.ports.dom().contains(k));
            }
        }
        Some(WireId(wire_id))
    }

    /// Joins two ports with a new wire.
    pub fn connect(&mut self, source_node: NodeId, source_port: PortIndex, target_node: NodeId, target_port: PortIndex)
        ensures
            final(self)@ == old(self)@.connect(source_node.0, source_port.0, target_node.0, target_port.0),
            old(self).wf() ==> final(self).wf(),
    {
        let wire = Wire::new(Port::new(source_node, source_port), Port::new(target_node, target_port));
        self.add_wire(wire);
    }

    /// No node is left that could still take part in a rewrite: no λ,
    /// application, δ, primitive or IO operation.
    pub fn is_stuck(&self) -> (r: bool)
        ensures
            r == !exists|i: int| 0 <= i < self@.nodes.len() && #[trigger] active(self@.nodes[i].agent),
    {
        let mut i: usize = 0;
        while i < self.nodes.len()
            invariant
                i <= self.nodes.len(),
                self@.nodes.len() == self.nodes.len(),
                forall|j: int| 0 <= j < i ==> !#[trigger] active(self@.nodes[j].agent),
            decreases self.nodes.len() - i,
        {
            assert(self@.nodes[i as int] == self.nodes@[i as int]@);
            match &self.nodes[i].agent {
                Agent::Lambda | Agent::App | Agent::Delta | Agent::Prim(_) | Agent::PrimIO(_) => {
                    assert(active(self@.nodes[i as int].agent));
                    return false;
                },
                _ => {},
            }
            i += 1;
        }
        true
    }
}

/// The agents that can still take part in a rewrite.
pub open spec fn active(a: AgentView) -> bool {
    a is Lambda || a is App || a is Delta || a is Prim || a is PrimIO
}

impl Default for Net {
    fn default() -> (r: Net)
        ensures
            r@.nodes == Seq::<NodeView>::empty(),
            r@.wires == Seq::<Wire>::empty(),
            r@.free_ports == Seq::<(NodeId, PortIndex)>::empty(),
            r@.ports == Map::<(usize, usize), usize>::empty(),
            r.wf(),
    {
        Net::new()
    }
}

} // verus!
