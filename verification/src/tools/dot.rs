//! A net written in Graphviz's DOT language.
use vstd::prelude::*;

use crate::ast::display::{op_name, op_name_text};
use crate::runtime::evaluator::link_target;
use crate::runtime::net::{Agent, AgentView, Net, NetView, NodeId, PortIndex};
use crate::runtime::primitives::{nat_decimal, usize_to_decimal};
use crate::text::{concat, owned};

verus! {

/// How a node is labelled.
pub open spec fn node_label(a: AgentView) -> Seq<char> {
    match a {
        AgentView::Lambda => "λ"@,
        AgentView::App => "@"@,
        AgentView::Delta => "δ"@,
        AgentView::Epsilon => "ε"@,
        AgentView::Constructor(n) => n,
        AgentView::Prim(op) => op_name(op),
        AgentView::PrimVal(_) => "value"@,
        AgentView::PrimIO(_) => "io"@,
        AgentView::IOToken => "token"@,
    }
}

/// The colour a node is filled with.
pub open spec fn node_color(a: AgentView) -> Seq<char> {
    match a {
        AgentView::Lambda => "lightblue"@,
        AgentView::App => "lightcoral"@,
        AgentView::Delta => "lightgreen"@,
        AgentView::Epsilon => "gold"@,
        AgentView::Constructor(_) => "lightgray"@,
        AgentView::Prim(_) => "lightyellow"@,
        AgentView::PrimVal(_) => "white"@,
        AgentView::PrimIO(_) => "orange"@,
        AgentView::IOToken => "pink"@,
    }
}

pub open spec fn dot_header() -> Seq<char> {
    "digraph lambda_cicle {\n    rankdir=LR;\n    node [shape=box];\n\n"@
}

/// The line of the node numbered `id`.
pub open spec fn node_line(id: nat, a: AgentView) -> Seq<char> {
    "    "@ + nat_decimal(id) + " [label=\""@ + node_label(a) + "\" style=filled fillcolor="@ + node_color(a) + "];\n"@
}

/// The lines of the first `k` nodes.
pub open spec fn node_lines(v: NetView, k: nat) -> Seq<char>
    decreases k,
{
    if k == 0 || k > v.nodes.len() {
        Seq::empty()
    } else {
        node_lines(v, (k - 1) as nat) + node_line((k - 1) as nat, v.nodes[k - 1].agent)
    }
}

/// The edge of port `p` of node `id`, if the port is wired.
pub open spec fn port_line(v: NetView, id: usize, p: usize) -> Seq<char> {
    match link_target(v, id, p) {
        Some(t) => "    "@ + nat_decimal(id as nat) + " -> "@ + nat_decimal(t as nat) + " [label=\""@ + nat_decimal(p as nat)
            + "\"];\n"@,
        None => Seq::empty(),
    }
}

/// The edges of the first `k` ports of node `id`.
pub open spec fn port_lines(v: NetView, id: usize, k: nat) -> Seq<char>
    decreases k,
{
    if k == 0 {
        Seq::empty()
    } else {
        port_lines(v, id, (k - 1) as nat) + port_line(v, id, (k - 1) as usize)
    }
}

/// The edges of the first `k` nodes.
pub open spec fn edge_lines(v: NetView, k: nat) -> Seq<char>
    decreases k,
{
    if k == 0 || k > v.nodes.len() {
        Seq::empty()
    } else {
        edge_lines(v, (k - 1) as nat) + port_lines(v, (k - 1) as usize, v.nodes[k - 1].ports.len())
    }
}

/// The DOT text of a net: a box per node, labelled and coloured by its
/// agent, and an arrow per wired port, from its node to the node at the
/// other end, labelled with the port's number.
pub open spec fn dot_text(v: NetView) -> Seq<char> {
    dot_header() + node_lines(v, v.nodes.len()) + "\n"@ + edge_lines(v, v.nodes.len()) + "}\n"@
}

fn label_text(a: &Agent) -> (r: String)
    ensures
        r@ == node_label(a@),
{
    match a {
        Agent::Lambda => owned("λ"),
        Agent::App => owned("@"),
        Agent::Delta => owned("δ"),
        Agent::Epsilon => owned("ε"),
        Agent::Constructor(n) => n.clone(),
        Agent::Prim(op) => op_name_text(*op),
        Agent::PrimVal(_) => owned("value"),
        Agent::PrimIO(_) => owned("io"),
        Agent::IOToken => owned("token"),
    }
}

fn color_text(a: &Agent) -> (r: String)
    ensures
        r@ == node_color(a@),
{
    match a {
        Agent::Lambda => owned("lightblue"),
        Agent::App => owned("lightcoral"),
        Agent::Delta => owned("lightgreen"),
        Agent::Epsilon => owned("gold"),
        Agent::Constructor(_) => owned("lightgray"),
        Agent::Prim(_) => owned("lightyellow"),
        Agent::PrimVal(_) => owned("white"),
        Agent::PrimIO(_) => owned("orange"),
        Agent::IOToken => owned("pink"),
    }
}

/// Appends `s` to `out`.
fn push_text(out: &mut String, s: &str)
    ensures
        final(out)@ == old(out)@ + s@,
{
    let r = concat(out.as_str(), s);
    *out = r;
}

/// Writes a net in the DOT language.
pub fn net_to_dot(net: &Net) -> (r: String)
    ensures
        r@ == dot_text(net@),
{
    let ghost v = net@;
    let n = net.nodes().len();
    let mut out = owned("digraph lambda_cicle {\n    rankdir=LR;\n    node [shape=box];\n\n");
    let mut i: usize = 0;
    while i < n
        invariant
            v == net@,
            n == v.nodes.len(),
            i <= n,
            out@ == dot_header() + node_lines(v, i as nat),
        decreases n - i,
    {
        let node = net.get_node(NodeId(i)).unwrap();
        push_text(&mut out, "    ");
        push_text(&mut out, usize_to_decimal(i).as_str());
        push_text(&mut out, " [label=\"");
        push_text(&mut out, label_text(&node.agent).as_str());
        push_text(&mut out, "\" style=filled fillcolor=");
        push_text(&mut out, color_text(&node.agent).as_str());
        push_text(&mut out, "];\n");
        i += 1;
    }
    push_text(&mut out, "\n");
    let ghost mid = out@;
    let mut i: usize = 0;
    while i < n
        invariant
            v == net@,
            n == v.nodes.len(),
            i <= n,
            out@ == mid + edge_lines(v, i as nat),
        decreases n - i,
    {
        let ports = net.get_node(NodeId(i)).unwrap().num_ports();
        let ghost before = out@;
        let mut p: usize = 0;
        while p < ports
            invariant
                v == net@,
                i < n,
                n == v.nodes.len(),
                ports == v.nodes[i as int].ports.len(),
                p <= ports,
                out@ == before + port_lines(v, i, p as nat),
            decreases ports - p,
        {
            match net.get_connected_port(NodeId(i), PortIndex(p)) {
                Some((t, _)) => {
                    push_text(&mut out, "    ");
                    push_text(&mut out, usize_to_decimal(i).as_str());
                    push_text(&mut out, " -> ");
                    push_text(&mut out, usize_to_decimal(t.0).as_str());
                    push_text(&mut out, " [label=\"");
                    push_text(&mut out, usize_to_decimal(p).as_str());
                    push_text(&mut out, "\"];\n");
                },
                None => {},
            }
            p += 1;
        }
        i += 1;
    }
    push_text(&mut out, "}\n");
    out
}

} // verus!
