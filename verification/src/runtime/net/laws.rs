//! What holds of every net: wiring and unwiring, and what a step keeps.
use vstd::prelude::*;

use crate::runtime::net::rules::{
    after_prim, attempt, finish_prim, io_scan, prim_phase, prim_scan, release, rewire, scan, step_spec, Attempt,
    Candidate, Outcome, Rule,
};
use crate::runtime::net::{NetView, NodeId, PortIndex};

verus! {

/// Joining two distinct ports makes each the other's connected port.
pub proof fn law_connect_links_both_ends(v: NetView, n1: usize, p1: usize, n2: usize, p2: usize)
    requires
        (n1, p1) != (n2, p2),
        v.wires.len() < usize::MAX,
    ensures
        v.connect(n1, p1, n2, p2).connected(n1, p1) == Some((NodeId(n2), PortIndex(p2))),
        v.connect(n1, p1, n2, p2).connected(n2, p2) == Some((NodeId(n1), PortIndex(p1))),
{
    let w = v.connect(n1, p1, n2, p2);
    assert(w.ports.dom().contains((n1, p1)));
    assert(w.ports.dom().contains((n2, p2)));
    assert(w.ports[(n1, p1)] == v.wires.len());
    assert(w.wires[v.wires.len() as int] == w.wires.last());
}

/// After disconnecting a port, no wire is recorded there, nor at the port
/// it was connected to.
pub proof fn law_disconnect_unlinks(v: NetView, n: usize, p: usize)
    requires
        v.wf(),
    ensures
        v.disconnect(n, p).0.wire_at(n, p) is None,
        v.disconnect(n, p).0.connected(n, p) is None,
        v.connected(n, p) matches Some((m, q)) ==> v.disconnect(n, p).0.wire_at(m.0, q.0) is None,
        v.disconnect(n, p).0.wf(),
{
}

/// A rule at one node never takes nodes away.
proof fn lemma_attempt_keeps_nodes(rule: Rule, v: NetView, i: usize)
    ensures
        attempt(rule, v, i) matches Attempt::Halt(w) ==> w.nodes.len() >= v.nodes.len(),
        attempt(rule, v, i) matches Attempt::Fired(w) ==> w.nodes.len() >= v.nodes.len(),
{
    assert forall|w: NetView, dn: usize, dp: usize, tn: usize, tp: usize, c: Option<(NodeId, PortIndex)>| #[trigger] rewire(w, dn, dp, tn, tp, c).0.nodes.len() == w.nodes.len() by {
    }
}

/// Trying a rule over the nodes never takes nodes away.
proof fn lemma_scan_keeps_nodes(rule: Rule, v: NetView, i: nat)
    ensures
        scan(rule, v, i).0.nodes.len() >= v.nodes.len(),
    decreases v.nodes.len() - i,
{
    if i < v.nodes.len() {
        lemma_attempt_keeps_nodes(rule, v, i as usize);
        lemma_scan_keeps_nodes(rule, v, i + 1);
    }
}

proof fn lemma_release_keeps_nodes(v: NetView, ns: Seq<(NodeId, PortIndex)>, k: nat)
    ensures
        release(v, ns, k).0.nodes.len() == v.nodes.len(),
    decreases k,
{
    if k > 0 {
        lemma_release_keeps_nodes(v, ns, (k - 1) as nat);
    }
}

proof fn lemma_after_prim_keeps_nodes(v: NetView)
    ensures
        after_prim(v).0.nodes.len() >= v.nodes.len(),
{
    lemma_scan_keeps_nodes(Rule::PrimValErase, v, 0);
    lemma_scan_keeps_nodes(Rule::PrimValDup, scan(Rule::PrimValErase, v, 0).0, 0);
}

/// The primitive a scan finds is a node of the net.
proof fn lemma_prim_scan_in_range(v: NetView, k: nat)
    ensures
        prim_scan(v, k) matches Candidate::Found(i, _, _) ==> i < v.nodes.len(),
    decreases v.nodes.len() - k,
{
    if k < v.nodes.len() {
        lemma_prim_scan_in_range(v, k + 1);
    }
}

proof fn lemma_prim_phase_keeps_nodes(v: NetView)
    ensures
        prim_phase(v).0.nodes.len() >= v.nodes.len(),
{
    lemma_after_prim_keeps_nodes(v);
    lemma_prim_scan_in_range(v, 0);
    if let Candidate::Found(i, vs, ns) = prim_scan(v, 0) {
        lemma_release_keeps_nodes(v, ns, ns.len());
        lemma_after_prim_keeps_nodes(release(v, ns, ns.len()).0);
    }
}

/// A step never takes nodes away, so the number of a node stays valid from
/// one step to the next.
pub proof fn law_step_keeps_nodes(v: NetView)
    ensures
        step_spec(v).0.nodes.len() >= v.nodes.len(),
{
    let (v1, b1) = scan(Rule::Beta, v, 0);
    let (v2, b2) = scan(Rule::Duplication, v1, 0);
    let (v3, b3) = scan(Rule::Erasure, v2, 0);
    let (v4, b4) = scan(Rule::Commute, v3, 0);
    let (v5, b5) = scan(Rule::EraseBranch, v4, 0);
    lemma_scan_keeps_nodes(Rule::Beta, v, 0);
    lemma_scan_keeps_nodes(Rule::Duplication, v1, 0);
    lemma_scan_keeps_nodes(Rule::Erasure, v2, 0);
    lemma_scan_keeps_nodes(Rule::Commute, v3, 0);
    lemma_scan_keeps_nodes(Rule::EraseBranch, v4, 0);
    lemma_prim_phase_keeps_nodes(v5);
}

/// A step that hands out a floating-point or IO operation leaves the net so
/// that the matching resume completes that same operation, on the same
/// arguments.
pub proof fn law_step_hands_out_next_operation(v: NetView)
    ensures
        step_spec(v).1 matches Outcome::Float(i, op, vs) ==> prim_scan(step_spec(v).0, 0) matches Candidate::Found(j, ws, _)
            && j == i && ws == vs,
        step_spec(v).1 matches Outcome::Io(i, op, vs) ==> io_scan(step_spec(v).0, 0) matches Candidate::Found(j, ws, _)
            && j == i && ws == vs,
{
}

} // verus!
