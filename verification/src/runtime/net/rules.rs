//! The rewrite rules of the net, and the step that applies the first rule that
//! fits. Each rule scans the nodes in order; at each node it either passes on
//! to the next node, gives up on the whole rule (a port it reads is not
//! connected), or rewrites the net.
use vstd::prelude::*;

use crate::runtime::net::node::fresh_node;
use crate::runtime::net::{Agent, AgentView, InteractionResult, Net, NetView, Node, NodeId, PortIndex};
use crate::runtime::primitives::{apply_panics, spec_apply, values_view, IOOp, PrimOp, PrimVal, SpecPrimVal};

verus! {

/// What trying a rule at one node came to: nothing to do there, the rule
/// gave up (with the net as it was left), or the rule rewrote the net.
pub enum Attempt {
    Skip,
    Halt(NetView),
    Fired(NetView),
}

/// The rules that need nothing from outside the net, in the order a step
/// tries them (the primitive evaluation comes between the fifth and sixth).
#[derive(Debug, Clone, Copy, PartialEq, Eq, Structural)]
pub enum Rule {
    Beta,
    Duplication,
    Erasure,
    Commute,
    EraseBranch,
    PrimValErase,
    PrimValDup,
}

/// λ meets an application at its port 1: the argument is wired to the
/// λ's port 2 and the λ's port 0 to the application's result.
pub open spec fn beta_at(v: NetView, i: usize) -> Attempt {
    if !(v.nodes[i as int].agent is Lambda) {
        Attempt::Skip
    } else {
        match v.connected(i, 1) {
            None => Attempt::Halt(v),
            Some((app, ap)) => if ap.0 != 0 {
                Attempt::Skip
            } else {
                match v.node(app.0) {
                    None => Attempt::Halt(v),
                    Some(an) => if !(an.agent is App) {
                        Attempt::Skip
                    } else {
                        match v.connected(app.0, 1) {
                            None => Attempt::Halt(v),
                            Some((argn, argp)) => {
                                let (v1, r1) = v.disconnect(i, 1);
                                if r1 is None {
                                    Attempt::Halt(v1)
                                } else {
                                    let (v2, r2) = v1.disconnect(app.0, 1);
                                    if r2 is None {
                                        Attempt::Halt(v2)
                                    } else {
                                        Attempt::Fired(v2.connect(argn.0, argp.0, i, 2).connect(i, 0, app.0, 2))
                                    }
                                }
                            },
                        }
                    },
                }
            },
        }
    }
}

/// δ meets a λ at the λ's port 1: a fresh λ shares the body and takes the
/// δ's second output.
pub open spec fn duplication_at(v: NetView, i: usize) -> Attempt {
    if !(v.nodes[i as int].agent is Delta) {
        Attempt::Skip
    } else {
        match v.connected(i, 1) {
            None => Attempt::Halt(v),
            Some((lam, lp)) => if lp.0 != 1 {
                Attempt::Skip
            } else {
                match v.node(lam.0) {
                    None => Attempt::Halt(v),
                    Some(ln) => if !(ln.agent is Lambda) {
                        Attempt::Skip
                    } else {
                        match v.connected(lam.0, 2) {
                            None => Attempt::Halt(v),
                            Some((bn, bp)) => {
                                let fresh = v.nodes.len() as usize;
                                let v1 = v.add_node(fresh_node(AgentView::Lambda, 3));
                                Attempt::Fired(v1.connect(fresh, 2, bn.0, bp.0).connect(i, 2, fresh, 1))
                            },
                        }
                    },
                }
            },
        }
    }
}

/// ε meets a λ at the λ's port 1: the λ's wires are cut and its ports, and
/// the port its body was wired to, are left free.
pub open spec fn erasure_at(v: NetView, i: usize) -> Attempt {
    if !(v.nodes[i as int].agent is Epsilon) {
        Attempt::Skip
    } else {
        match v.connected(i, 0) {
            None => Attempt::Halt(v),
            Some((lam, lp)) => if lp.0 != 1 {
                Attempt::Skip
            } else {
                match v.node(lam.0) {
                    None => Attempt::Halt(v),
                    Some(ln) => if !(ln.agent is Lambda) {
                        Attempt::Skip
                    } else {
                        let (v1, r1) = v.disconnect(i, 0);
                        if r1 is None {
                            Attempt::Halt(v1)
                        } else {
                            let (v2, r2) = v1.disconnect(lam.0, 1);
                            if r2 is None {
                                Attempt::Halt(v2)
                            } else {
                                let v3 = match v2.connected(lam.0, 2) {
                                    Some((bn, bp)) => v2.disconnect(lam.0, 2).0.add_free_port(bn.0, bp.0),
                                    None => v2,
                                };
                                Attempt::Fired(v3.add_free_port(lam.0, 1).add_free_port(lam.0, 2))
                            }
                        }
                    },
                }
            },
        }
    }
}

/// Moves the wire at port `dp` of node `dn`, if `c` says where it led, to
/// port `tp` of node `tn`; the flag is false when the disconnection found no
/// wire.
pub open spec fn rewire(v: NetView, dn: usize, dp: usize, tn: usize, tp: usize, c: Option<(NodeId, PortIndex)>) -> (NetView, bool) {
    match c {
        None => (v, true),
        Some((n, p)) => {
            let (v1, r) = v.disconnect(dn, dp);
            if r is None {
                (v1, false)
            } else {
                (v1.connect(tn, tp, n.0, p.0), true)
            }
        },
    }
}

/// Two δ meet at their ports 0: their outputs are exchanged.
pub open spec fn commute_at(v: NetView, i: usize) -> Attempt {
    if !(v.nodes[i as int].agent is Delta) {
        Attempt::Skip
    } else {
        match v.connected(i, 0) {
            None => Attempt::Halt(v),
            Some((d2, d2p)) => if d2p.0 != 0 {
                Attempt::Skip
            } else {
                match v.node(d2.0) {
                    None => Attempt::Halt(v),
                    Some(dn) => if !(dn.agent is Delta) {
                        Attempt::Skip
                    } else {
                        let c11 = v.connected(i, 1);
                        let c12 = v.connected(i, 2);
                        let c21 = v.connected(d2.0, 1);
                        let c22 = v.connected(d2.0, 2);
                        let (v1, r1) = v.disconnect(i, 0);
                        if r1 is None {
                            Attempt::Halt(v1)
                        } else {
                            let (v2, r2) = v1.disconnect(d2.0, 0);
                            if r2 is None {
                                Attempt::Halt(v2)
                            } else {
                                let (w1, ok1) = rewire(v2, d2.0, 1, i, 0, c21);
                                if !ok1 {
                                    Attempt::Halt(w1)
                                } else {
                                    let (w2, ok2) = rewire(w1, d2.0, 2, i, 1, c22);
                                    if !ok2 {
                                        Attempt::Halt(w2)
                                    } else {
                                        let (w3, ok3) = rewire(w2, i, 1, d2.0, 0, c11);
                                        if !ok3 {
                                            Attempt::Halt(w3)
                                        } else {
                                            let (w4, ok4) = rewire(w3, i, 2, d2.0, 1, c12);
                                            if !ok4 {
                                                Attempt::Halt(w4)
                                            } else {
                                                Attempt::Fired(w4)
                                            }
                                        }
                                    }
                                }
                            }
                        }
                    },
                }
            },
        }
    }
}

/// An output `port` of the δ at `i` meets an ε: the wire is cut and the
/// δ's port is left free.
pub open spec fn erase_branch_port(v: NetView, i: usize, port: usize) -> Attempt {
    match v.connected(i, port) {
        None => Attempt::Halt(v),
        Some((o, op)) => match v.node(o.0) {
            None => Attempt::Halt(v),
            Some(on) => if on.agent is Epsilon {
                let (v1, r1) = v.disconnect(i, port);
                if r1 is None {
                    Attempt::Halt(v1)
                } else {
                    let (v2, r2) = v1.disconnect(o.0, op.0);
                    if r2 is None {
                        Attempt::Halt(v2)
                    } else {
                        Attempt::Fired(v2.add_free_port(i, port))
                    }
                }
            } else {
                Attempt::Skip
            },
        },
    }
}

/// A δ whose first, else second, output meets an ε.
pub open spec fn erase_branch_at(v: NetView, i: usize) -> Attempt {
    if !(v.nodes[i as int].agent is Delta) {
        Attempt::Skip
    } else {
        match erase_branch_port(v, i, 1) {
            Attempt::Skip => erase_branch_port(v, i, 2),
            other => other,
        }
    }
}

/// A value meets an ε at their ports 0: the wire is cut.
pub open spec fn prim_val_erase_at(v: NetView, i: usize) -> Attempt {
    if !(v.nodes[i as int].agent is PrimVal) {
        Attempt::Skip
    } else {
        match v.connected(i, 0) {
            None => Attempt::Halt(v),
            Some((e, ep)) => if ep.0 != 0 {
                Attempt::Skip
            } else {
                match v.node(e.0) {
                    None => Attempt::Halt(v),
                    Some(en) => if !(en.agent is Epsilon) {
                        Attempt::Skip
                    } else {
                        let (v1, r1) = v.disconnect(i, 0);
                        if r1 is None {
                            Attempt::Halt(v1)
                        } else {
                            let (v2, r2) = v1.disconnect(e.0, 0);
                            if r2 is None {
                                Attempt::Halt(v2)
                            } else {
                                Attempt::Fired(v2)
                            }
                        }
                    },
                }
            },
        }
    }
}

/// A value meets a δ at their ports 1: a copy of the value takes the δ's
/// second output.
pub open spec fn prim_val_dup_at(v: NetView, i: usize) -> Attempt {
    match v.nodes[i as int].agent {
        AgentView::PrimVal(val) => match v.connected(i, 1) {
            None => Attempt::Halt(v),
            Some((d, dp)) => if dp.0 != 1 {
                Attempt::Skip
            } else {
                match v.node(d.0) {
                    None => Attempt::Halt(v),
                    Some(dn) => if !(dn.agent is Delta) {
                        Attempt::Skip
                    } else {
                        let fresh = v.nodes.len() as usize;
                        let v1 = v.add_node(fresh_node(AgentView::PrimVal(val), 1));
                        Attempt::Fired(v1.connect(d.0, 2, fresh, 1))
                    },
                }
            },
        },
        _ => Attempt::Skip,
    }
}

pub open spec fn attempt(rule: Rule, v: NetView, i: usize) -> Attempt {
    match rule {
        Rule::Beta => beta_at(v, i),
        Rule::Duplication => duplication_at(v, i),
        Rule::Erasure => erasure_at(v, i),
        Rule::Commute => commute_at(v, i),
        Rule::EraseBranch => erase_branch_at(v, i),
        Rule::PrimValErase => prim_val_erase_at(v, i),
        Rule::PrimValDup => prim_val_dup_at(v, i),
    }
}

/// Tries a rule at the nodes from the `i`-th on: the net it leaves and
/// whether it rewrote.
pub open spec fn scan(rule: Rule, v: NetView, i: nat) -> (NetView, bool)
    decreases v.nodes.len() - i,
{
    if i >= v.nodes.len() {
        (v, false)
    } else {
        match attempt(rule, v, i as usize) {
            Attempt::Skip => scan(rule, v, i + 1),
            Attempt::Halt(w) => (w, false),
            Attempt::Fired(w) => (w, true),
        }
    }
}

/// The values at the ports `first`, `first + 1`, ... of node `i`: the
/// reading gives up when a port leads to a missing node, and stops short at
/// an unconnected port or one that leads to something else than a value.
pub enum Gathered {
    Halt,
    Missing,
    Values(Seq<SpecPrimVal>, Seq<(NodeId, PortIndex)>),
}

/// The values at the first `k` of those ports.
pub open spec fn gather(v: NetView, i: usize, first: nat, k: nat) -> Gathered
    decreases k,
{
    if k == 0 {
        Gathered::Values(Seq::empty(), Seq::empty())
    } else {
        match gather(v, i, first, (k - 1) as nat) {
            Gathered::Values(vs, ns) => match v.connected(i, (first + k - 1) as usize) {
                None => Gathered::Missing,
                Some((n, p)) => match v.node(n.0) {
                    None => Gathered::Halt,
                    Some(nv) => match nv.agent {
                        AgentView::PrimVal(val) => Gathered::Values(vs.push(val), ns.push((n, p))),
                        _ => Gathered::Missing,
                    },
                },
            },
            other => other,
        }
    }
}

/// Where the next evaluation of a primitive or IO operation stands.
pub enum Candidate {
    NotFound,
    Halt,
    Found(usize, Seq<SpecPrimVal>, Seq<(NodeId, PortIndex)>),
}

/// The first primitive operation, from the `i`-th node on, whose arguments
/// are all values.
pub open spec fn prim_scan(v: NetView, i: nat) -> Candidate
    decreases v.nodes.len() - i,
{
    if i >= v.nodes.len() {
        Candidate::NotFound
    } else {
        match v.nodes[i as int].agent {
            AgentView::Prim(op) => match gather(v, i as usize, 1, op.spec_arity() as nat) {
                Gathered::Halt => Candidate::Halt,
                Gathered::Values(vs, ns) => Candidate::Found(i as usize, vs, ns),
                Gathered::Missing => prim_scan(v, i + 1),
            },
            _ => prim_scan(v, i + 1),
        }
    }
}

/// The first IO operation, from the `i`-th node on, that holds the IO token
/// at its port 1 and whose arguments are all values.
pub open spec fn io_scan(v: NetView, i: nat) -> Candidate
    decreases v.nodes.len() - i,
{
    if i >= v.nodes.len() {
        Candidate::NotFound
    } else {
        match v.nodes[i as int].agent {
            AgentView::PrimIO(op) => match v.connected(i as usize, 1) {
                None => Candidate::Halt,
                Some((t, tp)) => if tp.0 != 0 {
                    io_scan(v, i + 1)
                } else {
                    match v.node(t.0) {
                        None => Candidate::Halt,
                        Some(tn) => if !(tn.agent is IOToken) {
                            io_scan(v, i + 1)
                        } else {
                            match gather(v, i as usize, 2, op.spec_arity() as nat) {
                                Gathered::Halt => Candidate::Halt,
                                Gathered::Values(vs, ns) => Candidate::Found(i as usize, vs, ns),
                                Gathered::Missing => io_scan(v, i + 1),
                            }
                        },
                    }
                },
            },
            _ => io_scan(v, i + 1),
        }
    }
}

/// Cuts the wires at the first `k` of the given ports, in order; the flag is
/// false when one of them had none.
pub open spec fn release(v: NetView, ns: Seq<(NodeId, PortIndex)>, k: nat) -> (NetView, bool)
    decreases k,
{
    if k == 0 {
        (v, true)
    } else {
        let (w, ok) = release(v, ns, (k - 1) as nat);
        if !ok {
            (w, false)
        } else {
            let (w2, r) = w.disconnect(ns[k - 1].0.0, ns[k - 1].1.0);
            (w2, r is Some)
        }
    }
}

/// What a step came to: a rewrite (or none), or a request for what only
/// the caller can compute: a floating-point operation, an IO operation, or
/// an integer operation that overflows.
pub enum Outcome {
    Done(InteractionResult),
    Float(usize, PrimOp, Seq<SpecPrimVal>),
    Io(usize, IOOp, Seq<SpecPrimVal>),
    Overflow(usize, PrimOp, Seq<SpecPrimVal>),
}

/// The last rules of a step, after the primitive evaluation did not happen.
pub open spec fn after_prim(v: NetView) -> (NetView, Outcome) {
    let (v6, b6) = scan(Rule::PrimValErase, v, 0);
    if b6 {
        (v6, Outcome::Done(InteractionResult::PrimValErase))
    } else {
        let (v7, b7) = scan(Rule::PrimValDup, v6, 0);
        if b7 {
            (v7, Outcome::Done(InteractionResult::PrimValDup))
        } else {
            match io_scan(v7, 0) {
                Candidate::Found(i, vs, ns) => match v7.nodes[i as int].agent {
                    AgentView::PrimIO(op) => (v7, Outcome::Io(i, op, vs)),
                    _ => (v7, Outcome::Done(InteractionResult::NoInteraction)),
                },
                _ => (v7, Outcome::Done(InteractionResult::NoInteraction)),
            }
        }
    }
}

/// Replaces the primitive at `i` by its result, after cutting the wires of
/// its arguments; when a cut finds no wire the step goes on with the rules
/// after the primitive evaluation.
pub open spec fn finish_prim(v: NetView, i: usize, ns: Seq<(NodeId, PortIndex)>, r: SpecPrimVal) -> (NetView, Outcome) {
    let (w, ok) = release(v, ns, ns.len());
    if ok {
        (w.set_node(i, fresh_node(AgentView::PrimVal(r), 1)), Outcome::Done(InteractionResult::PrimEval))
    } else {
        after_prim(w)
    }
}

/// The primitive evaluation and the rules after it.
pub open spec fn prim_phase(v: NetView) -> (NetView, Outcome) {
    match prim_scan(v, 0) {
        Candidate::Found(i, vs, ns) => match v.nodes[i as int].agent {
            AgentView::Prim(op) => if op.spec_is_float_op() {
                (v, Outcome::Float(i, op, vs))
            } else if apply_panics(op, vs) {
                (v, Outcome::Overflow(i, op, vs))
            } else {
                match spec_apply(op, vs) {
                    Some(r) => finish_prim(v, i, ns, r),
                    None => after_prim(v),
                }
            },
            _ => after_prim(v),
        },
        _ => after_prim(v),
    }
}

/// One step: the first rule that fits, in the order β, duplication,
/// erasure, commutation, branch erasure, primitive evaluation, value
/// erasure, value duplication, IO evaluation.
pub open spec fn step_spec(v: NetView) -> (NetView, Outcome) {
    let (v1, b1) = scan(Rule::Beta, v, 0);
    if b1 {
        (v1, Outcome::Done(InteractionResult::BetaReduction))
    } else {
        let (v2, b2) = scan(Rule::Duplication, v1, 0);
        if b2 {
            (v2, Outcome::Done(InteractionResult::Duplication))
        } else {
            let (v3, b3) = scan(Rule::Erasure, v2, 0);
            if b3 {
                (v3, Outcome::Done(InteractionResult::Erasure))
            } else {
                let (v4, b4) = scan(Rule::Commute, v3, 0);
                if b4 {
                    (v4, Outcome::Done(InteractionResult::Commute))
                } else {
                    let (v5, b5) = scan(Rule::EraseBranch, v4, 0);
                    if b5 {
                        (v5, Outcome::Done(InteractionResult::EraseBranch))
                    } else {
                        prim_phase(v5)
                    }
                }
            }
        }
    }
}

/// Completes a floating-point evaluation with the result the caller
/// computed (`None`: the operation did not apply to its arguments).
pub open spec fn resume_prim_spec(v: NetView, result: Option<SpecPrimVal>) -> (NetView, Outcome) {
    match (prim_scan(v, 0), result) {
        (Candidate::Found(i, vs, ns), Some(r)) => finish_prim(v, i, ns, r),
        _ => after_prim(v),
    }
}

/// Completes an IO operation with the value the caller's IO gave (`None`:
/// the operation did not apply to its arguments): the argument wires are
/// cut, a fresh IO token takes port 1 and the result port 0.
pub open spec fn finish_io(v: NetView, i: usize, ns: Seq<(NodeId, PortIndex)>, r: SpecPrimVal) -> (NetView, InteractionResult) {
    let (w, ok) = release(v, ns, ns.len());
    if !ok {
        (w, InteractionResult::NoInteraction)
    } else {
        let (w1, r1) = w.disconnect(i, 1);
        if r1 is None {
            (w1, InteractionResult::NoInteraction)
        } else {
            let tok = w1.nodes.len() as usize;
            let w2 = w1.add_node(fresh_node(AgentView::IOToken, 1)).connect(tok, 0, i, 1);
            let res = w2.nodes.len() as usize;
            let w3 = w2.add_node(fresh_node(AgentView::PrimVal(r), 1)).connect(res, 0, i, 0);
            (w3, InteractionResult::PrimEval)
        }
    }
}

pub open spec fn resume_io_spec(v: NetView, result: Option<SpecPrimVal>) -> (NetView, InteractionResult) {
    match (io_scan(v, 0), result) {
        (Candidate::Found(i, vs, ns), Some(r)) => finish_io(v, i, ns, r),
        _ => (v, InteractionResult::NoInteraction),
    }
}

} // verus!
