//! The rewrite rules carried out on a [`Net`], as the rules module states them.
use vstd::prelude::*;

use crate::runtime::net::node::fresh_node;
use crate::runtime::net::rules::{
    after_prim, attempt, beta_at, commute_at, duplication_at, erase_branch_at, erase_branch_port, erasure_at, finish_io,
    finish_prim, gather, io_scan, prim_phase, prim_scan, prim_val_dup_at, prim_val_erase_at, release, resume_io_spec,
    resume_prim_spec, rewire, scan, step_spec, Attempt, Candidate, Gathered, Outcome, Rule,
};
use crate::runtime::net::{Agent, AgentView, InteractionResult, Net, NetView, Node, NodeId, PortIndex};
use crate::runtime::primitives::{apply_panics, values_view, IOOp, PrimOp, PrimVal, SpecPrimVal};

verus! {

/// What trying a rule at one node came to.
enum Tried {
    Skip,
    Halt,
    Fired,
}

spec fn tried(r: Tried, a: Attempt, before: NetView, after: NetView) -> bool {
    match a {
        Attempt::Skip => r is Skip && after == before,
        Attempt::Halt(w) => r is Halt && after == w,
        Attempt::Fired(w) => r is Fired && after == w,
    }
}

/// The values read at consecutive ports of a node.
enum Gather {
    Halt,
    Missing,
    Values(Vec<PrimVal>, Vec<(NodeId, PortIndex)>),
}

spec fn gathered(r: Gather, g: Gathered) -> bool {
    match r {
        Gather::Halt => g is Halt,
        Gather::Missing => g is Missing,
        Gather::Values(vs, ns) => g == Gathered::Values(values_view(vs@), ns@),
    }
}

/// A node found by a scan for the next primitive or IO evaluation.
enum Found {
    NotFound,
    Halt,
    At(usize, Vec<PrimVal>, Vec<(NodeId, PortIndex)>),
}

spec fn found(r: Found, c: Candidate) -> bool {
    match r {
        Found::NotFound => c is NotFound,
        Found::Halt => c is Halt,
        Found::At(i, vs, ns) => c == Candidate::Found(i, values_view(vs@), ns@),
    }
}

/// What a step came to: a rewrite (`Done`, with `NoInteraction` when no rule
/// fits), or the evaluation of a floating-point operation, of an IO
/// operation, or of an integer operation that overflows, at `node` with
/// `args`, which the caller carries out.
#[derive(Debug)]
pub enum StepOutcome {
    Done(InteractionResult),
    Float { node: NodeId, op: PrimOp, args: Vec<PrimVal> },
    Io { node: NodeId, op: IOOp, args: Vec<PrimVal> },
    Overflow { node: NodeId, op: PrimOp, args: Vec<PrimVal> },
}

impl View for StepOutcome {
    type V = Outcome;

    open spec fn view(&self) -> Outcome {
        match self {
            StepOutcome::Done(r) => Outcome::Done(*r),
            StepOutcome::Float { node, op, args } => Outcome::Float(node.0, *op, values_view(args@)),
            StepOutcome::Io { node, op, args } => Outcome::Io(node.0, *op, values_view(args@)),
            StepOutcome::Overflow { node, op, args } => Outcome::Overflow(node.0, *op, values_view(args@)),
        }
    }
}

/// The view of an optional value.
pub open spec fn opt_value(r: Option<PrimVal>) -> Option<SpecPrimVal> {
    match r {
        Some(v) => Some(v@),
        None => None,
    }
}

/// Once the reading has stopped, reading more ports changes nothing.
proof fn lemma_gather_stops(v: NetView, i: usize, first: nat, k: nat, m: nat)
    requires
        k <= m,
        !(gather(v, i, first, k) is Values),
    ensures
        gather(v, i, first, m) == gather(v, i, first, k),
    decreases m - k,
{
    if k < m {
        lemma_gather_stops(v, i, first, k, (m - 1) as nat);
    }
}

/// Once a cut has found no wire, later cuts are not made.
proof fn lemma_release_stops(v: NetView, ns: Seq<(NodeId, PortIndex)>, k: nat, m: nat)
    requires
        k <= m,
        !release(v, ns, k).1,
    ensures
        release(v, ns, m) == release(v, ns, k),
    decreases m - k,
{
    if k < m {
        lemma_release_stops(v, ns, k, (m - 1) as nat);
    }
}

/// Cutting wires leaves the nodes as they were.
proof fn lemma_release_nodes(v: NetView, ns: Seq<(NodeId, PortIndex)>, k: nat)
    ensures
        release(v, ns, k).0.nodes == v.nodes,
    decreases k,
{
    if k > 0 {
        lemma_release_nodes(v, ns, (k - 1) as nat);
    }
}

/// The value seen through a pushed element.
proof fn lemma_values_push(vs: Seq<PrimVal>, x: PrimVal)
    ensures
        values_view(vs.push(x)) == values_view(vs).push(x@),
{
    assert(values_view(vs.push(x)) =~= values_view(vs).push(x@));
}

impl Net {
    /// The agent of the node numbered `id`, if there is one.
    fn agent_at(&self, id: NodeId) -> (r: Option<&Agent>)
        ensures
            r matches Some(a) ==> self@.node(id.0) matches Some(nv) && nv.agent == a@,
            r is None ==> self@.node(id.0) is None,
    {
        match self.get_node(id) {
            Some(n) => Some(&n.agent),
            None => None,
        }
    }

    fn beta_here(&mut self, i: usize) -> (r: Tried)
        requires
            old(self).wf(),
            i < old(self)@.nodes.len(),
        ensures
            final(self).wf(),
            tried(r, beta_at(old(self)@, i), old(self)@, final(self)@),
    {
        let lam = NodeId(i);
        match self.agent_at(lam) {
            Some(Agent::Lambda) => {},
            _ => return Tried::Skip,
        }
        let (app, ap) = match self.get_connected_port(lam, PortIndex(1)) {
            Some(c) => c,
            None => return Tried::Halt,
        };
        if ap.0 != 0 {
            return Tried::Skip;
        }
        match self.agent_at(app) {
            None => return Tried::Halt,
            Some(Agent::App) => {},
            Some(_) => return Tried::Skip,
        }
        let (argn, argp) = match self.get_connected_port(app, PortIndex(1)) {
            Some(c) => c,
            None => return Tried::Halt,
        };
        if self.disconnect_port(lam, PortIndex(1)).is_none() {
            return Tried::Halt;
        }
        if self.disconnect_port(app, PortIndex(1)).is_none() {
            return Tried::Halt;
        }
        self.connect(argn, argp, lam, PortIndex(2));
        self.connect(lam, PortIndex(0), app, PortIndex(2));
        Tried::Fired
    }

    fn duplication_here(&mut self, i: usize) -> (r: Tried)
        requires
            old(self).wf(),
            i < old(self)@.nodes.len(),
        ensures
            final(self).wf(),
            tried(r, duplication_at(old(self)@, i), old(self)@, final(self)@),
    {
        let delta = NodeId(i);
        match self.agent_at(delta) {
            Some(Agent::Delta) => {},
            _ => return Tried::Skip,
        }
        let (lam, lp) = match self.get_connected_port(delta, PortIndex(1)) {
            Some(c) => c,
            None => return Tried::Halt,
        };
        if lp.0 != 1 {
            return Tried::Skip;
        }
        match self.agent_at(lam) {
            None => return Tried::Halt,
            Some(Agent::Lambda) => {},
            Some(_) => return Tried::Skip,
        }
        let (bn, bp) = match self.get_connected_port(lam, PortIndex(2)) {
            Some(c) => c,
            None => return Tried::Halt,
        };
        let fresh = self.add_node(Node::lambda());
        self.connect(fresh, PortIndex(2), bn, bp);
        self.connect(delta, PortIndex(2), fresh, PortIndex(1));
        Tried::Fired
    }

    fn erasure_here(&mut self, i: usize) -> (r: Tried)
        requires
            old(self).wf(),
            i < old(self)@.nodes.len(),
        ensures
            final(self).wf(),
            tried(r, erasure_at(old(self)@, i), old(self)@, final(self)@),
    {
        let eps = NodeId(i);
        match self.agent_at(eps) {
            Some(Agent::Epsilon) => {},
            _ => return Tried::Skip,
        }
        let (lam, lp) = match self.get_connected_port(eps, PortIndex(0)) {
            Some(c) => c,
            None => return Tried::Halt,
        };
        if lp.0 != 1 {
            return Tried::Skip;
        }
        match self.agent_at(lam) {
            None => return Tried::Halt,
            Some(Agent::Lambda) => {},
            Some(_) => return Tried::Skip,
        }
        if self.disconnect_port(eps, PortIndex(0)).is_none() {
            return Tried::Halt;
        }
        if self.disconnect_port(lam, PortIndex(1)).is_none() {
            return Tried::Halt;
        }
        match self.get_connected_port(lam, PortIndex(2)) {
            Some((bn, bp)) => {
                self.disconnect_port(lam, PortIndex(2));
                self.add_free_port(bn, bp);
            },
            None => {},
        }
        self.add_free_port(lam, PortIndex(1));
        self.add_free_port(lam, PortIndex(2));
        Tried::Fired
    }

    fn rewire_port(&mut self, dn: NodeId, dp: PortIndex, tn: NodeId, tp: PortIndex, c: Option<(NodeId, PortIndex)>) -> (ok: bool)
        requires
            old(self).wf(),
        ensures
            final(self).wf(),
            (final(self)@, ok) == rewire(old(self)@, dn.0, dp.0, tn.0, tp.0, c),
    {
        match c {
            None => true,
            Some((n, p)) => {
                if self.disconnect_port(dn, dp).is_none() {
                    return false;
                }
                self.connect(tn, tp, n, p);
                true
            },
        }
    }

    fn commute_here(&mut self, i: usize) -> (r: Tried)
        requires
            old(self).wf(),
            i < old(self)@.nodes.len(),
        ensures
            final(self).wf(),
            tried(r, commute_at(old(self)@, i), old(self)@, final(self)@),
    {
        let d1 = NodeId(i);
        match self.agent_at(d1) {
            Some(Agent::Delta) => {},
            _ => return Tried::Skip,
        }
        let (d2, d2p) = match self.get_connected_port(d1, PortIndex(0)) {
            Some(c) => c,
            None => return Tried::Halt,
        };
        if d2p.0 != 0 {
            return Tried::Skip;
        }
        match self.agent_at(d2) {
            None => return Tried::Halt,
            Some(Agent::Delta) => {},
            Some(_) => return Tried::Skip,
        }
        let c11 = self.get_connected_port(d1, PortIndex(1));
        let c12 = self.get_connected_port(d1, PortIndex(2));
        let c21 = self.get_connected_port(d2, PortIndex(1));
        let c22 = self.get_connected_port(d2, PortIndex(2));
        if self.disconnect_port(d1, PortIndex(0)).is_none() {
            return Tried::Halt;
        }
        if self.disconnect_port(d2, PortIndex(0)).is_none() {
            return Tried::Halt;
        }
        if !self.rewire_port(d2, PortIndex(1), d1, PortIndex(0), c21) {
            return Tried::Halt;
        }
        if !self.rewire_port(d2, PortIndex(2), d1, PortIndex(1), c22) {
            return Tried::Halt;
        }
        if !self.rewire_port(d1, PortIndex(1), d2, PortIndex(0), c11) {
            return Tried::Halt;
        }
        if !self.rewire_port(d1, PortIndex(2), d2, PortIndex(1), c12) {
            return Tried::Halt;
        }
        Tried::Fired
    }

    fn erase_branch_port_here(&mut self, i: usize, port: usize) -> (r: Tried)
        requires
            old(self).wf(),
        ensures
            final(self).wf(),
            tried(r, erase_branch_port(old(self)@, i, port), old(self)@, final(self)@),
    {
        let delta = NodeId(i);
        let (o, op) = match self.get_connected_port(delta, PortIndex(port)) {
            Some(c) => c,
            None => return Tried::Halt,
        };
        match self.agent_at(o) {
            None => return Tried::Halt,
            Some(Agent::Epsilon) => {},
            Some(_) => return Tried::Skip,
        }
        if self.disconnect_port(delta, PortIndex(port)).is_none() {
            return Tried::Halt;
        }
        if self.disconnect_port(o, op).is_none() {
            return Tried::Halt;
        }
        self.add_free_port(delta, PortIndex(port));
        Tried::Fired
    }

    fn erase_branch_here(&mut self, i: usize) -> (r: Tried)
        requires
            old(self).wf(),
            i < old(self)@.nodes.len(),
        ensures
            final(self).wf(),
            tried(r, erase_branch_at(old(self)@, i), old(self)@, final(self)@),
    {
        match self.agent_at(NodeId(i)) {
            Some(Agent::Delta) => {},
            _ => return Tried::Skip,
        }
        match self.erase_branch_port_here(i, 1) {
            Tried::Skip => self.erase_branch_port_here(i, 2),
            other => other,
        }
    }

    fn prim_val_erase_here(&mut self, i: usize) -> (r: Tried)
        requires
            old(self).wf(),
            i < old(self)@.nodes.len(),
        ensures
            final(self).wf(),
            tried(r, prim_val_erase_at(old(self)@, i), old(self)@, final(self)@),
    {
        let val = NodeId(i);
        match self.agent_at(val) {
            Some(Agent::PrimVal(_)) => {},
            _ => return Tried::Skip,
        }
        let (e, ep) = match self.get_connected_port(val, PortIndex(0)) {
            Some(c) => c,
            None => return Tried::Halt,
        };
        if ep.0 != 0 {
            return Tried::Skip;
        }
        match self.agent_at(e) {
            None => return Tried::Halt,
            Some(Agent::Epsilon) => {},
            Some(_) => return Tried::Skip,
        }
        if self.disconnect_port(val, PortIndex(0)).is_none() {
            return Tried::Halt;
        }
        if self.disconnect_port(e, PortIndex(0)).is_none() {
            return Tried::Halt;
        }
        Tried::Fired
    }

    fn prim_val_dup_here(&mut self, i: usize) -> (r: Tried)
        requires
            old(self).wf(),
            i < old(self)@.nodes.len(),
        ensures
            final(self).wf(),
            tried(r, prim_val_dup_at(old(self)@, i), old(self)@, final(self)@),
    {
        let at = NodeId(i);
        let copy = match self.agent_at(at) {
            Some(Agent::PrimVal(v)) => v.clone(),
            _ => return Tried::Skip,
        };
        let (d, dp) = match self.get_connected_port(at, PortIndex(1)) {
            Some(c) => c,
            None => return Tried::Halt,
        };
        if dp.0 != 1 {
            return Tried::Skip;
        }
        match self.agent_at(d) {
            None => return Tried::Halt,
            Some(Agent::Delta) => {},
            Some(_) => return Tried::Skip,
        }
        let fresh = self.add_node(Node::prim_val(copy));
        self.connect(d, PortIndex(2), fresh, PortIndex(1));
        Tried::Fired
    }

    fn attempt_here(&mut self, rule: Rule, i: usize) -> (r: Tried)
        requires
            old(self).wf(),
            i < old(self)@.nodes.len(),
        ensures
            final(self).wf(),
            tried(r, attempt(rule, old(self)@, i), old(self)@, final(self)@),
    {
        match rule {
            Rule::Beta => self.beta_here(i),
            Rule::Duplication => self.duplication_here(i),
            Rule::Erasure => self.erasure_here(i),
            Rule::Commute => self.commute_here(i),
            Rule::EraseBranch => self.erase_branch_here(i),
            Rule::PrimValErase => self.prim_val_erase_here(i),
            Rule::PrimValDup => self.prim_val_dup_here(i),
        }
    }

    /// Tries `rule` at each node in order, and says whether it rewrote.
    fn try_rule(&mut self, rule: Rule) -> (fired: bool)
        requires
            old(self).wf(),
        ensures
            final(self).wf(),
            (final(self)@, fired) == scan(rule, old(self)@, 0),
    {
        let n = self.node_count();
        let mut i: usize = 0;
        while i < n
            invariant
                self.wf(),
                self@ == old(self)@,
                n == self@.nodes.len(),
                i <= n,
                scan(rule, old(self)@, 0) == scan(rule, old(self)@, i as nat),
            decreases n - i,
        {
            match self.attempt_here(rule, i) {
                Tried::Skip => {},
                Tried::Halt => return false,
                Tried::Fired => return true,
            }
            i += 1;
        }
        false
    }
}

impl Net {
    /// Reads the values at ports `first .. first + arity` of node `i`.
    fn gather_values(&self, i: usize, first: usize, arity: usize) -> (r: Gather)
        requires
            first + arity <= usize::MAX,
        ensures
            gathered(r, gather(self@, i, first as nat, arity as nat)),
    {
        let mut vs: Vec<PrimVal> = Vec::new();
        let mut ns: Vec<(NodeId, PortIndex)> = Vec::new();
        let mut k: usize = 0;
        assert(values_view(vs@) =~= Seq::<SpecPrimVal>::empty());
        while k < arity
            invariant
                k <= arity,
                first + arity <= usize::MAX,
                gather(self@, i, first as nat, k as nat) == Gathered::Values(values_view(vs@), ns@),
            decreases arity - k,
        {
            let ghost before = gather(self@, i, first as nat, k as nat);
            match self.get_connected_port(NodeId(i), PortIndex(first + k)) {
                None => {
                    proof {
                        assert(gather(self@, i, first as nat, (k + 1) as nat) is Missing);
                        lemma_gather_stops(self@, i, first as nat, (k + 1) as nat, arity as nat);
                    }
                    return Gather::Missing;
                },
                Some((n, p)) => match self.agent_at(n) {
                    None => {
                        proof {
                            assert(gather(self@, i, first as nat, (k + 1) as nat) is Halt);
                            lemma_gather_stops(self@, i, first as nat, (k + 1) as nat, arity as nat);
                        }
                        return Gather::Halt;
                    },
                    Some(Agent::PrimVal(val)) => {
                        let copy = val.clone();
                        proof {
                            lemma_values_push(vs@, copy);
                        }
                        vs.push(copy);
                        ns.push((n, p));
                    },
                    Some(_) => {
                        proof {
                            assert(gather(self@, i, first as nat, (k + 1) as nat) is Missing);
                            lemma_gather_stops(self@, i, first as nat, (k + 1) as nat, arity as nat);
                        }
                        return Gather::Missing;
                    },
                },
            }
            k += 1;
        }
        Gather::Values(vs, ns)
    }

    /// The first primitive operation whose arguments are all values.
    fn find_prim(&self) -> (r: Found)
        ensures
            found(r, prim_scan(self@, 0)),
            r matches Found::At(i, _, _) ==> i < self@.nodes.len() && self@.nodes[i as int].agent is Prim,
    {
        let n = self.node_count();
        let mut i: usize = 0;
        while i < n
            invariant
                n == self@.nodes.len(),
                i <= n,
                prim_scan(self@, 0) == prim_scan(self@, i as nat),
            decreases n - i,
        {
            match self.agent_at(NodeId(i)) {
                Some(Agent::Prim(op)) => {
                    let arity = op.arity();
                    match self.gather_values(i, 1, arity) {
                        Gather::Halt => return Found::Halt,
                        Gather::Missing => {},
                        Gather::Values(vs, ns) => return Found::At(i, vs, ns),
                    }
                },
                _ => {},
            }
            i += 1;
        }
        Found::NotFound
    }

    /// The first IO operation that holds the IO token and whose arguments
    /// are all values.
    fn find_io(&self) -> (r: Found)
        ensures
            found(r, io_scan(self@, 0)),
            r matches Found::At(i, _, _) ==> i < self@.nodes.len() && self@.nodes[i as int].agent is PrimIO,
    {
        let n = self.node_count();
        let mut i: usize = 0;
        while i < n
            invariant
                n == self@.nodes.len(),
                i <= n,
                io_scan(self@, 0) == io_scan(self@, i as nat),
            decreases n - i,
        {
            match self.agent_at(NodeId(i)) {
                Some(Agent::PrimIO(op)) => {
                    let arity = op.arity();
                    match self.get_connected_port(NodeId(i), PortIndex(1)) {
                        None => return Found::Halt,
                        Some((t, tp)) => {
                            if tp.0 == 0 {
                                match self.agent_at(t) {
                                    None => return Found::Halt,
                                    Some(Agent::IOToken) => {
                                        match self.gather_values(i, 2, arity) {
                                            Gather::Halt => return Found::Halt,
                                            Gather::Missing => {},
                                            Gather::Values(vs, ns) => return Found::At(i, vs, ns),
                                        }
                                    },
                                    Some(_) => {},
                                }
                            }
                        },
                    }
                },
                _ => {},
            }
            i += 1;
        }
        Found::NotFound
    }

    /// Cuts the wires at the given ports, in order, stopping at one that has
    /// none.
    fn release_ports(&mut self, ns: &Vec<(NodeId, PortIndex)>) -> (ok: bool)
        requires
            old(self).wf(),
        ensures
            final(self).wf(),
            (final(self)@, ok) == release(old(self)@, ns@, ns@.len()),
            final(self)@.nodes == old(self)@.nodes,
    {
        let mut k: usize = 0;
        while k < ns.len()
            invariant
                self.wf(),
                k <= ns.len(),
                release(old(self)@, ns@, k as nat) == (self@, true),
                self@.nodes == old(self)@.nodes,
            decreases ns.len() - k,
        {
            let (n, p) = ns[k];
            let gone = self.disconnect_port(n, p);
            if gone.is_none() {
                proof {
                    lemma_release_stops(old(self)@, ns@, (k + 1) as nat, ns@.len());
                }
                return false;
            }
            k += 1;
        }
        true
    }

    /// Whether the operation overflows on these arguments.
    fn overflows(op: PrimOp, args: &Vec<PrimVal>) -> (r: bool)
        ensures
            r == apply_panics(op, values_view(args@)),
    {
        if args.len() == 0 {
            return false;
        }
        let x = match &args[0] {
            PrimVal::Int(x) => *x,
            _ => return false,
        };
        match op {
            PrimOp::INeg => x == i64::MIN,
            PrimOp::IDiv | PrimOp::IRem => {
                if args.len() < 2 {
                    return false;
                }
                match &args[1] {
                    PrimVal::Int(y) => x == i64::MIN && *y == -1,
                    _ => false,
                }
            },
            _ => false,
        }
    }

    /// The rules after the primitive evaluation: value erasure, value
    /// duplication, and finding the next IO operation.
    fn after_prim(&mut self) -> (r: StepOutcome)
        requires
            old(self).wf(),
        ensures
            final(self).wf(),
            (final(self)@, r@) == after_prim(old(self)@),
    {
        if self.try_rule(Rule::PrimValErase) {
            return StepOutcome::Done(InteractionResult::PrimValErase);
        }
        if self.try_rule(Rule::PrimValDup) {
            return StepOutcome::Done(InteractionResult::PrimValDup);
        }
        match self.find_io() {
            Found::At(i, vs, _) => match self.agent_at(NodeId(i)) {
                Some(Agent::PrimIO(op)) => StepOutcome::Io { node: NodeId(i), op: *op, args: vs },
                _ => StepOutcome::Done(InteractionResult::NoInteraction),
            },
            _ => StepOutcome::Done(InteractionResult::NoInteraction),
        }
    }

    fn finish_prim(&mut self, i: usize, ns: &Vec<(NodeId, PortIndex)>, result: PrimVal) -> (r: StepOutcome)
        requires
            old(self).wf(),
            i < old(self)@.nodes.len(),
        ensures
            final(self).wf(),
            (final(self)@, r@) == finish_prim(old(self)@, i, ns@, result@),
    {
        if self.release_ports(ns) {
            self.set_node(NodeId(i), Node::prim_val(result));
            StepOutcome::Done(InteractionResult::PrimEval)
        } else {
            self.after_prim()
        }
    }

    fn prim_phase(&mut self) -> (r: StepOutcome)
        requires
            old(self).wf(),
        ensures
            final(self).wf(),
            (final(self)@, r@) == prim_phase(old(self)@),
    {
        match self.find_prim() {
            Found::At(i, vs, ns) => {
                let op = match self.agent_at(NodeId(i)) {
                    Some(Agent::Prim(op)) => *op,
                    _ => return self.after_prim(),
                };
                if op.is_float_op() {
                    return StepOutcome::Float { node: NodeId(i), op, args: vs };
                }
                if Net::overflows(op, &vs) {
                    return StepOutcome::Overflow { node: NodeId(i), op, args: vs };
                }
                match op.apply(vs.as_slice()) {
                    Some(result) => self.finish_prim(i, &ns, result),
                    None => self.after_prim(),
                }
            },
            _ => self.after_prim(),
        }
    }

    /// One reduction step: the first rule that fits, in the order β,
    /// duplication, erasure, commutation, branch erasure, primitive
    /// evaluation, value erasure, value duplication, IO evaluation. A
    /// floating-point or IO operation, and an integer operation that
    /// overflows, are handed to the caller, who completes the step with
    /// [`Net::resume_prim`] or [`Net::resume_io`].
    pub fn step(&mut self) -> (r: StepOutcome)
        requires
            old(self).wf(),
        ensures
            final(self).wf(),
            (final(self)@, r@) == step_spec(old(self)@),
    {
        if self.try_rule(Rule::Beta) {
            return StepOutcome::Done(InteractionResult::BetaReduction);
        }
        if self.try_rule(Rule::Duplication) {
            return StepOutcome::Done(InteractionResult::Duplication);
        }
        if self.try_rule(Rule::Erasure) {
            return StepOutcome::Done(InteractionResult::Erasure);
        }
        if self.try_rule(Rule::Commute) {
            return StepOutcome::Done(InteractionResult::Commute);
        }
        if self.try_rule(Rule::EraseBranch) {
            return StepOutcome::Done(InteractionResult::EraseBranch);
        }
        self.prim_phase()
    }

    /// Completes a step that handed out a floating-point operation, with the
    /// value the operation gave (`None` when it did not apply to its
    /// arguments, and the step goes on with the rules after it).
    pub fn resume_prim(&mut self, result: Option<PrimVal>) -> (r: StepOutcome)
        requires
            old(self).wf(),
        ensures
            final(self).wf(),
            (final(self)@, r@) == resume_prim_spec(old(self)@, opt_value(result)),
    {
        match self.find_prim() {
            Found::At(i, _, ns) => match result {
                Some(v) => self.finish_prim(i, &ns, v),
                None => self.after_prim(),
            },
            _ => self.after_prim(),
        }
    }

    /// Completes a step that handed out an IO operation, with the value the
    /// operation gave (`None` when it did not apply to its arguments).
    pub fn resume_io(&mut self, result: Option<PrimVal>) -> (r: InteractionResult)
        requires
            old(self).wf(),
        ensures
            final(self).wf(),
            (final(self)@, r) == resume_io_spec(old(self)@, opt_value(result)),
    {
        let (i, ns) = match self.find_io() {
            Found::At(i, _, ns) => (i, ns),
            _ => return InteractionResult::NoInteraction,
        };
        let value = match result {
            Some(v) => v,
            None => return InteractionResult::NoInteraction,
        };
        if !self.release_ports(&ns) {
            return InteractionResult::NoInteraction;
        }
        let io = NodeId(i);
        if self.disconnect_port(io, PortIndex(1)).is_none() {
            return InteractionResult::NoInteraction;
        }
        let token = self.add_node(Node::io_token());
        self.connect(token, PortIndex(0), io, PortIndex(1));
        let res = self.add_node(Node::prim_val(value));
        self.connect(res, PortIndex(0), io, PortIndex(0));
        InteractionResult::PrimEval
    }
}

/// The first IO operation from the `i`-th node on.
pub open spec fn first_io(v: NetView, i: nat) -> Option<usize>
    decreases v.nodes.len() - i,
{
    if i >= v.nodes.len() {
        None
    } else if v.nodes[i as int].agent is PrimIO {
        Some(i as usize)
    } else {
        first_io(v, i + 1)
    }
}

/// Gives the first IO operation an IO token at its port 1, unless a wire
/// already ends there.
pub open spec fn io_entry(v: NetView) -> NetView {
    match first_io(v, 0) {
        None => v,
        Some(i) => if v.wire_at(i, 1) is Some {
            v
        } else {
            let t = v.nodes.len() as usize;
            v.add_node(fresh_node(AgentView::IOToken, 1)).connect(t, 0, i, 1)
        },
    }
}

/// Before evaluation: the first IO operation of the net gets an IO token,
/// unless one is wired to it already.
pub fn wire_io_entry_point(net: &mut Net)
    requires
        old(net).wf(),
    ensures
        final(net).wf(),
        final(net)@ == io_entry(old(net)@),
{
    let n = net.node_count();
    let mut i: usize = 0;
    while i < n
        invariant
            net@ == old(net)@,
            net.wf(),
            n == net@.nodes.len(),
            i <= n,
            first_io(net@, 0) == first_io(net@, i as nat),
        decreases n - i,
    {
        match net.agent_at(NodeId(i)) {
            Some(Agent::PrimIO(_)) => {
                let io = NodeId(i);
                if net.get_wire_at_port(io, PortIndex(1)).is_some() {
                    return;
                }
                let token = net.add_node(Node::io_token());
                net.connect(token, PortIndex(0), io, PortIndex(1));
                return;
            },
            _ => {},
        }
        i += 1;
    }
}

} // verus!
