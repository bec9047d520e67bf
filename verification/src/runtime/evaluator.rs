//! The settings of the evaluators, their errors, and the check that no
//! duplicator's two branches share a root.
use vstd::prelude::*;

use crate::ast::terms::{Literal, SpecLiteral, SpecTerm, Term};
use crate::runtime::net::{Agent, AgentView, InteractionResult, Net, NetView, NodeId, PortIndex};
use crate::runtime::primitives::{nat_decimal, usize_to_decimal};
use crate::text::concat;

verus! {

/// Why evaluation failed.
#[derive(Debug)]
pub enum EvalError {
    NonTerminating,
    Stuck(String),
    TypeError(String),
    S5PrimeViolation(String),
    EvaluationError(String),
}

/// The number of reduction steps after which evaluation gives up.
pub const DEFAULT_MAX_STEPS: usize = 10_000_000;

/// Reduces a net one step at a time.
#[derive(Debug, Clone, Copy)]
pub struct SequentialEvaluator {
    pub max_steps: usize,
}

impl SequentialEvaluator {
    /// An evaluator that gives up after ten million steps.
    pub fn new() -> (r: SequentialEvaluator)
        ensures
            r.max_steps == DEFAULT_MAX_STEPS,
    {
        SequentialEvaluator { max_steps: DEFAULT_MAX_STEPS }
    }

    /// An evaluator that gives up after `max_steps` steps.
    pub fn with_max_steps(max_steps: usize) -> (r: SequentialEvaluator)
        ensures
            r.max_steps == max_steps,
    {
        SequentialEvaluator { max_steps }
    }
}

/// What the evaluation loop does next.
#[derive(Debug, Clone, Copy, PartialEq, Eq, Structural)]
pub enum StepAction {
    /// Perform another step.
    Continue,
    /// No rule applied: read the result.
    Finished,
    /// The step budget is used up: report that evaluation does not end.
    GiveUp,
}

/// What follows `steps` steps out of a budget of `max_steps`, the last of
/// which gave `last` (`None` before the first step): once the budget is
/// used up evaluation gives up, even when the last step found nothing to
/// do; otherwise a step that applied no rule finishes it.
pub open spec fn spec_next_action(steps: usize, max_steps: usize, last: Option<InteractionResult>) -> StepAction {
    if steps >= max_steps {
        StepAction::GiveUp
    } else if last == Some(InteractionResult::NoInteraction) {
        StepAction::Finished
    } else {
        StepAction::Continue
    }
}

/// Decides what the evaluation loop does next; see [`spec_next_action`].
pub fn next_action(steps: usize, max_steps: usize, last: Option<InteractionResult>) -> (r: StepAction)
    ensures
        r == spec_next_action(steps, max_steps, last),
{
    if steps >= max_steps {
        StepAction::GiveUp
    } else {
        match last {
            Some(InteractionResult::NoInteraction) => StepAction::Finished,
            _ => StepAction::Continue,
        }
    }
}

/// An evaluator that gives up after ten million steps.
impl Default for SequentialEvaluator {
    fn default() -> (r: SequentialEvaluator)
        ensures
            r.max_steps == DEFAULT_MAX_STEPS,
    {
        SequentialEvaluator::new()
    }
}

/// Reduces independent parts of a net on several threads.
#[derive(Debug, Clone, Copy)]
pub struct ParallelEvaluator {
    pub num_threads: usize,
    pub max_steps: usize,
}

impl ParallelEvaluator {
    /// An evaluator with `num_threads` threads (the caller passes the number
    /// of processors) that gives up after ten million steps.
    pub fn new(num_threads: usize) -> (r: ParallelEvaluator)
        ensures
            r.num_threads == num_threads,
            r.max_steps == DEFAULT_MAX_STEPS,
    {
        ParallelEvaluator { num_threads, max_steps: DEFAULT_MAX_STEPS }
    }

    /// The same evaluator with `num_threads` threads.
    pub fn with_threads(self, num_threads: usize) -> (r: ParallelEvaluator)
        ensures
            r.num_threads == num_threads,
            r.max_steps == self.max_steps,
    {
        ParallelEvaluator { num_threads, ..self }
    }

    /// The same evaluator, giving up after `max_steps` steps.
    pub fn with_max_steps(self, max_steps: usize) -> (r: ParallelEvaluator)
        ensures
            r.max_steps == max_steps,
            r.num_threads == self.num_threads,
    {
        ParallelEvaluator { max_steps, ..self }
    }
}

/// The node that port `p` of node `a` is wired to, if any.
pub open spec fn link_target(v: NetView, a: usize, p: usize) -> Option<usize> {
    match v.connected(a, p) {
        Some((n, _)) => Some(n.0),
        None => None,
    }
}

/// Node `b` is wired to one of the ports of the existing node `a`.
pub open spec fn succ(v: NetView, a: usize, b: usize) -> bool {
    a < v.nodes.len() && exists|p: usize| p < v.nodes[a as int].ports.len() && #[trigger] link_target(v, a, p) == Some(b)
}

/// A walk along wires.
pub open spec fn is_walk(v: NetView, w: Seq<usize>) -> bool {
    w.len() > 0 && forall|i: int| 0 <= i < w.len() - 1 ==> #[trigger] succ(v, w[i], w[i + 1])
}

/// Node `b` can be reached from node `a` along wires (every node reaches
/// itself).
pub open spec fn reaches(v: NetView, a: usize, b: usize) -> bool {
    exists|w: Seq<usize>| #[trigger] is_walk(v, w) && w[0] == a && w.last() == b
}

/// Every walk from a node of a set closed under wiring stays in the set.
proof fn lemma_closed_walk(v: NetView, c: Set<usize>, w: Seq<usize>)
    requires
        is_walk(v, w),
        c.contains(w[0]),
        forall|x: usize, y: usize| c.contains(x) && #[trigger] succ(v, x, y) ==> c.contains(y),
    ensures
        c.contains(w.last()),
    decreases w.len(),
{
    if w.len() > 1 {
        let u = w.drop_last();
        assert(is_walk(v, u)) by {
            assert forall|i: int| 0 <= i < u.len() - 1 implies #[trigger] succ(v, u[i], u[i + 1]) by {
                assert(succ(v, w[i], w[i + 1]));
            }
        }
        lemma_closed_walk(v, c, u);
        let i = w.len() - 2;
        assert(succ(v, w[i], w[i + 1]));
        assert(u.last() == w[i]);
        assert(w.last() == w[i + 1]);
    }
}

/// A walk extended by one wire.
proof fn lemma_walk_push(v: NetView, w: Seq<usize>, y: usize)
    requires
        is_walk(v, w),
        succ(v, w.last(), y),
    ensures
        is_walk(v, w.push(y)),
        w.push(y)[0] == w[0],
        w.push(y).last() == y,
{
    let u = w.push(y);
    assert forall|i: int| 0 <= i < u.len() - 1 implies #[trigger] succ(v, u[i], u[i + 1]) by {
        if i < w.len() - 1 {
            assert(succ(v, w[i], w[i + 1]));
        }
    }
}

fn contains_id(v: &Vec<usize>, x: usize) -> (r: bool)
    ensures
        r == v@.contains(x),
{
    let mut i: usize = 0;
    while i < v.len()
        invariant
            i <= v.len(),
            forall|k: int| 0 <= k < i ==> v@[k] != x,
        decreases v.len() - i,
    {
        if v[i] == x {
            return true;
        }
        i += 1;
    }
    false
}

/// The nodes that can be reached from `start` along wires.
pub fn reachable_nodes(net: &Net, start: NodeId) -> (r: Vec<usize>)
    ensures
        forall|b: usize| r@.contains(b) <==> reaches(net@, start.0, b),
{
    let ghost v = net@;
    let n = net.nodes().len();
    assert(n == v.nodes.len());
    let mut result: Vec<usize> = Vec::new();
    let mut stack: Vec<usize> = Vec::new();
    let ghost mut seen: Set<int> = Set::empty();
    stack.push(start.0);
    proof {
        let w = seq![start.0];
        assert(is_walk(v, w));
        assert(w[0] == start.0 && w.last() == start.0);
        assert(stack@.contains(start.0)) by {
            assert(stack@[0] == start.0);
        }
    }
    while stack.len() > 0
        invariant
            v == net@,
            n == v.nodes.len(),
            seen.finite(),
            seen.subset_of(vstd::set_lib::set_int_range(0, n as int)),
            seen.len() <= n,
            forall|x: int| #[trigger] seen.contains(x) <==> (0 <= x < n && result@.contains(x as usize)),
            result@.contains(start.0) || stack@.contains(start.0),
            forall|b: usize| #[trigger] result@.contains(b) ==> reaches(v, start.0, b),
            forall|b: usize| #[trigger] stack@.contains(b) ==> reaches(v, start.0, b),
            forall|a: usize, b: usize| #[trigger] result@.contains(a) && #[trigger] succ(v, a, b) ==> result@.contains(b)
                || stack@.contains(b),
        decreases n - seen.len(), stack.len(),
    {
        let ghost old_stack = stack@;
        let x = stack.pop().unwrap();
        proof {
            assert(old_stack == stack@.push(x));
            assert forall|b: usize| old_stack.contains(b) implies stack@.contains(b) || b == x by {
                let k = choose|k: int| 0 <= k < old_stack.len() && old_stack[k] == b;
                if k < stack@.len() {
                    assert(stack@[k] == b);
                }
            }
            assert(old_stack.contains(x)) by {
                assert(old_stack[old_stack.len() - 1] == x);
            }
            assert forall|b: usize| stack@.contains(b) implies old_stack.contains(b) by {
                let k = choose|k: int| 0 <= k < stack@.len() && stack@[k] == b;
                assert(old_stack[k] == b);
            }
            assert forall|b: usize| #[trigger] stack@.contains(b) implies reaches(v, start.0, b) by {
                assert(old_stack.contains(b));
            }
        }
        if contains_id(&result, x) {
            continue;
        }
        let ghost old_seen = seen;
        let ghost old_result = result@;
        result.push(x);
        assert(result@ == old_result.push(x));
        proof {
            if x < n {
                seen = seen.insert(x as int);
                vstd::set_lib::lemma_int_range(0, n as int);
                vstd::set_lib::lemma_len_subset(seen, vstd::set_lib::set_int_range(0, n as int));
            }
            assert forall|y: usize| #[trigger] result@.contains(y) <==> (old_result.contains(y) || y == x) by {
                if result@.contains(y) {
                    let k = choose|k: int| 0 <= k < result@.len() && result@[k] == y;
                    if k < old_result.len() {
                        assert(old_result[k] == y);
                    }
                }
                if old_result.contains(y) {
                    let k = choose|k: int| 0 <= k < old_result.len() && old_result[k] == y;
                    assert(result@[k] == y);
                }
                if y == x {
                    assert(result@[result@.len() - 1] == x);
                }
            }
            assert forall|y: int| #[trigger] seen.contains(y) <==> (0 <= y < n && result@.contains(y as usize)) by {
                if 0 <= y < n {
                    assert(result@.contains(y as usize) <==> (old_result.contains(y as usize) || y as usize == x));
                }
            }
        }
        if x < n {
            let ports = net.get_node(NodeId(x)).unwrap().num_ports();
            let mut p: usize = 0;
            while p < ports
                invariant
                    v == net@,
                    n == v.nodes.len(),
                    x < n,
                    ports == v.nodes[x as int].ports.len(),
                    p <= ports,
                    result@.contains(x),
                    reaches(v, start.0, x),
                    result@.contains(start.0) || stack@.contains(start.0),
                    forall|b: usize| #[trigger] stack@.contains(b) ==> reaches(v, start.0, b),
                    forall|q: usize| q < p && (#[trigger] link_target(v, x, q)) is Some ==> result@.contains(
                        link_target(v, x, q)->0,
                    ) || stack@.contains(link_target(v, x, q)->0),
                    forall|a: usize, b: usize| #[trigger] result@.contains(a) && a != x && #[trigger] succ(v, a, b)
                        ==> result@.contains(b) || stack@.contains(b),
                decreases ports - p,
            {
                let ghost before = stack@;
                match net.get_connected_port(NodeId(x), PortIndex(p)) {
                    Some((m, _)) => {
                        assert(link_target(v, x, p) == Some(m.0));
                        if !contains_id(&result, m.0) {
                            proof {
                                assert(succ(v, x, m.0));
                                let w = choose|w: Seq<usize>| #[trigger] is_walk(v, w) && w[0] == start.0 && w.last() == x;
                                lemma_walk_push(v, w, m.0);
                                assert(is_walk(v, w.push(m.0)));
                                assert(reaches(v, start.0, m.0));
                            }
                            stack.push(m.0);
                            proof {
                                assert forall|b: usize| stack@.contains(b) implies before.contains(b) || b == m.0 by {
                                    let k = choose|k: int| 0 <= k < stack@.len() && stack@[k] == b;
                                    if k < before.len() {
                                        assert(before[k] == b);
                                    }
                                }
                                assert forall|b: usize| #[trigger] stack@.contains(b) implies reaches(v, start.0, b) by {
                                    if b != m.0 {
                                        assert(before.contains(b));
                                    }
                                }
                                assert(stack@.contains(m.0)) by {
                                    assert(stack@[stack@.len() - 1] == m.0);
                                }
                                assert forall|b: usize| before.contains(b) implies stack@.contains(b) by {
                                    let k = choose|k: int| 0 <= k < before.len() && before[k] == b;
                                    assert(stack@[k] == b);
                                }
                            }
                        }
                    },
                    None => {},
                }
                p += 1;
            }
        }
    }
    proof {
        let c = result@.to_set();
        assert forall|b: usize| reaches(v, start.0, b) implies result@.contains(b) by {
            let w = choose|w: Seq<usize>| #[trigger] is_walk(v, w) && w[0] == start.0 && w.last() == b;
            assert forall|x: usize, y: usize| c.contains(x) && #[trigger] succ(v, x, y) implies c.contains(y) by {
                assert(result@.contains(x));
            }
            lemma_closed_walk(v, c, w);
        }
    }
    result
}

/// The nodes reachable from `a`.
pub open spec fn reach_set(v: NetView, a: usize) -> Set<usize> {
    Set::new(|b: usize| reaches(v, a, b))
}

/// A duplicator of `sub` whose principal port is not wired to a node of
/// `sub`.
pub open spec fn is_root(v: NetView, sub: Set<usize>, x: usize) -> bool {
    &&& sub.contains(x)
    &&& x < v.nodes.len()
    &&& v.nodes[x as int].agent is Delta
    &&& !(link_target(v, x, 0) matches Some(n) && sub.contains(n))
}

/// The duplicator `d` has both outputs wired, and some root duplicator is
/// reachable from both of them.
pub open spec fn shares_root(v: NetView, d: usize) -> bool {
    &&& d < v.nodes.len()
    &&& v.nodes[d as int].agent is Delta
    &&& link_target(v, d, 1) is Some
    &&& link_target(v, d, 2) is Some
    &&& exists|r: usize| #[trigger] is_root(v, reach_set(v, link_target(v, d, 1)->0), r) && is_root(
        v,
        reach_set(v, link_target(v, d, 2)->0),
        r,
    )
}

/// The first duplicator, from the `i`-th node on, that shares a root.
pub open spec fn first_shared(v: NetView, i: nat) -> Option<usize>
    decreases v.nodes.len() - i,
{
    if i >= v.nodes.len() {
        None
    } else if shares_root(v, i as usize) {
        Some(i as usize)
    } else {
        first_shared(v, i + 1)
    }
}

/// The message for a duplicator that shares a root.
pub open spec fn sharing_message(d: usize) -> Seq<char> {
    "δ at NodeId("@ + nat_decimal(d as nat) + ") shares root with both branches"@
}

/// The root duplicators of a set of nodes.
pub fn find_root_deltas(net: &Net, sub: &Vec<usize>) -> (r: Vec<usize>)
    ensures
        forall|x: usize| r@.contains(x) <==> is_root(net@, sub@.to_set(), x),
{
    let ghost v = net@;
    let mut roots: Vec<usize> = Vec::new();
    let mut i: usize = 0;
    while i < sub.len()
        invariant
            v == net@,
            i <= sub.len(),
            forall|x: usize| #[trigger] roots@.contains(x) <==> (is_root(v, sub@.to_set(), x) && exists|k: int|
                0 <= k < i && sub@[k] == x),
        decreases sub.len() - i,
    {
        let x = sub[i];
        let ghost before = roots@;
        let is_delta = match net.get_node(NodeId(x)) {
            Some(node) => match &node.agent {
                Agent::Delta => true,
                _ => false,
            },
            None => false,
        };
        let has_input = match net.get_connected_port(NodeId(x), PortIndex(0)) {
            Some((n, _)) => contains_id(sub, n.0),
            None => false,
        };
        proof {
            assert(sub@.to_set().contains(x));
            assert(is_delta == (x < v.nodes.len() && v.nodes[x as int].agent is Delta));
            assert(has_input == (link_target(v, x, 0) matches Some(n) && sub@.to_set().contains(n)));
        }
        if is_delta && !has_input {
            roots.push(x);
        }
        proof {
            assert forall|y: usize| #[trigger] roots@.contains(y) <==> (is_root(v, sub@.to_set(), y) && exists|k: int|
                0 <= k < i + 1 && sub@[k] == y) by {
                if roots@.contains(y) {
                    let k = choose|k: int| 0 <= k < roots@.len() && roots@[k] == y;
                    if k < before.len() {
                        assert(before.contains(y));
                    } else {
                        assert(sub@[i as int] == y);
                    }
                }
                if is_root(v, sub@.to_set(), y) && exists|k: int| 0 <= k < i + 1 && sub@[k] == y {
                    if y == x {
                        if is_delta && !has_input {
                            assert(roots@[roots@.len() - 1] == y);
                        }
                    } else {
                        let k = choose|k: int| 0 <= k < i + 1 && sub@[k] == y;
                        assert(k < i);
                        assert(before.contains(y));
                        let j = choose|j: int| 0 <= j < before.len() && before[j] == y;
                        assert(roots@[j] == y);
                    }
                }
            }
        }
        i += 1;
    }
    proof {
        assert forall|x: usize| is_root(v, sub@.to_set(), x) implies exists|k: int| 0 <= k < sub.len() && sub@[k] == x by {
            assert(sub@.to_set().contains(x));
        }
    }
    roots
}

/// Whether a root of one list is also in the other.
fn meet(a: &Vec<usize>, b: &Vec<usize>) -> (r: bool)
    ensures
        r == exists|x: usize| a@.contains(x) && b@.contains(x),
{
    let mut i: usize = 0;
    while i < a.len()
        invariant
            i <= a.len(),
            forall|k: int| 0 <= k < i ==> !b@.contains(#[trigger] a@[k]),
        decreases a.len() - i,
    {
        if contains_id(b, a[i]) {
            assert(a@.contains(a@[i as int]));
            return true;
        }
        i += 1;
    }
    proof {
        assert forall|x: usize| a@.contains(x) implies !b@.contains(x) by {
            let k = choose|k: int| 0 <= k < a@.len() && a@[k] == x;
            assert(!b@.contains(a@[k]));
        }
    }
    false
}

/// The S5' check: no duplicator's two outputs reach a common root
/// duplicator. The first duplicator, in node order, that breaks it is
/// reported.
pub fn verify_s5_prime(net: &Net) -> (r: Result<(), EvalError>)
    ensures
        first_shared(net@, 0) is None ==> r is Ok,
        first_shared(net@, 0) matches Some(d) ==> r matches Err(EvalError::S5PrimeViolation(m)) && m@ == sharing_message(d),
{
    let ghost v = net@;
    let n = net.nodes().len();
    let mut i: usize = 0;
    while i < n
        invariant
            v == net@,
            n == v.nodes.len(),
            i <= n,
            first_shared(v, 0) == first_shared(v, i as nat),
        decreases n - i,
    {
        let d = NodeId(i);
        let is_delta = match net.get_node(d) {
            Some(node) => match &node.agent {
                Agent::Delta => true,
                _ => false,
            },
            None => false,
        };
        if is_delta {
            let out1 = net.get_connected_port(d, PortIndex(1));
            let out2 = net.get_connected_port(d, PortIndex(2));
            proof {
                assert(v.nodes[i as int].agent is Delta);
                assert(link_target(v, i, 1) is Some <==> out1 is Some);
                assert(link_target(v, i, 2) is Some <==> out2 is Some);
            }
            match (out1, out2) {
                (Some((t1, _)), Some((t2, _))) => {
                    let sub1 = reachable_nodes(net, t1);
                    let sub2 = reachable_nodes(net, t2);
                    let roots1 = find_root_deltas(net, &sub1);
                    let roots2 = find_root_deltas(net, &sub2);
                    proof {
                        assert(sub1@.to_set() =~= reach_set(v, t1.0));
                        assert(sub2@.to_set() =~= reach_set(v, t2.0));
                    }
                    proof {
                        assert(link_target(v, i, 1) == Some(t1.0));
                        assert(link_target(v, i, 2) == Some(t2.0));
                    }
                    if meet(&roots1, &roots2) {
                        proof {
                            let x = choose|x: usize| roots1@.contains(x) && roots2@.contains(x);
                            assert(is_root(v, reach_set(v, t1.0), x));
                            assert(is_root(v, reach_set(v, t2.0), x));
                            assert(i < v.nodes.len());
                            assert(v.nodes[i as int].agent is Delta);
                            assert(link_target(v, i, 1)->0 == t1.0);
                            assert(is_root(v, reach_set(v, link_target(v, i, 1)->0), x));
                            assert(is_root(v, reach_set(v, link_target(v, i, 2)->0), x));
                            assert(shares_root(v, i));
                        }
                        let a = concat("δ at NodeId(", usize_to_decimal(i).as_str());
                        let m = concat(a.as_str(), ") shares root with both branches");
                        return Err(EvalError::S5PrimeViolation(m));
                    }
                    proof {
                        assert forall|x: usize| is_root(v, reach_set(v, t1.0), x) implies !is_root(v, reach_set(v, t2.0), x) by {
                            assert(roots1@.contains(x));
                            if is_root(v, reach_set(v, t2.0), x) {
                                assert(roots2@.contains(x));
                            }
                        }
                    }
                    assert(!shares_root(v, i));
                },
                _ => {
                    assert(!shares_root(v, i));
                },
            }
        }
        i += 1;
    }
    Ok(())
}

/// The pairs of nodes at the two outputs of each duplicator among the first
/// `k` nodes whose outputs are both wired, in order.
pub open spec fn parallel_upto(v: NetView, k: nat) -> Seq<(usize, usize)>
    decreases k,
{
    if k == 0 || k > v.nodes.len() {
        Seq::empty()
    } else {
        let d = (k - 1) as usize;
        let rest = parallel_upto(v, (k - 1) as nat);
        if v.nodes[d as int].agent is Delta && link_target(v, d, 1) is Some && link_target(v, d, 2) is Some {
            rest.push((link_target(v, d, 1)->0, link_target(v, d, 2)->0))
        } else {
            rest
        }
    }
}

/// The parts of the net that can be reduced apart: for each duplicator with
/// both outputs wired, the nodes at its two outputs.
pub fn find_parallel_subgraphs(net: &Net) -> (r: Vec<(NodeId, NodeId)>)
    ensures
        r@.map_values(|p: (NodeId, NodeId)| (p.0.0, p.1.0)) == parallel_upto(net@, net@.nodes.len()),
{
    let ghost v = net@;
    let n = net.nodes().len();
    let mut r: Vec<(NodeId, NodeId)> = Vec::new();
    let mut i: usize = 0;
    while i < n
        invariant
            v == net@,
            n == v.nodes.len(),
            i <= n,
            r@.map_values(|p: (NodeId, NodeId)| (p.0.0, p.1.0)) == parallel_upto(v, i as nat),
        decreases n - i,
    {
        let is_delta = match &net.get_node(NodeId(i)).unwrap().agent {
            Agent::Delta => true,
            _ => false,
        };
        assert(is_delta == (v.nodes[i as int].agent is Delta));
        if is_delta {
            let out1 = net.get_connected_port(NodeId(i), PortIndex(1));
            let out2 = net.get_connected_port(NodeId(i), PortIndex(2));
            match (out1, out2) {
                (Some((t1, _)), Some((t2, _))) => {
                    let ghost before = r@.map_values(|p: (NodeId, NodeId)| (p.0.0, p.1.0));
                    r.push((t1, t2));
                    assert(r@.map_values(|p: (NodeId, NodeId)| (p.0.0, p.1.0)) =~= before.push((t1.0, t2.0)));
                },
                _ => {},
            }
        }
        i += 1;
    }
    r
}

/// The result the parallel evaluator reads: the first constructor or
/// primitive node without ports, from the `i`-th on.
pub open spec fn closed_from(v: NetView, i: nat) -> Option<usize>
    decreases v.nodes.len() - i,
{
    if i >= v.nodes.len() {
        None
    } else if (v.nodes[i as int].agent is Constructor || v.nodes[i as int].agent is Prim) && v.nodes[i as int].ports.len()
        == 0 {
        Some(i as usize)
    } else {
        closed_from(v, i + 1)
    }
}

/// The result the parallel evaluator reads from a net: unit for an empty
/// net; else the first constructor without ports, as a name, or the first
/// primitive without ports, as unit; `None` when there is neither.
pub fn closed_result(net: &Net) -> (r: Option<Term>)
    ensures
        net@.nodes.len() == 0 && net@.wires.len() == 0 ==> (r matches Some(t) && t@ == SpecTerm::NativeLiteral(
            SpecLiteral::Unit,
        )),
        !(net@.nodes.len() == 0 && net@.wires.len() == 0) ==> match closed_from(net@, 0) {
            None => r is None,
            Some(i) => (r matches Some(t) && t@ == match net@.nodes[i as int].agent {
                AgentView::Constructor(name) => SpecTerm::Var(name),
                _ => SpecTerm::NativeLiteral(SpecLiteral::Unit),
            }),
        },
{
    if net.is_empty() {
        return Some(Term::NativeLiteral(Literal::Unit));
    }
    let ghost v = net@;
    let n = net.nodes().len();
    let mut i: usize = 0;
    while i < n
        invariant
            v == net@,
            n == v.nodes.len(),
            i <= n,
            closed_from(v, 0) == closed_from(v, i as nat),
        decreases n - i,
    {
        let node = net.get_node(NodeId(i)).unwrap();
        if node.num_ports() == 0 {
            match &node.agent {
                Agent::Constructor(name) => return Some(Term::Var(name.clone())),
                Agent::Prim(_) => return Some(Term::NativeLiteral(Literal::Unit)),
                _ => {},
            }
        }
        i += 1;
    }
    None
}

} // verus!
