//! A dependency graph between named modules, with cycle detection and a
//! dependency-first ordering by depth-first search.
use vstd::prelude::*;

use crate::text::{owned, str_eq};

verus! {

/// The dependency lists of a graph: `deps[u]` lists the nodes that `u`
/// depends on.
pub open spec fn edge(deps: Seq<Seq<usize>>, u: int, v: int) -> bool {
    0 <= u < deps.len() && deps[u].contains(v as usize)
}

/// The step from `p[i]` to `p[i + 1]` follows an edge.
pub open spec fn step(deps: Seq<Seq<usize>>, p: Seq<usize>, i: int) -> bool {
    edge(deps, p[i] as int, p[i + 1] as int)
}

/// A walk: each node of `p` depends on the next.
pub open spec fn is_walk(deps: Seq<Seq<usize>>, p: Seq<usize>) -> bool {
    forall|i: int| 0 <= i < p.len() - 1 ==> #[trigger] step(deps, p, i)
}

/// A cycle: a walk of at least one step that ends where it starts.
pub open spec fn is_cycle(deps: Seq<Seq<usize>>, p: Seq<usize>) -> bool {
    &&& p.len() >= 2
    &&& p[0] == p[p.len() - 1]
    &&& is_walk(deps, p)
}

/// No walk of the graph is a cycle.
pub open spec fn acyclic(deps: Seq<Seq<usize>>) -> bool {
    forall|p: Seq<usize>| !#[trigger] is_cycle(deps, p)
}

/// `v` occurs in `order` before position `k`.
pub open spec fn occurs_before(order: Seq<usize>, v: usize, k: int) -> bool {
    exists|j: int| 0 <= j < k && order[j] == v
}

/// Every dependency of a node in `order` occurs earlier in `order`.
pub open spec fn deps_first(deps: Seq<Seq<usize>>, order: Seq<usize>) -> bool {
    forall|k: int, e: int|
        0 <= k < order.len() && 0 <= e < deps[order[k] as int].len() ==> #[trigger] occurs_before(
            order,
            deps[order[k] as int][e],
            k,
        )
}

/// A sequence without repeated elements.
pub open spec fn distinct<A>(s: Seq<A>) -> bool {
    forall|i: int, j: int| 0 <= i < s.len() && 0 <= j < s.len() && i != j ==> s[i] != s[j]
}

/// The number of unvisited (colour 0) nodes.
pub open spec fn white_count(c: Seq<u8>) -> nat
    decreases c.len(),
{
    if c.len() == 0 {
        0
    } else {
        white_count(c.drop_last()) + (if c.last() == 0 { 1nat } else { 0nat })
    }
}

proof fn lemma_white_count_set(c: Seq<u8>, u: int, x: u8)
    requires
        0 <= u < c.len(),
        c[u] == 0,
        x != 0,
    ensures
        white_count(c.update(u, x)) + 1 == white_count(c),
    decreases c.len(),
{
    let d = c.update(u, x);
    if u == c.len() - 1 {
        assert(d.drop_last() =~= c.drop_last());
    } else {
        assert(d.drop_last() =~= c.drop_last().update(u, x));
        lemma_white_count_set(c.drop_last(), u, x);
    }
}

proof fn lemma_white_count_mono(a: Seq<u8>, b: Seq<u8>)
    requires
        a.len() == b.len(),
        forall|i: int| 0 <= i < b.len() && b[i] == 0 ==> a[i] == 0,
    ensures
        white_count(b) <= white_count(a),
    decreases a.len(),
{
    if a.len() > 0 {
        lemma_white_count_mono(a.drop_last(), b.drop_last());
    }
}

/// The state of the depth-first search: colour 0 is unvisited, 1 is on the
/// current path, 2 is finished; finished nodes are listed in `order`, each
/// after all its dependencies.
pub open spec fn dfs_inv(deps: Seq<Seq<usize>>, color: Seq<u8>, path: Seq<usize>, order: Seq<usize>) -> bool {
    let n = deps.len();
    &&& color.len() == n
    &&& forall|x: int| 0 <= x < n ==> (color[x] == 1 <==> path.contains(x as usize))
    &&& forall|x: int| 0 <= x < n ==> (color[x] == 2 <==> order.contains(x as usize))
    &&& forall|x: int| 0 <= x < n ==> color[x] <= 2
    &&& forall|i: int| 0 <= i < path.len() ==> path[i] < n
    &&& forall|i: int| 0 <= i < order.len() ==> order[i] < n
    &&& distinct(path)
    &&& distinct(order)
    &&& is_walk(deps, path)
    &&& deps_first(deps, order)
}

/// The position of `x` in a sequence that holds it.
pub open spec fn pos_of(o: Seq<usize>, x: usize) -> int {
    choose|j: int| 0 <= j < o.len() && o[j] == x
}

/// A graph whose nodes can all be listed, each once and after its
/// dependencies, has no cycle.
pub proof fn lemma_order_implies_acyclic(deps: Seq<Seq<usize>>, o: Seq<usize>)
    requires
        forall|i: int, e: int| 0 <= i < deps.len() && 0 <= e < deps[i].len() ==> #[trigger] deps[i][e] < deps.len(),
        deps_first(deps, o),
        distinct(o),
        forall|x: usize| x < deps.len() ==> #[trigger] o.contains(x),
    ensures
        acyclic(deps),
{
    assert forall|p: Seq<usize>| !#[trigger] is_cycle(deps, p) by {
        if is_cycle(deps, p) {
            // every node of the walk is a node of the graph, and its position
            // in the order decreases at each step
            assert forall|i: int| 0 <= i < p.len() - 1 implies pos_of(o, p[i + 1]) < #[trigger] pos_of(o, p[i]) by {
                assert(step(deps, p, i));
                let u = p[i] as int;
                let e = choose|e: int| 0 <= e < deps[u].len() && deps[u][e] == p[i + 1];
                assert(deps[u][e] < deps.len());
                assert(o.contains(p[i]));
                assert(o.contains(p[i + 1]));
                let k = pos_of(o, p[i]);
                assert(occurs_before(o, deps[o[k] as int][e], k));
                let j = choose|j: int| 0 <= j < k && o[j] == deps[o[k] as int][e];
                let j2 = pos_of(o, p[i + 1]);
                assert(j == j2);
            }
            let last = p.len() - 1;
            lemma_pos_decreasing(deps, o, p, last);
            assert(pos_of(o, p[last]) <= pos_of(o, p[0]) - last);
        }
    }
}

proof fn lemma_pos_decreasing(deps: Seq<Seq<usize>>, o: Seq<usize>, p: Seq<usize>, i: int)
    requires
        0 <= i < p.len(),
        forall|k: int| 0 <= k < p.len() - 1 ==> pos_of(o, p[k + 1]) < #[trigger] pos_of(o, p[k]),
    ensures
        pos_of(o, p[i]) <= pos_of(o, p[0]) - i,
    decreases i,
{
    if i > 0 {
        lemma_pos_decreasing(deps, o, p, i - 1);
        assert(pos_of(o, p[(i - 1) + 1]) < pos_of(o, p[i - 1]));
    }
}

/// A sequence of distinct numbers below `n` that holds each of them has `n`
/// elements.
proof fn lemma_distinct_len(o: Seq<usize>, n: int)
    requires
        0 <= n <= usize::MAX,
        distinct(o),
        forall|i: int| 0 <= i < o.len() ==> o[i] < n,
        forall|x: usize| x < n ==> #[trigger] o.contains(x),
    ensures
        o.len() == n,
{
    let s = o.to_set();
    let r = Set::new(|x: usize| x < n);
    assert(s =~= r) by {
        assert forall|x: usize| s.contains(x) implies r.contains(x) by {
            let j = choose|j: int| 0 <= j < o.len() && o[j] == x;
        }
        assert forall|x: usize| r.contains(x) implies s.contains(x) by {
            assert(o.contains(x as usize));
        }
    }
    o.unique_seq_to_set();
    lemma_range_set_len(n);
}

proof fn lemma_range_set_len(n: int)
    requires
        0 <= n <= usize::MAX,
    ensures
        Set::new(|x: usize| x < n).finite(),
        Set::new(|x: usize| x < n).len() == n,
    decreases n,
{
    let r = Set::new(|x: usize| x < n);
    if n == 0 {
        assert(r =~= Set::<usize>::empty());
    } else {
        lemma_range_set_len(n - 1);
        let r1 = Set::new(|x: usize| x < n - 1);
        assert(!r1.contains((n - 1) as usize));
        assert(r =~= r1.insert((n - 1) as usize));
    }
}

/// A graph whose nodes are named; node `i` has name `names[i]` and depends
/// on the nodes `deps[i]`. `listed[i]` tells whether the node was added as a
/// module in its own right rather than only as a dependency.
#[derive(Debug)]
pub struct DepGraph {
    names: Vec<String>,
    deps: Vec<Vec<usize>>,
    listed: Vec<bool>,
}

impl DepGraph {
    pub closed spec fn spec_names(&self) -> Seq<Seq<char>> {
        self.names@.map_values(|s: String| s@)
    }

    pub closed spec fn spec_deps(&self) -> Seq<Seq<usize>> {
        self.deps@.map_values(|d: Vec<usize>| d@)
    }

    pub closed spec fn spec_listed(&self) -> Seq<bool> {
        self.listed@
    }

    /// Names are distinct and every dependency is a node.
    pub closed spec fn wf(&self) -> bool {
        &&& self.spec_names().len() == self.deps.len()
        &&& self.spec_listed().len() == self.deps.len()
        &&& distinct(self.spec_names())
        &&& forall|i: int, e: int|
            0 <= i < self.deps.len() && 0 <= e < self.deps@[i].len() ==> #[trigger] self.deps@[i]@[e] < self.deps.len()
    }

    /// `c` is the list of names of a cycle of the graph.
    pub open spec fn names_form_cycle(&self, c: Seq<Seq<char>>) -> bool {
        exists|p: Seq<usize>|
            #[trigger] is_cycle(self.spec_deps(), p) && p.len() == c.len() && forall|i: int|
                0 <= i < p.len() ==> p[i] < self.spec_names().len() && c[i] == self.spec_names()[p[i] as int]
    }

    /// `o` lists the names of all nodes, each once, every node after the
    /// nodes it depends on.
    pub open spec fn names_in_dependency_order(&self, o: Seq<Seq<char>>) -> bool {
        exists|p: Seq<usize>|
            #[trigger] deps_first(self.spec_deps(), p) && distinct(p) && p.len() == self.spec_names().len() && o.len()
                == p.len() && forall|i: int|
                0 <= i < p.len() ==> p[i] < self.spec_names().len() && o[i] == self.spec_names()[p[i] as int]
    }

    pub fn new() -> (g: DepGraph)
        ensures
            g.wf(),
            g.spec_names() == Seq::<Seq<char>>::empty(),
    {
        DepGraph { names: Vec::new(), deps: Vec::new(), listed: Vec::new() }
    }

    pub fn len(&self) -> (r: usize)
        ensures
            r == self.spec_names().len(),
    {
        self.names.len()
    }

    /// The position of the node named `name`, if there is one.
    pub fn find(&self, name: &str) -> (r: Option<usize>)
        requires
            self.wf(),
        ensures
            r matches Some(i) ==> i < self.spec_names().len() && self.spec_names()[i as int] == name@,
            r is None ==> !self.spec_names().contains(name@),
    {
        let mut i: usize = 0;
        while i < self.names.len()
            invariant
                i <= self.names.len(),
                forall|j: int| 0 <= j < i ==> self.names@[j]@ != name@,
            decreases self.names.len() - i,
        {
            if str_eq(self.names[i].as_str(), name) {
                return Some(i);
            }
            i += 1;
        }
        proof {
            if self.spec_names().contains(name@) {
                let j = choose|j: int| 0 <= j < self.spec_names().len() && self.spec_names()[j] == name@;
                assert(self.names@[j]@ == name@);
            }
        }
        None
    }

    pub fn name(&self, i: usize) -> (r: String)
        requires
            i < self.spec_names().len(),
        ensures
            r@ == self.spec_names()[i as int],
    {
        self.names[i].clone()
    }

    pub fn is_listed(&self, i: usize) -> (r: bool)
        requires
            i < self.spec_listed().len(),
        ensures
            r == self.spec_listed()[i as int],
    {
        self.listed[i]
    }

    /// The node named `name`, added with no dependencies if it is new; a
    /// node added as listed stays listed.
    pub fn add_node(&mut self, name: &str, listed: bool) -> (r: usize)
        requires
            old(self).wf(),
        ensures
            final(self).wf(),
            r < final(self).spec_names().len(),
            final(self).spec_names()[r as int] == name@,
            old(self).spec_names().contains(name@) ==> final(self).spec_names() == old(self).spec_names()
                && final(self).spec_deps() == old(self).spec_deps(),
            !old(self).spec_names().contains(name@) ==> final(self).spec_names() == old(self).spec_names().push(name@)
                && final(self).spec_deps() == old(self).spec_deps().push(Seq::<usize>::empty()),
            final(self).spec_listed()[r as int] == (listed || (old(self).spec_names().contains(name@) && old(self).spec_listed()[r as int])),
            forall|j: int| 0 <= j < old(self).spec_listed().len() && j != r ==> final(self).spec_listed()[j] == old(self).spec_listed()[j],
    {
        match self.find(name) {
            Some(i) => {
                if listed {
                    self.listed.set(i, true);
                }
                proof {
                    assert(self.spec_names() =~= old(self).spec_names());
                    assert(self.spec_deps() =~= old(self).spec_deps());
                }
                i
            }
            None => {
                let i = self.names.len();
                self.names.push(owned(name));
                self.deps.push(Vec::new());
                self.listed.push(listed);
                proof {
                    assert(self.spec_names() =~= old(self).spec_names().push(name@));
                    assert(self.spec_deps() =~= old(self).spec_deps().push(Seq::<usize>::empty()));
                    assert forall|a: int, b: int|
                        0 <= a < self.spec_names().len() && 0 <= b < self.spec_names().len() && a != b implies self.spec_names()[a]
                        != self.spec_names()[b] by {
                        if a == i as int {
                            assert(old(self).spec_names()[b] == self.spec_names()[b]);
                        } else if b == i as int {
                            assert(old(self).spec_names()[a] == self.spec_names()[a]);
                        }
                    }
                    assert forall|a: int, e: int|
                        0 <= a < self.deps.len() && 0 <= e < self.deps@[a].len() implies #[trigger] self.deps@[a]@[e] < self.deps.len() by {
                        if a < i as int {
                            assert(self.deps@[a] == old(self).deps@[a]);
                        }
                    }
                }
                i
            }
        }
    }

    /// Records that node `from` depends on node `to`.
    pub fn add_edge(&mut self, from: usize, to: usize)
        requires
            old(self).wf(),
            from < old(self).spec_names().len(),
            to < old(self).spec_names().len(),
        ensures
            final(self).wf(),
            final(self).spec_names() == old(self).spec_names(),
            final(self).spec_listed() == old(self).spec_listed(),
            final(self).spec_deps() == old(self).spec_deps().update(from as int, old(self).spec_deps()[from as int].push(to)),
    {
        let mut d = Vec::new();
        std::mem::swap(&mut d, &mut self.deps[from]);
        d.push(to);
        self.deps.set(from, d);
        proof {
            assert(self.spec_names() =~= old(self).spec_names());
            assert(self.spec_deps() =~= old(self).spec_deps().update(from as int, old(self).spec_deps()[from as int].push(to)));
            assert forall|a: int, e: int|
                0 <= a < self.deps.len() && 0 <= e < self.deps@[a].len() implies #[trigger] self.deps@[a]@[e] < self.deps.len() by {
                if a != from as int {
                    assert(self.deps@[a] == old(self).deps@[a]);
                } else if e < old(self).deps@[a].len() {
                    assert(self.deps@[a]@[e] == old(self).deps@[a]@[e]);
                }
            }
        }
    }

    /// The names of the dependencies of node `i`, in the order they were added.
    pub fn dep_names(&self, i: usize) -> (r: Vec<String>)
        requires
            self.wf(),
            i < self.spec_names().len(),
        ensures
            r@.map_values(|s: String| s@) == self.spec_deps()[i as int].map_values(|j: usize| self.spec_names()[j as int]),
    {
        let d = &self.deps[i];
        let mut r: Vec<String> = Vec::new();
        let mut k: usize = 0;
        while k < d.len()
            invariant
                self.wf(),
                i < self.names.len(),
                *d == self.deps@[i as int],
                k <= d.len(),
                r.len() == k,
                forall|j: int| 0 <= j < k ==> (#[trigger] r@[j])@ == self.spec_names()[d@[j] as int],
            decreases d.len() - k,
        {
            assert(d@[k as int] < self.deps.len());
            r.push(self.names[d[k]].clone());
            k += 1;
        }
        assert(r@.map_values(|s: String| s@) =~= self.spec_deps()[i as int].map_values(|j: usize| self.spec_names()[j as int]));
        r
    }
    /// Depth-first search from the unvisited node `u`: either finds a cycle,
    /// or finishes `u` and every node reachable from it, appending them to
    /// `order` after their dependencies.
    fn dfs(
        &self,
        u: usize,
        color: &mut Vec<u8>,
        path: &mut Vec<usize>,
        order: &mut Vec<usize>,
        Ghost(unvisited): Ghost<nat>,
    ) -> (r: Option<Vec<usize>>)
        requires
            unvisited == white_count(old(color)@),
            self.wf(),
            dfs_inv(self.spec_deps(), old(color)@, old(path)@, old(order)@),
            u < self.deps.len(),
            old(color)@[u as int] == 0,
            old(path)@.len() > 0 ==> edge(self.spec_deps(), old(path)@.last() as int, u as int),
        ensures
            r matches Some(c) ==> is_cycle(self.spec_deps(), c@) && forall|i: int| 0 <= i < c.len() ==> c@[i] < self.deps.len(),
            r is None ==> {
                &&& dfs_inv(self.spec_deps(), final(color)@, final(path)@, final(order)@)
                &&& final(path)@ == old(path)@
                &&& final(color)@[u as int] == 2
                &&& forall|x: int| 0 <= x < self.deps.len() && old(color)@[x] != 0 ==> final(color)@[x] == old(color)@[x]
                &&& old(order)@.len() <= final(order)@.len()
                &&& forall|j: int| 0 <= j < old(order)@.len() ==> final(order)@[j] == old(order)@[j]
            },
        decreases unvisited,
    {
        let ghost deps = self.spec_deps();
        let ghost n = self.deps.len();
        let ghost c0 = color@;
        let ghost p0 = path@;
        let ghost o0 = order@;
        proof {
            lemma_white_count_set(color@, u as int, 1);
        }
        color.set(u, 1);
        path.push(u);
        proof {
            assert(!p0.contains(u));
            assert(!o0.contains(u));
            assert forall|x: int| 0 <= x < n implies (color@[x] == 1 <==> path@.contains(x as usize)) by {
                if x != u as int {
                    if path@.contains(x as usize) {
                        let j = choose|j: int| 0 <= j < path@.len() && path@[j] == x as usize;
                        if j < p0.len() {
                            assert(p0.contains(x as usize));
                        }
                    }
                    if p0.contains(x as usize) {
                        let j = choose|j: int| 0 <= j < p0.len() && p0[j] == x as usize;
                        assert(path@[j] == x as usize);
                    }
                } else {
                    assert(path@[p0.len() as int] == u);
                }
            }
            assert forall|i: int| 0 <= i < path@.len() - 1 implies #[trigger] step(deps, path@, i) by {
                if i < p0.len() - 1 {
                    assert(step(deps, p0, i));
                }
            }
        }
        let d = &self.deps[u];
        let mut e: usize = 0;
        while e < d.len()
            invariant
                self.wf(),
                deps == self.spec_deps(),
                n == self.deps.len(),
                u < n,
                *d == self.deps@[u as int],
                d@ == deps[u as int],
                e <= d.len(),
                dfs_inv(deps, color@, path@, order@),
                path@ == p0.push(u),
                color@[u as int] == 1,
                forall|x: int| 0 <= x < n && c0[x] != 0 ==> color@[x] == c0[x],
                o0.len() <= order@.len(),
                forall|j: int| 0 <= j < o0.len() ==> order@[j] == o0[j],
                forall|k: int| 0 <= k < e ==> color@[d@[k] as int] == 2,
                white_count(color@) < white_count(c0),
                unvisited == white_count(c0),
                c0.len() == n,
            decreases d.len() - e,
        {
            let v = d[e];
            assert(v < n) by {
                assert(self.deps@[u as int]@[e as int] < self.deps.len());
            }
            assert(edge(deps, u as int, v as int)) by {
                assert(deps[u as int][e as int] == v);
            }
            if color[v] == 0 {
                let ghost cb = color@;
                let ghost ob = order@;
                assert(path@.last() == u);
                let ghost w = white_count(color@);
                match self.dfs(v, color, path, order, Ghost(w)) {
                    Some(c) => {
                        return Some(c);
                    },
                    None => {
                        proof {
                            lemma_white_count_mono(cb, color@);
                        }
                    },
                }
            } else if color[v] == 1 {
                // `v` is on the current path: the path from `v` back to `u`
                // and the edge from `u` to `v` close a cycle.
                assert(path@.contains(v));
                let mut pos: usize = 0;
                while path[pos] != v
                    invariant
                        pos < path.len(),
                        exists|j: int| pos <= j < path@.len() && path@[j] == v,
                    decreases path@.len() - pos,
                {
                    pos += 1;
                }
                let mut c: Vec<usize> = Vec::new();
                let mut k: usize = pos;
                while k < path.len()
                    invariant
                        pos <= k <= path@.len(),
                        c@ == path@.subrange(pos as int, k as int),
                    decreases path@.len() - k,
                {
                    c.push(path[k]);
                    k += 1;
                    assert(c@ =~= path@.subrange(pos as int, k as int));
                }
                c.push(v);
                proof {
                    let pl = path@.len();
                    assert(path@[pl - 1] == u);
                    assert forall|i: int| 0 <= i < c@.len() - 1 implies #[trigger] step(deps, c@, i) by {
                        if i < pl - pos - 1 {
                            assert(step(deps, path@, pos + i));
                            assert(c@[i] == path@[pos + i]);
                            assert(c@[i + 1] == path@[pos + i + 1]);
                        } else {
                            assert(c@[i] == u);
                            assert(c@[i + 1] == v);
                        }
                    }
                    assert forall|i: int| 0 <= i < c.len() implies c@[i] < n by {
                        if i < pl - pos {
                            assert(c@[i] == path@[pos + i]);
                        }
                    }
                }
                return Some(c);
            }
            assert(color@[v as int] == 2);
            e += 1;
        }
        let ghost ob = order@;
        color.set(u, 2);
        path.pop();
        order.push(u);
        proof {
            assert(path@ =~= p0);
            assert forall|x: int| 0 <= x < n implies (color@[x] == 1 <==> path@.contains(x as usize)) by {
                if x != u as int {
                    if p0.contains(x as usize) {
                        let j = choose|j: int| 0 <= j < p0.len() && p0[j] == x as usize;
                        assert(p0.push(u)[j] == x as usize);
                    }
                    if p0.push(u).contains(x as usize) {
                        let j = choose|j: int| 0 <= j < p0.len() + 1 && p0.push(u)[j] == x as usize;
                        assert(j < p0.len());
                    }
                }
            }
            assert forall|x: int| 0 <= x < n implies (color@[x] == 2 <==> order@.contains(x as usize)) by {
                if x != u as int {
                    if ob.contains(x as usize) {
                        let j = choose|j: int| 0 <= j < ob.len() && ob[j] == x as usize;
                        assert(order@[j] == x as usize);
                    }
                    if order@.contains(x as usize) {
                        let j = choose|j: int| 0 <= j < order@.len() && order@[j] == x as usize;
                        assert(j < ob.len());
                        assert(ob.contains(x as usize));
                    }
                } else {
                    assert(order@[ob.len() as int] == u);
                }
            }
            assert(!ob.contains(u)) by {
                assert(p0.push(u).contains(u)) by {
                    assert(p0.push(u)[p0.len() as int] == u);
                }
            }
            assert(distinct(order@)) by {
                assert forall|i: int, j: int| 0 <= i < order@.len() && 0 <= j < order@.len() && i != j implies order@[i] != order@[j] by {
                    if i == ob.len() as int {
                        assert(order@[j] == ob[j]);
                    } else if j == ob.len() as int {
                        assert(order@[i] == ob[i]);
                    }
                }
            }
            assert forall|k: int, e2: int|
                0 <= k < order@.len() && 0 <= e2 < deps[order@[k] as int].len() implies #[trigger] occurs_before(
                order@,
                deps[order@[k] as int][e2],
                k,
            ) by {
                if k < ob.len() {
                    assert(order@[k] == ob[k]);
                    assert(occurs_before(ob, deps[ob[k] as int][e2], k));
                    let j = choose|j: int| 0 <= j < k && ob[j] == deps[ob[k] as int][e2];
                    assert(order@[j] == ob[j]);
                } else {
                    let w = deps[u as int][e2];
                    assert(color@[w as int] == 2);
                    assert(ob.contains(w));
                    let j = choose|j: int| 0 <= j < ob.len() && ob[j] == w;
                    assert(order@[j] == w);
                }
            }
            assert forall|x: int| 0 <= x < n && c0[x] != 0 implies color@[x] == c0[x] by {
                assert(x != u as int);
            }
        }
        None
    }

    /// Either every node, listed after the nodes it depends on, or a cycle.
    pub fn dependency_order(&self) -> (r: Result<Vec<usize>, Vec<usize>>)
        requires
            self.wf(),
        ensures
            r matches Ok(o) ==> {
                &&& deps_first(self.spec_deps(), o@)
                &&& distinct(o@)
                &&& o.len() == self.spec_deps().len()
                &&& forall|i: int| 0 <= i < o.len() ==> o@[i] < self.spec_deps().len()
                &&& forall|x: usize| x < self.spec_deps().len() ==> #[trigger] o@.contains(x)
            },
            r matches Err(c) ==> is_cycle(self.spec_deps(), c@) && forall|i: int| 0 <= i < c.len() ==> c@[i] < self.spec_deps().len(),
    {
        let n = self.deps.len();
        let mut color: Vec<u8> = Vec::new();
        let mut i: usize = 0;
        while i < n
            invariant
                i <= n,
                color@.len() == i,
                forall|x: int| 0 <= x < i ==> color@[x] == 0,
            decreases n - i,
        {
            color.push(0);
            i += 1;
        }
        let mut path: Vec<usize> = Vec::new();
        let mut order: Vec<usize> = Vec::new();
        let ghost deps = self.spec_deps();
        proof {
            assert(dfs_inv(deps, color@, path@, order@));
        }
        let mut u: usize = 0;
        while u < n
            invariant
                self.wf(),
                deps == self.spec_deps(),
                n == self.deps.len(),
                u <= n,
                dfs_inv(deps, color@, path@, order@),
                path@.len() == 0,
                forall|x: int| 0 <= x < u ==> color@[x] == 2,
            decreases n - u,
        {
            if color[u] == 0 {
                let ghost w = white_count(color@);
                match self.dfs(u, &mut color, &mut path, &mut order, Ghost(w)) {
                    Some(c) => {
                        return Err(c);
                    },
                    None => {},
                }
            } else {
                assert(color@[u as int] != 1) by {
                    assert(!path@.contains(u));
                }
            }
            u += 1;
        }
        proof {
            assert forall|x: usize| x < n implies #[trigger] order@.contains(x) by {
                assert(color@[x as int] == 2);
            }
            // every finished node is listed once, so the order has `n` entries
            lemma_distinct_len(order@, n as int);
        }
        Ok(order)
    }

    /// The names of the dependencies of node `i`.
    pub open spec fn dep_names_at(&self, i: int) -> Seq<Seq<char>> {
        self.spec_deps()[i].map_values(|j: usize| self.spec_names()[j as int])
    }

    /// The names of the dependencies of the node named `m`; none if no node
    /// has that name.
    pub open spec fn name_deps(&self, m: Seq<char>) -> Seq<Seq<char>> {
        if self.spec_names().contains(m) {
            self.dep_names_at(self.spec_names().index_of(m))
        } else {
            Seq::empty()
        }
    }

    /// `c` names a cycle: each node depends on the next, and the last is the
    /// first.
    pub open spec fn is_name_cycle(&self, c: Seq<Seq<char>>) -> bool {
        &&& c.len() >= 2
        &&& c[0] == c[c.len() - 1]
        &&& forall|i: int| 0 <= i < c.len() - 1 ==> #[trigger] self.name_deps(c[i]).contains(c[i + 1])
    }

    /// No cycle runs through the graph.
    pub open spec fn has_no_cycle(&self) -> bool {
        forall|c: Seq<Seq<char>>| !#[trigger] self.is_name_cycle(c)
    }

    /// `o` names every node once, each after all the nodes it depends on.
    pub open spec fn is_dependency_order(&self, o: Seq<Seq<char>>) -> bool {
        &&& distinct(o)
        &&& o.to_set() == self.spec_names().to_set()
        &&& forall|k: int, e: int|
            0 <= k < o.len() && 0 <= e < self.name_deps(o[k]).len() ==> #[trigger] o.take(k).contains(self.name_deps(o[k])[e])
    }

    pub proof fn lemma_name_deps_at(&self, i: int)
        requires
            self.wf(),
            0 <= i < self.spec_names().len(),
        ensures
            self.name_deps(self.spec_names()[i]) == self.dep_names_at(i),
    {
        lemma_distinct_index_of(self.spec_names(), i);
        assert(self.spec_names().contains(self.spec_names()[i]));
    }

    proof fn lemma_index_cycle_names(&self, p: Seq<usize>, c: Seq<Seq<char>>)
        requires
            self.wf(),
            is_cycle(self.spec_deps(), p),
            p.len() == c.len(),
            forall|i: int| 0 <= i < p.len() ==> p[i] < self.spec_names().len() && c[i] == self.spec_names()[p[i] as int],
        ensures
            self.is_name_cycle(c),
    {
        let deps = self.spec_deps();
        assert forall|i: int| 0 <= i < c.len() - 1 implies #[trigger] self.name_deps(c[i]).contains(c[i + 1]) by {
            assert(step(deps, p, i));
            let u = p[i] as int;
            let e = choose|e: int| 0 <= e < deps[u].len() && deps[u][e] == p[i + 1];
            self.lemma_name_deps_at(u);
            assert(self.dep_names_at(u)[e] == c[i + 1]);
        }
    }

    proof fn lemma_name_cycle_index_cycle(&self, c: Seq<Seq<char>>)
        requires
            self.wf(),
            self.is_name_cycle(c),
        ensures
            !acyclic(self.spec_deps()),
    {
        let names = self.spec_names();
        let deps = self.spec_deps();
        assert forall|i: int| 0 <= i < c.len() implies names.contains(#[trigger] c[i]) by {
            if i < c.len() - 1 {
                assert(self.name_deps(c[i]).contains(c[i + 1]));
            } else {
                let z: int = 0;
                assert(self.name_deps(c[z]).contains(c[z + 1]));
                assert(names.contains(c[z]));
            }
        }
        let p = c.map_values(|x: Seq<char>| names.index_of(x) as usize);
        assert forall|i: int| 0 <= i < p.len() - 1 implies #[trigger] step(deps, p, i) by {
            let u = names.index_of(c[i]);
            assert(names.contains(c[i]));
            assert(self.name_deps(c[i]).contains(c[i + 1]));
            let d = self.dep_names_at(u);
            let e = choose|e: int| 0 <= e < d.len() && d[e] == c[i + 1];
            let v = deps[u][e];
            assert(self.deps@[u]@[e] < self.deps.len());
            assert(names[v as int] == c[i + 1]);
            lemma_distinct_index_of(names, v as int);
            assert(names.contains(c[i + 1]));
            assert(p[i + 1] == v);
        }
        assert(p[0] == p[p.len() - 1]);
        assert(is_cycle(deps, p));
    }

    /// The names of the nodes `p`.
    fn names_at(&self, p: &Vec<usize>) -> (r: Vec<String>)
        requires
            forall|i: int| 0 <= i < p.len() ==> p@[i] < self.spec_names().len(),
        ensures
            r.len() == p.len(),
            forall|i: int| 0 <= i < p.len() ==> (#[trigger] r@[i])@ == self.spec_names()[p@[i] as int],
    {
        let mut r: Vec<String> = Vec::new();
        let mut k: usize = 0;
        while k < p.len()
            invariant
                forall|i: int| 0 <= i < p.len() ==> p@[i] < self.spec_names().len(),
                k <= p.len(),
                r.len() == k,
                forall|i: int| 0 <= i < k ==> (#[trigger] r@[i])@ == self.spec_names()[p@[i] as int],
            decreases p.len() - k,
        {
            r.push(self.names[p[k]].clone());
            k += 1;
        }
        r
    }

    /// Either every node by name, each after the nodes it depends on, or the
    /// names along a cycle.
    pub fn order_names(&self) -> (r: Result<Vec<String>, Vec<String>>)
        requires
            self.wf(),
        ensures
            r matches Ok(o) ==> self.is_dependency_order(o@.map_values(|s: String| s@)) && self.has_no_cycle(),
            r matches Err(c) ==> self.is_name_cycle(c@.map_values(|s: String| s@)),
    {
        match self.dependency_order() {
            Ok(o) => {
                let r = self.names_at(&o);
                proof {
                    let names = self.spec_names();
                    let deps = self.spec_deps();
                    let on = r@.map_values(|s: String| s@);
                    lemma_order_implies_acyclic(deps, o@);
                    assert forall|c: Seq<Seq<char>>| !#[trigger] self.is_name_cycle(c) by {
                        if self.is_name_cycle(c) {
                            self.lemma_name_cycle_index_cycle(c);
                        }
                    }
                    assert forall|a: int, b: int| 0 <= a < on.len() && 0 <= b < on.len() && a != b implies on[a] != on[b] by {
                        assert(on[a] == names[o@[a] as int]);
                        assert(on[b] == names[o@[b] as int]);
                        assert(o@[a] != o@[b]);
                    }
                    assert forall|x: Seq<char>| on.to_set().contains(x) <==> names.to_set().contains(x) by {
                        if on.contains(x) {
                            let k = choose|k: int| 0 <= k < on.len() && on[k] == x;
                            assert(names[o@[k] as int] == x);
                        }
                        if names.contains(x) {
                            let j = choose|j: int| 0 <= j < names.len() && names[j] == x;
                            assert(o@.contains(j as usize));
                            let k = choose|k: int| 0 <= k < o@.len() && o@[k] == j as usize;
                            assert(on[k] == x);
                        }
                    }
                    assert(on.to_set() =~= names.to_set());
                    assert forall|k: int, e: int|
                        0 <= k < on.len() && 0 <= e < self.name_deps(on[k]).len() implies #[trigger] on.take(k).contains(
                            self.name_deps(on[k])[e],
                        ) by {
                        let u = o@[k] as int;
                        self.lemma_name_deps_at(u);
                        assert(occurs_before(o@, deps[o@[k] as int][e], k));
                        let j = choose|j: int| 0 <= j < k && o@[j] == deps[o@[k] as int][e];
                        assert(on[j] == names[o@[j] as int]);
                        assert(on.take(k)[j] == on[j]);
                    }
                    assert(distinct(on));
                    assert(self.has_no_cycle());
                    assert(self.is_dependency_order(on));
                }
                Ok(r)
            },
            Err(p) => {
                let r = self.names_at(&p);
                proof {
                    self.lemma_index_cycle_names(p@, r@.map_values(|s: String| s@));
                }
                Err(r)
            },
        }
    }

    /// The names along some cycle, or none if the graph has no cycle.
    pub fn find_cycle(&self) -> (r: Option<Vec<String>>)
        requires
            self.wf(),
        ensures
            r matches Some(c) ==> self.is_name_cycle(c@.map_values(|s: String| s@)),
            r is None ==> self.has_no_cycle(),
    {
        match self.order_names() {
            Ok(_) => None,
            Err(c) => Some(c),
        }
    }
}

/// In a sequence without repeats, the first position of the element at `j`
/// is `j`.
pub proof fn lemma_distinct_index_of<A>(s: Seq<A>, j: int)
    requires
        distinct(s),
        0 <= j < s.len(),
    ensures
        s.index_of(s[j]) == j,
{
    assert(s.contains(s[j]));
    let k = s.index_of(s[j]);
    assert(s[k] == s[j]);
}


impl DepGraph {
    /// The names of the nodes that were added as modules in their own right.
    pub open spec fn listed_names(&self) -> Set<Seq<char>> {
        Set::new(
            |m: Seq<char>|
                exists|i: int| 0 <= i < self.spec_names().len() && self.spec_listed()[i] && self.spec_names()[i] == m,
        )
    }

    /// What well-formedness says of the names and flags.
    pub proof fn lemma_wf_facts(&self)
        requires
            self.wf(),
        ensures
            distinct(self.spec_names()),
            self.spec_listed().len() == self.spec_names().len(),
            self.spec_deps().len() == self.spec_names().len(),
    {
    }

    /// Adds the node `name` if there is none, marking it listed when
    /// `listed` holds; no dependency changes.
    pub fn add_named(&mut self, name: &str, listed: bool) -> (r: usize)
        requires
            old(self).wf(),
        ensures
            final(self).wf(),
            r < final(self).spec_names().len(),
            final(self).spec_names()[r as int] == name@,
            final(self).spec_names().to_set() == old(self).spec_names().to_set().insert(name@),
            old(self).spec_names().len() <= final(self).spec_names().len(),
            forall|k: int| 0 <= k < old(self).spec_names().len() ==> #[trigger] final(self).spec_names()[k] == old(self).spec_names()[k],
            forall|m: Seq<char>| #[trigger] final(self).name_deps(m) == old(self).name_deps(m),
            final(self).listed_names() == (if listed {
                old(self).listed_names().insert(name@)
            } else {
                old(self).listed_names()
            }),
    {
        let ghost g0 = *self;
        let r = self.add_node(name, listed);
        proof {
            let g1 = *self;
            let n0 = g0.spec_names();
            let n1 = g1.spec_names();
            assert(n1.to_set() =~= n0.to_set().insert(name@)) by {
                assert forall|m: Seq<char>| n1.to_set().contains(m) <==> n0.to_set().insert(name@).contains(m) by {
                    if n1.contains(m) {
                        let k = choose|k: int| 0 <= k < n1.len() && n1[k] == m;
                        if k < n0.len() {
                            assert(n0[k] == m);
                        }
                    }
                    if n0.contains(m) {
                        let k = choose|k: int| 0 <= k < n0.len() && n0[k] == m;
                        assert(n1[k] == m);
                    }
                    if m == name@ {
                        assert(n1[r as int] == m);
                    }
                }
            }
            assert forall|m: Seq<char>| #[trigger] g1.name_deps(m) == g0.name_deps(m) by {
                if !n0.contains(name@) && n0.contains(m) {
                    let k = n0.index_of(m);
                    lemma_distinct_index_of(n0, k);
                    lemma_distinct_index_of(n1, k);
                    assert(n1[k] == m);
                    assert(n1.contains(m));
                    assert(g1.spec_deps()[k] == g0.spec_deps()[k]);
                    assert(g1.dep_names_at(k) =~= g0.dep_names_at(k)) by {
                        assert forall|e: int| 0 <= e < g0.spec_deps()[k].len() implies g0.spec_deps()[k][e] < n0.len() by {
                            assert(g0.deps@[k]@[e] < g0.deps.len());
                        }
                    }
                } else if !n0.contains(name@) && m == name@ {
                    lemma_distinct_index_of(n1, r as int);
                    assert(g1.dep_names_at(r as int) =~= Seq::<Seq<char>>::empty());
                } else if !n0.contains(name@) {
                    if n1.contains(m) {
                        let k = choose|k: int| 0 <= k < n1.len() && n1[k] == m;
                        if k < n0.len() {
                            assert(n0[k] == m);
                        }
                    }
                }
            }
            assert(g1.listed_names() =~= (if listed {
                g0.listed_names().insert(name@)
            } else {
                g0.listed_names()
            })) by {
                assert forall|m: Seq<char>| g1.listed_names().contains(m) <==> (if listed {
                    g0.listed_names().insert(name@)
                } else {
                    g0.listed_names()
                }).contains(m) by {
                    if g1.listed_names().contains(m) {
                        let k = choose|k: int| 0 <= k < n1.len() && g1.spec_listed()[k] && n1[k] == m;
                        if k != r as int {
                            assert(k < n0.len());
                            assert(n0[k] == m && g0.spec_listed()[k]);
                        }
                    }
                    if g0.listed_names().contains(m) {
                        let k = choose|k: int| 0 <= k < n0.len() && g0.spec_listed()[k] && n0[k] == m;
                        assert(n1[k] == m);
                        if k != r as int {
                            assert(g1.spec_listed()[k]);
                        }
                    }
                    if listed && m == name@ {
                        assert(g1.spec_listed()[r as int]);
                    }
                }
            }
        }
        r
    }

    /// Records that `from` depends on `to`, adding either node if there is
    /// none: `from` as a listed node, `to` as listed when `to_listed` holds.
    pub fn add_named_edge(&mut self, from: &str, to: &str, to_listed: bool)
        requires
            old(self).wf(),
        ensures
            final(self).wf(),
            final(self).spec_names().to_set() == old(self).spec_names().to_set().insert(from@).insert(to@),
            final(self).name_deps(from@) == old(self).name_deps(from@).push(to@),
            forall|m: Seq<char>| m != from@ ==> #[trigger] final(self).name_deps(m) == old(self).name_deps(m),
            final(self).listed_names() == (if to_listed {
                old(self).listed_names().insert(from@).insert(to@)
            } else {
                old(self).listed_names().insert(from@)
            }),
    {
        let ghost g0 = *self;
        let i = self.add_named(from, true);
        let j = self.add_named(to, to_listed);
        let ghost g1 = *self;
        self.add_edge(i, j);
        proof {
            let g2 = *self;
            let names = g2.spec_names();
            assert(names == g1.spec_names());
            assert(names[i as int] == from@);
            lemma_distinct_index_of(names, i as int);
            assert(names.contains(from@));
            assert forall|e: int| 0 <= e < g1.spec_deps()[i as int].len() implies g1.spec_deps()[i as int][e] < names.len() by {
                assert(g1.deps@[i as int]@[e] < g1.deps.len());
            }
            assert(g2.dep_names_at(i as int) =~= g1.dep_names_at(i as int).push(to@));
            assert(g2.name_deps(from@) == g1.name_deps(from@).push(to@));
            assert forall|m: Seq<char>| m != from@ implies #[trigger] g2.name_deps(m) == g1.name_deps(m) by {
                if names.contains(m) {
                    let k = names.index_of(m);
                    assert(names[k] == m);
                    assert(k != i as int);
                    assert(g2.spec_deps()[k] == g1.spec_deps()[k]);
                }
            }
            assert(g2.listed_names() =~= g1.listed_names());
        }
    }
}

} // verus!
