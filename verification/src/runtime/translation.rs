//! Translation of a term into an interaction net: each construct becomes a
//! node (or a few), wired to the nodes of its parts.
use vstd::prelude::*;

use crate::ast::patterns::{Pattern, SpecPattern};
use crate::ast::terms::{arms_view, lemma_term_lists, terms_view, Arm, Literal, SpecLiteral, SpecTerm, Term};
use crate::ast::types::Multiplicity;
use crate::runtime::net::node::fresh_node;
use crate::runtime::net::{AgentView, Net, NetView, Node, NodeId, NodeView, PortIndex};
use crate::runtime::primitives::{
    prim_name_to_io_op, prim_name_to_op, spec_prim_name_to_io_op, spec_prim_name_to_op, PrimVal, SpecPrimVal,
};
use crate::text::{begins_with, starts_with, str_eq};

verus! {

/// Leaves the `count` ports of node `id` from `start` on free, in order.
pub open spec fn free_run(v: NetView, id: usize, start: nat, count: nat) -> NetView
    decreases count,
{
    if count == 0 {
        v
    } else {
        free_run(v, id, start, (count - 1) as nat).add_free_port(id, (start + count - 1) as usize)
    }
}

/// A node added to the net, with the number it gets.
pub open spec fn with_node(v: NetView, n: NodeView) -> (NetView, usize) {
    (v.add_node(n), v.nodes.len() as usize)
}

/// A name: an IO operation (all its ports free), a primitive operation (its
/// ports free), or else a constructor with two free ports.
pub open spec fn tr_var(v: NetView, name: Seq<char>) -> (NetView, usize) {
    match spec_prim_name_to_io_op(name) {
        Some(io) => {
            let (v1, id) = with_node(v, fresh_node(AgentView::PrimIO(io), (io.spec_arity() + 2) as nat));
            (free_run(v1, id, 0, (io.spec_arity() + 2) as nat), id)
        },
        None => match spec_prim_name_to_op(name) {
            Some(op) => {
                let (v1, id) = with_node(v, fresh_node(AgentView::Prim(op), (op.spec_arity() + 1) as nat));
                (free_run(v1, id, 0, (op.spec_arity() + 1) as nat), id)
            },
            None => {
                let (v1, id) = with_node(v, fresh_node(AgentView::Constructor(name), 2));
                (free_run(v1, id, 0, 2), id)
            },
        },
    }
}

/// The number a float literal's text stands for, from the caller's table:
/// the first entry with that text.
pub open spec fn float_lookup(texts: Seq<Seq<char>>, bits: Seq<u64>, text: Seq<char>) -> Option<u64>
    decreases texts.len(),
{
    if texts.len() == 0 || bits.len() == 0 {
        None
    } else if texts[0] == text {
        Some(bits[0])
    } else {
        float_lookup(texts.drop_first(), bits.drop_first(), text)
    }
}

/// A literal: a value with its port 0 free, or a primitive operation with
/// all its ports free.
pub open spec fn tr_literal(v: NetView, lit: SpecLiteral, texts: Seq<Seq<char>>, bits: Seq<u64>) -> (NetView, usize) {
    match lit {
        SpecLiteral::Prim(op) => {
            let (v1, id) = with_node(v, fresh_node(AgentView::Prim(op), (op.spec_arity() + 1) as nat));
            (free_run(v1, id, 0, (op.spec_arity() + 1) as nat), id)
        },
        _ => {
            let val = match lit {
                SpecLiteral::Int(n) => SpecPrimVal::Int(n),
                SpecLiteral::Float(t) => SpecPrimVal::Float(
                    match float_lookup(texts, bits, t) {
                        Some(b) => b,
                        None => 0,
                    },
                ),
                SpecLiteral::Bool(b) => SpecPrimVal::Bool(b),
                SpecLiteral::Char(c) => SpecPrimVal::Char(c),
                SpecLiteral::Str(s) => SpecPrimVal::Str(s),
                _ => SpecPrimVal::Unit,
            };
            let (v1, id) = with_node(v, fresh_node(AgentView::PrimVal(val), 1));
            (free_run(v1, id, 0, 1), id)
        },
    }
}

/// The name at the head of a chain of applications, if it is a name.
pub open spec fn chain_head(t: SpecTerm) -> Option<Seq<char>>
    decreases t,
{
    match t {
        SpecTerm::App(f, _) => chain_head(*f),
        SpecTerm::Var(n) => Some(n),
        _ => None,
    }
}

/// An application whose head is a name beginning with `prim_` is a call
/// of that primitive on all the arguments of the chain.
pub open spec fn is_prim_chain(f: SpecTerm) -> bool {
    chain_head(f) matches Some(n) && begins_with(n, "prim_"@)
}

/// A pattern: a wildcard is an eraser, a name is translated as a name, and
/// a constructor pattern is a node wired at port `i` to its `i`-th part.
pub open spec fn tr_pattern(v: NetView, p: SpecPattern) -> (NetView, usize)
    decreases p, 0nat,
{
    match p {
        SpecPattern::Wildcard => with_node(v, fresh_node(AgentView::Epsilon, 1)),
        SpecPattern::Var(n) => tr_var(v, n),
        SpecPattern::Constructor(n, args) => {
            let (v1, id) = with_node(v, fresh_node(AgentView::Constructor(n), args.len()));
            (tr_pattern_args(v1, id, args, 0), id)
        },
    }
}

pub open spec fn tr_pattern_args(v: NetView, node: usize, ps: Seq<SpecPattern>, i: int) -> NetView
    decreases ps, ps.len() - i,
{
    if 0 <= i < ps.len() {
        proof {
            assert(decreases_to!(ps => ps[i]));
        }
        let (v1, a) = tr_pattern(v, ps[i]);
        tr_pattern_args(v1.connect(a, 0, node, i as usize), node, ps, i + 1)
    } else {
        v
    }
}

/// A term, in the net `v` (float literals read from the table): the net it
/// leaves and the number of the node that stands for the term.
pub open spec fn tr_term(v: NetView, t: SpecTerm, texts: Seq<Seq<char>>, bits: Seq<u64>) -> (NetView, usize)
    decreases t, 0nat,
{
    match t {
        SpecTerm::Var(n) => tr_var(v, n),
        SpecTerm::Abs(_, m, _, body) => {
            let (v1, lam) = with_node(v, fresh_node(AgentView::Lambda, 3));
            let (v2, b) = tr_term(v1, *body, texts, bits);
            let v3 = v2.connect(lam, 2, b, 0);
            let v4 = if *body is Var { v3.connect(lam, 0, b, 1) } else { v3 };
            match m {
                Multiplicity::Omega => {
                    let (v5, d) = with_node(v4, fresh_node(AgentView::Delta, 3));
                    (v5.connect(lam, 1, d, 1), d)
                },
                Multiplicity::Zero => {
                    let (v5, e) = with_node(v4, fresh_node(AgentView::Epsilon, 1));
                    (v5.connect(lam, 1, e, 0).add_free_port(lam, 1), lam)
                },
                _ => (v4, lam),
            }
        },
        SpecTerm::App(f, a) => if is_prim_chain(*f) {
            let op = spec_prim_name_to_op(chain_head(*f)->0)->0;
            let (v1, p) = with_node(v, fresh_node(AgentView::Prim(op), (op.spec_arity() + 1) as nat));
            let (v2, k) = tr_chain(v1.add_free_port(p, 0), *f, p, texts, bits);
            let (v3, ai) = tr_term(v2, *a, texts, bits);
            (v3.connect(ai, 0, p, (k + 1) as usize), p)
        } else {
            let (v1, fi) = tr_term(v, *f, texts, bits);
            let (v2, ai) = tr_term(v1, *a, texts, bits);
            let (v3, app) = with_node(v2, fresh_node(AgentView::App, 3));
            (v3.connect(fi, 1, app, 0).connect(ai, 0, app, 1), app)
        },
        SpecTerm::Let(_, _, _, value, body) => {
            let (v1, vi) = tr_term(v, *value, texts, bits);
            let (v2, bi) = tr_term(v1, *body, texts, bits);
            (v2.connect(vi, 1, bi, 0), bi)
        },
        SpecTerm::Match(s, arms) => {
            let (v1, si) = tr_term(v, *s, texts, bits);
            let (v2, app) = with_node(v1, fresh_node(AgentView::App, 3));
            (tr_arms(v2.connect(si, 0, app, 0), app, arms, 0, texts, bits), app)
        },
        SpecTerm::View(s, arms) => {
            let (v1, si) = tr_term(v, *s, texts, bits);
            let (v2, app) = with_node(v1, fresh_node(AgentView::App, 3));
            (tr_arms(v2.connect(si, 0, app, 0), app, arms, 0, texts, bits), app)
        },
        SpecTerm::TraitMethod(_, _, a) => tr_term(v, *a, texts, bits),
        SpecTerm::Constructor(n, args) => {
            let (v1, c) = with_node(v, fresh_node(AgentView::Constructor(n), args.len()));
            (tr_list(v1, c, 0, args, 0, texts, bits), c)
        },
        SpecTerm::NativeLiteral(lit) => tr_literal(v, lit, texts, bits),
        SpecTerm::PrimCall(name, args) => {
            let op = spec_prim_name_to_op(name)->0;
            let (v1, p) = with_node(v, fresh_node(AgentView::Prim(op), (op.spec_arity() + 1) as nat));
            (tr_list(v1.add_free_port(p, 0), p, 1, args, 0, texts, bits), p)
        },
    }
}

/// The arguments of a chain of applications, first argument first, each
/// wired at its port 0 to the next port of the primitive `p`; gives how many
/// there were.
pub open spec fn tr_chain(v: NetView, t: SpecTerm, p: usize, texts: Seq<Seq<char>>, bits: Seq<u64>) -> (NetView, nat)
    decreases t, 0nat,
{
    match t {
        SpecTerm::App(f, a) => {
            let (v1, k) = tr_chain(v, *f, p, texts, bits);
            let (v2, ai) = tr_term(v1, *a, texts, bits);
            (v2.connect(ai, 0, p, (k + 1) as usize), k + 1)
        },
        _ => (v, 0),
    }
}

/// The terms of a list from index `i` on, each wired at its port 0 to port
/// `offset + i` of `node`.
pub open spec fn tr_list(v: NetView, node: usize, offset: nat, ts: Seq<SpecTerm>, i: int, texts: Seq<Seq<char>>, bits: Seq<u64>) -> NetView
    decreases ts, ts.len() - i,
{
    if 0 <= i < ts.len() {
        proof {
            assert(decreases_to!(ts => ts[i]));
        }
        let (v1, a) = tr_term(v, ts[i], texts, bits);
        tr_list(v1.connect(a, 0, node, (offset + i) as usize), node, offset, ts, i + 1, texts, bits)
    } else {
        v
    }
}

/// The arms from index `i` on: each pattern wired to port 1 and each body to
/// port 2 of the application node `app`.
pub open spec fn tr_arms(v: NetView, app: usize, arms: Seq<(SpecPattern, SpecTerm)>, i: int, texts: Seq<Seq<char>>, bits: Seq<u64>) -> NetView
    decreases arms, arms.len() - i,
{
    if 0 <= i < arms.len() {
        proof {
            assert(decreases_to!(arms => arms[i]));
            assert(decreases_to!(arms[i] => arms[i].1));
        }
        let (v1, pi) = tr_pattern(v, arms[i].0);
        let (v2, bi) = tr_term(v1, arms[i].1, texts, bits);
        tr_arms(v2.connect(pi, 0, app, 1).connect(bi, 0, app, 2), app, arms, i + 1, texts, bits)
    } else {
        v
    }
}

/// The number of arguments of a chain of applications.
pub open spec fn chain_len(t: SpecTerm) -> nat
    decreases t,
{
    match t {
        SpecTerm::App(f, _) => chain_len(*f) + 1,
        _ => 0,
    }
}

/// The terms whose translation is defined: every call of a primitive (an
/// application chain headed by a `prim_` name, or a primitive call) names a
/// known primitive operation (another name there stops the translation),
/// and every float literal is in the table.
pub open spec fn translatable(t: SpecTerm, texts: Seq<Seq<char>>, bits: Seq<u64>) -> bool
    decreases t, 0nat,
{
    match t {
        SpecTerm::Var(_) => true,
        SpecTerm::Abs(_, _, _, body) => translatable(*body, texts, bits),
        SpecTerm::App(f, a) => if is_prim_chain(*f) {
            &&& spec_prim_name_to_op(chain_head(*f)->0) is Some
            &&& chain_len(*f) < usize::MAX
            &&& chain_translatable(*f, texts, bits)
            &&& translatable(*a, texts, bits)
        } else {
            translatable(*f, texts, bits) && translatable(*a, texts, bits)
        },
        SpecTerm::Let(_, _, _, value, body) => translatable(*value, texts, bits) && translatable(*body, texts, bits),
        SpecTerm::Match(s, arms) => translatable(*s, texts, bits) && arms_translatable(arms, 0, texts, bits),
        SpecTerm::View(s, arms) => translatable(*s, texts, bits) && arms_translatable(arms, 0, texts, bits),
        SpecTerm::TraitMethod(_, _, a) => translatable(*a, texts, bits),
        SpecTerm::Constructor(_, args) => list_translatable(args, 0, texts, bits),
        SpecTerm::NativeLiteral(lit) => match lit {
            SpecLiteral::Float(d) => float_lookup(texts, bits, d) is Some,
            _ => true,
        },
        SpecTerm::PrimCall(name, args) => spec_prim_name_to_op(name) is Some && list_translatable(args, 0, texts, bits),
    }
}

pub open spec fn chain_translatable(t: SpecTerm, texts: Seq<Seq<char>>, bits: Seq<u64>) -> bool
    decreases t, 0nat,
{
    match t {
        SpecTerm::App(f, a) => chain_translatable(*f, texts, bits) && translatable(*a, texts, bits),
        _ => true,
    }
}

pub open spec fn list_translatable(ts: Seq<SpecTerm>, i: int, texts: Seq<Seq<char>>, bits: Seq<u64>) -> bool
    decreases ts, ts.len() - i,
{
    if 0 <= i < ts.len() {
        proof {
            assert(decreases_to!(ts => ts[i]));
        }
        translatable(ts[i], texts, bits) && list_translatable(ts, i + 1, texts, bits)
    } else {
        true
    }
}

pub open spec fn arms_translatable(arms: Seq<(SpecPattern, SpecTerm)>, i: int, texts: Seq<Seq<char>>, bits: Seq<u64>) -> bool
    decreases arms, arms.len() - i,
{
    if 0 <= i < arms.len() {
        proof {
            assert(decreases_to!(arms => arms[i]));
            assert(decreases_to!(arms[i] => arms[i].1));
        }
        translatable(arms[i].1, texts, bits) && arms_translatable(arms, i + 1, texts, bits)
    } else {
        true
    }
}

/// The views of a list of strings.
pub open spec fn texts_view(v: Seq<String>) -> Seq<Seq<char>> {
    v.map_values(|s: String| s@)
}

/// The net built from a term, from an empty net.
pub open spec fn translation(t: SpecTerm, texts: Seq<Seq<char>>, bits: Seq<u64>) -> NetView {
    tr_term(empty_net(), t, texts, bits).0
}

pub open spec fn empty_net() -> NetView {
    NetView { nodes: Seq::empty(), wires: Seq::empty(), free_ports: Seq::empty(), ports: Map::empty() }
}

/// The name at the head of a chain of applications, if it is a name.
fn chain_head_of(t: &Term) -> (r: Option<&String>)
    ensures
        r matches Some(n) ==> chain_head(t@) == Some(n@),
        r is None ==> chain_head(t@) is None,
    decreases t,
{
    match t {
        Term::App { fun, .. } => chain_head_of(fun),
        Term::Var(n) => Some(n),
        _ => None,
    }
}

/// The bits of the first table entry with the text `text`.
fn float_lookup_in(texts: &Vec<String>, bits: &Vec<u64>, text: &String) -> (r: Option<u64>)
    ensures
        r == float_lookup(texts_view(texts@), bits@, text@),
{
    let mut i: usize = 0;
    assert(texts_view(texts@).skip(0) =~= texts_view(texts@));
    assert(bits@.skip(0) =~= bits@);
    while i < texts.len() && i < bits.len()
        invariant
            i <= texts.len(),
            i <= bits.len(),
            float_lookup(texts_view(texts@), bits@, text@) == float_lookup(
                texts_view(texts@).skip(i as int),
                bits@.skip(i as int),
                text@,
            ),
        decreases texts.len() - i,
    {
        proof {
            let ts = texts_view(texts@).skip(i as int);
            let bs = bits@.skip(i as int);
            assert(ts.drop_first() =~= texts_view(texts@).skip(i + 1));
            assert(bs.drop_first() =~= bits@.skip(i + 1));
            assert(ts[0] == texts@[i as int]@);
        }
        if str_eq(texts[i].as_str(), text.as_str()) {
            return Some(bits[i]);
        }
        i += 1;
    }
    proof {
        assert(texts_view(texts@).skip(i as int).len() == 0 || bits@.skip(i as int).len() == 0);
    }
    None
}

/// The number of arguments of a chain of applications, if it fits.
fn chain_count(t: &Term) -> (r: Option<usize>)
    ensures
        r matches Some(k) ==> k == chain_len(t@),
        r is None ==> chain_len(t@) > usize::MAX,
    decreases t,
{
    match t {
        Term::App { fun, .. } => match chain_count(fun) {
            Some(k) => if k < usize::MAX { Some(k + 1) } else { None },
            None => None,
        },
        _ => Some(0),
    }
}

fn can_translate_chain(t: &Term, texts: &Vec<String>, bits: &Vec<u64>) -> (r: bool)
    ensures
        r == chain_translatable(t@, texts_view(texts@), bits@),
    decreases t, 0nat,
{
    match t {
        Term::App { fun, arg } => can_translate_chain(fun, texts, bits) && can_translate(arg, texts, bits),
        _ => true,
    }
}

fn can_translate_list(ts: &Vec<Term>, texts: &Vec<String>, bits: &Vec<u64>) -> (r: bool)
    ensures
        r == list_translatable(terms_view(ts@), 0, texts_view(texts@), bits@),
    decreases ts, 1nat,
{
    let ghost tv = terms_view(ts@);
    let mut i: usize = 0;
    while i < ts.len()
        invariant
            i <= ts.len(),
            tv == terms_view(ts@),
            list_translatable(tv, 0, texts_view(texts@), bits@) == list_translatable(tv, i as int, texts_view(texts@), bits@),
        decreases ts.len() - i,
    {
        proof {
            broadcast use vstd::std_specs::vec::group_vec_axioms;
            assert(decreases_to!(*ts => ts@[i as int]));
        }
        if !can_translate(&ts[i], texts, bits) {
            return false;
        }
        i += 1;
    }
    true
}

fn can_translate_arms(arms: &Vec<Arm>, texts: &Vec<String>, bits: &Vec<u64>) -> (r: bool)
    ensures
        r == arms_translatable(arms_view(arms@), 0, texts_view(texts@), bits@),
    decreases arms, 1nat,
{
    let ghost av = arms_view(arms@);
    let mut i: usize = 0;
    while i < arms.len()
        invariant
            i <= arms.len(),
            av == arms_view(arms@),
            arms_translatable(av, 0, texts_view(texts@), bits@) == arms_translatable(av, i as int, texts_view(texts@), bits@),
        decreases arms.len() - i,
    {
        let arm = &arms[i];
        proof {
            broadcast use vstd::std_specs::vec::group_vec_axioms;
            assert(decreases_to!(*arms => arms@[i as int]));
            assert(decreases_to!(arms@[i as int] => arms@[i as int].body));
            assert(av[i as int] == (arm.pattern@, arm.body@));
        }
        if !can_translate(&arm.body, texts, bits) {
            return false;
        }
        i += 1;
    }
    true
}

/// Builds a net from a term. A float literal's number is looked up by its
/// text in a table the caller gives (texts and the bits of the numbers they
/// stand for).
pub struct NetBuilder {
    net: Net,
    float_texts: Vec<String>,
    float_bits: Vec<u64>,
}

impl NetBuilder {
    pub closed spec fn texts(&self) -> Seq<Seq<char>> {
        texts_view(self.float_texts@)
    }

    pub closed spec fn bits(&self) -> Seq<u64> {
        self.float_bits@
    }

    /// The net built so far.
    pub closed spec fn built(&self) -> NetView {
        self.net@
    }

    pub closed spec fn wf(&self) -> bool {
        self.net.wf()
    }

    /// A builder with an empty net and no float literals.
    pub fn new() -> (r: NetBuilder)
        ensures
            r.wf(),
            r.built() == empty_net(),
            r.texts() == Seq::<Seq<char>>::empty(),
            r.bits() == Seq::<u64>::empty(),
    {
        NetBuilder::with_floats(Vec::new(), Vec::new())
    }

    /// A builder with an empty net, which reads a float literal with text
    /// `texts[i]` as the number with bits `bits[i]`.
    pub fn with_floats(texts: Vec<String>, bits: Vec<u64>) -> (r: NetBuilder)
        ensures
            r.wf(),
            r.built() == empty_net(),
            r.texts() == texts_view(texts@),
            r.bits() == bits@,
    {
        let net = Net::new();
        assert(net@ == empty_net());
        NetBuilder { net, float_texts: texts, float_bits: bits }
    }

    /// Translates `term` into the builder's net and gives the net.
    pub fn build(self, term: &Term) -> (r: Net)
        requires
            self.wf(),
            translatable(term@, self.texts(), self.bits()),
        ensures
            r.wf(),
            r@ == tr_term(self.built(), term@, self.texts(), self.bits()).0,
    {
        let mut b = self;
        b.translate_term(term);
        b.net
    }

    fn lookup_float(&self, text: &String) -> (r: Option<u64>)
        ensures
            r == float_lookup(self.texts(), self.bits(), text@),
    {
        float_lookup_in(&self.float_texts, &self.float_bits, text)
    }

    fn connect_ports(&mut self, a: NodeId, pa: usize, b: NodeId, pb: usize)
        requires
            old(self).wf(),
        ensures
            final(self).wf(),
            final(self).float_texts == old(self).float_texts,
            final(self).float_bits == old(self).float_bits,
            final(self).net@ == old(self).net@.connect(a.0, pa, b.0, pb),
    {
        self.net.connect(a, PortIndex(pa), b, PortIndex(pb));
    }

    fn add(&mut self, n: Node) -> (r: NodeId)
        requires
            old(self).wf(),
        ensures
            final(self).wf(),
            final(self).float_texts == old(self).float_texts,
            final(self).float_bits == old(self).float_bits,
            (final(self).net@, r.0) == with_node(old(self).net@, n@),
    {
        self.net.add_node(n)
    }

    /// Leaves `count` ports of node `id` free, from port `start` on.
    fn free_ports(&mut self, id: NodeId, start: usize, count: usize)
        requires
            old(self).wf(),
            start + count <= usize::MAX,
        ensures
            final(self).wf(),
            final(self).float_texts == old(self).float_texts,
            final(self).float_bits == old(self).float_bits,
            final(self).net@ == free_run(old(self).net@, id.0, start as nat, count as nat),
    {
        let mut i: usize = 0;
        while i < count
            invariant
                self.wf(),
                i <= count,
                start + count <= usize::MAX,
                self.float_texts == old(self).float_texts,
                self.float_bits == old(self).float_bits,
                self.net@ == free_run(old(self).net@, id.0, start as nat, i as nat),
            decreases count - i,
        {
            self.net.add_free_port(id, PortIndex(start + i));
            i += 1;
        }
    }

    fn translate_var(&mut self, name: &String) -> (r: NodeId)
        requires
            old(self).wf(),
        ensures
            final(self).wf(),
            final(self).float_texts == old(self).float_texts,
            final(self).float_bits == old(self).float_bits,
            (final(self).net@, r.0) == tr_var(old(self).net@, name@),
    {
        match prim_name_to_io_op(name.as_str()) {
            Some(io) => {
                let id = self.add(Node::prim_io(io));
                self.free_ports(id, 0, io.arity() + 2);
                id
            },
            None => match prim_name_to_op(name.as_str()) {
                Some(op) => {
                    let id = self.add(Node::prim(op));
                    self.free_ports(id, 0, op.arity() + 1);
                    id
                },
                None => {
                    let id = self.add(Node::constructor(name.clone(), 2));
                    self.free_ports(id, 0, 2);
                    id
                },
            },
        }
    }

    fn translate_literal(&mut self, lit: &Literal) -> (r: NodeId)
        requires
            old(self).wf(),
        ensures
            final(self).wf(),
            final(self).float_texts == old(self).float_texts,
            final(self).float_bits == old(self).float_bits,
            (final(self).net@, r.0) == tr_literal(old(self).net@, lit@, old(self).texts(), old(self).bits()),
    {
        let val = match lit {
            Literal::Prim(op) => {
                let id = self.add(Node::prim(*op));
                self.free_ports(id, 0, op.arity() + 1);
                return id;
            },
            Literal::Int(n) => PrimVal::Int(*n),
            Literal::Float(t) => PrimVal::Float(
                match self.lookup_float(t) {
                    Some(b) => b,
                    None => 0,
                },
            ),
            Literal::Bool(b) => PrimVal::Bool(*b),
            Literal::Char(c) => PrimVal::Char(*c),
            Literal::Str(s) => PrimVal::String(s.clone()),
            Literal::Unit => PrimVal::Unit,
        };
        let id = self.add(Node::prim_val(val));
        self.free_ports(id, 0, 1);
        id
    }

    fn translate_pattern(&mut self, p: &Pattern) -> (r: NodeId)
        requires
            old(self).wf(),
        ensures
            final(self).wf(),
            final(self).float_texts == old(self).float_texts,
            final(self).float_bits == old(self).float_bits,
            (final(self).net@, r.0) == tr_pattern(old(self).net@, p@),
        decreases p, 0nat,
    {
        let r = match p {
            Pattern::Wildcard => self.add(Node::epsilon()),
            Pattern::Var(n) => self.translate_var(n),
            Pattern::Constructor(n, args) => {
                proof {
                    crate::ast::patterns::lemma_constructor_view(*n, *args);
                    assert(p@->Constructor_1 =~= args@.map_values(|q: Pattern| q@));
                }
                let node = self.add(Node::constructor(n.clone(), args.len()));
                self.translate_pattern_args(node, args);
                node
            },
        };
        r
    }

    fn translate_pattern_args(&mut self, node: NodeId, args: &Vec<Pattern>)
        requires
            old(self).wf(),
        ensures
            final(self).wf(),
            final(self).float_texts == old(self).float_texts,
            final(self).float_bits == old(self).float_bits,
            final(self).net@ == tr_pattern_args(old(self).net@, node.0, args@.map_values(|q: Pattern| q@), 0),
        decreases args, 1nat,
    {
        let ghost ps = args@.map_values(|q: Pattern| q@);
        let mut i: usize = 0;
        while i < args.len()
            invariant
                self.wf(),
                i <= args.len(),
                ps == args@.map_values(|q: Pattern| q@),
                self.float_texts == old(self).float_texts,
                self.float_bits == old(self).float_bits,
                tr_pattern_args(old(self).net@, node.0, ps, 0) == tr_pattern_args(self.net@, node.0, ps, i as int),
            decreases args.len() - i,
        {
            proof {
                broadcast use vstd::std_specs::vec::group_vec_axioms;
                assert(decreases_to!(*args => args@[i as int]));
            }
            let a = self.translate_pattern(&args[i]);
            self.connect_ports(a, 0, node, i);
            i += 1;
        }
    }

    /// Translates a term; gives the node that stands for it.
    fn translate_term(&mut self, t: &Term) -> (r: NodeId)
        requires
            old(self).wf(),
            translatable(t@, old(self).texts(), old(self).bits()),
        ensures
            final(self).wf(),
            final(self).float_texts == old(self).float_texts,
            final(self).float_bits == old(self).float_bits,
            (final(self).net@, r.0) == tr_term(old(self).net@, t@, old(self).texts(), old(self).bits()),
        decreases t, 0nat,
    {
        proof {
            lemma_term_lists(*t);
        }
        match t {
            Term::Var(n) => self.translate_var(n),
            Term::Abs { multiplicity, body, .. } => {
                let lam = self.add(Node::lambda());
                let b = self.translate_term(body);
                self.connect_ports(lam, 2, b, 0);
                match &**body {
                    Term::Var(_) => self.connect_ports(lam, 0, b, 1),
                    _ => {},
                }
                match multiplicity {
                    Multiplicity::Omega => {
                        let d = self.add(Node::delta());
                        self.connect_ports(lam, 1, d, 1);
                        d
                    },
                    Multiplicity::Zero => {
                        let e = self.add(Node::epsilon());
                        self.connect_ports(lam, 1, e, 0);
                        self.net.add_free_port(lam, PortIndex(1));
                        lam
                    },
                    _ => lam,
                }
            },
            Term::App { fun, arg } => {
                let head = chain_head_of(fun);
                let prim = match head {
                    Some(n) => starts_with(n.as_str(), "prim_"),
                    None => false,
                };
                if prim {
                    let op = match prim_name_to_op(head.unwrap().as_str()) {
                        Some(op) => op,
                        None => return NodeId(0),
                    };
                    let p = self.add(Node::prim(op));
                    self.net.add_free_port(p, PortIndex(0));
                    let k = self.translate_chain(fun, p);
                    let ai = self.translate_term(arg);
                    self.connect_ports(ai, 0, p, k + 1);
                    p
                } else {
                    let fi = self.translate_term(fun);
                    let ai = self.translate_term(arg);
                    let app = self.add(Node::app());
                    self.connect_ports(fi, 1, app, 0);
                    self.connect_ports(ai, 0, app, 1);
                    app
                }
            },
            Term::Let { value, body, .. } => {
                let vi = self.translate_term(value);
                let bi = self.translate_term(body);
                self.connect_ports(vi, 1, bi, 0);
                bi
            },
            Term::Match { scrutinee, arms } | Term::View { scrutinee, arms } => {
                let si = self.translate_term(scrutinee);
                let app = self.add(Node::app());
                self.connect_ports(si, 0, app, 0);
                self.translate_arms(app, arms);
                app
            },
            Term::TraitMethod { arg, .. } => self.translate_term(arg),
            Term::Constructor(n, args) => {
                let c = self.add(Node::constructor(n.clone(), args.len()));
                self.translate_list(c, 0, args);
                c
            },
            Term::NativeLiteral(lit) => self.translate_literal(lit),
            Term::PrimCall { prim_name, args } => {
                let op = match prim_name_to_op(prim_name.as_str()) {
                    Some(op) => op,
                    None => return NodeId(0),
                };
                let p = self.add(Node::prim(op));
                self.net.add_free_port(p, PortIndex(0));
                self.translate_list(p, 1, args);
                p
            },
        }
    }

    /// The arguments of a chain of applications, first argument first.
    fn translate_chain(&mut self, t: &Term, p: NodeId) -> (k: usize)
        requires
            old(self).wf(),
            chain_translatable(t@, old(self).texts(), old(self).bits()),
            chain_len(t@) < usize::MAX,
        ensures
            final(self).wf(),
            final(self).float_texts == old(self).float_texts,
            final(self).float_bits == old(self).float_bits,
            (final(self).net@, k as nat) == tr_chain(old(self).net@, t@, p.0, old(self).texts(), old(self).bits()),
            k == chain_len(t@),
        decreases t, 0nat,
    {
        match t {
            Term::App { fun, arg } => {
                let k = self.translate_chain(fun, p);
                let ai = self.translate_term(arg);
                self.connect_ports(ai, 0, p, k + 1);
                k + 1
            },
            _ => 0,
        }
    }

    /// The terms of a list, each wired at its port 0 to port `offset + i`
    /// of `node`.
    fn translate_list(&mut self, node: NodeId, offset: usize, ts: &Vec<Term>)
        requires
            old(self).wf(),
            offset <= 1,
            list_translatable(terms_view(ts@), 0, old(self).texts(), old(self).bits()),
        ensures
            final(self).wf(),
            final(self).float_texts == old(self).float_texts,
            final(self).float_bits == old(self).float_bits,
            final(self).net@ == tr_list(old(self).net@, node.0, offset as nat, terms_view(ts@), 0, old(self).texts(), old(self).bits()),
        decreases ts, 1nat,
    {
        let ghost tv = terms_view(ts@);
        let ghost texts = old(self).texts();
        let ghost bits = old(self).bits();
        let mut i: usize = 0;
        while i < ts.len()
            invariant
                self.wf(),
                i <= ts.len(),
                offset <= 1,
                tv == terms_view(ts@),
                texts == self.texts(),
                bits == self.bits(),
                self.float_texts == old(self).float_texts,
                self.float_bits == old(self).float_bits,
                list_translatable(tv, i as int, texts, bits),
                tr_list(old(self).net@, node.0, offset as nat, tv, 0, texts, bits) == tr_list(self.net@, node.0, offset as nat, tv, i as int, texts, bits),
            decreases ts.len() - i,
        {
            proof {
                broadcast use vstd::std_specs::vec::group_vec_axioms;
                assert(decreases_to!(*ts => ts@[i as int]));
            }
            let a = self.translate_term(&ts[i]);
            self.connect_ports(a, 0, node, offset + i);
            i += 1;
        }
    }

    /// The arms of a match: each pattern wired to port 1 and each body to
    /// port 2 of `app`.
    fn translate_arms(&mut self, app: NodeId, arms: &Vec<Arm>)
        requires
            old(self).wf(),
            arms_translatable(arms_view(arms@), 0, old(self).texts(), old(self).bits()),
        ensures
            final(self).wf(),
            final(self).float_texts == old(self).float_texts,
            final(self).float_bits == old(self).float_bits,
            final(self).net@ == tr_arms(old(self).net@, app.0, arms_view(arms@), 0, old(self).texts(), old(self).bits()),
        decreases arms, 1nat,
    {
        let ghost av = arms_view(arms@);
        let ghost texts = old(self).texts();
        let ghost bits = old(self).bits();
        let mut i: usize = 0;
        while i < arms.len()
            invariant
                self.wf(),
                i <= arms.len(),
                av == arms_view(arms@),
                texts == self.texts(),
                bits == self.bits(),
                self.float_texts == old(self).float_texts,
                self.float_bits == old(self).float_bits,
                arms_translatable(av, i as int, texts, bits),
                tr_arms(old(self).net@, app.0, av, 0, texts, bits) == tr_arms(self.net@, app.0, av, i as int, texts, bits),
            decreases arms.len() - i,
        {
            let arm = &arms[i];
            proof {
                broadcast use vstd::std_specs::vec::group_vec_axioms;
                assert(decreases_to!(*arms => arms@[i as int]));
                assert(decreases_to!(arms@[i as int] => arms@[i as int].body));
                assert(av[i as int] == (arm.pattern@, arm.body@));
            }
            let pi = self.translate_pattern(&arm.pattern);
            let bi = self.translate_term(&arm.body);
            self.connect_ports(pi, 0, app, 1);
            self.connect_ports(bi, 0, app, 2);
            i += 1;
        }
    }
}

impl Default for NetBuilder {
    fn default() -> (r: NetBuilder)
        ensures
            r.wf(),
            r.built() == empty_net(),
            r.texts() == Seq::<Seq<char>>::empty(),
            r.bits() == Seq::<u64>::empty(),
    {
        NetBuilder::new()
    }
}

/// The net of a term with no float literal to look up.
pub fn translate(term: &Term) -> (r: Net)
    requires
        translatable(term@, Seq::empty(), Seq::empty()),
    ensures
        r.wf(),
        r@ == translation(term@, Seq::empty(), Seq::empty()),
{
    let b = NetBuilder::new();
    b.build(term)
}

/// Whether a term can be translated with the given float table (see
/// [`translatable`]).
pub fn can_translate(t: &Term, texts: &Vec<String>, bits: &Vec<u64>) -> (r: bool)
    ensures
        r == translatable(t@, texts_view(texts@), bits@),
    decreases t, 0nat,
{
    proof {
        lemma_term_lists(*t);
    }
    match t {
        Term::Var(_) => true,
        Term::Abs { body, .. } => can_translate(body, texts, bits),
        Term::App { fun, arg } => {
            let head = chain_head_of(fun);
            let prim = match head {
                Some(n) => starts_with(n.as_str(), "prim_"),
                None => false,
            };
            if prim {
                let fits = match chain_count(fun) {
                    Some(k) => k < usize::MAX,
                    None => false,
                };
                prim_name_to_op(head.unwrap().as_str()).is_some() && fits && can_translate_chain(fun, texts, bits)
                    && can_translate(arg, texts, bits)
            } else {
                can_translate(fun, texts, bits) && can_translate(arg, texts, bits)
            }
        },
        Term::Let { value, body, .. } => can_translate(value, texts, bits) && can_translate(body, texts, bits),
        Term::Match { scrutinee, arms } | Term::View { scrutinee, arms } => can_translate(scrutinee, texts, bits)
            && can_translate_arms(arms, texts, bits),
        Term::TraitMethod { arg, .. } => can_translate(arg, texts, bits),
        Term::Constructor(_, args) => can_translate_list(args, texts, bits),
        Term::NativeLiteral(lit) => match lit {
            Literal::Float(d) => float_lookup_in(texts, bits, d).is_some(),
            _ => true,
        },
        Term::PrimCall { prim_name, args } => prim_name_to_op(prim_name.as_str()).is_some() && can_translate_list(
            args,
            texts,
            bits,
        ),
    }
}

/// The texts of the float literals of a term, in the order they are met.
pub open spec fn floats_of(t: SpecTerm) -> Seq<Seq<char>>
    decreases t, 0nat,
{
    match t {
        SpecTerm::Abs(_, _, _, b) => floats_of(*b),
        SpecTerm::App(f, a) => floats_of(*f) + floats_of(*a),
        SpecTerm::Let(_, _, _, v, b) => floats_of(*v) + floats_of(*b),
        SpecTerm::Match(s, arms) => floats_of(*s) + arms_floats(arms, 0),
        SpecTerm::View(s, arms) => floats_of(*s) + arms_floats(arms, 0),
        SpecTerm::TraitMethod(_, _, a) => floats_of(*a),
        SpecTerm::Constructor(_, args) => list_floats(args, 0),
        SpecTerm::PrimCall(_, args) => list_floats(args, 0),
        SpecTerm::NativeLiteral(SpecLiteral::Float(d)) => seq![d],
        _ => Seq::empty(),
    }
}

pub open spec fn list_floats(ts: Seq<SpecTerm>, i: int) -> Seq<Seq<char>>
    decreases ts, ts.len() - i,
{
    if 0 <= i < ts.len() {
        proof {
            assert(decreases_to!(ts => ts[i]));
        }
        floats_of(ts[i]) + list_floats(ts, i + 1)
    } else {
        Seq::empty()
    }
}

pub open spec fn arms_floats(arms: Seq<(SpecPattern, SpecTerm)>, i: int) -> Seq<Seq<char>>
    decreases arms, arms.len() - i,
{
    if 0 <= i < arms.len() {
        proof {
            assert(decreases_to!(arms => arms[i]));
            assert(decreases_to!(arms[i] => arms[i].1));
        }
        floats_of(arms[i].1) + arms_floats(arms, i + 1)
    } else {
        Seq::empty()
    }
}

/// Appends the texts of the float literals of `t` to `out`.
fn collect_floats(t: &Term, out: &mut Vec<String>)
    ensures
        texts_view(final(out)@) == texts_view(old(out)@) + floats_of(t@),
    decreases t, 0nat,
{
    proof {
        lemma_term_lists(*t);
    }
    match t {
        Term::Abs { body, .. } => collect_floats(body, out),
        Term::App { fun, arg } => {
            collect_floats(fun, out);
            collect_floats(arg, out);
        },
        Term::Let { value, body, .. } => {
            collect_floats(value, out);
            collect_floats(body, out);
        },
        Term::Match { scrutinee, arms } | Term::View { scrutinee, arms } => {
            collect_floats(scrutinee, out);
            collect_arm_floats(arms, out);
        },
        Term::TraitMethod { arg, .. } => collect_floats(arg, out),
        Term::Constructor(_, args) | Term::PrimCall { args, .. } => collect_list_floats(args, out),
        Term::NativeLiteral(Literal::Float(d)) => {
            out.push(d.clone());
            assert(texts_view(out@) =~= texts_view(old(out)@) + seq![d@]);
        },
        _ => {
            assert(texts_view(out@) =~= texts_view(old(out)@) + Seq::<Seq<char>>::empty());
        },
    }
}

fn collect_list_floats(ts: &Vec<Term>, out: &mut Vec<String>)
    ensures
        texts_view(final(out)@) == texts_view(old(out)@) + list_floats(terms_view(ts@), 0),
    decreases ts, 1nat,
{
    let ghost tv = terms_view(ts@);
    let ghost start = texts_view(out@);
    let mut i: usize = 0;
    while i < ts.len()
        invariant
            i <= ts.len(),
            tv == terms_view(ts@),
            start == texts_view(old(out)@),
            texts_view(out@) + list_floats(tv, i as int) == start + list_floats(tv, 0),
        decreases ts.len() - i,
    {
        proof {
            broadcast use vstd::std_specs::vec::group_vec_axioms;
            assert(decreases_to!(*ts => ts@[i as int]));
        }
        let ghost before = texts_view(out@);
        collect_floats(&ts[i], out);
        proof {
            let rest = list_floats(tv, i + 1);
            assert(list_floats(tv, i as int) == floats_of(tv[i as int]) + rest);
            assert(before + (floats_of(tv[i as int]) + rest) =~= (before + floats_of(tv[i as int])) + rest);
        }
        i += 1;
    }
    assert(texts_view(out@) + list_floats(tv, i as int) =~= texts_view(out@));
}

fn collect_arm_floats(arms: &Vec<Arm>, out: &mut Vec<String>)
    ensures
        texts_view(final(out)@) == texts_view(old(out)@) + arms_floats(arms_view(arms@), 0),
    decreases arms, 1nat,
{
    let ghost av = arms_view(arms@);
    let ghost start = texts_view(out@);
    let mut i: usize = 0;
    while i < arms.len()
        invariant
            i <= arms.len(),
            av == arms_view(arms@),
            start == texts_view(old(out)@),
            texts_view(out@) + arms_floats(av, i as int) == start + arms_floats(av, 0),
        decreases arms.len() - i,
    {
        let arm = &arms[i];
        proof {
            broadcast use vstd::std_specs::vec::group_vec_axioms;
            assert(decreases_to!(*arms => arms@[i as int]));
            assert(decreases_to!(arms@[i as int] => arms@[i as int].body));
            assert(av[i as int] == (arm.pattern@, arm.body@));
        }
        let ghost before = texts_view(out@);
        collect_floats(&arm.body, out);
        proof {
            let rest = arms_floats(av, i + 1);
            assert(arms_floats(av, i as int) == floats_of(av[i as int].1) + rest);
            assert(before + (floats_of(av[i as int].1) + rest) =~= (before + floats_of(av[i as int].1)) + rest);
        }
        i += 1;
    }
    assert(texts_view(out@) + arms_floats(av, i as int) =~= texts_view(out@));
}

/// The texts of the float literals of a term, in the order they are met:
/// the caller reads each as a number to make the builder's table.
pub fn float_literals(t: &Term) -> (r: Vec<String>)
    ensures
        texts_view(r@) == floats_of(t@),
{
    let mut out: Vec<String> = Vec::new();
    assert(texts_view(out@) =~= Seq::<Seq<char>>::empty());
    collect_floats(t, &mut out);
    assert(Seq::<Seq<char>>::empty() + floats_of(t@) =~= floats_of(t@));
    out
}

/// The node a literal becomes in a net `v`: the new last node, numbered
/// `v.nodes.len()`.
pub open spec fn literal_node(v: NetView, lit: SpecLiteral, texts: Seq<Seq<char>>, bits: Seq<u64>) -> AgentView {
    tr_term(v, SpecTerm::NativeLiteral(lit), texts, bits).0.nodes.last().agent
}

/// Translating a literal adds one node, numbered after the nodes already
/// there, that holds exactly the literal's value with its one port free:
/// `true` stays `true`, an integer keeps its value, and so on; a float
/// literal holds the bits given for its text.
pub proof fn law_literal_values(v: NetView, texts: Seq<Seq<char>>, bits: Seq<u64>, b: bool, n: i64, c: char, s: Seq<char>)
    ensures
        literal_node(v, SpecLiteral::Bool(b), texts, bits) == AgentView::PrimVal(SpecPrimVal::Bool(b)),
        literal_node(v, SpecLiteral::Int(n), texts, bits) == AgentView::PrimVal(SpecPrimVal::Int(n)),
        literal_node(v, SpecLiteral::Char(c), texts, bits) == AgentView::PrimVal(SpecPrimVal::Char(c)),
        literal_node(v, SpecLiteral::Str(s), texts, bits) == AgentView::PrimVal(SpecPrimVal::Str(s)),
        literal_node(v, SpecLiteral::Unit, texts, bits) == AgentView::PrimVal(SpecPrimVal::Unit),
        texts.len() > 0 && bits.len() > 0 ==> literal_node(v, SpecLiteral::Float(texts[0]), texts, bits)
            == AgentView::PrimVal(SpecPrimVal::Float(bits[0])),
        tr_term(v, SpecTerm::NativeLiteral(SpecLiteral::Bool(b)), texts, bits).1 == v.nodes.len() as usize,
        tr_term(v, SpecTerm::NativeLiteral(SpecLiteral::Bool(b)), texts, bits).0.nodes.len() == v.nodes.len() + 1,
        tr_term(v, SpecTerm::NativeLiteral(SpecLiteral::Bool(b)), texts, bits).0.free_ports == v.free_ports.push(
            (NodeId(v.nodes.len() as usize), PortIndex(0)),
        ),
{
    reveal_with_fuel(free_run, 2);
}

/// `w` holds every node of `v`, unchanged and at the same number.
pub open spec fn keeps_nodes(v: NetView, w: NetView) -> bool {
    &&& v.nodes.len() <= w.nodes.len()
    &&& forall|i: int| 0 <= i < v.nodes.len() ==> #[trigger] w.nodes[i] == v.nodes[i]
}

proof fn lemma_keeps_trans(u: NetView, v: NetView, w: NetView)
    requires
        keeps_nodes(u, v),
        keeps_nodes(v, w),
    ensures
        keeps_nodes(u, w),
{
    assert forall|i: int| 0 <= i < u.nodes.len() implies #[trigger] w.nodes[i] == u.nodes[i] by {
        assert(w.nodes[i] == v.nodes[i]);
    }
}

proof fn lemma_free_run_nodes(v: NetView, id: usize, start: nat, count: nat)
    ensures
        free_run(v, id, start, count).nodes == v.nodes,
    decreases count,
{
    if count > 0 {
        lemma_free_run_nodes(v, id, start, (count - 1) as nat);
    }
}

proof fn lemma_tr_var_keeps(v: NetView, name: Seq<char>)
    ensures
        keeps_nodes(v, tr_var(v, name).0),
{
    match spec_prim_name_to_io_op(name) {
        Some(io) => {
            let (v1, id) = with_node(v, fresh_node(AgentView::PrimIO(io), (io.spec_arity() + 2) as nat));
            lemma_free_run_nodes(v1, id, 0, (io.spec_arity() + 2) as nat);
        },
        None => match spec_prim_name_to_op(name) {
            Some(op) => {
                let (v1, id) = with_node(v, fresh_node(AgentView::Prim(op), (op.spec_arity() + 1) as nat));
                lemma_free_run_nodes(v1, id, 0, (op.spec_arity() + 1) as nat);
            },
            None => {
                let (v1, id) = with_node(v, fresh_node(AgentView::Constructor(name), 2));
                lemma_free_run_nodes(v1, id, 0, 2);
            },
        },
    }
}

proof fn lemma_tr_literal_keeps(v: NetView, lit: SpecLiteral, texts: Seq<Seq<char>>, bits: Seq<u64>)
    ensures
        keeps_nodes(v, tr_literal(v, lit, texts, bits).0),
{
    match lit {
        SpecLiteral::Prim(op) => {
            let (v1, id) = with_node(v, fresh_node(AgentView::Prim(op), (op.spec_arity() + 1) as nat));
            lemma_free_run_nodes(v1, id, 0, (op.spec_arity() + 1) as nat);
        },
        _ => {
            reveal_with_fuel(free_run, 2);
        },
    }
}

proof fn lemma_tr_pattern_keeps(v: NetView, p: SpecPattern)
    ensures
        keeps_nodes(v, tr_pattern(v, p).0),
    decreases p, 0nat,
{
    match p {
        SpecPattern::Wildcard => {},
        SpecPattern::Var(n) => {
            lemma_tr_var_keeps(v, n);
        },
        SpecPattern::Constructor(n, args) => {
            let (v1, id) = with_node(v, fresh_node(AgentView::Constructor(n), args.len()));
            lemma_tr_pattern_args_keeps(v1, id, args, 0);
            lemma_keeps_trans(v, v1, tr_pattern_args(v1, id, args, 0));
        },
    }
}

proof fn lemma_tr_pattern_args_keeps(v: NetView, node: usize, ps: Seq<SpecPattern>, i: int)
    ensures
        keeps_nodes(v, tr_pattern_args(v, node, ps, i)),
    decreases ps, ps.len() - i,
{
    if 0 <= i < ps.len() {
        assert(decreases_to!(ps => ps[i]));
        let (v1, a) = tr_pattern(v, ps[i]);
        lemma_tr_pattern_keeps(v, ps[i]);
        let v2 = v1.connect(a, 0, node, i as usize);
        lemma_tr_pattern_args_keeps(v2, node, ps, i + 1);
        lemma_keeps_trans(v, v2, tr_pattern_args(v2, node, ps, i + 1));
    }
}

/// Translating a term only adds nodes: the nodes already in the net stay
/// as they are.
pub proof fn lemma_tr_term_keeps(v: NetView, t: SpecTerm, texts: Seq<Seq<char>>, bits: Seq<u64>)
    ensures
        keeps_nodes(v, tr_term(v, t, texts, bits).0),
    decreases t, 0nat,
{
    match t {
        SpecTerm::Var(n) => {
            lemma_tr_var_keeps(v, n);
        },
        SpecTerm::Abs(_, m, _, body) => {
            let (v1, lam) = with_node(v, fresh_node(AgentView::Lambda, 3));
            lemma_tr_term_keeps(v1, *body, texts, bits);
            lemma_keeps_trans(v, v1, tr_term(v1, *body, texts, bits).0);
        },
        SpecTerm::App(f, a) => if is_prim_chain(*f) {
            let op = spec_prim_name_to_op(chain_head(*f)->0)->0;
            let (v1, p) = with_node(v, fresh_node(AgentView::Prim(op), (op.spec_arity() + 1) as nat));
            let v1b = v1.add_free_port(p, 0);
            lemma_tr_chain_keeps(v1b, *f, p, texts, bits);
            let (v2, k) = tr_chain(v1b, *f, p, texts, bits);
            lemma_tr_term_keeps(v2, *a, texts, bits);
            lemma_keeps_trans(v, v1b, v2);
            lemma_keeps_trans(v, v2, tr_term(v2, *a, texts, bits).0);
        } else {
            lemma_tr_term_keeps(v, *f, texts, bits);
            let (v1, fi) = tr_term(v, *f, texts, bits);
            lemma_tr_term_keeps(v1, *a, texts, bits);
            lemma_keeps_trans(v, v1, tr_term(v1, *a, texts, bits).0);
        },
        SpecTerm::Let(_, _, _, value, body) => {
            lemma_tr_term_keeps(v, *value, texts, bits);
            let (v1, vi) = tr_term(v, *value, texts, bits);
            lemma_tr_term_keeps(v1, *body, texts, bits);
            lemma_keeps_trans(v, v1, tr_term(v1, *body, texts, bits).0);
        },
        SpecTerm::Match(sc, arms) => {
            lemma_tr_term_keeps(v, *sc, texts, bits);
            let (v1, si) = tr_term(v, *sc, texts, bits);
            let (v2, app) = with_node(v1, fresh_node(AgentView::App, 3));
            let v3 = v2.connect(si, 0, app, 0);
            lemma_tr_arms_keeps(v3, app, arms, 0, texts, bits);
            lemma_keeps_trans(v, v1, v3);
            lemma_keeps_trans(v, v3, tr_arms(v3, app, arms, 0, texts, bits));
        },
        SpecTerm::View(sc, arms) => {
            lemma_tr_term_keeps(v, *sc, texts, bits);
            let (v1, si) = tr_term(v, *sc, texts, bits);
            let (v2, app) = with_node(v1, fresh_node(AgentView::App, 3));
            let v3 = v2.connect(si, 0, app, 0);
            lemma_tr_arms_keeps(v3, app, arms, 0, texts, bits);
            lemma_keeps_trans(v, v1, v3);
            lemma_keeps_trans(v, v3, tr_arms(v3, app, arms, 0, texts, bits));
        },
        SpecTerm::TraitMethod(_, _, a) => {
            lemma_tr_term_keeps(v, *a, texts, bits);
        },
        SpecTerm::Constructor(n, args) => {
            let (v1, c) = with_node(v, fresh_node(AgentView::Constructor(n), args.len()));
            lemma_tr_list_keeps(v1, c, 0, args, 0, texts, bits);
            lemma_keeps_trans(v, v1, tr_list(v1, c, 0, args, 0, texts, bits));
        },
        SpecTerm::NativeLiteral(lit) => {
            lemma_tr_literal_keeps(v, lit, texts, bits);
        },
        SpecTerm::PrimCall(name, args) => {
            let op = spec_prim_name_to_op(name)->0;
            let (v1, p) = with_node(v, fresh_node(AgentView::Prim(op), (op.spec_arity() + 1) as nat));
            let v1b = v1.add_free_port(p, 0);
            lemma_tr_list_keeps(v1b, p, 1, args, 0, texts, bits);
            lemma_keeps_trans(v, v1b, tr_list(v1b, p, 1, args, 0, texts, bits));
        },
    }
}

proof fn lemma_tr_chain_keeps(v: NetView, t: SpecTerm, p: usize, texts: Seq<Seq<char>>, bits: Seq<u64>)
    ensures
        keeps_nodes(v, tr_chain(v, t, p, texts, bits).0),
    decreases t, 0nat,
{
    match t {
        SpecTerm::App(f, a) => {
            lemma_tr_chain_keeps(v, *f, p, texts, bits);
            let (v1, k) = tr_chain(v, *f, p, texts, bits);
            lemma_tr_term_keeps(v1, *a, texts, bits);
            lemma_keeps_trans(v, v1, tr_term(v1, *a, texts, bits).0);
        },
        _ => {},
    }
}

proof fn lemma_tr_list_keeps(
    v: NetView,
    node: usize,
    offset: nat,
    ts: Seq<SpecTerm>,
    i: int,
    texts: Seq<Seq<char>>,
    bits: Seq<u64>,
)
    ensures
        keeps_nodes(v, tr_list(v, node, offset, ts, i, texts, bits)),
    decreases ts, ts.len() - i,
{
    if 0 <= i < ts.len() {
        assert(decreases_to!(ts => ts[i]));
        lemma_tr_term_keeps(v, ts[i], texts, bits);
        let (v1, a) = tr_term(v, ts[i], texts, bits);
        let v2 = v1.connect(a, 0, node, (offset + i) as usize);
        lemma_tr_list_keeps(v2, node, offset, ts, i + 1, texts, bits);
        lemma_keeps_trans(v, v2, tr_list(v2, node, offset, ts, i + 1, texts, bits));
    }
}

proof fn lemma_tr_arms_keeps(
    v: NetView,
    app: usize,
    arms: Seq<(SpecPattern, SpecTerm)>,
    i: int,
    texts: Seq<Seq<char>>,
    bits: Seq<u64>,
)
    ensures
        keeps_nodes(v, tr_arms(v, app, arms, i, texts, bits)),
    decreases arms, arms.len() - i,
{
    if 0 <= i < arms.len() {
        assert(decreases_to!(arms => arms[i]));
        assert(decreases_to!(arms[i] => arms[i].1));
        lemma_tr_pattern_keeps(v, arms[i].0);
        let (v1, pi) = tr_pattern(v, arms[i].0);
        lemma_tr_term_keeps(v1, arms[i].1, texts, bits);
        let (v2, bi) = tr_term(v1, arms[i].1, texts, bits);
        let v3 = v2.connect(pi, 0, app, 1).connect(bi, 0, app, 2);
        lemma_tr_arms_keeps(v3, app, arms, i + 1, texts, bits);
        lemma_keeps_trans(v, v1, v3);
        lemma_keeps_trans(v, v3, tr_arms(v3, app, arms, i + 1, texts, bits));
    }
}

/// Each kind of term becomes its kind of node: an abstraction a λ node,
/// numbered after the nodes already there (standing for the term unless
/// its variable is used any number of times, when a δ node does); an
/// application of a term that is not a primitive call an application
/// node; a `match` or `view` an application node; a constructor a node
/// of that constructor, numbered after the nodes already there.
pub proof fn law_translation_nodes(v: NetView, t: SpecTerm, texts: Seq<Seq<char>>, bits: Seq<u64>)
    requires
        tr_term(v, t, texts, bits).0.nodes.len() <= usize::MAX,
    ensures
        t is Abs ==> tr_term(v, t, texts, bits).0.nodes.len() > v.nodes.len() && tr_term(v, t, texts, bits).0.nodes[v.nodes.len() as int].agent
            == AgentView::Lambda,
        t matches SpecTerm::Abs(_, m, _, _) ==> (m == Multiplicity::Omega <==> tr_term(v, t, texts, bits).1 != v.nodes.len() as usize),
        t matches SpecTerm::Abs(_, m, _, _) && m == Multiplicity::Omega ==> tr_term(v, t, texts, bits).0.nodes[tr_term(v, t, texts, bits).1 as int].agent
            == AgentView::Delta,
        t matches SpecTerm::App(f, _) && !is_prim_chain(*f) ==> tr_term(v, t, texts, bits).0.nodes[tr_term(v, t, texts, bits).1 as int].agent
            == AgentView::App,
        (t is Match || t is View) ==> tr_term(v, t, texts, bits).0.nodes[tr_term(v, t, texts, bits).1 as int].agent
            == AgentView::App,
        t matches SpecTerm::Constructor(n, _) ==> tr_term(v, t, texts, bits).1 == v.nodes.len() as usize && tr_term(v, t, texts, bits).0.nodes.len() > v.nodes.len() && tr_term(
            v,
            t,
            texts,
            bits,
        ).0.nodes[v.nodes.len() as int].agent == AgentView::Constructor(n),
{
    match t {
        SpecTerm::Abs(_, m, _, body) => {
            let (v1, lam) = with_node(v, fresh_node(AgentView::Lambda, 3));
            lemma_tr_term_keeps(v1, *body, texts, bits);
            assert(v1.nodes[v.nodes.len() as int].agent == AgentView::Lambda);
        },
        SpecTerm::App(f, a) => {
            if !is_prim_chain(*f) {
                lemma_tr_term_keeps(v, *f, texts, bits);
                let (v1, fi) = tr_term(v, *f, texts, bits);
                lemma_tr_term_keeps(v1, *a, texts, bits);
            }
        },
        SpecTerm::Match(sc, arms) => {
            lemma_tr_term_keeps(v, *sc, texts, bits);
            let (v1, si) = tr_term(v, *sc, texts, bits);
            let (v2, app) = with_node(v1, fresh_node(AgentView::App, 3));
            let v3 = v2.connect(si, 0, app, 0);
            lemma_tr_arms_keeps(v3, app, arms, 0, texts, bits);
            assert(v3.nodes[v1.nodes.len() as int].agent == AgentView::App);
        },
        SpecTerm::View(sc, arms) => {
            lemma_tr_term_keeps(v, *sc, texts, bits);
            let (v1, si) = tr_term(v, *sc, texts, bits);
            let (v2, app) = with_node(v1, fresh_node(AgentView::App, 3));
            let v3 = v2.connect(si, 0, app, 0);
            lemma_tr_arms_keeps(v3, app, arms, 0, texts, bits);
            assert(v3.nodes[v1.nodes.len() as int].agent == AgentView::App);
        },
        SpecTerm::Constructor(n, args) => {
            let (v1, c) = with_node(v, fresh_node(AgentView::Constructor(n), args.len()));
            lemma_tr_list_keeps(v1, c, 0, args, 0, texts, bits);
            assert(v1.nodes[v.nodes.len() as int].agent == AgentView::Constructor(n));
        },
        _ => {},
    }
}

} // verus!
