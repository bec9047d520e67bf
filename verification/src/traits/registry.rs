//! The registry of trait implementations, and the matching of a method's
//! type against the types of the arguments it is applied to.
use vstd::prelude::*;

use crate::ast::terms::{Decl, MethodDef, MethodSig, SpecTerm, Term};
use crate::ast::types::{MethodName, NativeKind, SpecType, TraitName, Type, TypeName};
use crate::strmap::StrMap;
use crate::text::owned;
use crate::traits::TraitError;

verus! {

/// What a trait method call resolves to: a primitive, by name, or a term.
#[derive(Debug)]
pub enum TraitMethodImpl {
    Primitive(String),
    Term(Term),
}

/// The value of an [`Implementation`]: its trait, its type, its methods'
/// bodies and types by name, and the traits it builds on.
pub struct ImplView {
    pub trait_name: Seq<char>,
    pub for_type: SpecType,
    pub methods: Map<Seq<char>, SpecTerm>,
    pub method_types: Map<Seq<char>, SpecType>,
    pub supertraits: Seq<Seq<char>>,
}

/// The values of the terms of a map.
pub open spec fn terms_map(m: Map<Seq<char>, Term>) -> Map<Seq<char>, SpecTerm> {
    m.map_values(|t: Term| t@)
}

/// The values of the types of a map.
pub open spec fn types_map(m: Map<Seq<char>, Type>) -> Map<Seq<char>, SpecType> {
    m.map_values(|t: Type| t@)
}

/// The names of a list of traits.
pub open spec fn trait_names(v: Seq<TraitName>) -> Seq<Seq<char>> {
    v.map_values(|t: TraitName| t.0@)
}

/// The implementation of a trait for a type.
#[derive(Debug)]
pub struct Implementation {
    pub trait_name: TraitName,
    pub for_type: Type,
    pub methods: StrMap<Term>,
    pub method_types: StrMap<Type>,
    pub supertraits: Vec<TraitName>,
}

impl Implementation {
    /// Its maps are well formed.
    pub open spec fn wf(&self) -> bool {
        self.methods.wf() && self.method_types.wf()
    }

    pub open spec fn spec_view(&self) -> ImplView {
        ImplView {
            trait_name: self.trait_name.0@,
            for_type: self.for_type@,
            methods: terms_map(self.methods.spec_map()),
            method_types: types_map(self.method_types.spec_map()),
            supertraits: trait_names(self.supertraits@),
        }
    }

    /// An implementation with no methods.
    pub fn new(trait_name: TraitName, for_type: Type) -> (r: Implementation)
        ensures
            r.wf(),
            r.spec_view() == (ImplView {
                trait_name: trait_name.0@,
                for_type: for_type@,
                methods: Map::empty(),
                method_types: Map::empty(),
                supertraits: Seq::empty(),
            }),
    {
        let r = Implementation {
            trait_name,
            for_type,
            methods: StrMap::new(),
            method_types: StrMap::new(),
            supertraits: Vec::new(),
        };
        assert(r.spec_view().methods =~= Map::empty());
        assert(r.spec_view().method_types =~= Map::empty());
        assert(r.spec_view().supertraits =~= Seq::empty());
        r
    }

    /// The implementation with the body of method `name` set to `term`.
    pub fn add_method(self, name: MethodName, term: Term) -> (r: Implementation)
        requires
            self.wf(),
        ensures
            r.wf(),
            r.spec_view() == (ImplView { methods: self.spec_view().methods.insert(name.0@, term@), ..self.spec_view() }),
    {
        let mut s = self;
        let ghost t = term@;
        s.methods.insert(name.0, term);
        assert(s.spec_view().methods =~= self.spec_view().methods.insert(name.0@, t));
        s
    }

    /// The implementation with the type of method `name` set to `ty`.
    pub fn with_method_type(self, name: MethodName, ty: Type) -> (r: Implementation)
        requires
            self.wf(),
        ensures
            r.wf(),
            r.spec_view() == (ImplView { method_types: self.spec_view().method_types.insert(name.0@, ty@), ..self.spec_view() }),
    {
        let mut s = self;
        let ghost t = ty@;
        s.method_types.insert(name.0, ty);
        assert(s.spec_view().method_types =~= self.spec_view().method_types.insert(name.0@, t));
        s
    }

    /// The implementation with the given supertraits.
    pub fn with_supertraits(self, supertraits: Vec<TraitName>) -> (r: Implementation)
        requires
            self.wf(),
        ensures
            r.wf(),
            r.spec_view() == (ImplView { supertraits: trait_names(supertraits@), ..self.spec_view() }),
    {
        let mut s = self;
        s.supertraits = supertraits;
        s
    }

    /// The body of method `name`, if the implementation has one.
    pub fn get_method(&self, name: &MethodName) -> (r: Option<&Term>)
        requires
            self.wf(),
        ensures
            r matches Some(t) ==> self.spec_view().methods.contains_key(name.0@) && t@ == self.spec_view().methods[name.0@],
            r is None ==> !self.spec_view().methods.contains_key(name.0@),
    {
        self.methods.get(name.0.as_str())
    }

    /// The type of method `name`, if the implementation gives one.
    pub fn get_method_type(&self, name: &MethodName) -> (r: Option<&Type>)
        requires
            self.wf(),
        ensures
            r matches Some(t) ==> self.spec_view().method_types.contains_key(name.0@) && t@
                == self.spec_view().method_types[name.0@],
            r is None ==> !self.spec_view().method_types.contains_key(name.0@),
    {
        self.method_types.get(name.0.as_str())
    }
}

/// A substitution of types for type variables, by the variables' names.
#[derive(Debug)]
struct TypeSubst {
    vars: StrMap<Type>,
}

impl TypeSubst {
    spec fn wf(&self) -> bool {
        self.vars.wf()
    }

    spec fn spec_map(&self) -> Map<Seq<char>, SpecType> {
        types_map(self.vars.spec_map())
    }

    fn new() -> (r: TypeSubst)
        ensures
            r.wf(),
            r.spec_map() == Map::<Seq<char>, SpecType>::empty(),
    {
        let r = TypeSubst { vars: StrMap::new() };
        assert(r.spec_map() =~= Map::<Seq<char>, SpecType>::empty());
        r
    }

    /// Binds `var` to `ty`; a variable already bound keeps its type, and the
    /// answer says whether that type is `ty`.
    fn insert(&mut self, var: String, ty: Type) -> (r: bool)
        requires
            old(self).wf(),
        ensures
            final(self).wf(),
            old(self).spec_map().contains_key(var@) ==> final(self).spec_map() == old(self).spec_map() && r == (
            old(self).spec_map()[var@] == ty@),
            !old(self).spec_map().contains_key(var@) ==> final(self).spec_map() == old(self).spec_map().insert(
                var@,
                ty@,
            ) && r,
    {
        match self.vars.get(var.as_str()) {
            Some(existing) => existing.equals(&ty),
            None => {
                let ghost v = var@;
                let ghost t = ty@;
                self.vars.insert(var, ty);
                assert(self.spec_map() =~= old(self).spec_map().insert(v, t));
                true
            },
        }
    }

    fn get(&self, var: &str) -> (r: Option<&Type>)
        requires
            self.wf(),
        ensures
            r matches Some(t) ==> self.spec_map().contains_key(var@) && t@ == self.spec_map()[var@],
            r is None ==> !self.spec_map().contains_key(var@),
    {
        self.vars.get(var)
    }
}

/// Matches a parameter type against an argument type, extending the
/// substitution `s`: a type variable takes the argument's type, or must
/// already have it; other types must agree in shape, and leaves must be
/// equal. `None` when they do not match.
pub open spec fn match_ty(p: SpecType, a: SpecType, s: Map<Seq<char>, SpecType>) -> Option<Map<Seq<char>, SpecType>>
    decreases p, 0int,
{
    match p {
        SpecType::Var(v) => if s.contains_key(v) {
            if s[v] == a {
                Some(s)
            } else {
                None
            }
        } else {
            Some(s.insert(v, a))
        },
        SpecType::Arrow(m1, a1, r1) => match a {
            SpecType::Arrow(m2, a2, r2) => if m1 != m2 {
                None
            } else {
                match match_ty(*a1, *a2, s) {
                    Some(s1) => match_ty(*r1, *r2, s1),
                    None => None,
                }
            },
            _ => if p == a {
                Some(s)
            } else {
                None
            },
        },
        SpecType::TraitConstraint(t1, i1) => match a {
            SpecType::TraitConstraint(t2, i2) => if t1 != t2 {
                None
            } else {
                match_ty(*i1, *i2, s)
            },
            _ => if p == a {
                Some(s)
            } else {
                None
            },
        },
        SpecType::Inductive(n1, ps1) => match a {
            SpecType::Inductive(n2, ps2) => if n1 != n2 || ps1.len() != ps2.len() {
                None
            } else {
                match_list(ps1, ps2, 0, s)
            },
            _ => if p == a {
                Some(s)
            } else {
                None
            },
        },
        SpecType::Borrow(i1) => match a {
            SpecType::Borrow(i2) => match_ty(*i1, *i2, s),
            _ => if p == a {
                Some(s)
            } else {
                None
            },
        },
        SpecType::Product(a1, b1) => match a {
            SpecType::Product(a2, b2) => match match_ty(*a1, *a2, s) {
                Some(s1) => match_ty(*b1, *b2, s1),
                None => None,
            },
            _ => if p == a {
                Some(s)
            } else {
                None
            },
        },
        SpecType::Sum(a1, b1) => match a {
            SpecType::Sum(a2, b2) => match match_ty(*a1, *a2, s) {
                Some(s1) => match_ty(*b1, *b2, s1),
                None => None,
            },
            _ => if p == a {
                Some(s)
            } else {
                None
            },
        },
        SpecType::App(t1, as1) => match a {
            SpecType::App(t2, as2) => if *t1 != *t2 || as1.len() != as2.len() {
                None
            } else {
                match_list(as1, as2, 0, s)
            },
            _ => if p == a {
                Some(s)
            } else {
                None
            },
        },
        SpecType::Native(_) | SpecType::Forall(_, _) => if p == a {
            Some(s)
        } else {
            None
        },
    }
}

/// Matches the types of `ps` from index `i` on against those of `xs`, in
/// order, threading the substitution.
pub open spec fn match_list(ps: Seq<SpecType>, xs: Seq<SpecType>, i: int, s: Map<Seq<char>, SpecType>) -> Option<
    Map<Seq<char>, SpecType>,
>
    decreases ps, ps.len() - i,
{
    if i < 0 || i >= ps.len() || i >= xs.len() {
        Some(s)
    } else {
        match match_ty(ps[i], xs[i], s) {
            Some(s1) => match_list(ps, xs, i + 1, s1),
            None => None,
        }
    }
}

/// The values of a list of types.
pub open spec fn tys(v: Seq<Type>) -> Seq<SpecType> {
    v.map_values(|t: Type| t@)
}

/// Matches `param` against `arg`, extending `subst`; see [`match_ty`].
fn match_type_with_subst(param: &Type, arg: &Type, subst: &mut TypeSubst) -> (r: bool)
    requires
        old(subst).wf(),
    ensures
        final(subst).wf(),
        match_ty(param@, arg@, old(subst).spec_map()) matches Some(s1) ==> r && final(subst).spec_map() == s1,
        match_ty(param@, arg@, old(subst).spec_map()) is None ==> !r,
    decreases param, 1nat,
{
    match param {
        Type::Var(v) => {
            assert(param@ == SpecType::Var(v@));
            match subst.get(v.as_str()) {
                Some(existing) => existing.equals(arg),
                None => subst.insert(v.clone(), arg.clone()),
            }
        },
        Type::Arrow(m1, a1, r1) => {
            assert(param@ == SpecType::Arrow(*m1, Box::new(a1@), Box::new(r1@)));
            match arg {
                Type::Arrow(m2, a2, r2) => {
                    assert(arg@ == SpecType::Arrow(*m2, Box::new(a2@), Box::new(r2@)));
                    *m1 == *m2 && match_type_with_subst(a1, a2, subst) && match_type_with_subst(r1, r2, subst)
                },
                _ => {
                    proof {
                        crate::ast::types::lemma_view_variant(*arg);
                    }
                    param.equals(arg)
                },
            }
        },
        Type::TraitConstraint(t1, i1) => {
            assert(param@ == SpecType::TraitConstraint(t1.0@, Box::new(i1@)));
            match arg {
                Type::TraitConstraint(t2, i2) => {
                    assert(arg@ == SpecType::TraitConstraint(t2.0@, Box::new(i2@)));
                    t1.0 == t2.0 && match_type_with_subst(i1, i2, subst)
                },
                _ => {
                    proof {
                        crate::ast::types::lemma_view_variant(*arg);
                    }
                    param.equals(arg)
                },
            }
        },
        Type::Inductive(n1, ps1) => {
            proof {
                assert(param@ == SpecType::Inductive(n1.0@, param@->Inductive_1));
                assert(param@->Inductive_1 =~= tys(ps1@));
            }
            match arg {
                Type::Inductive(n2, ps2) => {
                    proof {
                        assert(arg@ == SpecType::Inductive(n2.0@, arg@->Inductive_1));
                        assert(arg@->Inductive_1 =~= tys(ps2@));
                    }
                    n1.0 == n2.0 && ps1.len() == ps2.len() && match_types_with_subst(ps1, ps2, subst)
                },
                _ => {
                    proof {
                        crate::ast::types::lemma_view_variant(*arg);
                    }
                    param.equals(arg)
                },
            }
        },
        Type::Borrow(i1) => {
            assert(param@ == SpecType::Borrow(Box::new(i1@)));
            match arg {
                Type::Borrow(i2) => {
                    assert(arg@ == SpecType::Borrow(Box::new(i2@)));
                    match_type_with_subst(i1, i2, subst)
                },
                _ => {
                    proof {
                        crate::ast::types::lemma_view_variant(*arg);
                    }
                    param.equals(arg)
                },
            }
        },
        Type::Product(a1, b1) => {
            assert(param@ == SpecType::Product(Box::new(a1@), Box::new(b1@)));
            match arg {
                Type::Product(a2, b2) => {
                    assert(arg@ == SpecType::Product(Box::new(a2@), Box::new(b2@)));
                    match_type_with_subst(a1, a2, subst) && match_type_with_subst(b1, b2, subst)
                },
                _ => {
                    proof {
                        crate::ast::types::lemma_view_variant(*arg);
                    }
                    param.equals(arg)
                },
            }
        },
        Type::Sum(a1, b1) => {
            assert(param@ == SpecType::Sum(Box::new(a1@), Box::new(b1@)));
            match arg {
                Type::Sum(a2, b2) => {
                    assert(arg@ == SpecType::Sum(Box::new(a2@), Box::new(b2@)));
                    match_type_with_subst(a1, a2, subst) && match_type_with_subst(b1, b2, subst)
                },
                _ => {
                    proof {
                        crate::ast::types::lemma_view_variant(*arg);
                    }
                    param.equals(arg)
                },
            }
        },
        Type::App(t1, as1) => {
            proof {
                assert(param@ == SpecType::App(Box::new(t1@), param@->App_1));
                assert(param@->App_1 =~= tys(as1@));
            }
            match arg {
                Type::App(t2, as2) => {
                    proof {
                        assert(arg@ == SpecType::App(Box::new(t2@), arg@->App_1));
                        assert(arg@->App_1 =~= tys(as2@));
                    }
                    t1.equals(t2) && as1.len() == as2.len() && match_types_with_subst(as1, as2, subst)
                },
                _ => {
                    proof {
                        crate::ast::types::lemma_view_variant(*arg);
                    }
                    param.equals(arg)
                },
            }
        },
        Type::Native(_) | Type::Forall(_, _) => param.equals(arg),
    }
}

/// Matches each type of `ps` against the type of `xs` at the same place, in
/// order; see [`match_list`].
fn match_types_with_subst(ps: &Vec<Type>, xs: &Vec<Type>, subst: &mut TypeSubst) -> (r: bool)
    requires
        old(subst).wf(),
        ps.len() == xs.len(),
    ensures
        final(subst).wf(),
        match_list(tys(ps@), tys(xs@), 0, old(subst).spec_map()) matches Some(s1) ==> r && final(subst).spec_map() == s1,
        match_list(tys(ps@), tys(xs@), 0, old(subst).spec_map()) is None ==> !r,
    decreases ps, 0nat,
{
    let ghost pv = tys(ps@);
    let ghost xv = tys(xs@);
    let mut i: usize = 0;
    while i < ps.len()
        invariant
            i <= ps.len(),
            ps.len() == xs.len(),
            pv == tys(ps@),
            xv == tys(xs@),
            subst.wf(),
            match_list(pv, xv, 0, old(subst).spec_map()) == match_list(pv, xv, i as int, subst.spec_map()),
        decreases ps.len() - i,
    {
        proof {
            broadcast use vstd::std_specs::vec::group_vec_axioms;
            assert(decreases_to!(*ps => ps@[i as int]));
        }
        if !match_type_with_subst(&ps[i], &xs[i], subst) {
            return false;
        }
        i += 1;
    }
    true
}

/// Whether every type variable of `t`, and the variable of every
/// quantifier in it, is bound by `s`.
pub open spec fn vars_resolved(t: SpecType, s: Map<Seq<char>, SpecType>) -> bool
    decreases t,
{
    match t {
        SpecType::Var(v) => s.contains_key(v),
        SpecType::Forall(v, inner) => s.contains_key(v) && vars_resolved(*inner, s),
        SpecType::Arrow(_, a, b) => vars_resolved(*a, s) && vars_resolved(*b, s),
        SpecType::TraitConstraint(_, inner) => vars_resolved(*inner, s),
        SpecType::Inductive(_, ps) => forall|i: int| 0 <= i < ps.len() ==> vars_resolved(#[trigger] ps[i], s),
        SpecType::Borrow(inner) => vars_resolved(*inner, s),
        SpecType::Product(a, b) => vars_resolved(*a, s) && vars_resolved(*b, s),
        SpecType::Sum(a, b) => vars_resolved(*a, s) && vars_resolved(*b, s),
        SpecType::App(b, args) => vars_resolved(*b, s) && forall|i: int|
            0 <= i < args.len() ==> vars_resolved(#[trigger] args[i], s),
        SpecType::Native(_) => true,
    }
}

/// `t` with each type variable bound by `s` replaced by its type; a
/// quantified type is left as it is.
pub open spec fn subst_ty(t: SpecType, s: Map<Seq<char>, SpecType>) -> SpecType
    decreases t, 1int,
{
    match t {
        SpecType::Var(v) => if s.contains_key(v) {
            s[v]
        } else {
            t
        },
        SpecType::Arrow(m, a, b) => SpecType::Arrow(m, Box::new(subst_ty(*a, s)), Box::new(subst_ty(*b, s))),
        SpecType::Forall(_, _) => t,
        SpecType::TraitConstraint(n, inner) => SpecType::TraitConstraint(n, Box::new(subst_ty(*inner, s))),
        SpecType::Inductive(n, ps) => SpecType::Inductive(n, subst_tys(ps, s)),
        SpecType::Borrow(inner) => SpecType::Borrow(Box::new(subst_ty(*inner, s))),
        SpecType::Product(a, b) => SpecType::Product(Box::new(subst_ty(*a, s)), Box::new(subst_ty(*b, s))),
        SpecType::Sum(a, b) => SpecType::Sum(Box::new(subst_ty(*a, s)), Box::new(subst_ty(*b, s))),
        SpecType::App(b, args) => SpecType::App(Box::new(subst_ty(*b, s)), subst_tys(args, s)),
        SpecType::Native(_) => t,
    }
}

/// [`subst_ty`] on each type of a list.
pub open spec fn subst_tys(ps: Seq<SpecType>, s: Map<Seq<char>, SpecType>) -> Seq<SpecType>
    decreases ps, 0int,
{
    Seq::new(ps.len(), |i: int| if 0 <= i < ps.len() { subst_ty(ps[i], s) } else { SpecType::Native(NativeKind::Unit) })
}

/// Matches a method's type against the types of the arguments from index `i`
/// on: each argument against the next parameter of the arrow; once the
/// arguments are used up, the rest of the type must have all its variables
/// bound.
pub open spec fn match_args(mt: SpecType, args: Seq<SpecType>, i: int, s: Map<Seq<char>, SpecType>) -> Option<
    Map<Seq<char>, SpecType>,
>
    decreases args.len() - i,
{
    if i >= args.len() {
        if vars_resolved(mt, s) {
            Some(s)
        } else {
            None
        }
    } else {
        match mt {
            SpecType::Arrow(_, p, r) => match match_ty(*p, args[i], s) {
                Some(s1) => if i >= 0 {
                    match_args(*r, args, i + 1, s1)
                } else {
                    None
                },
                None => None,
            },
            _ => None,
        }
    }
}

/// Whether every variable of `ty` is bound by `subst`; see [`vars_resolved`].
fn is_concrete_or_vars_resolved(ty: &Type, subst: &TypeSubst) -> (r: bool)
    requires
        subst.wf(),
    ensures
        r == vars_resolved(ty@, subst.spec_map()),
    decreases ty, 1nat,
{
    match ty {
        Type::Var(v) => {
            assert(ty@ == SpecType::Var(v@));
            subst.get(v.as_str()).is_some()
        },
        Type::Forall(v, inner) => {
            assert(ty@ == SpecType::Forall(v@, Box::new(inner@)));
            subst.get(v.as_str()).is_some() && is_concrete_or_vars_resolved(inner, subst)
        },
        Type::Arrow(m, a, b) => {
            assert(ty@ == SpecType::Arrow(*m, Box::new(a@), Box::new(b@)));
            is_concrete_or_vars_resolved(a, subst) && is_concrete_or_vars_resolved(b, subst)
        },
        Type::TraitConstraint(n, inner) => {
            assert(ty@ == SpecType::TraitConstraint(n.0@, Box::new(inner@)));
            is_concrete_or_vars_resolved(inner, subst)
        },
        Type::Inductive(n, ps) => {
            proof {
                assert(ty@ == SpecType::Inductive(n.0@, ty@->Inductive_1));
                assert(ty@->Inductive_1 =~= tys(ps@));
            }
            all_resolved(ps, subst)
        },
        Type::Borrow(inner) => {
            assert(ty@ == SpecType::Borrow(Box::new(inner@)));
            is_concrete_or_vars_resolved(inner, subst)
        },
        Type::Product(a, b) => {
            assert(ty@ == SpecType::Product(Box::new(a@), Box::new(b@)));
            is_concrete_or_vars_resolved(a, subst) && is_concrete_or_vars_resolved(b, subst)
        },
        Type::Sum(a, b) => {
            assert(ty@ == SpecType::Sum(Box::new(a@), Box::new(b@)));
            is_concrete_or_vars_resolved(a, subst) && is_concrete_or_vars_resolved(b, subst)
        },
        Type::App(b, args) => {
            proof {
                assert(ty@ == SpecType::App(Box::new(b@), ty@->App_1));
                assert(ty@->App_1 =~= tys(args@));
            }
            is_concrete_or_vars_resolved(b, subst) && all_resolved(args, subst)
        },
        Type::Native(k) => {
            assert(ty@ == SpecType::Native(*k));
            true
        },
    }
}

/// Whether every type of a list has all its variables bound.
fn all_resolved(ps: &Vec<Type>, subst: &TypeSubst) -> (r: bool)
    requires
        subst.wf(),
    ensures
        r == forall|i: int| 0 <= i < ps.len() ==> vars_resolved(#[trigger] tys(ps@)[i], subst.spec_map()),
    decreases ps, 0nat,
{
    let mut i: usize = 0;
    while i < ps.len()
        invariant
            i <= ps.len(),
            subst.wf(),
            forall|j: int| 0 <= j < i ==> vars_resolved(#[trigger] tys(ps@)[j], subst.spec_map()),
        decreases ps.len() - i,
    {
        proof {
            broadcast use vstd::std_specs::vec::group_vec_axioms;
            assert(decreases_to!(*ps => ps@[i as int]));
        }
        if !is_concrete_or_vars_resolved(&ps[i], subst) {
            assert(!vars_resolved(tys(ps@)[i as int], subst.spec_map()));
            return false;
        }
        i += 1;
    }
    true
}

/// `ty` with the variables bound by `subst` replaced; see [`subst_ty`].
fn apply_subst(ty: &Type, subst: &TypeSubst) -> (r: Type)
    requires
        subst.wf(),
    ensures
        r@ == subst_ty(ty@, subst.spec_map()),
    decreases ty, 1nat,
{
    match ty {
        Type::Var(v) => {
            assert(ty@ == SpecType::Var(v@));
            match subst.get(v.as_str()) {
                Some(t) => t.clone(),
                None => ty.clone(),
            }
        },
        Type::Arrow(m, a, b) => {
            assert(ty@ == SpecType::Arrow(*m, Box::new(a@), Box::new(b@)));
            Type::arrow(apply_subst(a, subst), *m, apply_subst(b, subst))
        },
        Type::Forall(v, inner) => {
            assert(ty@ == SpecType::Forall(v@, Box::new(inner@)));
            ty.clone()
        },
        Type::TraitConstraint(n, inner) => {
            assert(ty@ == SpecType::TraitConstraint(n.0@, Box::new(inner@)));
            Type::trait_constraint(TraitName(n.0.clone()), apply_subst(inner, subst))
        },
        Type::Inductive(n, ps) => {
            proof {
                assert(ty@ == SpecType::Inductive(n.0@, ty@->Inductive_1));
                assert(ty@->Inductive_1 =~= tys(ps@));
            }
            let v = apply_subst_all(ps, subst);
            let r = Type::Inductive(TypeName(n.0.clone()), v);
            proof {
                assert(r@ == SpecType::Inductive(n.0@, r@->Inductive_1));
                let ghost st = subst_tys(tys(ps@), subst.spec_map());
                assert(forall|i: int| 0 <= i < v.len() ==> r@->Inductive_1[i] == v@[i]@);
                assert(forall|i: int| 0 <= i < v.len() ==> st[i] == subst_ty(tys(ps@)[i], subst.spec_map()));
                assert(forall|i: int| 0 <= i < v.len() ==> tys(ps@)[i] == ps@[i]@);
                assert(r@->Inductive_1 =~= st);
            }
            r
        },
        Type::Borrow(inner) => {
            assert(ty@ == SpecType::Borrow(Box::new(inner@)));
            Type::borrow(apply_subst(inner, subst))
        },
        Type::Product(a, b) => {
            assert(ty@ == SpecType::Product(Box::new(a@), Box::new(b@)));
            Type::product(apply_subst(a, subst), apply_subst(b, subst))
        },
        Type::Sum(a, b) => {
            assert(ty@ == SpecType::Sum(Box::new(a@), Box::new(b@)));
            Type::sum(apply_subst(a, subst), apply_subst(b, subst))
        },
        Type::App(b, args) => {
            proof {
                assert(ty@ == SpecType::App(Box::new(b@), ty@->App_1));
                assert(ty@->App_1 =~= tys(args@));
            }
            let base = apply_subst(b, subst);
            let v = apply_subst_all(args, subst);
            let r = Type::App(Box::new(base), v);
            proof {
                assert(r@ == SpecType::App(Box::new(base@), r@->App_1));
                let ghost st = subst_tys(tys(args@), subst.spec_map());
                assert(forall|i: int| 0 <= i < v.len() ==> r@->App_1[i] == v@[i]@);
                assert(forall|i: int| 0 <= i < v.len() ==> st[i] == subst_ty(tys(args@)[i], subst.spec_map()));
                assert(forall|i: int| 0 <= i < v.len() ==> tys(args@)[i] == args@[i]@);
                assert(r@->App_1 =~= st);
            }
            r
        },
        Type::Native(k) => {
            assert(ty@ == SpecType::Native(*k));
            Type::Native(*k)
        },
    }
}

/// [`apply_subst`] on each type of a list.
fn apply_subst_all(ps: &Vec<Type>, subst: &TypeSubst) -> (r: Vec<Type>)
    requires
        subst.wf(),
    ensures
        r.len() == ps.len(),
        forall|i: int| 0 <= i < ps.len() ==> #[trigger] r@[i]@ == subst_ty(ps@[i]@, subst.spec_map()),
    decreases ps, 0nat,
{
    let mut r: Vec<Type> = Vec::new();
    let mut i: usize = 0;
    while i < ps.len()
        invariant
            i <= ps.len(),
            subst.wf(),
            r.len() == i,
            forall|j: int| 0 <= j < i ==> #[trigger] r@[j]@ == subst_ty(ps@[j]@, subst.spec_map()),
        decreases ps.len() - i,
    {
        proof {
            broadcast use vstd::std_specs::vec::group_vec_axioms;
            assert(decreases_to!(*ps => ps@[i as int]));
        }
        r.push(apply_subst(&ps[i], subst));
        i += 1;
    }
    r
}

/// Matches a method's type against argument types from `i` on; see
/// [`match_args`].
fn try_match_types(method_ty: &Type, arg_types: &[Type], i: usize, subst: &mut TypeSubst) -> (r: bool)
    requires
        old(subst).wf(),
        i <= arg_types.len(),
    ensures
        final(subst).wf(),
        match_args(method_ty@, tys(arg_types@), i as int, old(subst).spec_map()) matches Some(s1) ==> r
            && final(subst).spec_map() == s1,
        match_args(method_ty@, tys(arg_types@), i as int, old(subst).spec_map()) is None ==> !r,
    decreases arg_types.len() - i,
{
    if i == arg_types.len() {
        return is_concrete_or_vars_resolved(method_ty, subst);
    }
    match method_ty {
        Type::Arrow(m, param_ty, ret_ty) => {
            assert(method_ty@ == SpecType::Arrow(*m, Box::new(param_ty@), Box::new(ret_ty@)));
            assert(tys(arg_types@)[i as int] == arg_types@[i as int]@);
            if !match_type_with_subst(param_ty, &arg_types[i], subst) {
                return false;
            }
            try_match_types(ret_ty, arg_types, i + 1, subst)
        },
        _ => {
            proof {
                crate::ast::types::lemma_view_variant(*method_ty);
            }
            false
        },
    }
}

/// The substitution under which a method's type accepts the argument
/// types, if there is one.
fn type_matches(method_ty: &Type, arg_types: &[Type]) -> (r: Option<TypeSubst>)
    ensures
        r matches Some(s) ==> s.wf() && match_args(method_ty@, tys(arg_types@), 0, Map::empty()) == Some(s.spec_map()),
        r is None ==> match_args(method_ty@, tys(arg_types@), 0, Map::empty()) is None,
{
    let mut subst = TypeSubst::new();
    if try_match_types(method_ty, arg_types, 0, &mut subst) {
        Some(subst)
    } else {
        None
    }
}

/// An empty implementation of the trait with the empty name for the unit
/// type.
impl Default for Implementation {
    fn default() -> (r: Implementation)
        ensures
            r.wf(),
            r.spec_view() == (ImplView {
                trait_name: Seq::empty(),
                for_type: SpecType::Native(NativeKind::Unit),
                methods: Map::empty(),
                method_types: Map::empty(),
                supertraits: Seq::empty(),
            }),
    {
        proof {
            reveal_strlit("");
        }
        let r = Implementation::new(TraitName::new(""), Type::unit());
        assert(r.spec_view().trait_name =~= Seq::<char>::empty());
        r
    }
}

/// The value of a [`Registry`]: the implementations, in the order in which
/// they were added, and the supertraits of each declared trait.
pub struct RegistryView {
    pub impls: Seq<ImplView>,
    pub decls: Map<Seq<char>, Seq<Seq<char>>>,
}

/// The values of a list of implementations.
pub open spec fn impl_views(v: Seq<Implementation>) -> Seq<ImplView> {
    v.map_values(|i: Implementation| i.spec_view())
}

/// Whether an implementation is the one of trait `t` for type `ty`.
pub open spec fn has_key(iv: ImplView, t: Seq<char>, ty: SpecType) -> bool {
    iv.trait_name == t && iv.for_type == ty
}

/// Whether some implementation of the list is the one of `t` for `ty`.
pub open spec fn key_taken(impls: Seq<ImplView>, t: Seq<char>, ty: SpecType) -> bool {
    exists|i: int| 0 <= i < impls.len() && has_key(#[trigger] impls[i], t, ty)
}

/// Whether an implementation offers method `name` at a type that accepts
/// the argument types, without leaving its own type a bare variable.
pub open spec fn offers(iv: ImplView, name: Seq<char>, args: Seq<SpecType>) -> bool {
    &&& iv.methods.contains_key(name)
    &&& iv.method_types.contains_key(name)
    &&& match match_args(iv.method_types[name], args, 0, Map::empty()) {
        Some(s) => !(subst_ty(iv.for_type, s) is Var),
        None => false,
    }
}

/// The implementations of traits for types, at most one for each trait and
/// type, and the declared traits with their supertraits.
#[derive(Debug)]
pub struct Registry {
    impls: Vec<Implementation>,
    trait_decls: StrMap<Vec<TraitName>>,
}

impl Registry {
    /// The maps are well formed and no trait is implemented twice for a type.
    pub closed spec fn wf(&self) -> bool {
        &&& self.trait_decls.wf()
        &&& forall|i: int| 0 <= i < self.impls.len() ==> (#[trigger] self.impls@[i]).wf()
        &&& forall|i: int, j: int|
            0 <= i < j < self.impls.len() ==> !has_key(
                #[trigger] self.impls@[i].spec_view(),
                #[trigger] self.impls@[j].trait_name.0@,
                self.impls@[j].for_type@,
            )
    }

    pub closed spec fn spec_view(&self) -> RegistryView {
        RegistryView {
            impls: impl_views(self.impls@),
            decls: self.trait_decls.spec_map().map_values(|v: Vec<TraitName>| trait_names(v@)),
        }
    }

    /// No two implementations are of the same trait for the same type.
    pub proof fn lemma_keys_distinct(&self)
        requires
            self.wf(),
        ensures
            forall|a: int, b: int|
                0 <= a < b < self.spec_view().impls.len() ==> !has_key(
                    #[trigger] self.spec_view().impls[a],
                    #[trigger] self.spec_view().impls[b].trait_name,
                    self.spec_view().impls[b].for_type,
                ),
    {
        assert forall|a: int, b: int| 0 <= a < b < self.spec_view().impls.len() implies !has_key(
            #[trigger] self.spec_view().impls[a],
            #[trigger] self.spec_view().impls[b].trait_name,
            self.spec_view().impls[b].for_type,
        ) by {
            assert(self.spec_view().impls[a] == self.impls@[a].spec_view());
            assert(self.spec_view().impls[b] == self.impls@[b].spec_view());
            assert(!has_key(self.impls@[a].spec_view(), self.impls@[b].trait_name.0@, self.impls@[b].for_type@));
        }
    }

    /// An empty registry.
    pub fn new() -> (r: Registry)
        ensures
            r.wf(),
            r.spec_view().impls == Seq::<ImplView>::empty(),
            r.spec_view().decls == Map::<Seq<char>, Seq<Seq<char>>>::empty(),
    {
        let r = Registry { impls: Vec::new(), trait_decls: StrMap::new() };
        assert(r.spec_view().impls =~= Seq::<ImplView>::empty());
        assert(r.spec_view().decls =~= Map::<Seq<char>, Seq<Seq<char>>>::empty());
        r
    }

    /// Records trait `name` with its supertraits, in place of any earlier
    /// declaration of it.
    pub fn declare_trait(&mut self, name: TraitName, supertraits: Vec<TraitName>) -> (r: Result<(), TraitError>)
        requires
            old(self).wf(),
        ensures
            final(self).wf(),
            r is Ok,
            final(self).spec_view().impls == old(self).spec_view().impls,
            final(self).spec_view().decls == old(self).spec_view().decls.insert(name.0@, trait_names(supertraits@)),
    {
        let ghost k = name.0@;
        let ghost v = trait_names(supertraits@);
        self.trait_decls.insert(name.0, supertraits);
        assert(self.spec_view().decls =~= old(self).spec_view().decls.insert(k, v));
        Ok(())
    }

    /// The position of the implementation of `trait_name` for `ty`, if any.
    fn position(&self, trait_name: &TraitName, ty: &Type) -> (r: Option<usize>)
        requires
            self.wf(),
        ensures
            r matches Some(i) ==> i < self.impls.len() && has_key(self.spec_view().impls[i as int], trait_name.0@, ty@),
            r is None ==> !key_taken(self.spec_view().impls, trait_name.0@, ty@),
    {
        let mut i: usize = 0;
        while i < self.impls.len()
            invariant
                i <= self.impls.len(),
                forall|j: int| 0 <= j < i ==> !has_key(#[trigger] impl_views(self.impls@)[j], trait_name.0@, ty@),
            decreases self.impls.len() - i,
        {
            if self.impls[i].trait_name.0 == trait_name.0 && self.impls[i].for_type.equals(ty) {
                return Some(i);
            }
            i += 1;
        }
        None
    }

    /// Adds an implementation; one of the same trait for the same type is
    /// refused.
    pub fn insert(&mut self, implementation: Implementation) -> (r: Result<(), TraitError>)
        requires
            old(self).wf(),
            implementation.wf(),
        ensures
            final(self).wf(),
            key_taken(old(self).spec_view().impls, implementation.trait_name.0@, implementation.for_type@) ==> (r matches Err(
                TraitError::DuplicateImpl(t, ty),
            ) && t.0@ == implementation.trait_name.0@ && ty@ == implementation.for_type@ && final(self).spec_view()
                == old(self).spec_view()),
            !key_taken(old(self).spec_view().impls, implementation.trait_name.0@, implementation.for_type@) ==> (r is Ok
                && final(self).spec_view().impls == old(self).spec_view().impls.push(implementation.spec_view())
                && final(self).spec_view().decls == old(self).spec_view().decls),
    {
        match self.position(&implementation.trait_name, &implementation.for_type) {
            Some(_) => Err(TraitError::DuplicateImpl(implementation.trait_name, implementation.for_type)),
            None => {
                let ghost iv = implementation.spec_view();
                self.impls.push(implementation);
                proof {
                    assert(self.spec_view().impls =~= old(self).spec_view().impls.push(iv));
                    assert forall|i: int, j: int| 0 <= i < j < self.impls.len() implies !has_key(
                        #[trigger] self.impls@[i].spec_view(),
                        #[trigger] self.impls@[j].trait_name.0@,
                        self.impls@[j].for_type@,
                    ) by {
                        if j == self.impls.len() - 1 {
                            assert(impl_views(old(self).impls@)[i] == self.impls@[i].spec_view());
                        } else {
                            assert(self.impls@[i] == old(self).impls@[i]);
                            assert(self.impls@[j] == old(self).impls@[j]);
                        }
                    }
                }
                Ok(())
            },
        }
    }

    /// The implementation of `trait_name` for `ty`, if there is one.
    pub fn get(&self, trait_name: &TraitName, ty: &Type) -> (r: Option<&Implementation>)
        requires
            self.wf(),
        ensures
            r matches Some(imp) ==> imp.wf() && has_key(imp.spec_view(), trait_name.0@, ty@) && self.spec_view().impls.contains(
                imp.spec_view(),
            ),
            r is None ==> !key_taken(self.spec_view().impls, trait_name.0@, ty@),
    {
        match self.position(trait_name, ty) {
            Some(i) => {
                assert(self.spec_view().impls[i as int] == self.impls@[i as int].spec_view());
                Some(&self.impls[i])
            },
            None => None,
        }
    }

    /// The supertraits with which `trait_name` was declared, if it was.
    pub fn get_trait_declaration(&self, trait_name: &TraitName) -> (r: Option<&Vec<TraitName>>)
        requires
            self.wf(),
        ensures
            r matches Some(v) ==> self.spec_view().decls.contains_key(trait_name.0@) && trait_names(v@)
                == self.spec_view().decls[trait_name.0@],
            r is None ==> !self.spec_view().decls.contains_key(trait_name.0@),
    {
        self.trait_decls.get(trait_name.0.as_str())
    }

    /// All the implementations, in the order in which they were added.
    pub fn all_impls(&self) -> (r: &[Implementation])
        requires
            self.wf(),
        ensures
            impl_views(r@) == self.spec_view().impls,
            forall|i: int| 0 <= i < r@.len() ==> (#[trigger] r@[i]).wf(),
    {
        self.impls.as_slice()
    }

    /// Each implementation with its trait and type, in the order in which
    /// they were added.
    pub fn iter(&self) -> (r: Vec<(&TraitName, &Type, &Implementation)>)
        requires
            self.wf(),
        ensures
            r.len() == self.spec_view().impls.len(),
            forall|i: int|
                0 <= i < r.len() ==> {
                    &&& (#[trigger] r@[i]).2.spec_view() == self.spec_view().impls[i]
                    &&& r@[i].2.wf()
                    &&& r@[i].0.0@ == self.spec_view().impls[i].trait_name
                    &&& r@[i].1@ == self.spec_view().impls[i].for_type
                },
    {
        let mut r: Vec<(&TraitName, &Type, &Implementation)> = Vec::new();
        let mut i: usize = 0;
        while i < self.impls.len()
            invariant
                i <= self.impls.len(),
                r.len() == i,
                forall|j: int| 0 <= j < self.impls.len() ==> (#[trigger] self.impls@[j]).wf(),
                forall|j: int|
                    0 <= j < i ==> {
                        &&& (#[trigger] r@[j]).2.spec_view() == impl_views(self.impls@)[j]
                        &&& r@[j].2.wf()
                        &&& r@[j].0.0@ == impl_views(self.impls@)[j].trait_name
                        &&& r@[j].1@ == impl_views(self.impls@)[j].for_type
                    },
            decreases self.impls.len() - i,
        {
            let imp = &self.impls[i];
            r.push((&imp.trait_name, &imp.for_type, imp));
            i += 1;
        }
        r
    }

    /// The first implementation, in the order in which they were added, that
    /// offers method `method_name` at a type accepting `arg_types` (see
    /// [`offers`]): its trait, its type and the method's body.
    pub fn find_method_by_name(&self, method_name: &str, arg_types: &[Type]) -> (r: Option<(TraitName, Type, Term)>)
        requires
            self.wf(),
        ensures
            r matches Some((t, ty, m)) ==> first_offer(self.spec_view().impls, method_name@, tys(arg_types@), 0) matches Some(
                i,
            ) && t.0@ == self.spec_view().impls[i].trait_name && ty@ == self.spec_view().impls[i].for_type && m@
                == self.spec_view().impls[i].methods[method_name@],
            r is None ==> first_offer(self.spec_view().impls, method_name@, tys(arg_types@), 0) is None,
    {
        let ghost iv = self.spec_view().impls;
        let mut i: usize = 0;
        while i < self.impls.len()
            invariant
                i <= self.impls.len(),
                self.wf(),
                iv == self.spec_view().impls,
                first_offer(iv, method_name@, tys(arg_types@), 0) == first_offer(iv, method_name@, tys(arg_types@), i as int),
            decreases self.impls.len() - i,
        {
            let imp = &self.impls[i];
            assert(imp.wf());
            assert(iv[i as int] == imp.spec_view());
            match imp.methods.get(method_name) {
                Some(method_term) => {
                    match imp.method_types.get(method_name) {
                        Some(method_ty) => {
                            match type_matches(method_ty, arg_types) {
                                Some(subst) => {
                                    let resolved = apply_subst(&imp.for_type, &subst);
                                    let is_var = match resolved {
                                        Type::Var(_) => true,
                                        _ => false,
                                    };
                                    proof {
                                        crate::ast::types::lemma_view_variant(resolved);
                                    }
                                    if !is_var {
                                        return Some(
                                            (TraitName(imp.trait_name.0.clone()), imp.for_type.clone(), method_term.clone()),
                                        );
                                    }
                                },
                                None => {},
                            }
                        },
                        None => {},
                    }
                },
                None => {},
            }
            i += 1;
        }
        None
    }
}

/// The position of the first implementation from index `i` on that offers
/// method `name` for the argument types.
pub open spec fn first_offer(impls: Seq<ImplView>, name: Seq<char>, args: Seq<SpecType>, i: int) -> Option<int>
    decreases impls.len() - i,
{
    if i < 0 || i >= impls.len() {
        None
    } else if offers(impls[i], name, args) {
        Some(i)
    } else {
        first_offer(impls, name, args, i + 1)
    }
}

/// An empty registry.
impl Default for Registry {
    fn default() -> (r: Registry)
        ensures
            r.wf(),
            r.spec_view().impls == Seq::<ImplView>::empty(),
            r.spec_view().decls == Map::<Seq<char>, Seq<Seq<char>>>::empty(),
    {
        Registry::new()
    }
}

/// The type given to method `m` by the last signature of it in the last
/// declaration of trait `t` among the first `n` declarations that has one.
pub open spec fn declared_method_type(ds: Seq<Decl>, n: int, t: Seq<char>, m: Seq<char>) -> Option<SpecType>
    decreases n,
{
    if n <= 0 || n > ds.len() {
        None
    } else {
        match ds[n - 1] {
            Decl::TraitDecl { name, methods, .. } => if name@ == t {
                match last_sig(methods@, methods.len() as int, m) {
                    Some(ty) => Some(ty),
                    None => declared_method_type(ds, n - 1, t, m),
                }
            } else {
                declared_method_type(ds, n - 1, t, m)
            },
            _ => declared_method_type(ds, n - 1, t, m),
        }
    }
}

/// The type of the last signature of method `m` among the first `n`.
pub open spec fn last_sig(ms: Seq<MethodSig>, n: int, m: Seq<char>) -> Option<SpecType>
    decreases n,
{
    if n <= 0 || n > ms.len() {
        None
    } else if ms[n - 1].name.0@ == m {
        Some(ms[n - 1].ty@)
    } else {
        last_sig(ms, n - 1, m)
    }
}

/// The type an implementation records for a method: the one it writes, or,
/// where it writes the unit type, the one its trait declares (unit when the
/// trait declares none).
pub open spec fn recorded_method_type(ds: Seq<Decl>, t: Seq<char>, md: MethodDef) -> SpecType {
    if md.ty@ == SpecType::Native(NativeKind::Unit) {
        match declared_method_type(ds, ds.len() as int, t, md.name.0@) {
            Some(ty) => ty,
            None => SpecType::Native(NativeKind::Unit),
        }
    } else {
        md.ty@
    }
}

/// The bodies of the first `k` methods of an implementation, by name; a
/// later method of the same name replaces an earlier one.
pub open spec fn method_bodies(ms: Seq<MethodDef>, k: int) -> Map<Seq<char>, SpecTerm>
    decreases k,
{
    if k <= 0 || k > ms.len() {
        Map::empty()
    } else {
        method_bodies(ms, k - 1).insert(ms[k - 1].name.0@, (*ms[k - 1].term)@)
    }
}

/// The recorded types of the first `k` methods of an implementation.
pub open spec fn method_types_of(ds: Seq<Decl>, t: Seq<char>, ms: Seq<MethodDef>, k: int) -> Map<Seq<char>, SpecType>
    decreases k,
{
    if k <= 0 || k > ms.len() {
        Map::empty()
    } else {
        method_types_of(ds, t, ms, k - 1).insert(ms[k - 1].name.0@, recorded_method_type(ds, t, ms[k - 1]))
    }
}

/// The implementations that the first `n` declarations add, each in turn,
/// where no earlier one is of the same trait for the same type.
pub open spec fn impls_of_decls(ds: Seq<Decl>, n: int) -> Seq<ImplView>
    decreases n,
{
    if n <= 0 || n > ds.len() {
        Seq::empty()
    } else {
        let prev = impls_of_decls(ds, n - 1);
        match ds[n - 1] {
            Decl::ImplDecl { ty, trait_name, methods } => if key_taken(prev, trait_name.0@, ty@) {
                prev
            } else {
                prev.push(
                    ImplView {
                        trait_name: trait_name.0@,
                        for_type: ty@,
                        methods: method_bodies(methods@, methods.len() as int),
                        method_types: method_types_of(ds, trait_name.0@, methods@, methods.len() as int),
                        supertraits: Seq::empty(),
                    },
                )
            },
            _ => prev,
        }
    }
}

/// Whether one of the declarations declares trait `t`.
pub open spec fn declares_trait(ds: Seq<Decl>, t: Seq<char>) -> bool {
    exists|i: int| 0 <= i < ds.len() && (#[trigger] ds[i] matches Decl::TraitDecl { name, .. } && name@ == t)
}

/// One more declaration declares trait `t` when the earlier ones do or it
/// declares `t` itself.
proof fn lemma_declares_step(ds: Seq<Decl>, i: int, t: Seq<char>)
    requires
        0 <= i < ds.len(),
    ensures
        declares_trait(ds.take(i + 1), t) <==> (declares_trait(ds.take(i), t) || (ds[i] matches Decl::TraitDecl { name, .. }
            && name@ == t)),
{
    if declares_trait(ds.take(i + 1), t) {
        let j = choose|j: int| 0 <= j < i + 1 && (#[trigger] ds.take(i + 1)[j] matches Decl::TraitDecl { name, .. } && name@ == t);
        if j < i {
            assert(ds.take(i)[j] == ds.take(i + 1)[j]);
        }
    }
    if declares_trait(ds.take(i), t) {
        let j = choose|j: int| 0 <= j < i && (#[trigger] ds.take(i)[j] matches Decl::TraitDecl { name, .. } && name@ == t);
        assert(ds.take(i + 1)[j] == ds.take(i)[j]);
    }
    if ds[i] matches Decl::TraitDecl { name, .. } && name@ == t {
        assert(ds.take(i + 1)[i] == ds[i]);
    }
}

/// `t` with every type variable, bound by a quantifier or not, replaced by
/// `c`; the quantifiers themselves stay.
pub open spec fn subst_vars(t: SpecType, c: SpecType) -> SpecType
    decreases t, 1int,
{
    match t {
        SpecType::Var(_) => c,
        SpecType::Arrow(m, a, b) => SpecType::Arrow(m, Box::new(subst_vars(*a, c)), Box::new(subst_vars(*b, c))),
        SpecType::Forall(n, inner) => SpecType::Forall(n, Box::new(subst_vars(*inner, c))),
        SpecType::TraitConstraint(n, inner) => SpecType::TraitConstraint(n, Box::new(subst_vars(*inner, c))),
        SpecType::Inductive(n, ps) => SpecType::Inductive(n, subst_vars_list(ps, c)),
        SpecType::Borrow(inner) => SpecType::Borrow(Box::new(subst_vars(*inner, c))),
        SpecType::Product(a, b) => SpecType::Product(Box::new(subst_vars(*a, c)), Box::new(subst_vars(*b, c))),
        SpecType::Sum(a, b) => SpecType::Sum(Box::new(subst_vars(*a, c)), Box::new(subst_vars(*b, c))),
        SpecType::App(b, args) => SpecType::App(Box::new(subst_vars(*b, c)), subst_vars_list(args, c)),
        SpecType::Native(_) => t,
    }
}

/// [`subst_vars`] on each type of a list.
pub open spec fn subst_vars_list(ps: Seq<SpecType>, c: SpecType) -> Seq<SpecType>
    decreases ps, 0int,
{
    Seq::new(ps.len(), |i: int| if 0 <= i < ps.len() { subst_vars(ps[i], c) } else { SpecType::Native(NativeKind::Unit) })
}

/// Replaces every type variable of `ty` by `concrete_type`.
fn substitute_type_vars(ty: &Type, concrete_type: &Type) -> (r: Type)
    ensures
        r@ == subst_vars(ty@, concrete_type@),
    decreases ty, 1nat,
{
    proof {
        crate::ast::types::lemma_view_variant(*ty);
    }
    match ty {
        Type::Arrow(m, param, ret) => {
            assert(ty@ == SpecType::Arrow(*m, Box::new(param@), Box::new(ret@)));
            Type::Arrow(
                *m,
                Box::new(substitute_type_vars(param, concrete_type)),
                Box::new(substitute_type_vars(ret, concrete_type)),
            )
        },
        Type::Var(_) => concrete_type.clone(),
        Type::Forall(v, inner) => {
            assert(ty@ == SpecType::Forall(v@, Box::new(inner@)));
            Type::Forall(v.clone(), Box::new(substitute_type_vars(inner, concrete_type)))
        },
        Type::TraitConstraint(t, inner) => {
            assert(ty@ == SpecType::TraitConstraint(t.0@, Box::new(inner@)));
            Type::TraitConstraint(TraitName(t.0.clone()), Box::new(substitute_type_vars(inner, concrete_type)))
        },
        Type::Inductive(name, params) => {
            let v = substitute_all(params, concrete_type);
            let r = Type::Inductive(TypeName(name.0.clone()), v);
            assert(forall|i: int| 0 <= i < params.len() ==> ty@->Inductive_1[i] == params@[i]@);
            assert(forall|i: int| 0 <= i < v.len() ==> r@->Inductive_1[i] == v@[i]@);
            assert(r@->Inductive_1 =~= subst_vars_list(ty@->Inductive_1, concrete_type@));
            r
        },
        Type::Borrow(inner) => {
            assert(ty@ == SpecType::Borrow(Box::new(inner@)));
            Type::Borrow(Box::new(substitute_type_vars(inner, concrete_type)))
        },
        Type::Product(a, b) => {
            assert(ty@ == SpecType::Product(Box::new(a@), Box::new(b@)));
            Type::Product(
                Box::new(substitute_type_vars(a, concrete_type)),
                Box::new(substitute_type_vars(b, concrete_type)),
            )
        },
        Type::Sum(a, b) => {
            assert(ty@ == SpecType::Sum(Box::new(a@), Box::new(b@)));
            Type::Sum(
                Box::new(substitute_type_vars(a, concrete_type)),
                Box::new(substitute_type_vars(b, concrete_type)),
            )
        },
        Type::App(b, args) => {
            let nb = substitute_type_vars(b, concrete_type);
            let v = substitute_all(args, concrete_type);
            let r = Type::App(Box::new(nb), v);
            assert(ty@->App_0 == Box::new(b@));
            assert(forall|i: int| 0 <= i < args.len() ==> ty@->App_1[i] == args@[i]@);
            assert(forall|i: int| 0 <= i < v.len() ==> r@->App_1[i] == v@[i]@);
            assert(r@->App_1 =~= subst_vars_list(ty@->App_1, concrete_type@));
            r
        },
        Type::Native(k) => {
            assert(ty@ == SpecType::Native(*k));
            Type::Native(*k)
        },
    }
}

/// [`substitute_type_vars`] on each type of a list.
fn substitute_all(ps: &Vec<Type>, concrete_type: &Type) -> (r: Vec<Type>)
    ensures
        r.len() == ps.len(),
        forall|i: int| 0 <= i < ps.len() ==> #[trigger] r@[i]@ == subst_vars(ps@[i]@, concrete_type@),
    decreases ps, 0nat,
{
    let mut v: Vec<Type> = Vec::new();
    let mut i: usize = 0;
    while i < ps.len()
        invariant
            i <= ps.len(),
            v.len() == i,
            forall|j: int| 0 <= j < i ==> #[trigger] v@[j]@ == subst_vars(ps@[j]@, concrete_type@),
        decreases ps.len() - i,
    {
        proof {
            broadcast use vstd::std_specs::vec::group_vec_axioms;
            assert(decreases_to!(*ps => ps@[i as int]));
        }
        v.push(substitute_type_vars(&ps[i], concrete_type));
        i += 1;
    }
    v
}

/// The type of the last signature of method `m` among `methods`.
fn last_sig_type<'a>(methods: &'a Vec<MethodSig>, m: &str) -> (r: Option<&'a Type>)
    ensures
        r matches Some(ty) ==> last_sig(methods@, methods.len() as int, m@) == Some(ty@),
        r is None ==> last_sig(methods@, methods.len() as int, m@) is None,
{
    let mut k: usize = methods.len();
    while k > 0
        invariant
            k <= methods.len(),
            last_sig(methods@, methods.len() as int, m@) == last_sig(methods@, k as int, m@),
        decreases k,
    {
        if crate::text::str_eq(methods[k - 1].name.0.as_str(), m) {
            return Some(&methods[k - 1].ty);
        }
        k -= 1;
    }
    None
}

/// The type of the last signature of method `m` in the last declaration of
/// trait `t` that has one.
fn lookup_method_type<'a>(decls: &'a [Decl], t: &str, m: &str) -> (r: Option<&'a Type>)
    ensures
        r matches Some(ty) ==> declared_method_type(decls@, decls@.len() as int, t@, m@) == Some(ty@),
        r is None ==> declared_method_type(decls@, decls@.len() as int, t@, m@) is None,
{
    let mut n: usize = decls.len();
    while n > 0
        invariant
            n <= decls.len(),
            declared_method_type(decls@, decls@.len() as int, t@, m@) == declared_method_type(decls@, n as int, t@, m@),
        decreases n,
    {
        match &decls[n - 1] {
            Decl::TraitDecl { name, methods, .. } => {
                if crate::text::str_eq(name.as_str(), t) {
                    match last_sig_type(methods, m) {
                        Some(ty) => {
                            return Some(ty);
                        },
                        None => {},
                    }
                }
            },
            _ => {},
        }
        n -= 1;
    }
    None
}

/// The registry of the traits and implementations that the declarations
/// make: each declared trait with no supertraits, and each implementation
/// in turn, with the types of its methods (see [`recorded_method_type`]);
/// a second implementation of a trait for the same type is dropped.
pub fn build_registry_from_decls(decls: &[Decl]) -> (r: Registry)
    ensures
        r.wf(),
        forall|t: Seq<char>| #[trigger] r.spec_view().decls.contains_key(t) <==> declares_trait(decls@, t),
        forall|t: Seq<char>| r.spec_view().decls.contains_key(t) ==> #[trigger] r.spec_view().decls[t] == Seq::<
            Seq<char>,
        >::empty(),
        r.spec_view().impls == impls_of_decls(decls@, decls@.len() as int),
{
    let mut registry = Registry::new();
    let mut i: usize = 0;
    while i < decls.len()
        invariant
            i <= decls.len(),
            registry.wf(),
            registry.spec_view().impls == Seq::<ImplView>::empty(),
            forall|t: Seq<char>| #[trigger] registry.spec_view().decls.contains_key(t) <==> declares_trait(decls@.take(i as int), t),
            forall|t: Seq<char>| registry.spec_view().decls.contains_key(t) ==> #[trigger] registry.spec_view().decls[t]
                == Seq::<Seq<char>>::empty(),
        decreases decls.len() - i,
    {
        let ghost before = registry.spec_view().decls;
        match &decls[i] {
            Decl::TraitDecl { name, .. } => {
                let supertraits: Vec<TraitName> = Vec::new();
                proof {
                    assert(trait_names(supertraits@) =~= Seq::<Seq<char>>::empty());
                }
                let _ = registry.declare_trait(TraitName::new(name.as_str()), supertraits);
                assert(forall|t: Seq<char>| registry.spec_view().decls.contains_key(t) <==> (before.contains_key(t) || t == name@));
            },
            _ => {
                assert(registry.spec_view().decls == before);
            },
        }
        proof {
            assert forall|t: Seq<char>| #[trigger] registry.spec_view().decls.contains_key(t) <==> declares_trait(
                decls@.take(i + 1),
                t,
            ) by {
                lemma_declares_step(decls@, i as int, t);
            }
        }
        i += 1;
    }
    assert(decls@.take(decls.len() as int) =~= decls@);
    let ghost decls_after = registry.spec_view().decls;
    let mut i: usize = 0;
    while i < decls.len()
        invariant
            i <= decls.len(),
            registry.wf(),
            registry.spec_view().decls == decls_after,
            registry.spec_view().impls == impls_of_decls(decls@, i as int),
        decreases decls.len() - i,
    {
        match &decls[i] {
            Decl::ImplDecl { ty, trait_name, methods } => {
                let mut impl_block = Implementation::new(TraitName(trait_name.0.clone()), ty.clone());
                let mut k: usize = 0;
                while k < methods.len()
                    invariant
                        k <= methods.len(),
                        impl_block.wf(),
                        impl_block.spec_view() == (ImplView {
                            trait_name: trait_name.0@,
                            for_type: ty@,
                            methods: method_bodies(methods@, k as int),
                            method_types: method_types_of(decls@, trait_name.0@, methods@, k as int),
                            supertraits: Seq::empty(),
                        }),
                    decreases methods.len() - k,
                {
                    let method = &methods[k];
                    let method_ty = if method.ty.equals(&Type::unit()) {
                        match lookup_method_type(decls, trait_name.0.as_str(), method.name.0.as_str()) {
                            Some(t) => t.clone(),
                            None => substitute_type_vars(&Type::unit(), ty),
                        }
                    } else {
                        method.ty.clone()
                    };
                    impl_block = impl_block.add_method(MethodName(method.name.0.clone()), (*method.term).clone());
                    impl_block = impl_block.with_method_type(MethodName(method.name.0.clone()), method_ty);
                    k += 1;
                }
                let _ = registry.insert(impl_block);
            },
            _ => {},
        }
        i += 1;
    }
    registry
}

} // verus!
