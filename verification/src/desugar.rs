//! Desugaring: trait method calls become calls of the implementing
//! primitives or terms, where the registry resolves them.
//!
//! The pass runs after type checking and before translation to the
//! interaction net: `add 3 5` becomes `PrimCall { "prim_iadd", [3, 5] }`.
use vstd::prelude::*;

use crate::ast::patterns::SpecPattern;
use crate::ast::terms::{lit_type, term_type, Arm, Literal, SpecTerm, Term, terms_view, arms_view, lemma_term_lists};
use crate::ast::types::{MethodName, Multiplicity, NativeKind, SpecType, TraitName, Type};
use crate::runtime::primitives::{nat_decimal, spec_prim_name_to_op};
use crate::text::begins_with;
use crate::traits::registry::{first_offer, has_key, key_taken, ImplView, Registry, RegistryView, TraitMethodImpl, tys};

verus! {

/// How many times, one inside another, the result of a resolved call is
/// desugared again: as many as a `usize` counts, which no terminating
/// desugaring reaches. A trait method whose implementation calls itself at
/// the same types resolves without end; past this depth the term is left
/// as it is.
pub const DESUGAR_DEPTH: usize = usize::MAX;

/// The value of a [`TraitMethodImpl`].
pub enum SpecMethodImpl {
    Primitive(Seq<char>),
    Term(SpecTerm),
}

impl View for TraitMethodImpl {
    type V = SpecMethodImpl;

    open spec fn view(&self) -> SpecMethodImpl {
        match self {
            TraitMethodImpl::Primitive(p) => SpecMethodImpl::Primitive(p@),
            TraitMethodImpl::Term(t) => SpecMethodImpl::Term(t@),
        }
    }
}

/// A primitive's name begins with `prim_`.
pub open spec fn is_prim_name(s: Seq<char>) -> bool {
    begins_with(s, "prim_"@)
}

/// `Bool`, as the desugaring pass writes it.
pub open spec fn bool_named() -> SpecType {
    SpecType::Inductive("Bool"@, seq![])
}

/// `a → b`, the argument taken once.
pub open spec fn arrow_once(a: SpecType, b: SpecType) -> SpecType {
    SpecType::Arrow(Multiplicity::One, Box::new(a), Box::new(b))
}

/// The types of the binary primitives, by name.
pub open spec fn prim_name_type(n: Seq<char>) -> Option<SpecType> {
    let it = SpecType::Native(NativeKind::Int);
    let ft = SpecType::Native(NativeKind::Float);
    if n == "prim_iadd"@ || n == "prim_isub"@ || n == "prim_imul"@ || n == "prim_irem"@ {
        Some(arrow_once(it, arrow_once(it, it)))
    } else if n == "prim_idiv"@ {
        Some(
            arrow_once(
                it,
                arrow_once(it, SpecType::Inductive("Result"@, seq![it, SpecType::Inductive("DivisionByZero"@, seq![])])),
            ),
        )
    } else if n == "prim_fadd"@ || n == "prim_fsub"@ || n == "prim_fmul"@ || n == "prim_fdiv"@ || n == "prim_frem"@ {
        Some(arrow_once(ft, arrow_once(ft, ft)))
    } else if n == "prim_ieq"@ || n == "prim_igt"@ || n == "prim_ilt"@ || n == "prim_ige"@ || n == "prim_ile"@ {
        Some(arrow_once(it, arrow_once(it, bool_named())))
    } else if n == "prim_feq"@ || n == "prim_fgt"@ || n == "prim_flt"@ || n == "prim_fge"@ || n == "prim_fle"@ {
        Some(arrow_once(ft, arrow_once(ft, bool_named())))
    } else {
        None
    }
}

/// The result type after `n` arguments, if `t` takes that many.
pub open spec fn after_args(t: SpecType, n: nat) -> Option<SpecType>
    decreases n,
{
    if n == 0 {
        Some(t)
    } else {
        match t {
            SpecType::Arrow(_, _, r) => after_args(*r, (n - 1) as nat),
            _ => None,
        }
    }
}

/// The type of a term as the desugaring pass reads it: a primitive call has
/// the result type of its primitive after its arguments.
pub open spec fn type_with_prims(t: SpecTerm) -> Option<SpecType> {
    match t {
        SpecTerm::NativeLiteral(l) => Some(lit_type(l)),
        SpecTerm::Var(_) => None,
        SpecTerm::PrimCall(n, args) => match prim_name_type(n) {
            Some(pt) => after_args(pt, args.len()),
            None => None,
        },
        _ => term_type(t),
    }
}

/// The types that can be read off the first `n` arguments, in order.
pub open spec fn known_arg_types(args: Seq<SpecTerm>, n: int) -> Seq<SpecType>
    decreases n,
{
    if n <= 0 || n > args.len() {
        seq![]
    } else {
        match type_with_prims(args[n - 1]) {
            Some(t) => known_arg_types(args, n - 1).push(t),
            None => known_arg_types(args, n - 1),
        }
    }
}

/// What a call of method `name` on `args` resolves to: the method of the
/// first implementation that offers it at the arguments' types; a variable
/// named like a primitive stands for that primitive.
pub open spec fn resolve_call(name: Seq<char>, args: Seq<SpecTerm>, rv: RegistryView) -> Option<SpecMethodImpl> {
    match first_offer(rv.impls, name, known_arg_types(args, args.len() as int), 0) {
        Some(i) => {
            let m = rv.impls[i].methods[name];
            if m matches SpecTerm::Var(v) && is_prim_name(v) {
                Some(SpecMethodImpl::Primitive(m->Var_0))
            } else {
                Some(SpecMethodImpl::Term(m))
            }
        },
        None => None,
    }
}

/// The implementation of trait `t` for type `ty`, if the registry has one.
pub open spec fn impl_for(impls: Seq<ImplView>, t: Seq<char>, ty: SpecType) -> Option<ImplView> {
    if key_taken(impls, t, ty) {
        Some(impls[choose|i: int| 0 <= i < impls.len() && has_key(#[trigger] impls[i], t, ty)])
    } else {
        None
    }
}

/// The body of method `m` in the implementation of trait `t` for the type
/// of `arg`, if the type can be read off and there is one.
pub open spec fn trait_impl_method(t: Seq<char>, m: Seq<char>, arg: SpecTerm, rv: RegistryView) -> Option<SpecTerm> {
    match term_type(arg) {
        Some(ty) => match impl_for(rv.impls, t, ty) {
            Some(iv) => if iv.methods.contains_key(m) {
                Some(iv.methods[m])
            } else {
                None
            },
            None => None,
        },
        None => None,
    }
}

/// The name of the `i`-th argument a partial primitive call waits for.
pub open spec fn arg_name(i: nat) -> Seq<char> {
    "_arg"@ + nat_decimal(i)
}

/// `body` under `n` abstractions, over `_arg0` outermost to `_arg{n-1}`
/// innermost, each of an integer taken once.
pub open spec fn wrap_args(body: SpecTerm, n: nat) -> SpecTerm
    decreases n,
{
    if n == 0 {
        body
    } else {
        wrap_args(
            SpecTerm::Abs(arg_name((n - 1) as nat), Multiplicity::One, SpecType::Native(NativeKind::Int), Box::new(body)),
            (n - 1) as nat,
        )
    }
}

/// The variables `_arg0` to `_arg{k-1}`.
pub open spec fn arg_vars(k: nat) -> Seq<SpecTerm> {
    Seq::new(k, |j: int| SpecTerm::Var(arg_name(j as nat)))
}

/// `m` applied to the arguments from index `i` on, the last innermost.
pub open spec fn apply_reversed(m: SpecTerm, args: Seq<SpecTerm>, i: int) -> SpecTerm
    decreases args.len() - i,
{
    if i < 0 || i >= args.len() {
        m
    } else {
        SpecTerm::App(Box::new(apply_reversed(m, args, i + 1)), Box::new(args[i]))
    }
}

/// The term a resolved call stands for, before it is desugared again: a
/// primitive call, waiting in abstractions for the arguments it lacks, or
/// the implementing term applied to the arguments.
pub open spec fn resolution_term(ch: SpecMethodImpl, args: Seq<SpecTerm>) -> SpecTerm {
    match ch {
        SpecMethodImpl::Primitive(p) => match spec_prim_name_to_op(p) {
            Some(op) => if args.len() < op.spec_arity() {
                let k = (op.spec_arity() - args.len()) as nat;
                wrap_args(SpecTerm::PrimCall(p, args + arg_vars(k)), k)
            } else {
                SpecTerm::PrimCall(p, args)
            },
            None => SpecTerm::PrimCall(p, args),
        },
        SpecMethodImpl::Term(m) => apply_reversed(m, args, 0),
    }
}

/// The head of a chain of applications, the desugared arguments of the
/// chain in order, and, where the head is a trait method, its desugared
/// argument.
pub open spec fn spine(t: SpecTerm, rv: RegistryView, fuel: nat) -> (SpecTerm, Seq<SpecTerm>, Option<SpecTerm>)
    decreases fuel, t, 0int,
{
    match t {
        SpecTerm::App(f, a) => {
            let (b, ds, ta) = spine(*f, rv, fuel);
            (b, ds.push(desugar(*a, rv, fuel)), ta)
        },
        SpecTerm::TraitMethod(_, _, a) => (t, seq![], Some(desugar(*a, rv, fuel))),
        _ => (t, seq![], None),
    }
}

/// The terms of a list from index `i` on, desugared.
pub open spec fn desugar_list(ts: Seq<SpecTerm>, i: int, rv: RegistryView, fuel: nat) -> Seq<SpecTerm>
    decreases fuel, ts, ts.len() - i,
{
    if 0 <= i < ts.len() {
        proof {
            assert(decreases_to!(ts => ts[i]));
        }
        seq![desugar(ts[i], rv, fuel)] + desugar_list(ts, i + 1, rv, fuel)
    } else {
        seq![]
    }
}

/// The arms of a list from index `i` on, their bodies desugared.
pub open spec fn desugar_arms(arms: Seq<(SpecPattern, SpecTerm)>, i: int, rv: RegistryView, fuel: nat) -> Seq<
    (SpecPattern, SpecTerm),
>
    decreases fuel, arms, arms.len() - i,
{
    if 0 <= i < arms.len() {
        proof {
            assert(decreases_to!(arms => arms[i]));
            assert(decreases_to!(arms[i] => arms[i].1));
        }
        seq![(arms[i].0, desugar(arms[i].1, rv, fuel))] + desugar_arms(arms, i + 1, rv, fuel)
    } else {
        seq![]
    }
}

/// A term with its trait method calls resolved where the registry allows,
/// through `fuel` nested resolutions:
/// - a chain of applications headed by a method name is replaced by the
///   resolution of the call (see [`resolve_call`] and
///   [`resolution_term`]), desugared again;
/// - one headed by a trait method whose implementation, for the type of
///   its argument, is a primitive becomes a call of that primitive on all
///   the arguments;
/// - a trait method on its own becomes a call of the primitive, or an
///   application of the implementing term;
/// - everything else is desugared part by part.
pub open spec fn desugar(t: SpecTerm, rv: RegistryView, fuel: nat) -> SpecTerm
    decreases fuel, t, 2int,
{
    if fuel == 0 {
        t
    } else {
        match t {
            SpecTerm::Var(_) | SpecTerm::NativeLiteral(_) => t,
            SpecTerm::Abs(v, m, ann, body) => SpecTerm::Abs(v, m, ann, Box::new(desugar(*body, rv, fuel))),
            SpecTerm::App(f, a) => {
                let (base, dargs, targ) = spine(t, rv, fuel);
                let by_name = match base {
                    SpecTerm::Var(name) => resolve_call(name, dargs, rv),
                    _ => None,
                };
                match by_name {
                    Some(ch) => {
                        let once = desugar(resolution_term(ch, dargs), rv, (fuel - 1) as nat);
                        match ch {
                            SpecMethodImpl::Primitive(_) => once,
                            SpecMethodImpl::Term(_) => desugar(once, rv, (fuel - 1) as nat),
                        }
                    },
                    None => match base {
                        SpecTerm::TraitMethod(tn, mn, raw) => match trait_impl_method(tn, mn, *raw, rv) {
                            Some(SpecTerm::Var(p)) => if is_prim_name(p) {
                                SpecTerm::PrimCall(p, seq![targ.unwrap()] + dargs)
                            } else {
                                SpecTerm::App(Box::new(desugar(*f, rv, fuel)), Box::new(desugar(*a, rv, fuel)))
                            },
                            _ => SpecTerm::App(Box::new(desugar(*f, rv, fuel)), Box::new(desugar(*a, rv, fuel))),
                        },
                        _ => SpecTerm::App(Box::new(desugar(*f, rv, fuel)), Box::new(desugar(*a, rv, fuel))),
                    },
                }
            },
            SpecTerm::Let(v, m, ann, value, body) => SpecTerm::Let(
                v,
                m,
                ann,
                Box::new(desugar(*value, rv, fuel)),
                Box::new(desugar(*body, rv, fuel)),
            ),
            SpecTerm::Match(s, arms) => SpecTerm::Match(Box::new(desugar(*s, rv, fuel)), desugar_arms(arms, 0, rv, fuel)),
            SpecTerm::View(s, arms) => SpecTerm::View(Box::new(desugar(*s, rv, fuel)), desugar_arms(arms, 0, rv, fuel)),
            SpecTerm::TraitMethod(tn, mn, a) => {
                let da = desugar(*a, rv, fuel);
                match trait_impl_method(tn, mn, da, rv) {
                    Some(it) => if it matches SpecTerm::Var(p) && is_prim_name(p) {
                        SpecTerm::PrimCall(it->Var_0, seq![da])
                    } else {
                        SpecTerm::App(Box::new(it), Box::new(da))
                    },
                    None => SpecTerm::TraitMethod(tn, mn, Box::new(da)),
                }
            },
            SpecTerm::Constructor(n, args) => SpecTerm::Constructor(n, desugar_list(args, 0, rv, fuel)),
            SpecTerm::PrimCall(n, args) => SpecTerm::PrimCall(n, desugar_list(args, 0, rv, fuel)),
        }
    }
}

/// The types of the binary primitives, by name; see [`prim_name_type`].
fn prim_name_to_type(prim_name: &str) -> (r: Option<Type>)
    ensures
        r matches Some(t) ==> prim_name_type(prim_name@) == Some(t@),
        r is None ==> prim_name_type(prim_name@) is None,
{
    let is = |n: &str| -> (b: bool)
        ensures
            b == (prim_name@ == n@),
        { crate::text::str_eq(prim_name, n) };
    proof {
        reveal_strlit("prim_iadd");
    }
    if is("prim_iadd") || is("prim_isub") || is("prim_imul") || is("prim_irem") {
        Some(arrow_of(Type::int_type(), arrow_of(Type::int_type(), Type::int_type())))
    } else if is("prim_idiv") {
        let division_by_zero = named("DivisionByZero", Vec::new());
        let mut params: Vec<Type> = Vec::new();
        params.push(Type::int_type());
        params.push(division_by_zero);
        let result = named("Result", params);
        proof {
            assert(tys(params@) =~= seq![SpecType::Native(NativeKind::Int), SpecType::Inductive("DivisionByZero"@, seq![])]);
        }
        Some(arrow_of(Type::int_type(), arrow_of(Type::int_type(), result)))
    } else if is("prim_fadd") || is("prim_fsub") || is("prim_fmul") || is("prim_fdiv") || is("prim_frem") {
        Some(arrow_of(Type::float(), arrow_of(Type::float(), Type::float())))
    } else if is("prim_ieq") || is("prim_igt") || is("prim_ilt") || is("prim_ige") || is("prim_ile") {
        Some(arrow_of(Type::int_type(), arrow_of(Type::int_type(), named("Bool", Vec::new()))))
    } else if is("prim_feq") || is("prim_fgt") || is("prim_flt") || is("prim_fge") || is("prim_fle") {
        Some(arrow_of(Type::float(), arrow_of(Type::float(), named("Bool", Vec::new()))))
    } else {
        None
    }
}

/// `a → b`, the argument taken once.
fn arrow_of(a: Type, b: Type) -> (r: Type)
    ensures
        r@ == arrow_once(a@, b@),
{
    Type::arrow(a, Multiplicity::One, b)
}

/// The inductive type `name` over `params`.
fn named(name: &str, params: Vec<Type>) -> (r: Type)
    ensures
        r@ == SpecType::Inductive(name@, tys(params@)),
        params@.len() == 0 ==> r@ == SpecType::Inductive(name@, seq![]),
{
    let ghost v = tys(params@);
    let r = Type::inductive(name, params);
    assert(r@->Inductive_1 =~= v);
    assert(params@.len() == 0 ==> v =~= seq![]);
    r
}

/// The type that can be read off a term without a context; see
/// [`term_type`].
fn get_type_of_term(term: &Term) -> (r: Option<Type>)
    ensures
        r matches Some(t) ==> term_type(term@) == Some(t@),
        r is None ==> term_type(term@) is None,
{
    match term {
        Term::NativeLiteral(lit) => Some(lit.ty()),
        Term::Var(_) => None,
        _ => term.get_type(),
    }
}

/// The type of a term as the desugaring pass reads it; see
/// [`type_with_prims`].
fn get_type_of_term_with_registry(term: &Term, registry: &Registry) -> (r: Option<Type>)
    ensures
        r matches Some(t) ==> type_with_prims(term@) == Some(t@),
        r is None ==> type_with_prims(term@) is None,
{
    proof {
        lemma_term_lists(*term);
    }
    match term {
        Term::NativeLiteral(lit) => Some(lit.ty()),
        Term::Var(_) => None,
        Term::PrimCall { prim_name, args } => {
            let prim_type = match prim_name_to_type(prim_name.as_str()) {
                Some(t) => t,
                None => {
                    return None;
                },
            };
            let ghost pt = prim_type@;
            let mut remaining = prim_type;
            let mut i: usize = 0;
            while i < args.len()
                invariant
                    i <= args.len(),
                    after_args(pt, args.len() as nat) == after_args(remaining@, (args.len() - i) as nat),
                    term@ == SpecTerm::PrimCall(prim_name@, terms_view(args@)),
                    prim_name_type(prim_name@) == Some(pt),
                decreases args.len() - i,
            {
                match remaining {
                    Type::Arrow(_, _, ret) => {
                        remaining = *ret;
                    },
                    _ => {
                        proof {
                            crate::ast::types::lemma_view_variant(remaining);
                            assert(!(remaining@ is Arrow));
                            assert(after_args(remaining@, (args.len() - i) as nat) is None);
                            assert(term@ == SpecTerm::PrimCall(prim_name@, terms_view(args@)));
                        }
                        return None;
                    },
                }
                i += 1;
            }
            Some(remaining)
        },
        _ => term.get_type(),
    }
}

/// What a call of method `method_name` on `args` resolves to; see
/// [`resolve_call`].
fn resolve_trait_method_call(method_name: &str, args: &[Term], registry: &Registry) -> (r: Option<TraitMethodImpl>)
    requires
        registry.wf(),
    ensures
        r matches Some(ch) ==> resolve_call(method_name@, terms_view(args@), registry.spec_view()) == Some(ch@),
        r is None ==> resolve_call(method_name@, terms_view(args@), registry.spec_view()) is None,
{
    let ghost av = terms_view(args@);
    let mut arg_types: Vec<Type> = Vec::new();
    let mut i: usize = 0;
    while i < args.len()
        invariant
            i <= args.len(),
            av == terms_view(args@),
            tys(arg_types@) == known_arg_types(av, i as int),
        decreases args.len() - i,
    {
        match get_type_of_term_with_registry(&args[i], registry) {
            Some(t) => {
                let ghost before = tys(arg_types@);
                arg_types.push(t);
                assert(tys(arg_types@) =~= before.push(t@));
            },
            None => {},
        }
        i += 1;
    }
    match registry.find_method_by_name(method_name, arg_types.as_slice()) {
        Some((_trait_name, _for_type, method_term)) => {
            match &method_term {
                Term::Var(var_name) => {
                    if crate::text::starts_with(var_name.as_str(), "prim_") {
                        return Some(TraitMethodImpl::Primitive(var_name.clone()));
                    }
                },
                _ => {},
            }
            Some(TraitMethodImpl::Term(method_term))
        },
        None => None,
    }
}

/// The body of method `method_name` in the implementation of trait
/// `trait_name` for the type of `arg`, with that type; see
/// [`trait_impl_method`].
fn resolve_trait_method_impl(trait_name: &str, method_name: &str, arg: &Term, registry: &Registry) -> (r: Option<
    (Term, Type),
>)
    requires
        registry.wf(),
    ensures
        r matches Some((m, ty)) ==> trait_impl_method(trait_name@, method_name@, arg@, registry.spec_view()) == Some(m@)
            && term_type(arg@) == Some(ty@),
        r is None ==> trait_impl_method(trait_name@, method_name@, arg@, registry.spec_view()) is None,
{
    let arg_type = match get_type_of_term(arg) {
        Some(t) => t,
        None => {
            return None;
        },
    };
    let tn = TraitName::new(trait_name);
    let imp = match registry.get(&tn, &arg_type) {
        Some(imp) => imp,
        None => {
            return None;
        },
    };
    proof {
        let iv = registry.spec_view().impls;
        registry.lemma_keys_distinct();
        let j = choose|j: int| 0 <= j < iv.len() && iv[j] == imp.spec_view();
        assert(has_key(iv[j], trait_name@, arg_type@));
        assert(key_taken(iv, trait_name@, arg_type@));
        let k = choose|k: int| 0 <= k < iv.len() && has_key(#[trigger] iv[k], trait_name@, arg_type@);
        if k < j {
            assert(!has_key(iv[k], iv[j].trait_name, iv[j].for_type));
        } else if j < k {
            assert(!has_key(iv[j], iv[k].trait_name, iv[k].for_type));
        }
        assert(impl_for(iv, trait_name@, arg_type@) == Some(imp.spec_view()));
    }
    let method_term = match imp.get_method(&MethodName::new(method_name)) {
        Some(m) => m,
        None => {
            return None;
        },
    };
    Some((method_term.clone(), arg_type))
}

/// The variable `_arg{i}`.
fn arg_var(i: usize) -> (r: Term)
    ensures
        r@ == SpecTerm::Var(arg_name(i as nat)),
{
    let name = crate::text::concat("_arg", crate::runtime::primitives::usize_to_decimal(i).as_str());
    Term::var(name.as_str())
}

/// The term a resolved call stands for, before it is desugared again; see
/// [`resolution_term`].
fn apply_resolution(impl_: TraitMethodImpl, args: Vec<Term>) -> (r: Term)
    ensures
        r@ == resolution_term(impl_@, terms_view(args@)),
{
    let ghost av = terms_view(args@);
    match impl_ {
        TraitMethodImpl::Primitive(prim_name) => {
            if let Some(op) = crate::runtime::primitives::prim_name_to_op(prim_name.as_str()) {
                let arity = op.arity();
                if args.len() < arity {
                    let k = arity - args.len();
                    let mut prim_args = args;
                    let mut j: usize = 0;
                    while j < k
                        invariant
                            j <= k,
                            terms_view(prim_args@) == av + arg_vars(k as nat).take(j as int),
                        decreases k - j,
                    {
                        let ghost before = terms_view(prim_args@);
                        prim_args.push(arg_var(j));
                        assert(terms_view(prim_args@) =~= before.push(SpecTerm::Var(arg_name(j as nat))));
                        assert(arg_vars(k as nat).take(j + 1) =~= arg_vars(k as nat).take(j as int).push(
                            SpecTerm::Var(arg_name(j as nat)),
                        ));
                        j += 1;
                    }
                    assert(arg_vars(k as nat).take(k as int) =~= arg_vars(k as nat));
                    let mut body = Term::PrimCall { prim_name, args: prim_args };
                    proof {
                        lemma_term_lists(body);
                    }
                    let mut n: usize = k;
                    while n > 0
                        invariant
                            n <= k,
                            wrap_args(body@, n as nat) == resolution_term(impl_@, av),
                        decreases n,
                    {
                        body = Term::Abs {
                            var: crate::text::concat("_arg", crate::runtime::primitives::usize_to_decimal(n - 1).as_str()),
                            multiplicity: Multiplicity::One,
                            annot: Type::int_type(),
                            body: Box::new(body),
                        };
                        n -= 1;
                    }
                    return body;
                }
            }
            let r = Term::PrimCall { prim_name, args };
            proof {
                lemma_term_lists(r);
            }
            r
        },
        TraitMethodImpl::Term(term) => {
            let ghost mv = term@;
            let mut result = term;
            let mut rest = args;
            proof {
                assert(rest@ =~= args@.take(args@.len() as int));
            }
            while rest.len() > 0
                invariant
                    rest.len() <= args.len(),
                    av == terms_view(args@),
                    rest@ == args@.take(rest.len() as int),
                    result@ == apply_reversed(mv, av, rest.len() as int),
                decreases rest.len(),
            {
                let ghost n = rest.len();
                let a = rest.pop().unwrap();
                assert(a == args@[n - 1]);
                assert(rest@ =~= args@.take(n - 1));
                result = Term::App { fun: Box::new(result), arg: Box::new(a) };
            }
            assert(resolution_term(impl_@, av) == apply_reversed(mv, av, 0));
            result
        },
    }
}

/// The head of a chain of applications, the desugared arguments of the
/// chain, and the desugared argument of a trait method at its head; see
/// [`spine`].
fn desugar_spine(term: &Term, registry: &Registry, fuel: usize) -> (r: (Term, Vec<Term>, Option<Term>))
    requires
        registry.wf(),
    ensures
        spine(term@, registry.spec_view(), fuel as nat) == (r.0@, terms_view(r.1@), match r.2 {
            Some(t) => Some(t@),
            None => None::<SpecTerm>,
        }),
    decreases fuel, term, 0nat,
{
    match term {
        Term::App { fun, arg } => {
            let (base, mut dargs, targ) = desugar_spine(fun, registry, fuel);
            let ghost before = terms_view(dargs@);
            let d = desugar_recursive(arg, registry, fuel);
            dargs.push(d);
            assert(terms_view(dargs@) =~= before.push(d@));
            (base, dargs, targ)
        },
        Term::TraitMethod { arg, .. } => {
            let d = desugar_recursive(arg, registry, fuel);
            let v: Vec<Term> = Vec::new();
            assert(terms_view(v@) =~= seq![]);
            (term.clone(), v, Some(d))
        },
        _ => {
            let v: Vec<Term> = Vec::new();
            assert(terms_view(v@) =~= seq![]);
            (term.clone(), v, None)
        },
    }
}

/// The terms of a list, desugared; see [`desugar_list`].
fn desugar_terms(ts: &Vec<Term>, registry: &Registry, fuel: usize) -> (r: Vec<Term>)
    requires
        registry.wf(),
    ensures
        terms_view(r@) == desugar_list(terms_view(ts@), 0, registry.spec_view(), fuel as nat),
    decreases fuel, ts, 1nat,
{
    let ghost tv = terms_view(ts@);
    let mut r: Vec<Term> = Vec::new();
    let mut i: usize = 0;
    while i < ts.len()
        invariant
            i <= ts.len(),
            registry.wf(),
            tv == terms_view(ts@),
            terms_view(r@) + desugar_list(tv, i as int, registry.spec_view(), fuel as nat) == desugar_list(
                tv,
                0,
                registry.spec_view(),
                fuel as nat,
            ),
        decreases ts.len() - i,
    {
        proof {
            broadcast use vstd::std_specs::vec::group_vec_axioms;
            assert(decreases_to!(*ts => ts@[i as int]));
        }
        let ghost before = terms_view(r@);
        let d = desugar_recursive(&ts[i], registry, fuel);
        r.push(d);
        proof {
            let rest = desugar_list(tv, i + 1, registry.spec_view(), fuel as nat);
            assert(terms_view(r@) =~= before.push(d@));
            assert(desugar_list(tv, i as int, registry.spec_view(), fuel as nat) == seq![d@] + rest);
            assert(before + (seq![d@] + rest) =~= before.push(d@) + rest);
        }
        i += 1;
    }
    assert(terms_view(r@) + desugar_list(tv, i as int, registry.spec_view(), fuel as nat) =~= terms_view(r@));
    r
}

/// The arms of a list, their bodies desugared; see [`desugar_arms`].
fn desugar_arm_list(arms: &Vec<Arm>, registry: &Registry, fuel: usize) -> (r: Vec<Arm>)
    requires
        registry.wf(),
    ensures
        arms_view(r@) == desugar_arms(arms_view(arms@), 0, registry.spec_view(), fuel as nat),
    decreases fuel, arms, 1nat,
{
    let ghost av = arms_view(arms@);
    let mut r: Vec<Arm> = Vec::new();
    let mut i: usize = 0;
    while i < arms.len()
        invariant
            i <= arms.len(),
            registry.wf(),
            av == arms_view(arms@),
            arms_view(r@) + desugar_arms(av, i as int, registry.spec_view(), fuel as nat) == desugar_arms(
                av,
                0,
                registry.spec_view(),
                fuel as nat,
            ),
        decreases arms.len() - i,
    {
        let arm = &arms[i];
        proof {
            broadcast use vstd::std_specs::vec::group_vec_axioms;
            assert(decreases_to!(*arms => arms@[i as int]));
            assert(decreases_to!(arms@[i as int] => arms@[i as int].body));
            assert(av[i as int] == (arm.pattern@, arm.body@));
        }
        let ghost before = arms_view(r@);
        let body = desugar_recursive(&arm.body, registry, fuel);
        let new_arm = Arm { pattern: arm.pattern.clone(), body: Box::new(body) };
        r.push(new_arm);
        proof {
            let rest = desugar_arms(av, i + 1, registry.spec_view(), fuel as nat);
            let e = (arm.pattern@, body@);
            assert(arms_view(r@) =~= before.push(e));
            assert(desugar_arms(av, i as int, registry.spec_view(), fuel as nat) == seq![e] + rest);
            assert(before + (seq![e] + rest) =~= before.push(e) + rest);
        }
        i += 1;
    }
    assert(arms_view(r@) + desugar_arms(av, i as int, registry.spec_view(), fuel as nat) =~= arms_view(r@));
    r
}

/// A chain headed by a trait method carries the desugared argument of it.
proof fn lemma_spine_trait_arg(t: SpecTerm, rv: RegistryView, fuel: nat)
    ensures
        spine(t, rv, fuel).0 is TraitMethod ==> spine(t, rv, fuel).2 is Some,
    decreases t,
{
    match t {
        SpecTerm::App(f, _) => lemma_spine_trait_arg(*f, rv, fuel),
        _ => {},
    }
}

/// A chain of applications, desugared; see the application case of
/// [`desugar`].
#[verifier::rlimit(30)]
fn desugar_app(term: &Term, registry: &Registry, fuel: usize) -> (r: Term)
    requires
        registry.wf(),
        fuel > 0,
        term is App,
    ensures
        r@ == desugar(term@, registry.spec_view(), fuel as nat),
    decreases fuel, term, 1nat,
{
    let (fun, arg) = match term {
        Term::App { fun, arg } => (fun, arg),
        _ => {
            return term.clone();
        },
    };
    let (base, desugared_args, trait_arg) = desugar_spine(term, registry, fuel);
    proof {
        lemma_spine_trait_arg(term@, registry.spec_view(), fuel as nat);
    }
    if let Term::Var(name) = &base {
        if let Some(impl_) = resolve_trait_method_call(name.as_str(), desugared_args.as_slice(), registry) {
            let ghost ch = impl_@;
            let is_term = match &impl_ {
                TraitMethodImpl::Term(_) => true,
                TraitMethodImpl::Primitive(_) => false,
            };
            let result = apply_resolution(impl_, desugared_args);
            let once = desugar_recursive(&result, registry, fuel - 1);
            if is_term {
                return desugar_recursive(&once, registry, fuel - 1);
            }
            return once;
        }
    }
    if let Term::TraitMethod { trait_name, method, arg: raw_arg } = &base {
        if let Some((Term::Var(var_name), _)) = resolve_trait_method_impl(
            trait_name.0.as_str(),
            method.0.as_str(),
            raw_arg,
            registry,
        ) {
            if crate::text::starts_with(var_name.as_str(), "prim_") {
                assert(base@ == SpecTerm::TraitMethod(trait_name.0@, method.0@, Box::new(raw_arg@)));
                let mut all_args: Vec<Term> = Vec::new();
                let ghost targ = trait_arg;
                match trait_arg {
                    Some(d) => all_args.push(d),
                    None => {},
                }
                let ghost first = terms_view(all_args@);
                assert(targ matches Some(d) && first =~= seq![d@]);
                let mut k: usize = 0;
                while k < desugared_args.len()
                    invariant
                        k <= desugared_args.len(),
                        terms_view(all_args@) == first + terms_view(desugared_args@).take(k as int),
                    decreases desugared_args.len() - k,
                {
                    assert(terms_view(desugared_args@)[k as int] == desugared_args@[k as int]@);
                    let ghost b = terms_view(all_args@);
                    all_args.push(desugared_args[k].clone());
                    assert(terms_view(all_args@) =~= b.push(desugared_args@[k as int]@));
                    assert(terms_view(desugared_args@).take(k + 1) =~= terms_view(desugared_args@).take(
                        k as int,
                    ).push(desugared_args@[k as int]@));
                    assert(terms_view(all_args@) =~= first + terms_view(desugared_args@).take(k + 1));
                    k += 1;
                }
                assert(terms_view(desugared_args@).take(k as int) =~= terms_view(desugared_args@));
                let r = Term::PrimCall { prim_name: var_name, args: all_args };
                proof {
                    lemma_term_lists(r);
                }
                return r;
            }
        }
    }
    Term::App {
        fun: Box::new(desugar_recursive(fun, registry, fuel)),
        arg: Box::new(desugar_recursive(arg, registry, fuel)),
    }
}

/// A term with its trait method calls resolved, through `fuel` nested
/// resolutions; see [`desugar`].
fn desugar_recursive(term: &Term, registry: &Registry, fuel: usize) -> (r: Term)
    requires
        registry.wf(),
    ensures
        r@ == desugar(term@, registry.spec_view(), fuel as nat),
    decreases fuel, term, 2nat,
{
    if fuel == 0 {
        return term.clone();
    }
    proof {
        lemma_term_lists(*term);
    }
    match term {
        Term::Var(_) | Term::NativeLiteral(_) => term.clone(),
        Term::Abs { var, multiplicity, annot, body } => Term::Abs {
            var: var.clone(),
            multiplicity: *multiplicity,
            annot: annot.clone(),
            body: Box::new(desugar_recursive(body, registry, fuel)),
        },
        Term::App { .. } => desugar_app(term, registry, fuel),
        Term::Let { var, multiplicity, annot, value, body } => Term::Let {
            var: var.clone(),
            multiplicity: *multiplicity,
            annot: annot.clone(),
            value: Box::new(desugar_recursive(value, registry, fuel)),
            body: Box::new(desugar_recursive(body, registry, fuel)),
        },
        Term::Match { scrutinee, arms } => {
            let r = Term::Match {
                scrutinee: Box::new(desugar_recursive(scrutinee, registry, fuel)),
                arms: desugar_arm_list(arms, registry, fuel),
            };
            proof {
                lemma_term_lists(r);
            }
            r
        },
        Term::View { scrutinee, arms } => {
            let r = Term::View {
                scrutinee: Box::new(desugar_recursive(scrutinee, registry, fuel)),
                arms: desugar_arm_list(arms, registry, fuel),
            };
            proof {
                lemma_term_lists(r);
            }
            r
        },
        Term::TraitMethod { trait_name, method, arg } => {
            let desugared_arg = desugar_recursive(arg, registry, fuel);
            if let Some((impl_term, _)) = resolve_trait_method_impl(
                trait_name.0.as_str(),
                method.0.as_str(),
                &desugared_arg,
                registry,
            ) {
                if let Term::Var(var_name) = &impl_term {
                    if crate::text::starts_with(var_name.as_str(), "prim_") {
                        let mut args: Vec<Term> = Vec::new();
                        args.push(desugared_arg);
                        let r = Term::PrimCall { prim_name: var_name.clone(), args };
                        proof {
                            lemma_term_lists(r);
                            assert(terms_view(args@) =~= seq![desugared_arg@]);
                        }
                        return r;
                    }
                }
                return Term::App { fun: Box::new(impl_term), arg: Box::new(desugared_arg) };
            }
            Term::TraitMethod {
                trait_name: TraitName(trait_name.0.clone()),
                method: MethodName(method.0.clone()),
                arg: Box::new(desugared_arg),
            }
        },
        Term::Constructor(name, args) => {
            let r = Term::Constructor(name.clone(), desugar_terms(args, registry, fuel));
            proof {
                lemma_term_lists(r);
            }
            r
        },
        Term::PrimCall { prim_name, args } => {
            let r = Term::PrimCall { prim_name: prim_name.clone(), args: desugar_terms(args, registry, fuel) };
            proof {
                lemma_term_lists(r);
            }
            r
        },
    }
}

/// Resolves the trait method calls of a term where the registry allows,
/// through [`DESUGAR_DEPTH`] nested resolutions; see [`desugar`].
pub fn desugar_term(term: &Term, registry: &Registry) -> (r: Term)
    requires
        registry.wf(),
    ensures
        r@ == desugar(term@, registry.spec_view(), DESUGAR_DEPTH as nat),
{
    desugar_recursive(term, registry, DESUGAR_DEPTH)
}

/// The terms of a list from `i` on, desugared one by one, in order.
proof fn lemma_desugar_list(ts: Seq<SpecTerm>, i: int, rv: RegistryView, fuel: nat)
    requires
        0 <= i <= ts.len(),
    ensures
        desugar_list(ts, i, rv, fuel).len() == ts.len() - i,
        forall|k: int| 0 <= k < ts.len() - i ==> #[trigger] desugar_list(ts, i, rv, fuel)[k] == desugar(ts[i + k], rv, fuel),
    decreases ts.len() - i,
{
    if i < ts.len() {
        lemma_desugar_list(ts, i + 1, rv, fuel);
        let l = desugar_list(ts, i, rv, fuel);
        let rest = desugar_list(ts, i + 1, rv, fuel);
        assert(l == seq![desugar(ts[i], rv, fuel)] + rest);
        assert forall|k: int| 0 <= k < ts.len() - i implies #[trigger] l[k] == desugar(ts[i + k], rv, fuel) by {
            if k > 0 {
                assert(l[k] == rest[k - 1]);
            }
        }
    }
}

/// The arms of a list from `i` on, each with its pattern kept and its body
/// desugared, in order.
proof fn lemma_desugar_arms(arms: Seq<(SpecPattern, SpecTerm)>, i: int, rv: RegistryView, fuel: nat)
    requires
        0 <= i <= arms.len(),
    ensures
        desugar_arms(arms, i, rv, fuel).len() == arms.len() - i,
        forall|k: int|
            0 <= k < arms.len() - i ==> #[trigger] desugar_arms(arms, i, rv, fuel)[k] == (arms[i + k].0, desugar(
                arms[i + k].1,
                rv,
                fuel,
            )),
    decreases arms.len() - i,
{
    if i < arms.len() {
        lemma_desugar_arms(arms, i + 1, rv, fuel);
        let l = desugar_arms(arms, i, rv, fuel);
        let rest = desugar_arms(arms, i + 1, rv, fuel);
        assert(l == seq![(arms[i].0, desugar(arms[i].1, rv, fuel))] + rest);
        assert forall|k: int| 0 <= k < arms.len() - i implies #[trigger] l[k] == (arms[i + k].0, desugar(
            arms[i + k].1,
            rv,
            fuel,
        )) by {
            if k > 0 {
                assert(l[k] == rest[k - 1]);
            }
        }
    }
}

/// Desugaring goes inside every binder and constructor and changes nothing
/// else about them: a `let` keeps its name, multiplicity and annotation and
/// gets its value and its body desugared, so a trait call in a `let` body
/// is replaced as it would be on its own; likewise for abstractions,
/// matches, views, constructors and primitive calls, whose parts are
/// desugared one by one in order; variables and literals stay as they are.
pub proof fn law_desugar_goes_inside(t: SpecTerm, rv: RegistryView, fuel: nat)
    requires
        fuel > 0,
    ensures
        t matches SpecTerm::Let(x, m, a, v, b) ==> desugar(t, rv, fuel) == SpecTerm::Let(
            x,
            m,
            a,
            Box::new(desugar(*v, rv, fuel)),
            Box::new(desugar(*b, rv, fuel)),
        ),
        t matches SpecTerm::Abs(x, m, a, b) ==> desugar(t, rv, fuel) == SpecTerm::Abs(x, m, a, Box::new(desugar(*b, rv, fuel))),
        t is Var || t is NativeLiteral ==> desugar(t, rv, fuel) == t,
        t matches SpecTerm::Match(sc, arms) ==> (desugar(t, rv, fuel) matches SpecTerm::Match(ds, das) && *ds == desugar(
            *sc,
            rv,
            fuel,
        ) && das.len() == arms.len() && forall|k: int|
            0 <= k < arms.len() ==> #[trigger] das[k] == (arms[k].0, desugar(arms[k].1, rv, fuel))),
        t matches SpecTerm::View(sc, arms) ==> (desugar(t, rv, fuel) matches SpecTerm::View(ds, das) && *ds == desugar(
            *sc,
            rv,
            fuel,
        ) && das.len() == arms.len() && forall|k: int|
            0 <= k < arms.len() ==> #[trigger] das[k] == (arms[k].0, desugar(arms[k].1, rv, fuel))),
        t matches SpecTerm::Constructor(n, args) ==> (desugar(t, rv, fuel) matches SpecTerm::Constructor(dn, dargs) && dn
            == n && dargs.len() == args.len() && forall|k: int|
            0 <= k < args.len() ==> #[trigger] dargs[k] == desugar(args[k], rv, fuel)),
        t matches SpecTerm::PrimCall(n, args) ==> (desugar(t, rv, fuel) matches SpecTerm::PrimCall(dn, dargs) && dn == n
            && dargs.len() == args.len() && forall|k: int|
            0 <= k < args.len() ==> #[trigger] dargs[k] == desugar(args[k], rv, fuel)),
{
    match t {
        SpecTerm::Match(_, arms) => {
            lemma_desugar_arms(arms, 0, rv, fuel);
        },
        SpecTerm::View(_, arms) => {
            lemma_desugar_arms(arms, 0, rv, fuel);
        },
        SpecTerm::Constructor(_, args) => {
            lemma_desugar_list(args, 0, rv, fuel);
        },
        SpecTerm::PrimCall(_, args) => {
            lemma_desugar_list(args, 0, rv, fuel);
        },
        _ => {},
    }
}

} // verus!
