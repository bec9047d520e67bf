//! The strict positivity check on inductive types: the type being defined
//! may not occur as a direct parameter of an inductive type inside its own
//! first parameter.
use vstd::prelude::*;

use crate::ast::types::{lemma_view_variant, types_view, SpecType, Type, TypeName};
use crate::text::str_eq;
use crate::typecheck::errors::{SpecTypeError, TypeError};

verus! {

/// The first of two outcomes that found something.
pub open spec fn first_some(a: Option<Seq<char>>, b: Option<Seq<char>>) -> Option<Seq<char>> {
    if a is Some {
        a
    } else {
        b
    }
}

/// Looks through `t`, where `p` must occur only positively, for an
/// inductive type with `p` itself as a parameter; the outcome is the name
/// of that inductive type. Negative positions are traversed but never
/// fail.
pub open spec fn pos_check(t: SpecType, p: Seq<char>) -> Option<Seq<char>>
    decreases t, 0int,
{
    match t {
        SpecType::Arrow(_, _, r) => pos_check(*r, p),
        SpecType::Forall(_, b) => pos_check(*b, p),
        SpecType::TraitConstraint(_, b) => pos_check(*b, p),
        SpecType::Borrow(b) => pos_check(*b, p),
        SpecType::Product(a, b) => first_some(pos_check(*a, p), pos_check(*b, p)),
        SpecType::Sum(a, b) => first_some(pos_check(*a, p), pos_check(*b, p)),
        SpecType::Inductive(n, ps) => pos_check_params(n, ps, p, 0),
        SpecType::App(_, args) => pos_check_list(args, p, 0),
        _ => None,
    }
}

/// [`pos_check`] over the parameters `ps[i..]` of the inductive type `n`.
pub open spec fn pos_check_params(n: Seq<char>, ps: Seq<SpecType>, p: Seq<char>, i: int) -> Option<Seq<char>>
    decreases ps, ps.len() - i,
{
    if 0 <= i < ps.len() {
        proof {
            assert(decreases_to!(ps => ps[i]));
        }
        if ps[i] matches SpecType::Inductive(m, _) && m == p {
            Some(n)
        } else {
            first_some(pos_check(ps[i], p), pos_check_params(n, ps, p, i + 1))
        }
    } else {
        None
    }
}

/// [`pos_check`] over the types `ts[i..]`.
pub open spec fn pos_check_list(ts: Seq<SpecType>, p: Seq<char>, i: int) -> Option<Seq<char>>
    decreases ts, ts.len() - i,
{
    if 0 <= i < ts.len() {
        proof {
            assert(decreases_to!(ts => ts[i]));
        }
        first_some(pos_check(ts[i], p), pos_check_list(ts, p, i + 1))
    } else {
        None
    }
}

/// The strict positivity check: each inductive type's first parameter is
/// checked for positive occurrences of the type's name. The outcome is the
/// name of the first inductive type found in violation.
pub open spec fn positivity(t: SpecType) -> Option<Seq<char>>
    decreases t, 0int,
{
    match t {
        SpecType::Inductive(n, ps) => if ps.len() > 0 {
            pos_check(ps[0], n)
        } else {
            None
        },
        SpecType::Arrow(_, a, r) => first_some(positivity(*a), positivity(*r)),
        SpecType::Forall(_, b) => positivity(*b),
        SpecType::TraitConstraint(_, b) => positivity(*b),
        SpecType::Borrow(b) => positivity(*b),
        SpecType::Product(a, b) => first_some(positivity(*a), positivity(*b)),
        SpecType::Sum(a, b) => first_some(positivity(*a), positivity(*b)),
        SpecType::App(_, args) => positivity_list(args, 0),
        _ => None,
    }
}

/// [`positivity`] over the types `ts[i..]`.
pub open spec fn positivity_list(ts: Seq<SpecType>, i: int) -> Option<Seq<char>>
    decreases ts, ts.len() - i,
{
    if 0 <= i < ts.len() {
        proof {
            assert(decreases_to!(ts => ts[i]));
        }
        first_some(positivity(ts[i]), positivity_list(ts, i + 1))
    } else {
        None
    }
}

/// The outcome of a check as an error naming the inductive type.
pub open spec fn violation(r: Option<Seq<char>>) -> Result<(), SpecTypeError> {
    match r {
        Some(n) => Err(SpecTypeError::StrictPositivityViolation(n)),
        None => Ok(()),
    }
}

/// The view of a unit result or a type error.
pub open spec fn unit_result_view(r: Result<(), TypeError>) -> Result<(), SpecTypeError> {
    match r {
        Ok(_) => Ok(()),
        Err(e) => Err(e@),
    }
}

/// Walks a negative position; an occurrence there is never an error.
fn check_negative_occurrence(ty: &Type, type_param: &str) -> (r: Result<(), TypeError>)
    ensures
        r is Ok,
    decreases ty, 1nat,
{
    match ty {
        Type::Arrow(_, arg, ret) => {
            let _ = check_negative_occurrence(arg, type_param);
            check_negative_occurrence(ret, type_param)
        },
        Type::Forall(_, t) => check_negative_occurrence(t, type_param),
        Type::TraitConstraint(_, t) => check_negative_occurrence(t, type_param),
        Type::Borrow(t) => check_negative_occurrence(t, type_param),
        Type::Product(l, r) => {
            let _ = check_negative_occurrence(l, type_param);
            check_negative_occurrence(r, type_param)
        },
        Type::Sum(l, r) => {
            let _ = check_negative_occurrence(l, type_param);
            check_negative_occurrence(r, type_param)
        },
        Type::Inductive(_, params) => check_negative_list(params, type_param),
        Type::App(_, args) => check_negative_list(args, type_param),
        Type::Native(_) | Type::Var(_) => Ok(()),
    }
}

fn check_negative_list(ts: &Vec<Type>, type_param: &str) -> (r: Result<(), TypeError>)
    ensures
        r is Ok,
    decreases ts, 0nat,
{
    let mut i: usize = 0;
    while i < ts.len()
        invariant
            i <= ts.len(),
        decreases ts.len() - i,
    {
        proof {
            broadcast use vstd::std_specs::vec::group_vec_axioms;
            assert(decreases_to!(*ts => ts@[i as int]));
        }
        let _ = check_negative_occurrence(&ts[i], type_param);
        i += 1;
    }
    Ok(())
}

/// Checks that `type_param` occurs only positively in `ty`.
fn check_positive_occurrence(ty: &Type, type_param: &str) -> (r: Result<(), TypeError>)
    ensures
        unit_result_view(r) == violation(pos_check(ty@, type_param@)),
    decreases ty, 1nat,
{
    proof {
        lemma_view_variant(*ty);
    }
    match ty {
        Type::Arrow(m, arg, ret) => {
            assert(ty@ == SpecType::Arrow(*m, Box::new(arg@), Box::new(ret@)));
            let _ = check_negative_occurrence(arg, type_param);
            check_positive_occurrence(ret, type_param)
        },
        Type::Forall(n, t) => {
            assert(ty@ == SpecType::Forall(n@, Box::new(t@)));
            check_positive_occurrence(t, type_param)
        },
        Type::TraitConstraint(n, t) => {
            assert(ty@ == SpecType::TraitConstraint(n.0@, Box::new(t@)));
            check_positive_occurrence(t, type_param)
        },
        Type::Borrow(t) => {
            assert(ty@ == SpecType::Borrow(Box::new(t@)));
            check_positive_occurrence(t, type_param)
        },
        Type::Product(l, r) => {
            assert(ty@ == SpecType::Product(Box::new(l@), Box::new(r@)));
            match check_positive_occurrence(l, type_param) {
                Err(e) => Err(e),
                Ok(()) => check_positive_occurrence(r, type_param),
            }
        },
        Type::Sum(l, r) => {
            assert(ty@ == SpecType::Sum(Box::new(l@), Box::new(r@)));
            match check_positive_occurrence(l, type_param) {
                Err(e) => Err(e),
                Ok(()) => check_positive_occurrence(r, type_param),
            }
        },
        Type::Inductive(name, params) => {
            let ghost pv = ty@->Inductive_1;
            assert(ty@ == SpecType::Inductive(name.0@, pv));
            assert(pv =~= types_view(params@));
            let mut i: usize = 0;
            while i < params.len()
                invariant
                    i <= params.len(),
                    pv == types_view(params@),
                    *ty == Type::Inductive(*name, *params),
                    pos_check_params(name.0@, pv, type_param@, i as int) == pos_check_params(name.0@, pv, type_param@, 0),
                    pos_check(ty@, type_param@) == pos_check_params(name.0@, pv, type_param@, 0),
                decreases params.len() - i,
            {
                proof {
                    broadcast use vstd::std_specs::vec::group_vec_axioms;
                    assert(decreases_to!(*ty => *params));
                    assert(decreases_to!(*params => params@[i as int]));
                    assert(pv[i as int] == params@[i as int]@);
                    lemma_view_variant(params@[i as int]);
                }
                let hit = match &params[i] {
                    Type::Inductive(n, _) => str_eq(n.0.as_str(), type_param),
                    _ => false,
                };
                proof {
                    if let Type::Inductive(n, a) = params@[i as int] {
                        assert(params@[i as int]@ == SpecType::Inductive(n.0@, params@[i as int]@->Inductive_1));
                    }
                }
                if hit {
                    return Err(TypeError::StrictPositivityViolation(TypeName(name.0.clone())));
                }
                match check_positive_occurrence(&params[i], type_param) {
                    Err(e) => {
                        return Err(e);
                    },
                    Ok(()) => {},
                }
                i += 1;
            }
            Ok(())
        },
        Type::App(h, args) => {
            let ghost av = ty@->App_1;
            assert(ty@ == SpecType::App(Box::new(h@), av));
            assert(av =~= types_view(args@));
            let mut i: usize = 0;
            while i < args.len()
                invariant
                    i <= args.len(),
                    av == types_view(args@),
                    *ty == Type::App(*h, *args),
                    pos_check_list(av, type_param@, i as int) == pos_check_list(av, type_param@, 0),
                    pos_check(ty@, type_param@) == pos_check_list(av, type_param@, 0),
                decreases args.len() - i,
            {
                proof {
                    broadcast use vstd::std_specs::vec::group_vec_axioms;
                    assert(decreases_to!(*ty => *args));
                    assert(decreases_to!(*args => args@[i as int]));
                    assert(av[i as int] == args@[i as int]@);
                }
                match check_positive_occurrence(&args[i], type_param) {
                    Err(e) => {
                        return Err(e);
                    },
                    Ok(()) => {},
                }
                i += 1;
            }
            Ok(())
        },
        Type::Native(_) | Type::Var(_) => Ok(()),
    }
}

/// Checks every inductive type inside `ty` for strict positivity; fails
/// with the name of the first inductive type whose own name occurs as a
/// direct parameter of an inductive type within its first parameter.
pub fn check_strict_positivity(ty: &Type) -> (r: Result<(), TypeError>)
    ensures
        unit_result_view(r) == violation(positivity(ty@)),
    decreases ty, 1nat,
{
    proof {
        lemma_view_variant(*ty);
    }
    match ty {
        Type::Inductive(name, params) => {
            let ghost pv = ty@->Inductive_1;
            assert(ty@ == SpecType::Inductive(name.0@, pv));
            assert(pv =~= types_view(params@));
            if params.len() > 0 {
                check_positive_occurrence(&params[0], name.0.as_str())
            } else {
                Ok(())
            }
        },
        Type::Arrow(m, arg, ret) => {
            assert(ty@ == SpecType::Arrow(*m, Box::new(arg@), Box::new(ret@)));
            match check_strict_positivity(arg) {
                Err(e) => Err(e),
                Ok(()) => check_strict_positivity(ret),
            }
        },
        Type::Forall(n, t) => {
            assert(ty@ == SpecType::Forall(n@, Box::new(t@)));
            check_strict_positivity(t)
        },
        Type::TraitConstraint(n, t) => {
            assert(ty@ == SpecType::TraitConstraint(n.0@, Box::new(t@)));
            check_strict_positivity(t)
        },
        Type::Borrow(t) => {
            assert(ty@ == SpecType::Borrow(Box::new(t@)));
            check_strict_positivity(t)
        },
        Type::Product(l, r) => {
            assert(ty@ == SpecType::Product(Box::new(l@), Box::new(r@)));
            match check_strict_positivity(l) {
                Err(e) => Err(e),
                Ok(()) => check_strict_positivity(r),
            }
        },
        Type::Sum(l, r) => {
            assert(ty@ == SpecType::Sum(Box::new(l@), Box::new(r@)));
            match check_strict_positivity(l) {
                Err(e) => Err(e),
                Ok(()) => check_strict_positivity(r),
            }
        },
        Type::Native(_) | Type::Var(_) => Ok(()),
        Type::App(h, args) => {
            let ghost av = ty@->App_1;
            assert(ty@ == SpecType::App(Box::new(h@), av));
            assert(av =~= types_view(args@));
            let mut i: usize = 0;
            while i < args.len()
                invariant
                    i <= args.len(),
                    av == types_view(args@),
                    *ty == Type::App(*h, *args),
                    positivity_list(av, i as int) == positivity_list(av, 0),
                    positivity(ty@) == positivity_list(av, 0),
                decreases args.len() - i,
            {
                proof {
                    broadcast use vstd::std_specs::vec::group_vec_axioms;
                    assert(decreases_to!(*ty => *args));
                    assert(decreases_to!(*args => args@[i as int]));
                    assert(av[i as int] == args@[i as int]@);
                }
                match check_strict_positivity(&args[i]) {
                    Err(e) => {
                        return Err(e);
                    },
                    Ok(()) => {},
                }
                i += 1;
            }
            Ok(())
        },
    }
}

} // verus!
