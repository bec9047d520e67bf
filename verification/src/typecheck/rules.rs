//! The typing rules of λ◦: a term is checked against a context and yields
//! its type and the context that remains after its uses.
use vstd::prelude::*;

use crate::ast::patterns::{Pattern, SpecPattern};
use crate::ast::terms::{arms_view, lemma_term_lists, lit_type, terms_view, Arm, SpecLiteral, SpecTerm, Term};
use crate::ast::types::{type_text, types_view, Multiplicity, NativeKind, SpecType, Type};
use crate::multiplicity::context::{ctx_scaled, ctx_sum, has_borrow, sums_cleanly};
use crate::multiplicity::semiring::Quantity;
use crate::runtime::primitives::{nat_decimal, usize_to_decimal};
use crate::text::{concat, contains_str, has_substring, lowercase, owned, to_lowercase};
use crate::typecheck::context::{ctor_view, TcView, TypeContext};
use crate::typecheck::errors::{SpecTypeError, TypeError};

verus! {

/// The lowercase names of the built-in traits; an unknown variable whose
/// lowercase name contains one of them is reported as a missing trait
/// method.
pub open spec fn trait_words() -> Seq<Seq<char>> {
    seq![
        "add"@,
        "sub"@,
        "mul"@,
        "div"@,
        "rem"@,
        "neg"@,
        "eq"@,
        "ord"@,
        "hash"@,
        "clone"@,
        "copy"@,
    ]
}

/// The lowercase form of `name` contains the name of a built-in trait.
pub open spec fn mentions_trait(name: Seq<char>) -> bool {
    exists|k: int| 0 <= k < trait_words().len() && has_substring(lowercase(name), #[trigger] trait_words()[k])
}

/// What is reported for a variable that is not in scope.
pub open spec fn unknown_var_message(name: Seq<char>) -> Seq<char> {
    if mentions_trait(name) {
        "'"@ + name + "' - trait method not found. Make sure the type has an implementation of the required trait."@
    } else {
        name
    }
}

/// The type of a use of a variable bound with multiplicity `m`.
pub open spec fn var_type(m: Multiplicity, ty: SpecType) -> SpecType {
    if m == Multiplicity::Borrow {
        SpecType::Borrow(Box::new(ty))
    } else {
        ty
    }
}

/// The quantity by which a let-bound value's context is scaled.
pub open spec fn let_quantity(m: Multiplicity) -> Option<Quantity> {
    match m {
        Multiplicity::Zero => Some(Quantity::Zero),
        Multiplicity::One => Some(Quantity::One),
        Multiplicity::Omega => Some(Quantity::Omega),
        Multiplicity::Borrow => None,
    }
}

/// A context with different bindings and the same constructors.
pub open spec fn with_bindings(c: TcView, b: Map<Seq<char>, (Multiplicity, SpecType)>) -> TcView {
    TcView { bindings: b, ctors: c.ctors }
}

/// The message for a constructor given the wrong number of arguments.
pub open spec fn arity_message(prefix: Seq<char>, name: Seq<char>, expected: nat, got: nat) -> Seq<char> {
    prefix + name + " expects "@ + nat_decimal(expected) + " arguments, got "@ + nat_decimal(got)
}

/// Extends a context with the variables of a pattern matched against a
/// value of type `ty`: each variable is bound once, with the type of its
/// position.
pub open spec fn ext_pattern(c: TcView, p: SpecPattern, ty: SpecType) -> Result<TcView, SpecTypeError>
    decreases p, 0int,
{
    match p {
        SpecPattern::Wildcard => Ok(c),
        SpecPattern::Var(n) => Ok(with_bindings(c, c.bindings.insert(n, (Multiplicity::One, ty)))),
        SpecPattern::Constructor(n, args) => if !c.ctors.dom().contains(n) {
            Err(SpecTypeError::InvalidApplication("Unknown constructor in pattern: "@ + n))
        } else if args.len() != c.ctors[n].1.len() {
            Err(
                SpecTypeError::InvalidApplication(
                    arity_message("Pattern constructor "@, n, c.ctors[n].1.len(), args.len()),
                ),
            )
        } else {
            ext_pattern_args(c, args, c.ctors[n].1, 0)
        },
    }
}

/// Extends a context with the patterns `args[i..]`, matched against the
/// field types `fields[i..]`.
pub open spec fn ext_pattern_args(c: TcView, args: Seq<SpecPattern>, fields: Seq<SpecType>, i: int) -> Result<
    TcView,
    SpecTypeError,
>
    decreases args, args.len() - i,
{
    if 0 <= i < args.len() {
        match ext_pattern(c, args[i], fields[i]) {
            Err(e) => Err(e),
            Ok(c2) => ext_pattern_args(c2, args, fields, i + 1),
        }
    } else {
        Ok(c)
    }
}

/// Extends a context with the variable of a view pattern, which is
/// borrowed; a constructor pattern cannot be borrowed from.
pub open spec fn ext_borrow(c: TcView, p: SpecPattern) -> Result<TcView, SpecTypeError> {
    match p {
        SpecPattern::Wildcard => Ok(c),
        SpecPattern::Var(n) => Ok(
            with_bindings(c, c.bindings.insert(n, (Multiplicity::Borrow, SpecType::Native(NativeKind::Unit)))),
        ),
        SpecPattern::Constructor(_, _) => Err(
            SpecTypeError::InvalidApplication("Cannot borrow from constructor pattern"@),
        ),
    }
}

/// Extends a context with the variables of an arm's pattern: bound once
/// for a match, borrowed for a view.
pub open spec fn ext_arm(c: TcView, p: SpecPattern, borrowed: bool) -> Result<TcView, SpecTypeError> {
    if borrowed {
        ext_borrow(c, p)
    } else {
        ext_pattern(c, p, SpecType::Native(NativeKind::Unit))
    }
}

/// The pattern's variables added to the context, for a value of type `ty`.
pub fn extend_with_pattern_with_type(ctx: &TypeContext, pattern: &Pattern, ty: &Type) -> (r: Result<TypeContext, TypeError>)
    ensures
        r matches Ok(c) ==> ext_pattern(ctx@, pattern@, ty@) == Ok::<TcView, SpecTypeError>(c@),
        r matches Err(e) ==> ext_pattern(ctx@, pattern@, ty@) == Err::<TcView, SpecTypeError>(e@),
    decreases pattern,
{
    match pattern {
        Pattern::Wildcard => Ok(ctx.copy()),
        Pattern::Var(name) => {
            let c = ctx.extend(name.clone(), Multiplicity::One, ty.clone());
            assert(c@ == with_bindings(ctx@, ctx@.bindings.insert(name@, (Multiplicity::One, ty@))));
            Ok(c)
        },
        Pattern::Constructor(name, args) => {
            proof {
                crate::ast::patterns::lemma_constructor_view(*name, *args);
            }
            let ghost av = pattern@->Constructor_1;
            let info = match ctx.get_constructor(name.as_str()) {
                Some(i) => i,
                None => {
                    return Err(TypeError::InvalidApplication(concat("Unknown constructor in pattern: ", name.as_str())));
                },
            };
            let ghost fv = types_view(info.field_types@);
            if args.len() != info.field_types.len() {
                let a = concat("Pattern constructor ", name.as_str());
                let b = concat(a.as_str(), " expects ");
                let c = concat(b.as_str(), usize_to_decimal(info.field_types.len()).as_str());
                let d = concat(c.as_str(), " arguments, got ");
                let e = concat(d.as_str(), usize_to_decimal(args.len()).as_str());
                return Err(TypeError::InvalidApplication(e));
            }
            let mut new_ctx = ctx.copy();
            let mut i: usize = 0;
            assert(ext_pattern(ctx@, pattern@, ty@) == ext_pattern_args(ctx@, av, fv, 0));
            while i < args.len()
                invariant
                    i <= args.len(),
                    args.len() == info.field_types.len(),
                    av == pattern@->Constructor_1,
                    av.len() == args.len(),
                    forall|k: int| 0 <= k < args.len() ==> av[k] == #[trigger] args@[k]@,
                    fv == types_view(info.field_types@),
                    *pattern == Pattern::Constructor(*name, *args),
                    ext_pattern_args(new_ctx@, av, fv, i as int) == ext_pattern_args(ctx@, av, fv, 0),
                    ext_pattern(ctx@, pattern@, ty@) == ext_pattern_args(ctx@, av, fv, 0),
                decreases args.len() - i,
            {
                proof {
                    broadcast use vstd::std_specs::vec::group_vec_axioms;
                    assert(decreases_to!(*pattern => *args));
                    assert(decreases_to!(*args => args@[i as int]));
                    assert(av[i as int] == args@[i as int]@);
                    assert(fv[i as int] == info.field_types@[i as int]@);
                }
                match extend_with_pattern_with_type(&new_ctx, &args[i], &info.field_types[i]) {
                    Ok(c) => {
                        new_ctx = c;
                    },
                    Err(e) => {
                        assert(ext_pattern_args(new_ctx@, av, fv, i as int) == Err::<TcView, SpecTypeError>(e@));
                        return Err(e);
                    },
                }
                i += 1;
            }
            Ok(new_ctx)
        },
    }
}

/// The pattern's variables added to the context, each bound once with the
/// unit type.
pub fn extend_with_pattern(ctx: &TypeContext, pattern: &Pattern) -> (r: Result<TypeContext, TypeError>)
    ensures
        r matches Ok(c) ==> ext_pattern(ctx@, pattern@, SpecType::Native(NativeKind::Unit)) == Ok::<
            TcView,
            SpecTypeError,
        >(c@),
        r matches Err(e) ==> ext_pattern(ctx@, pattern@, SpecType::Native(NativeKind::Unit)) == Err::<
            TcView,
            SpecTypeError,
        >(e@),
{
    extend_with_pattern_with_type(ctx, pattern, &Type::unit())
}

/// The variable of a view pattern added to the context as a borrow.
pub fn extend_with_pattern_as_borrow(ctx: &TypeContext, pattern: &Pattern) -> (r: Result<TypeContext, TypeError>)
    ensures
        r matches Ok(c) ==> ext_borrow(ctx@, pattern@) == Ok::<TcView, SpecTypeError>(c@),
        r matches Err(e) ==> ext_borrow(ctx@, pattern@) == Err::<TcView, SpecTypeError>(e@),
{
    match pattern {
        Pattern::Wildcard => Ok(ctx.copy()),
        Pattern::Var(name) => {
            let c = ctx.extend(name.clone(), Multiplicity::Borrow, Type::unit());
            assert(c@ == with_bindings(
                ctx@,
                ctx@.bindings.insert(name@, (Multiplicity::Borrow, SpecType::Native(NativeKind::Unit))),
            ));
            Ok(c)
        },
        Pattern::Constructor(_, _) => Err(TypeError::InvalidApplication(owned("Cannot borrow from constructor pattern"))),
    }
}


/// The result of applying a function of type `ft`, checked in `c1`, to an
/// argument of type `at` that left the context `c2`.
pub open spec fn app_result(ft: SpecType, at: SpecType, c1: TcView, c2: TcView) -> Result<(SpecType, TcView), SpecTypeError> {
    match ft {
        SpecType::Arrow(m, expected, ret) => if at != *expected {
            Err(SpecTypeError::TypeMismatch { expected: *expected, found: at })
        } else if m == Multiplicity::Borrow {
            Err(SpecTypeError::MultiplicityMismatch { expected: Multiplicity::One, found: m })
        } else if sums_cleanly(c1.bindings, c2.bindings) {
            Ok((*ret, with_bindings(c1, ctx_sum(c1.bindings, c2.bindings, false))))
        } else {
            Err(SpecTypeError::BorrowContextMix)
        },
        _ => Err(SpecTypeError::InvalidApplication("Expected function type, found "@ + type_text(ft))),
    }
}

/// The first type after the first one that differs from it, from position
/// `i` on.
pub open spec fn first_mismatch(tys: Seq<SpecType>, i: int) -> Option<SpecType>
    decreases tys.len() - i,
{
    if 1 <= i < tys.len() {
        if tys[i] != tys[0] {
            Some(tys[i])
        } else {
            first_mismatch(tys, i + 1)
        }
    } else {
        None
    }
}

/// The type of a match or view whose arms have the types `tys`: all arms
/// must agree, and there must be one.
pub open spec fn arms_result(tys: Seq<SpecType>, fin: TcView) -> Result<(SpecType, TcView), SpecTypeError> {
    if tys.len() == 0 {
        Err(SpecTypeError::NonExhaustivePattern)
    } else {
        match first_mismatch(tys, 1) {
            Some(t) => Err(SpecTypeError::TypeMismatch { expected: tys[0], found: t }),
            None => Ok((tys[0], fin)),
        }
    }
}

/// `pre` put before the types of a successful result.
pub open spec fn prepend_types(pre: Seq<SpecType>, r: Result<(Seq<SpecType>, TcView), SpecTypeError>) -> Result<
    (Seq<SpecType>, TcView),
    SpecTypeError,
> {
    match r {
        Ok((tys, fin)) => Ok((pre + tys, fin)),
        Err(e) => Err(e),
    }
}

/// The judgement of the type checker: the type of `t` in the context `c`
/// and the context its uses leave, or the first error met.
pub open spec fn tc(t: SpecTerm, c: TcView) -> Result<(SpecType, TcView), SpecTypeError>
    decreases t, 0int,
{
    match t {
        SpecTerm::Var(n) => if c.bindings.dom().contains(n) {
            Ok((var_type(c.bindings[n].0, c.bindings[n].1), c))
        } else {
            Err(SpecTypeError::UnknownVariable(unknown_var_message(n)))
        },
        SpecTerm::Abs(v, m, annot, body) => match tc(*body, with_bindings(c, c.bindings.insert(v, (m, annot)))) {
            Err(e) => Err(e),
            Ok((bt, _)) => Ok((SpecType::Arrow(m, Box::new(annot), Box::new(bt)), c)),
        },
        SpecTerm::App(f, a) => match tc(*f, c) {
            Err(e) => Err(e),
            Ok((ft, c1)) => match tc(*a, c1) {
                Err(e) => Err(e),
                Ok((at, c2)) => app_result(ft, at, c1, c2),
            },
        },
        SpecTerm::Let(v, m, annot, value, body) => match let_quantity(m) {
            None => Err(SpecTypeError::MultiplicityMismatch { expected: Multiplicity::One, found: m }),
            Some(q) => if has_borrow(c.bindings) {
                Err(SpecTypeError::BorrowContextMix)
            } else {
                match tc(*value, with_bindings(c, ctx_scaled(c.bindings, q))) {
                    Err(e) => Err(e),
                    Ok((vt, c1)) => if !(annot is Var) && vt != annot {
                        Err(SpecTypeError::TypeMismatch { expected: annot, found: vt })
                    } else {
                        match tc(*body, with_bindings(c1, c1.bindings.insert(v, (m, annot)))) {
                            Err(e) => Err(e),
                            Ok((bt, c2)) => if sums_cleanly(c.bindings, c2.bindings) {
                                Ok((bt, with_bindings(c, ctx_sum(c.bindings, c2.bindings, false))))
                            } else {
                                Err(SpecTypeError::BorrowContextMix)
                            },
                        }
                    },
                }
            },
        },
        SpecTerm::Match(s, arms) => match tc(*s, c) {
            Err(e) => Err(e),
            Ok((_, c1)) => match tc_arms(arms, 0, c1, c1, false) {
                Err(e) => Err(e),
                Ok((tys, fin)) => arms_result(tys, fin),
            },
        },
        SpecTerm::View(s, arms) => match tc(*s, c) {
            Err(e) => Err(e),
            Ok((_, c1)) => match tc_arms(arms, 0, c1, c1, true) {
                Err(e) => Err(e),
                Ok((tys, fin)) => arms_result(tys, fin),
            },
        },
        SpecTerm::TraitMethod(tn, _, a) => match tc(*a, c) {
            Err(e) => Err(e),
            Ok((at, _)) => Err(SpecTypeError::TraitNotFound(tn, at)),
        },
        SpecTerm::Constructor(n, args) => if !c.ctors.dom().contains(n) {
            Err(SpecTypeError::InvalidApplication("Unknown constructor: "@ + n))
        } else if args.len() != c.ctors[n].1.len() {
            Err(SpecTypeError::InvalidApplication(arity_message("Constructor "@, n, c.ctors[n].1.len(), args.len())))
        } else {
            match tc_ctor_args(args, c.ctors[n].1, n, 0, c) {
                Err(e) => Err(e),
                Ok(c2) => Ok((c.ctors[n].2, c2)),
            }
        },
        SpecTerm::NativeLiteral(l) => Ok((lit_type(l), c)),
        SpecTerm::PrimCall(p, args) => if !c.bindings.dom().contains(p) {
            Err(SpecTypeError::UnknownVariable(p))
        } else {
            tc_prim_args(args, p, 0, c.bindings[p].1, c)
        },
    }
}

/// Checks the arms `arms[i..]` of a match (or a view, when `borrowed`):
/// each body in the scrutinee's context `c1` extended with its pattern, the
/// contexts they leave added to `acc`.
pub open spec fn tc_arms(arms: Seq<(SpecPattern, SpecTerm)>, i: int, c1: TcView, acc: TcView, borrowed: bool) -> Result<
    (Seq<SpecType>, TcView),
    SpecTypeError,
>
    decreases arms, arms.len() - i,
{
    if 0 <= i < arms.len() {
        proof {
            assert(decreases_to!(arms => arms[i]));
            assert(decreases_to!(arms[i] => arms[i].1));
        }
        match ext_arm(c1, arms[i].0, borrowed) {
            Err(e) => Err(e),
            Ok(ac) => match tc(arms[i].1, ac) {
                Err(e) => Err(e),
                Ok((aty, after)) => if sums_cleanly(acc.bindings, after.bindings) {
                    prepend_types(
                        seq![aty],
                        tc_arms(arms, i + 1, c1, with_bindings(acc, ctx_sum(acc.bindings, after.bindings, false)), borrowed),
                    )
                } else {
                    Err(SpecTypeError::BorrowContextMix)
                },
            },
        }
    } else {
        Ok((seq![], acc))
    }
}

/// Checks the arguments `args[i..]` of the constructor `n` against its
/// field types, threading the context through.
pub open spec fn tc_ctor_args(args: Seq<SpecTerm>, fields: Seq<SpecType>, n: Seq<char>, i: int, c: TcView) -> Result<
    TcView,
    SpecTypeError,
>
    decreases args, args.len() - i,
{
    if 0 <= i < args.len() {
        proof {
            assert(decreases_to!(args => args[i]));
        }
        match tc(args[i], c) {
            Err(e) => Err(e),
            Ok((at, c2)) => if at != fields[i] {
                Err(
                    SpecTypeError::InvalidApplication(
                        "Type mismatch in constructor "@ + n + ": expected "@ + type_text(fields[i]) + ", got "@ + type_text(at),
                    ),
                )
            } else {
                tc_ctor_args(args, fields, n, i + 1, c2)
            },
        }
    } else {
        Ok(c)
    }
}

/// Checks the arguments `args[i..]` of the primitive `p`, whose type with
/// the earlier arguments applied is `remaining`.
pub open spec fn tc_prim_args(args: Seq<SpecTerm>, p: Seq<char>, i: int, remaining: SpecType, c: TcView) -> Result<
    (SpecType, TcView),
    SpecTypeError,
>
    decreases args, args.len() - i,
{
    if 0 <= i < args.len() {
        proof {
            assert(decreases_to!(args => args[i]));
        }
        match tc(args[i], c) {
            Err(e) => Err(e),
            Ok((at, c2)) => match remaining {
                SpecType::Arrow(_, expected, ret) => if at != *expected {
                    Err(SpecTypeError::TypeMismatch { expected: *expected, found: at })
                } else {
                    tc_prim_args(args, p, i + 1, *ret, c2)
                },
                _ => Err(SpecTypeError::InvalidApplication("Primitive "@ + p + " expects more arguments"@)),
            },
        }
    } else {
        Ok((remaining, c))
    }
}


/// The message for a variable that is not in scope.
fn unknown_variable_message(name: &str) -> (r: String)
    ensures
        r@ == unknown_var_message(name@),
{
    let lower = to_lowercase(name);
    let words = [
        "add", "sub", "mul", "div", "rem", "neg", "eq", "ord", "hash", "clone", "copy",
    ];
    let mut found = false;
    let mut k: usize = 0;
    proof {
        reveal_strlit("add");
        reveal_strlit("sub");
        reveal_strlit("mul");
        reveal_strlit("div");
        reveal_strlit("rem");
        reveal_strlit("neg");
        reveal_strlit("eq");
        reveal_strlit("ord");
        reveal_strlit("hash");
        reveal_strlit("clone");
        reveal_strlit("copy");
    }
    assert(words@.map_values(|w: &str| w@) =~= trait_words());
    while k < 11
        invariant
            k <= 11,
            words@.len() == 11,
            words@.map_values(|w: &str| w@) == trait_words(),
            lower@ == lowercase(name@),
            found == exists|j: int| 0 <= j < k && has_substring(lowercase(name@), #[trigger] trait_words()[j]),
        decreases 11 - k,
    {
        let w = words[k];
        assert(w@ == trait_words()[k as int]);
        if contains_str(lower.as_str(), w) {
            found = true;
        }
        k += 1;
    }
    if found {
        let a = concat("'", name);
        concat(
            a.as_str(),
            "' - trait method not found. Make sure the type has an implementation of the required trait.",
        )
    } else {
        owned(name)
    }
}

/// Whether all types agree with the first; if not, the first that does not.
fn check_arm_types(tys: &Vec<Type>) -> (r: Option<usize>)
    requires
        tys.len() > 0,
    ensures
        r matches Some(j) ==> 1 <= j < tys.len() && first_mismatch(types_view(tys@), 1) == Some(tys@[j as int]@),
        r is None ==> first_mismatch(types_view(tys@), 1) is None,
{
    let ghost tv = types_view(tys@);
    let mut j: usize = tys.len();
    let mut k: usize = tys.len();
    proof {
        assert(first_mismatch(tv, tys.len() as int) is None);
    }
    while k > 1
        invariant
            1 <= k <= tys.len(),
            tv == types_view(tys@),
            j == tys.len() || (1 <= j < tys.len()),
            j == tys.len() ==> first_mismatch(tv, k as int) is None,
            j < tys.len() ==> first_mismatch(tv, k as int) == Some(tv[j as int]),
        decreases k,
    {
        k -= 1;
        if !tys[k].equals(&tys[0]) {
            j = k;
        }
    }
    if j < tys.len() {
        Some(j)
    } else {
        None
    }
}

/// Checks the arms of a match (or of a view, when `borrowed`) in the
/// scrutinee's context `ctx1`.
fn check_arms(arms: &Vec<Arm>, ctx1: &TypeContext, borrowed: bool) -> (r: Result<(Vec<Type>, TypeContext), TypeError>)
    ensures
        r matches Ok(res) ==> tc_arms(arms_view(arms@), 0, ctx1@, ctx1@, borrowed) == Ok::<
            (Seq<SpecType>, TcView),
            SpecTypeError,
        >((types_view(res.0@), res.1@)),
        r matches Err(e) ==> tc_arms(arms_view(arms@), 0, ctx1@, ctx1@, borrowed) == Err::<
            (Seq<SpecType>, TcView),
            SpecTypeError,
        >(e@),
    decreases arms, 0nat,
{
    let ghost av = arms_view(arms@);
    let mut arm_types: Vec<Type> = Vec::new();
    let mut final_ctx = ctx1.copy();
    let mut i: usize = 0;
    proof {
        assert(types_view(arm_types@) =~= seq![]);
        assert(prepend_types(seq![], tc_arms(av, 0, ctx1@, ctx1@, borrowed)) == tc_arms(av, 0, ctx1@, ctx1@, borrowed)) by {
            match tc_arms(av, 0, ctx1@, ctx1@, borrowed) {
                Ok((tys, fin)) => {
                    assert(seq![] + tys =~= tys);
                },
                Err(_) => {},
            }
        }
    }
    while i < arms.len()
        invariant
            i <= arms.len(),
            av == arms_view(arms@),
            tc_arms(av, 0, ctx1@, ctx1@, borrowed) == prepend_types(
                types_view(arm_types@),
                tc_arms(av, i as int, ctx1@, final_ctx@, borrowed),
            ),
        decreases arms.len() - i,
    {
        let arm = &arms[i];
        proof {
            broadcast use vstd::std_specs::vec::group_vec_axioms;
            assert(decreases_to!(*arms => arms@[i as int]));
            assert(decreases_to!(arms@[i as int] => arms@[i as int].body));
            assert(av[i as int] == (arm.pattern@, arm.body@));
        }
        let arm_ctx = if borrowed {
            extend_with_pattern_as_borrow(ctx1, &arm.pattern)
        } else {
            extend_with_pattern(ctx1, &arm.pattern)
        };
        let arm_ctx = match arm_ctx {
            Ok(c) => c,
            Err(e) => {
                return Err(e);
            },
        };
        let (arm_ty, after, _) = match type_check(&arm.body, &arm_ctx) {
            Ok(res) => res,
            Err(e) => {
                return Err(e);
            },
        };
        let ghost pre = types_view(arm_types@);
        let ghost aty = arm_ty@;
        arm_types.push(arm_ty);
        let next = match final_ctx.add(&after) {
            Ok(c) => c,
            Err(_) => {
                return Err(TypeError::BorrowContextMix);
            },
        };
        proof {
            assert(types_view(arm_types@) =~= pre.push(aty));
            assert(next@ == with_bindings(final_ctx@, ctx_sum(final_ctx@.bindings, after@.bindings, false)));
            match tc_arms(av, i + 1, ctx1@, next@, borrowed) {
                Ok((tys, fin)) => {
                    assert(pre + (seq![aty] + tys) =~= pre.push(aty) + tys);
                },
                Err(_) => {},
            }
        }
        final_ctx = next;
        i += 1;
    }
    proof {
        assert(types_view(arm_types@) + seq![] =~= types_view(arm_types@));
    }
    Ok((arm_types, final_ctx))
}


/// Checks an application.
fn check_app(term: &Term, ctx: &TypeContext) -> (r: Result<(Type, TypeContext), TypeError>)
    requires
        term is App,
    ensures
        r matches Ok(res) ==> tc(term@, ctx@) == Ok::<(SpecType, TcView), SpecTypeError>((res.0@, res.1@)),
        r matches Err(e) ==> tc(term@, ctx@) == Err::<(SpecType, TcView), SpecTypeError>(e@),
    decreases term, 0nat,
{
    match term {
        Term::App { fun, arg } => {
            let (fun_ty, ctx1, _) = match type_check(fun, ctx) {
                Ok(res) => res,
                Err(e) => {
                    return Err(e);
                },
            };
            let (arg_ty, ctx2, _) = match type_check(arg, &ctx1) {
                Ok(res) => res,
                Err(e) => {
                    return Err(e);
                },
            };
            proof {
                crate::ast::types::lemma_view_variant(fun_ty);
            }
            match fun_ty {
                Type::Arrow(mult, expected, ret) => {
                    assert(fun_ty@ == SpecType::Arrow(mult, Box::new(expected@), Box::new(ret@)));
                    if !arg_ty.equals(&expected) {
                        return Err(TypeError::TypeMismatch { expected: *expected, found: arg_ty });
                    }
                    if mult == Multiplicity::Borrow {
                        return Err(TypeError::MultiplicityMismatch { expected: Multiplicity::One, found: mult });
                    }
                    match ctx1.add(&ctx2) {
                        Ok(c) => Ok((*ret, c)),
                        Err(_) => Err(TypeError::BorrowContextMix),
                    }
                },
                _ => Err(TypeError::InvalidApplication(concat("Expected function type, found ", fun_ty.to_text().as_str()))),
            }
        },
        _ => {
            assert(false);
            Err(TypeError::NonExhaustivePattern)
        },
    }
}

/// Checks a let binding.
fn check_let(term: &Term, ctx: &TypeContext) -> (r: Result<(Type, TypeContext), TypeError>)
    requires
        term is Let,
    ensures
        r matches Ok(res) ==> tc(term@, ctx@) == Ok::<(SpecType, TcView), SpecTypeError>((res.0@, res.1@)),
        r matches Err(e) ==> tc(term@, ctx@) == Err::<(SpecType, TcView), SpecTypeError>(e@),
    decreases term, 0nat,
{
    match term {
        Term::Let { var, multiplicity, annot, value, body } => {
            let q = match multiplicity {
                Multiplicity::Zero => Quantity::Zero,
                Multiplicity::One => Quantity::One,
                Multiplicity::Omega => Quantity::Omega,
                Multiplicity::Borrow => {
                    return Err(TypeError::MultiplicityMismatch { expected: Multiplicity::One, found: *multiplicity });
                },
            };
            let scaled = match ctx.scale(q) {
                Ok(c) => c,
                Err(_) => {
                    return Err(TypeError::BorrowContextMix);
                },
            };
            let (val_ty, ctx1, _) = match type_check(value, &scaled) {
                Ok(res) => res,
                Err(e) => {
                    return Err(e);
                },
            };
            proof {
                crate::ast::types::lemma_view_variant(*annot);
            }
            let needs_check = match annot {
                Type::Var(_) => false,
                _ => true,
            };
            if needs_check && !val_ty.equals(annot) {
                return Err(TypeError::TypeMismatch { expected: annot.clone(), found: val_ty });
            }
            let body_ctx = ctx1.extend(var.clone(), *multiplicity, annot.clone());
            let (body_ty, ctx2, _) = match type_check(body, &body_ctx) {
                Ok(res) => res,
                Err(e) => {
                    return Err(e);
                },
            };
            match ctx.add(&ctx2) {
                Ok(c) => Ok((body_ty, c)),
                Err(_) => Err(TypeError::BorrowContextMix),
            }
        },
        _ => {
            assert(false);
            Err(TypeError::NonExhaustivePattern)
        },
    }
}

/// Checks a match, or a view when `term` is one.
fn check_match(term: &Term, ctx: &TypeContext) -> (r: Result<(Type, TypeContext), TypeError>)
    requires
        term is Match || term is View,
    ensures
        r matches Ok(res) ==> tc(term@, ctx@) == Ok::<(SpecType, TcView), SpecTypeError>((res.0@, res.1@)),
        r matches Err(e) ==> tc(term@, ctx@) == Err::<(SpecType, TcView), SpecTypeError>(e@),
    decreases term, 0nat,
{
    proof {
        lemma_term_lists(*term);
    }
    let (scrutinee, arms, borrowed) = match term {
        Term::Match { scrutinee, arms } => (scrutinee, arms, false),
        Term::View { scrutinee, arms } => (scrutinee, arms, true),
        _ => {
            assert(false);
            return Err(TypeError::NonExhaustivePattern);
        },
    };
    let (_, ctx1, _) = match type_check(scrutinee, ctx) {
        Ok(res) => res,
        Err(e) => {
            return Err(e);
        },
    };
    let (arm_types, final_ctx) = match check_arms(arms, &ctx1, borrowed) {
        Ok(res) => res,
        Err(e) => {
            return Err(e);
        },
    };
    if arm_types.len() == 0 {
        return Err(TypeError::NonExhaustivePattern);
    }
    match check_arm_types(&arm_types) {
        Some(j) => Err(TypeError::TypeMismatch { expected: arm_types[0].clone(), found: arm_types[j].clone() }),
        None => Ok((arm_types[0].clone(), final_ctx)),
    }
}

/// Checks a constructor application.
fn check_constructor(term: &Term, ctx: &TypeContext) -> (r: Result<(Type, TypeContext), TypeError>)
    requires
        term is Constructor,
    ensures
        r matches Ok(res) ==> tc(term@, ctx@) == Ok::<(SpecType, TcView), SpecTypeError>((res.0@, res.1@)),
        r matches Err(e) ==> tc(term@, ctx@) == Err::<(SpecType, TcView), SpecTypeError>(e@),
    decreases term, 0nat,
{
    proof {
        lemma_term_lists(*term);
    }
    match term {
        Term::Constructor(name, args) => {
            let ghost av = terms_view(args@);
            let info = match ctx.get_constructor(name.as_str()) {
                Some(i) => i,
                None => {
                    return Err(TypeError::InvalidApplication(concat("Unknown constructor: ", name.as_str())));
                },
            };
            let ghost fv = types_view(info.field_types@);
            if args.len() != info.field_types.len() {
                let a = concat("Constructor ", name.as_str());
                let b = concat(a.as_str(), " expects ");
                let c = concat(b.as_str(), usize_to_decimal(info.field_types.len()).as_str());
                let d = concat(c.as_str(), " arguments, got ");
                let e = concat(d.as_str(), usize_to_decimal(args.len()).as_str());
                return Err(TypeError::InvalidApplication(e));
            }
            let mut cur = ctx.copy();
            let mut i: usize = 0;
            while i < args.len()
                invariant
                    i <= args.len(),
                    args.len() == info.field_types.len(),
                    av == terms_view(args@),
                    fv == types_view(info.field_types@),
                    *term == Term::Constructor(*name, *args),
                    tc_ctor_args(av, fv, name@, i as int, cur@) == tc_ctor_args(av, fv, name@, 0, ctx@),
                    tc(term@, ctx@) == match tc_ctor_args(av, fv, name@, 0, ctx@) {
                        Err(e) => Err(e),
                        Ok(c2) => Ok((ctx@.ctors[name@].2, c2)),
                    },
                decreases args.len() - i,
            {
                proof {
                    broadcast use vstd::std_specs::vec::group_vec_axioms;
                    assert(decreases_to!(*term => *args));
                    assert(decreases_to!(*args => args@[i as int]));
                    assert(av[i as int] == args@[i as int]@);
                    assert(fv[i as int] == info.field_types@[i as int]@);
                }
                let (arg_ty, next, _) = match type_check(&args[i], &cur) {
                    Ok(res) => res,
                    Err(e) => {
                        return Err(e);
                    },
                };
                if !arg_ty.equals(&info.field_types[i]) {
                    let a = concat("Type mismatch in constructor ", name.as_str());
                    let b = concat(a.as_str(), ": expected ");
                    let c = concat(b.as_str(), info.field_types[i].to_text().as_str());
                    let d = concat(c.as_str(), ", got ");
                    let e = concat(d.as_str(), arg_ty.to_text().as_str());
                    return Err(TypeError::InvalidApplication(e));
                }
                cur = next;
                i += 1;
            }
            Ok((info.result_type.clone(), cur))
        },
        _ => {
            assert(false);
            Err(TypeError::NonExhaustivePattern)
        },
    }
}

/// Checks a call of a primitive operation.
fn check_prim_call(term: &Term, ctx: &TypeContext) -> (r: Result<(Type, TypeContext), TypeError>)
    requires
        term is PrimCall,
    ensures
        r matches Ok(res) ==> tc(term@, ctx@) == Ok::<(SpecType, TcView), SpecTypeError>((res.0@, res.1@)),
        r matches Err(e) ==> tc(term@, ctx@) == Err::<(SpecType, TcView), SpecTypeError>(e@),
    decreases term, 0nat,
{
    proof {
        lemma_term_lists(*term);
    }
    match term {
        Term::PrimCall { prim_name, args } => {
            let ghost av = terms_view(args@);
            let prim_ty = match ctx.get(prim_name.as_str()) {
                Some(b) => b.1.clone(),
                None => {
                    return Err(TypeError::UnknownVariable(prim_name.clone()));
                },
            };
            let mut cur = ctx.copy();
            let mut remaining = prim_ty;
            let mut i: usize = 0;
            while i < args.len()
                invariant
                    i <= args.len(),
                    av == terms_view(args@),
                    *term == (Term::PrimCall { prim_name: *prim_name, args: *args }),
                    tc_prim_args(av, prim_name@, i as int, remaining@, cur@) == tc_prim_args(
                        av,
                        prim_name@,
                        0,
                        ctx@.bindings[prim_name@].1,
                        ctx@,
                    ),
                    tc(term@, ctx@) == tc_prim_args(av, prim_name@, 0, ctx@.bindings[prim_name@].1, ctx@),
                decreases args.len() - i,
            {
                proof {
                    broadcast use vstd::std_specs::vec::group_vec_axioms;
                    assert(decreases_to!(*term => *args));
                    assert(decreases_to!(*args => args@[i as int]));
                    assert(av[i as int] == args@[i as int]@);
                }
                let (arg_ty, next, _) = match type_check(&args[i], &cur) {
                    Ok(res) => res,
                    Err(e) => {
                        return Err(e);
                    },
                };
                cur = next;
                proof {
                    crate::ast::types::lemma_view_variant(remaining);
                }
                match remaining {
                    Type::Arrow(m, expected, ret) => {
                        assert(remaining@ == SpecType::Arrow(m, Box::new(expected@), Box::new(ret@)));
                        if !arg_ty.equals(&expected) {
                            return Err(TypeError::TypeMismatch { expected: *expected, found: arg_ty });
                        }
                        remaining = *ret;
                    },
                    _ => {
                        let a = concat("Primitive ", prim_name.as_str());
                        return Err(TypeError::InvalidApplication(concat(a.as_str(), " expects more arguments")));
                    },
                }
                i += 1;
            }
            Ok((remaining, cur))
        },
        _ => {
            assert(false);
            Err(TypeError::NonExhaustivePattern)
        },
    }
}

/// Checks `term` in `ctx`: its type, the context its uses leave, and the
/// term itself; or the first error met.
pub fn type_check(term: &Term, ctx: &TypeContext) -> (r: Result<(Type, TypeContext, Term), TypeError>)
    ensures
        r matches Ok(res) ==> tc(term@, ctx@) == Ok::<(SpecType, TcView), SpecTypeError>((res.0@, res.1@)) && res.2@
            == term@,
        r matches Err(e) ==> tc(term@, ctx@) == Err::<(SpecType, TcView), SpecTypeError>(e@),
    decreases term, 1nat,
{
    let r = match term {
        Term::Var(name) => match ctx.get(name.as_str()) {
            Some(b) => {
                let ty = if b.0 == Multiplicity::Borrow {
                    Type::borrow(b.1.clone())
                } else {
                    b.1.clone()
                };
                Ok((ty, ctx.copy()))
            },
            None => Err(TypeError::UnknownVariable(unknown_variable_message(name.as_str()))),
        },
        Term::Abs { var, multiplicity, annot, body } => {
            let body_ctx = ctx.extend(var.clone(), *multiplicity, annot.clone());
            match type_check(body, &body_ctx) {
                Ok((body_ty, _, _)) => Ok((Type::arrow(annot.clone(), *multiplicity, body_ty), ctx.copy())),
                Err(e) => Err(e),
            }
        },
        Term::App { .. } => check_app(term, ctx),
        Term::Let { .. } => check_let(term, ctx),
        Term::Match { .. } | Term::View { .. } => check_match(term, ctx),
        Term::TraitMethod { trait_name, arg, .. } => match type_check(arg, ctx) {
            Ok((arg_ty, _, _)) => Err(TypeError::TraitNotFound(crate::ast::types::TraitName(trait_name.0.clone()), arg_ty)),
            Err(e) => Err(e),
        },
        Term::Constructor(_, _) => check_constructor(term, ctx),
        Term::NativeLiteral(lit) => Ok((lit.ty(), ctx.copy())),
        Term::PrimCall { .. } => check_prim_call(term, ctx),
    };
    match r {
        Ok((ty, c)) => Ok((ty, c, term.clone())),
        Err(e) => Err(e),
    }
}


/// The context every program is checked in: the primitive operations and
/// no constructors.
pub open spec fn initial_context() -> TcView {
    TcView {
        bindings: crate::typecheck::context::prim_context(),
        ctors: Map::<Seq<char>, (Seq<char>, Seq<SpecType>, SpecType)>::empty(),
    }
}

/// Checks a whole program in the initial context and then runs the borrow
/// checker on it; the program's type, or the first error met.
pub fn type_check_with_borrow_check(term: &Term) -> (r: Result<Type, TypeError>)
    ensures
        r matches Ok(t) ==> tc(term@, initial_context()) matches Ok(res) && res.0 == t@,
        r matches Err(e) ==> tc(term@, initial_context()) == Err::<(SpecType, TcView), SpecTypeError>(e@),
{
    let ctx = TypeContext::new();
    assert(ctx@ == initial_context());
    let (ty, _, _) = match type_check(term, &ctx) {
        Ok(res) => res,
        Err(e) => {
            return Err(e);
        },
    };
    let checker = crate::borrow::BorrowChecker::new();
    match checker.check(term) {
        Ok(()) => {},
        Err(e) => {
            return Err(e);
        },
    }
    Ok(ty)
}

/// The context in which the value of a `let` binding with multiplicity `m`
/// is checked: the bindings scaled by the binding's quantity.
pub open spec fn let_value_context(c: TcView, m: Multiplicity) -> TcView {
    with_bindings(c, ctx_scaled(c.bindings, let_quantity(m)->0))
}

/// A `let` whose annotation is a type (not a type variable) checks its
/// value against it: a value of another type makes the `let` fail with a
/// type mismatch that expects the annotation and names the value's type,
/// and a well-typed `let` has a value of exactly the annotated type.
pub proof fn law_let_checks_annotation(
    x: Seq<char>,
    m: Multiplicity,
    annot: SpecType,
    value: SpecTerm,
    body: SpecTerm,
    c: TcView,
)
    requires
        !(annot is Var),
    ensures
        let_quantity(m) is Some && !has_borrow(c.bindings) ==> match tc(value, let_value_context(c, m)) {
            Ok((vt, _)) => vt != annot ==> tc(SpecTerm::Let(x, m, annot, Box::new(value), Box::new(body)), c) == Err::<
                (SpecType, TcView),
                SpecTypeError,
            >(SpecTypeError::TypeMismatch { expected: annot, found: vt }),
            Err(_) => true,
        },
        tc(SpecTerm::Let(x, m, annot, Box::new(value), Box::new(body)), c) is Ok ==> (tc(value, let_value_context(c, m))
            matches Ok((vt, _)) && vt == annot),
{
}

/// A literal has the type of its kind of value and leaves the context as
/// it is; an abstraction has an arrow type from its annotation, with its
/// multiplicity, to its body's type; a variable that is not bound is an
/// error naming it.
pub proof fn law_basic_typing(n: i64, b: bool, ch: char, x: Seq<char>, m: Multiplicity, annot: SpecType, body: SpecTerm, c: TcView)
    ensures
        tc(SpecTerm::NativeLiteral(SpecLiteral::Int(n)), c) == Ok::<(SpecType, TcView), SpecTypeError>(
            (SpecType::Native(NativeKind::Int), c),
        ),
        tc(SpecTerm::NativeLiteral(SpecLiteral::Bool(b)), c) == Ok::<(SpecType, TcView), SpecTypeError>(
            (SpecType::Native(NativeKind::Bool), c),
        ),
        tc(SpecTerm::NativeLiteral(SpecLiteral::Char(ch)), c) == Ok::<(SpecType, TcView), SpecTypeError>(
            (SpecType::Native(NativeKind::Char), c),
        ),
        tc(SpecTerm::NativeLiteral(SpecLiteral::Unit), c) == Ok::<(SpecType, TcView), SpecTypeError>(
            (SpecType::Native(NativeKind::Unit), c),
        ),
        !c.bindings.dom().contains(x) ==> tc(SpecTerm::Var(x), c) is Err,
        match tc(body, with_bindings(c, c.bindings.insert(x, (m, annot)))) {
            Ok((bt, _)) => tc(SpecTerm::Abs(x, m, annot, Box::new(body)), c) == Ok::<(SpecType, TcView), SpecTypeError>(
                (SpecType::Arrow(m, Box::new(annot), Box::new(bt)), c),
            ),
            Err(e) => tc(SpecTerm::Abs(x, m, annot, Box::new(body)), c) == Err::<(SpecType, TcView), SpecTypeError>(e),
        },
{
}

} // verus!
