//! Finding the body of a trait method for a type: in the implementation of
//! the trait for the type, else through the trait's supertraits, depth
//! first, each trait tried once.
use vstd::prelude::*;

use crate::ast::terms::{SpecTerm, Term};
use crate::ast::types::{MethodName, SpecType, TraitName, Type};
use crate::traits::registry::{has_key, key_taken, trait_names, Registry, RegistryView};
use crate::traits::TraitError;
use crate::text::str_eq;

verus! {

/// The method `m` of the implementation of trait `t` for `ty`, if the
/// registry holds that implementation and it gives the method.
pub open spec fn impl_method(rv: RegistryView, t: Seq<char>, ty: SpecType, m: Seq<char>) -> Option<SpecTerm> {
    if key_taken(rv.impls, t, ty) {
        let i = choose|i: int| 0 <= i < rv.impls.len() && has_key(#[trigger] rv.impls[i], t, ty);
        if rv.impls[i].methods.contains_key(m) {
            Some(rv.impls[i].methods[m])
        } else {
            None
        }
    } else {
        None
    }
}

/// The search from trait `t`, with the traits in `visited` already tried:
/// its result and the traits tried after it. A trait is tried once; then
/// its own implementation, then its supertraits in order, are searched.
/// The search goes at most `fuel` supertraits deep.
pub open spec fn resolve_from(
    rv: RegistryView,
    t: Seq<char>,
    ty: SpecType,
    m: Seq<char>,
    visited: Set<Seq<char>>,
    fuel: nat,
) -> (Option<SpecTerm>, Set<Seq<char>>)
    decreases fuel, 0nat,
{
    if fuel == 0 || visited.contains(t) {
        (None, visited)
    } else {
        let v1 = visited.insert(t);
        match impl_method(rv, t, ty, m) {
            Some(term) => (Some(term), v1),
            None => if rv.decls.contains_key(t) {
                resolve_supers(rv, rv.decls[t], 0, ty, m, v1, (fuel - 1) as nat)
            } else {
                (None, v1)
            },
        }
    }
}

/// The search through the supertraits `ss[i..]`, in order, until one gives
/// the method.
pub open spec fn resolve_supers(
    rv: RegistryView,
    ss: Seq<Seq<char>>,
    i: int,
    ty: SpecType,
    m: Seq<char>,
    visited: Set<Seq<char>>,
    fuel: nat,
) -> (Option<SpecTerm>, Set<Seq<char>>)
    decreases fuel, ss.len() - i + 1,
{
    if i < 0 || i >= ss.len() {
        (None, visited)
    } else {
        let (r, v2) = resolve_from(rv, ss[i], ty, m, visited, fuel);
        if r is Some {
            (r, v2)
        } else {
            resolve_supers(rv, ss, i + 1, ty, m, v2, fuel)
        }
    }
}

/// The names of a list of strings, as a set.
pub open spec fn name_set(v: Seq<String>) -> Set<Seq<char>> {
    v.map_values(|s: String| s@).to_set()
}

fn contains_name(v: &Vec<String>, x: &String) -> (r: bool)
    ensures
        r == name_set(v@).contains(x@),
{
    let mut i: usize = 0;
    while i < v.len()
        invariant
            i <= v.len(),
            forall|k: int| 0 <= k < i ==> v@[k]@ != x@,
        decreases v.len() - i,
    {
        if str_eq(v[i].as_str(), x.as_str()) {
            assert(v@.map_values(|s: String| s@)[i as int] == x@);
            return true;
        }
        i += 1;
    }
    proof {
        let names = v@.map_values(|s: String| s@);
        assert forall|k: int| 0 <= k < names.len() implies #[trigger] names[k] != x@ by {
            assert(names[k] == v@[k]@);
        }
        assert(!names.contains(x@));
    }
    false
}

/// `TraitNotFound` for the trait and the type.
fn not_found(trait_name: &TraitName, ty: &Type) -> (e: TraitError)
    ensures
        e matches TraitError::TraitNotFound(n, t) && n.0@ == trait_name.0@ && t@ == ty@,
{
    TraitError::TraitNotFound(TraitName(trait_name.0.clone()), ty.clone())
}

/// The result of a search, as an optional term.
pub open spec fn found_term(r: Result<Term, TraitError>) -> Option<SpecTerm> {
    match r {
        Ok(t) => Some(t@),
        Err(_) => None,
    }
}

fn resolve_method_dfs(
    trait_name: &TraitName,
    ty: &Type,
    method: &MethodName,
    registry: &Registry,
    visited: &mut Vec<String>,
    fuel: usize,
) -> (r: Result<Term, TraitError>)
    requires
        registry.wf(),
    ensures
        (found_term(r), name_set(final(visited)@)) == resolve_from(
            registry.spec_view(),
            trait_name.0@,
            ty@,
            method.0@,
            name_set(old(visited)@),
            fuel as nat,
        ),
        r matches Err(e) ==> (e matches TraitError::TraitNotFound(n, t) && n.0@ == trait_name.0@ && t@ == ty@),
    decreases fuel, 0nat,
{
    let ghost rv = registry.spec_view();
    if fuel == 0 || contains_name(visited, &trait_name.0) {
        return Err(not_found(trait_name, ty));
    }
    let ghost v0 = name_set(visited@);
    visited.push(trait_name.0.clone());
    proof {
        assert(name_set(visited@) =~= v0.insert(trait_name.0@)) by {
            let before = old(visited)@.map_values(|s: String| s@);
            assert(visited@.map_values(|s: String| s@) =~= before.push(trait_name.0@));
            before.lemma_push_to_set_commute(trait_name.0@);
        }
    }
    match registry.get(trait_name, ty) {
        Some(imp) => {
            proof {
                registry.lemma_keys_distinct();
                let i = choose|i: int| 0 <= i < rv.impls.len() && has_key(#[trigger] rv.impls[i], trait_name.0@, ty@);
                let j = choose|j: int| 0 <= j < rv.impls.len() && rv.impls[j] == imp.spec_view();
                assert(has_key(rv.impls[j], trait_name.0@, ty@));
                assert(i == j);
            }
            match imp.get_method(method) {
                Some(term) => {
                    return Ok(term.clone());
                },
                None => {},
            }
        },
        None => {},
    }
    let supers = match registry.get_trait_declaration(trait_name) {
        Some(s) => s,
        None => return Err(not_found(trait_name, ty)),
    };
    let ghost ss = trait_names(supers@);
    let ghost start = name_set(visited@);
    assert(impl_method(rv, trait_name.0@, ty@, method.0@) is None);
    assert(resolve_from(rv, trait_name.0@, ty@, method.0@, name_set(old(visited)@), fuel as nat) == resolve_supers(
        rv,
        ss,
        0,
        ty@,
        method.0@,
        start,
        (fuel - 1) as nat,
    ));
    let mut i: usize = 0;
    while i < supers.len()
        invariant
            registry.wf(),
            rv == registry.spec_view(),
            fuel > 0,
            ss == trait_names(supers@),
            ss.len() == supers.len(),
            i <= supers.len(),
            resolve_from(rv, trait_name.0@, ty@, method.0@, name_set(old(visited)@), fuel as nat) == resolve_supers(
                rv,
                ss,
                0,
                ty@,
                method.0@,
                start,
                (fuel - 1) as nat,
            ),
            resolve_supers(rv, ss, 0, ty@, method.0@, start, (fuel - 1) as nat) == resolve_supers(
                rv,
                ss,
                i as int,
                ty@,
                method.0@,
                name_set(visited@),
                (fuel - 1) as nat,
            ),
        decreases supers.len() - i,
    {
        assert(ss[i as int] == supers@[i as int].0@);
        match resolve_method_dfs(&supers[i], ty, method, registry, visited, fuel - 1) {
            Ok(term) => return Ok(term),
            Err(_) => {},
        }
        i += 1;
    }
    Err(not_found(trait_name, ty))
}

/// The body of `method` for `ty`: from the implementation of `trait_name`
/// for `ty`, else from its supertraits, depth first (each trait tried once,
/// at most `usize::MAX` supertraits deep); `TraitNotFound` for the trait and
/// the type when none gives it.
pub fn resolve_method(trait_name: &TraitName, ty: &Type, method: &MethodName, registry: &Registry) -> (r: Result<
    Term,
    TraitError,
>)
    requires
        registry.wf(),
    ensures
        found_term(r) == resolve_from(registry.spec_view(), trait_name.0@, ty@, method.0@, Set::empty(), usize::MAX as nat).0,
        r matches Err(e) ==> (e matches TraitError::TraitNotFound(n, t) && n.0@ == trait_name.0@ && t@ == ty@),
{
    let mut visited: Vec<String> = Vec::new();
    assert(name_set(visited@) =~= Set::<Seq<char>>::empty());
    resolve_method_dfs(trait_name, ty, method, registry, &mut visited, usize::MAX)
}

/// A key of the cache of searches under way: trait, type and method.
pub open spec fn cache_keys(v: Seq<(TraitName, Type, MethodName)>) -> Seq<(Seq<char>, SpecType, Seq<char>)> {
    v.map_values(|k: (TraitName, Type, MethodName)| (k.0.0@, k.1@, k.2.0@))
}

/// [`resolve_method`], unless the same search is already under way (it is
/// in `cache`), which gives `TraitNotFound`; the cache is as it was after.
pub fn resolve_method_with_cache(
    trait_name: &TraitName,
    ty: &Type,
    method: &MethodName,
    registry: &Registry,
    cache: &mut Vec<(TraitName, Type, MethodName)>,
) -> (r: Result<Term, TraitError>)
    requires
        registry.wf(),
    ensures
        cache_keys(final(cache)@) == cache_keys(old(cache)@),
        cache_keys(old(cache)@).contains((trait_name.0@, ty@, method.0@)) ==> (r matches Err(
            TraitError::TraitNotFound(n, t),
        ) && n.0@ == trait_name.0@ && t@ == ty@),
        !cache_keys(old(cache)@).contains((trait_name.0@, ty@, method.0@)) ==> found_term(r) == resolve_from(
            registry.spec_view(),
            trait_name.0@,
            ty@,
            method.0@,
            Set::empty(),
            usize::MAX as nat,
        ).0 && (r matches Err(e) ==> (e matches TraitError::TraitNotFound(n, t) && n.0@ == trait_name.0@ && t@ == ty@)),
{
    let mut i: usize = 0;
    while i < cache.len()
        invariant
            i <= cache.len(),
            forall|k: int| 0 <= k < i ==> cache_keys(cache@)[k] != (trait_name.0@, ty@, method.0@),
        decreases cache.len() - i,
    {
        let (t, y, m) = &cache[i];
        if str_eq(t.0.as_str(), trait_name.0.as_str()) && y.equals(ty) && str_eq(m.0.as_str(), method.0.as_str()) {
            assert(cache_keys(cache@)[i as int] == (trait_name.0@, ty@, method.0@));
            return Err(not_found(trait_name, ty));
        }
        i += 1;
    }
    proof {
        assert(!cache_keys(cache@).contains((trait_name.0@, ty@, method.0@)));
    }
    let ghost before = cache_keys(cache@);
    cache.push((TraitName(trait_name.0.clone()), ty.clone(), MethodName(method.0.clone())));
    let result = resolve_method(trait_name, ty, method, registry);
    cache.pop();
    assert(cache_keys(cache@) =~= before);
    result
}

} // verus!
