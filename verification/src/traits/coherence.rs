//! The orphan rule: an implementation must stand in the module that defines
//! its trait or the module that defines its type.
use vstd::prelude::*;

use crate::ast::types::{TraitName, Type};
use crate::traits::registry::{has_key, Registry};
use crate::strmap::StrMap;
use crate::text::{owned, str_eq};
use crate::traits::TraitError;

verus! {

/// The module in which each trait and each type is defined.
#[derive(Debug)]
pub struct DefiningModules {
    trait_modules: StrMap<String>,
    type_modules: StrMap<String>,
}

/// The entries of a map of names to module names, by characters.
pub open spec fn modules_view(m: StrMap<String>) -> Map<Seq<char>, Seq<char>> {
    m.spec_map().map_values(|s: String| s@)
}

impl DefiningModules {
    #[verifier::type_invariant]
    spec fn inv(self) -> bool {
        self.trait_modules.wf() && self.type_modules.wf()
    }

    /// The module that defines each registered trait.
    pub closed spec fn spec_trait_modules(self) -> Map<Seq<char>, Seq<char>> {
        modules_view(self.trait_modules)
    }

    /// The module that defines each registered type.
    pub closed spec fn spec_type_modules(self) -> Map<Seq<char>, Seq<char>> {
        modules_view(self.type_modules)
    }

    /// No trait or type registered.
    pub fn new() -> (r: DefiningModules)
        ensures
            r.spec_trait_modules() == Map::<Seq<char>, Seq<char>>::empty(),
            r.spec_type_modules() == Map::<Seq<char>, Seq<char>>::empty(),
    {
        let r = DefiningModules { trait_modules: StrMap::new(), type_modules: StrMap::new() };
        assert(r.spec_trait_modules() =~= Map::<Seq<char>, Seq<char>>::empty());
        assert(r.spec_type_modules() =~= Map::<Seq<char>, Seq<char>>::empty());
        r
    }

    /// Records that `module` defines the trait `trait_name`.
    pub fn register_trait(&mut self, trait_name: &str, module: &str)
        ensures
            final(self).spec_trait_modules() == old(self).spec_trait_modules().insert(trait_name@, module@),
            final(self).spec_type_modules() == old(self).spec_type_modules(),
    {
        proof {
            use_type_invariant(&*self);
        }
        let mut m = StrMap::new();
        std::mem::swap(&mut m, &mut self.trait_modules);
        let ghost m0 = m;
        m.insert(owned(trait_name), owned(module));
        proof {
            assert(modules_view(m) =~= modules_view(m0).insert(trait_name@, module@));
        }
        self.trait_modules = m;
    }

    /// Records that `module` defines the type `ty_name`.
    pub fn register_type(&mut self, ty_name: &str, module: &str)
        ensures
            final(self).spec_type_modules() == old(self).spec_type_modules().insert(ty_name@, module@),
            final(self).spec_trait_modules() == old(self).spec_trait_modules(),
    {
        proof {
            use_type_invariant(&*self);
        }
        let mut m = StrMap::new();
        std::mem::swap(&mut m, &mut self.type_modules);
        let ghost m0 = m;
        m.insert(owned(ty_name), owned(module));
        proof {
            assert(modules_view(m) =~= modules_view(m0).insert(ty_name@, module@));
        }
        self.type_modules = m;
    }

    /// The module that defines the trait, if it was registered.
    pub fn get_trait_module(&self, trait_name: &str) -> (r: Option<&String>)
        ensures
            r matches Some(m) ==> self.spec_trait_modules().dom().contains(trait_name@) && m@
                == self.spec_trait_modules()[trait_name@],
            r is None ==> !self.spec_trait_modules().dom().contains(trait_name@),
    {
        proof {
            use_type_invariant(self);
        }
        self.trait_modules.get(trait_name)
    }

    /// The module that defines the type, if it was registered.
    pub fn get_type_module(&self, ty_name: &str) -> (r: Option<&String>)
        ensures
            r matches Some(m) ==> self.spec_type_modules().dom().contains(ty_name@) && m@
                == self.spec_type_modules()[ty_name@],
            r is None ==> !self.spec_type_modules().dom().contains(ty_name@),
    {
        proof {
            use_type_invariant(self);
        }
        self.type_modules.get(ty_name)
    }
}

/// `module` is recorded as the defining module of `name` in `m`.
pub open spec fn defined_in(m: Map<Seq<char>, Seq<char>>, name: Seq<char>, module: Seq<char>) -> bool {
    m.dom().contains(name) && m[name] == module
}

/// An implementation of `trait_name` for `ty_name` may stand in
/// `impl_module` only if that module defines the trait or the type.
pub fn check_orphan_rule(
    impl_module: &str,
    trait_name: &str,
    ty_name: &str,
    def_modules: &DefiningModules,
) -> (r: Result<(), TraitError>)
    ensures
        r is Ok <==> defined_in(def_modules.spec_trait_modules(), trait_name@, impl_module@) || defined_in(
            def_modules.spec_type_modules(),
            ty_name@,
            impl_module@,
        ),
        r matches Err(e) ==> e matches TraitError::OrphanImpl { impl_module: m, trait_name: t, ty_name: ty }
            && m@ == impl_module@ && t.0@ == trait_name@ && ty@ == ty_name@,
{
    let in_trait_module = match def_modules.get_trait_module(trait_name) {
        Some(m) => str_eq(m.as_str(), impl_module),
        None => false,
    };
    let in_type_module = match def_modules.get_type_module(ty_name) {
        Some(m) => str_eq(m.as_str(), impl_module),
        None => false,
    };
    if !in_trait_module && !in_type_module {
        return Err(
            TraitError::OrphanImpl {
                impl_module: owned(impl_module),
                trait_name: TraitName::new(trait_name),
                ty_name: owned(ty_name),
            },
        );
    }
    Ok(())
}

/// Checks that no two implementations of the registry are of the same trait
/// for the same type; a registry never holds two, so the check passes.
pub fn check_coherence(registry: &Registry) -> (r: Result<(), TraitError>)
    requires
        registry.wf(),
    ensures
        r is Ok,
{
    let entries = registry.iter();
    let ghost iv = registry.spec_view().impls;
    proof {
        registry.lemma_keys_distinct();
    }
    let mut seen: Vec<(&str, &Type)> = Vec::new();
    let mut i: usize = 0;
    while i < entries.len()
        invariant
            i <= entries.len(),
            entries.len() == iv.len(),
            forall|k: int|
                0 <= k < entries.len() ==> (#[trigger] entries@[k]).0.0@ == iv[k].trait_name && entries@[k].1@
                    == iv[k].for_type,
            forall|a: int, b: int| 0 <= a < b < iv.len() ==> !has_key(#[trigger] iv[a], #[trigger] iv[b].trait_name, iv[b].for_type),
            seen.len() == i,
            forall|k: int| 0 <= k < i ==> (#[trigger] seen@[k]).0@ == iv[k].trait_name && seen@[k].1@ == iv[k].for_type,
        decreases entries.len() - i,
    {
        let (trait_name, ty, _) = entries[i];
        let key = (trait_name.0.as_str(), ty);
        let mut j: usize = 0;
        while j < seen.len()
            invariant
                j <= seen.len(),
                seen.len() == i,
                i < iv.len(),
                key.0@ == iv[i as int].trait_name,
                key.1@ == iv[i as int].for_type,
                forall|k: int| 0 <= k < i ==> (#[trigger] seen@[k]).0@ == iv[k].trait_name && seen@[k].1@ == iv[k].for_type,
                forall|a: int, b: int| 0 <= a < b < iv.len() ==> !has_key(#[trigger] iv[a], #[trigger] iv[b].trait_name, iv[b].for_type),
            decreases seen.len() - j,
        {
            if str_eq(seen[j].0, key.0) && seen[j].1.equals(key.1) {
                assert(has_key(iv[j as int], iv[i as int].trait_name, iv[i as int].for_type));
                return Err(TraitError::DuplicateImpl(TraitName(owned(trait_name.0.as_str())), ty.clone()));
            }
            j += 1;
        }
        seen.push(key);
        i += 1;
    }
    Ok(())
}

} // verus!
