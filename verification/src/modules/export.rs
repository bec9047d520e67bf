//! What a module exports: its values, types and traits with their types and
//! visibility.
use vstd::prelude::*;

use crate::ast::terms::{arms_view, lemma_term_lists, Decl, MethodDef, SpecTerm, Term, Visibility};
use crate::ast::patterns::SpecPattern;
use crate::ast::types::{spec_is_polymorphic, Multiplicity, NativeKind, SpecType, Type};
use crate::strmap::StrMap;
use crate::text::owned;

verus! {

/// One exported name: its type, whether it is public, and whether a type's
/// definition is visible to importers.
#[derive(Debug)]
pub struct ExportEntry {
    pub ty: Type,
    pub visibility: Visibility,
    pub transparent: bool,
}

/// The value of an export entry.
pub open spec fn entry_view(e: ExportEntry) -> (SpecType, Visibility, bool) {
    (e.ty@, e.visibility, e.transparent)
}

impl ExportEntry {
    /// A copy with the same value.
    pub fn copy(&self) -> (r: ExportEntry)
        ensures
            entry_view(r) == entry_view(*self),
    {
        ExportEntry { ty: self.ty.clone(), visibility: self.visibility, transparent: self.transparent }
    }
}

/// The entries of a map of exports, by name.
pub open spec fn entries_view(m: StrMap<ExportEntry>) -> Map<Seq<char>, (SpecType, Visibility, bool)> {
    m.spec_map().map_values(|e: ExportEntry| entry_view(e))
}

/// The value of a module's exports.
pub struct ExportsView {
    pub values: Map<Seq<char>, (SpecType, Visibility, bool)>,
    pub types: Map<Seq<char>, (SpecType, Visibility, bool)>,
    pub traits: Map<Seq<char>, (SpecType, Visibility, bool)>,
}

/// No exports.
pub open spec fn no_exports() -> ExportsView {
    ExportsView { values: Map::empty(), types: Map::empty(), traits: Map::empty() }
}

/// The values, types and traits a module exports.
#[derive(Debug)]
pub struct Exports {
    values: StrMap<ExportEntry>,
    types: StrMap<ExportEntry>,
    traits: StrMap<ExportEntry>,
}

impl View for Exports {
    type V = ExportsView;

    closed spec fn view(&self) -> ExportsView {
        ExportsView { values: entries_view(self.values), types: entries_view(self.types), traits: entries_view(self.traits) }
    }
}

/// `m` with `name` set to `e`.
fn set_entry(m: &mut StrMap<ExportEntry>, name: String, e: ExportEntry)
    requires
        old(m).wf(),
    ensures
        final(m).wf(),
        entries_view(*final(m)) == entries_view(*old(m)).insert(name@, entry_view(e)),
{
    let ghost m0 = *m;
    let ghost k = name@;
    let ghost v = entry_view(e);
    m.insert(name, e);
    assert(entries_view(*m) =~= entries_view(m0).insert(k, v));
}

/// The public entries among the first `n` keys of `m`, in the order of
/// the keys, each with its value.
pub open spec fn public_upto(m: StrMap<ExportEntry>, n: int) -> Seq<(Seq<char>, (SpecType, Visibility, bool))>
    decreases n,
{
    if n <= 0 {
        seq![]
    } else {
        let prev = public_upto(m, n - 1);
        let k = m.spec_keys()[n - 1];
        let e = entries_view(m)[k];
        if e.1 == Visibility::Public {
            prev.push((k, e))
        } else {
            prev
        }
    }
}

/// The names and values of a list of exports.
pub open spec fn listing_view(r: Seq<(String, ExportEntry)>) -> Seq<(Seq<char>, (SpecType, Visibility, bool))> {
    r.map_values(|p: (String, ExportEntry)| (p.0@, entry_view(p.1)))
}

/// Every entry of [`public_upto`] is a public entry of the map.
proof fn lemma_public_upto(m: StrMap<ExportEntry>, n: int)
    requires
        0 <= n <= m.spec_keys().len(),
    ensures
        forall|i: int|
            0 <= i < public_upto(m, n).len() ==> entries_view(m).dom().contains((#[trigger] public_upto(m, n)[i]).0)
                && public_upto(m, n)[i].1 == entries_view(m)[public_upto(m, n)[i].0] && public_upto(m, n)[i].1.1
                == Visibility::Public,
    decreases n,
{
    if n > 0 {
        lemma_public_upto(m, n - 1);
        assert(m.spec_keys().contains(m.spec_keys()[n - 1]));
    }
}

/// The public entries of `m`, each once, with copies of their values.
fn public_entries(m: &StrMap<ExportEntry>) -> (r: Vec<(String, ExportEntry)>)
    requires
        m.wf(),
    ensures
        forall|i: int|
            0 <= i < r.len() ==> entries_view(*m).dom().contains((#[trigger] r@[i]).0@) && entry_view(r@[i].1)
                == entries_view(*m)[r@[i].0@] && r@[i].1.visibility == Visibility::Public,
        forall|k: Seq<char>|
            #[trigger] entries_view(*m).dom().contains(k) && entries_view(*m)[k].1 == Visibility::Public ==> exists|i: int|
                0 <= i < r.len() && r@[i].0@ == k,
        forall|i: int, j: int| 0 <= i < j < r.len() ==> r@[i].0@ != r@[j].0@,
        listing_view(r@) == public_upto(*m, m.spec_keys().len() as int),
{
    proof {
        m.lemma_wf_len();
        m.lemma_map_len();
    }
    let ghost ks = m.spec_keys();
    let n = m.len();
    let mut r: Vec<(String, ExportEntry)> = Vec::new();
    let mut i: usize = 0;
    while i < n
        invariant
            m.wf(),
            ks == m.spec_keys(),
            n == ks.len(),
            i <= n,
            crate::graph::distinct(ks),
            m.spec_map().dom() == ks.to_set(),
            forall|a: int|
                0 <= a < r.len() ==> exists|k: int| 0 <= k < i && (#[trigger] r@[a]).0@ == ks[k],
            forall|a: int|
                0 <= a < r.len() ==> entries_view(*m).dom().contains((#[trigger] r@[a]).0@) && entry_view(r@[a].1)
                    == entries_view(*m)[r@[a].0@] && r@[a].1.visibility == Visibility::Public,
            forall|k: int|
                0 <= k < i && #[trigger] entries_view(*m)[ks[k]].1 == Visibility::Public ==> exists|a: int|
                    0 <= a < r.len() && r@[a].0@ == ks[k],
            forall|a: int, b: int| 0 <= a < b < r.len() ==> r@[a].0@ != r@[b].0@,
            listing_view(r@) == public_upto(*m, i as int),
        decreases n - i,
    {
        let key = m.key_at(i);
        let e = m.value_at(i);
        proof {
            assert(entries_view(*m)[ks[i as int]] == entry_view(*e));
        }
        proof {
            assert(ks.to_set().contains(ks[i as int]));
        }
        if e.visibility == Visibility::Public {
            let ghost r0 = r@;
            r.push((key.clone(), e.copy()));
            proof {
                assert(listing_view(r@) =~= listing_view(r0).push((ks[i as int], entries_view(*m)[ks[i as int]])));
                assert forall|a: int| 0 <= a < r.len() implies exists|k: int| 0 <= k < i + 1 && (#[trigger] r@[a]).0@ == ks[k] by {
                    if a < r0.len() {
                        assert(r@[a] == r0[a]);
                    } else {
                        assert(r@[a].0@ == ks[i as int]);
                    }
                }
                assert forall|a: int, b: int| 0 <= a < b < r.len() implies r@[a].0@ != r@[b].0@ by {
                    if b == r0.len() {
                        assert(r@[a] == r0[a]);
                        let k = choose|k: int| 0 <= k < i && r0[a].0@ == ks[k];
                        assert(k != i as int);
                    } else {
                        assert(r@[a] == r0[a] && r@[b] == r0[b]);
                    }
                }
                assert forall|k: int|
                    0 <= k < i + 1 && #[trigger] entries_view(*m)[ks[k]].1 == Visibility::Public implies exists|a: int|
                    0 <= a < r.len() && r@[a].0@ == ks[k] by {
                    if k < i {
                        let a = choose|a: int| 0 <= a < r0.len() && r0[a].0@ == ks[k];
                        assert(r@[a] == r0[a]);
                    } else {
                        assert(r@[r0.len() as int].0@ == ks[k]);
                    }
                }
            }
        } else {
            proof {
                assert(entries_view(*m)[ks[i as int]].1 != Visibility::Public);
            }
        }
        i += 1;
    }
    proof {
        assert forall|k: Seq<char>|
            #[trigger] entries_view(*m).dom().contains(k) && entries_view(*m)[k].1 == Visibility::Public implies exists|i: int|
            0 <= i < r.len() && r@[i].0@ == k by {
            assert(ks.to_set().contains(k));
            let j = choose|j: int| 0 <= j < ks.len() && ks[j] == k;
            assert(entries_view(*m)[ks[j]].1 == Visibility::Public);
        }
    }
    r
}

impl Exports {
    #[verifier::type_invariant]
    spec fn inv(self) -> bool {
        self.values.wf() && self.types.wf() && self.traits.wf()
    }

    /// The public values, in the order in which they were first exported.
    pub closed spec fn value_listing(self) -> Seq<(Seq<char>, (SpecType, Visibility, bool))> {
        public_upto(self.values, self.values.spec_keys().len() as int)
    }

    /// The public types, in the order in which they were first exported.
    pub closed spec fn type_listing(self) -> Seq<(Seq<char>, (SpecType, Visibility, bool))> {
        public_upto(self.types, self.types.spec_keys().len() as int)
    }

    /// Each entry listed is a public value (or type) with its value.
    pub proof fn lemma_listings(self)
        ensures
            forall|i: int|
                0 <= i < self.value_listing().len() ==> self@.values.dom().contains(
                    (#[trigger] self.value_listing()[i]).0,
                ) && self.value_listing()[i].1 == self@.values[self.value_listing()[i].0] && self.value_listing()[i].1.1
                    == Visibility::Public,
            forall|i: int|
                0 <= i < self.type_listing().len() ==> self@.types.dom().contains((#[trigger] self.type_listing()[i]).0)
                    && self.type_listing()[i].1 == self@.types[self.type_listing()[i].0] && self.type_listing()[i].1.1
                    == Visibility::Public,
    {
        lemma_public_upto(self.values, self.values.spec_keys().len() as int);
        lemma_public_upto(self.types, self.types.spec_keys().len() as int);
    }

    /// Nothing exported.
    pub fn new() -> (r: Exports)
        ensures
            r@ == no_exports(),
            r.value_listing() == Seq::<(Seq<char>, (SpecType, Visibility, bool))>::empty(),
            r.type_listing() == Seq::<(Seq<char>, (SpecType, Visibility, bool))>::empty(),
    {
        let r = Exports { values: StrMap::new(), types: StrMap::new(), traits: StrMap::new() };
        proof {
            r.values.lemma_map_len();
            r.types.lemma_map_len();
            assert(r.value_listing() =~= Seq::<(Seq<char>, (SpecType, Visibility, bool))>::empty());
            assert(r.type_listing() =~= Seq::<(Seq<char>, (SpecType, Visibility, bool))>::empty());
        }
        assert(r@.values =~= Map::empty());
        assert(r@.types =~= Map::empty());
        assert(r@.traits =~= Map::empty());
        r
    }

    /// Exports the value `name` of type `ty`.
    pub fn add_value(&mut self, name: String, ty: Type, visibility: Visibility)
        ensures
            final(self)@ == (ExportsView {
                values: old(self)@.values.insert(name@, (ty@, visibility, false)),
                ..old(self)@
            }),
            final(self).type_listing() == old(self).type_listing(),
    {
        proof {
            use_type_invariant(&*self);
        }
        let mut m = StrMap::new();
        std::mem::swap(&mut m, &mut self.values);
        set_entry(&mut m, name, ExportEntry { ty, visibility, transparent: false });
        self.values = m;
    }

    /// Exports the type `name`, defined as `ty`.
    pub fn add_type(&mut self, name: String, ty: Type, visibility: Visibility, transparent: bool)
        ensures
            final(self)@ == (ExportsView { types: old(self)@.types.insert(name@, (ty@, visibility, transparent)), ..old(self)@ }),
            final(self).value_listing() == old(self).value_listing(),
    {
        proof {
            use_type_invariant(&*self);
        }
        let mut m = StrMap::new();
        std::mem::swap(&mut m, &mut self.types);
        set_entry(&mut m, name, ExportEntry { ty, visibility, transparent });
        self.types = m;
    }

    /// Exports the trait `name`.
    pub fn add_trait(&mut self, name: String, ty: Type, visibility: Visibility)
        ensures
            final(self)@ == (ExportsView { traits: old(self)@.traits.insert(name@, (ty@, visibility, false)), ..old(self)@ }),
            final(self).value_listing() == old(self).value_listing(),
            final(self).type_listing() == old(self).type_listing(),
    {
        proof {
            use_type_invariant(&*self);
        }
        let mut m = StrMap::new();
        std::mem::swap(&mut m, &mut self.traits);
        set_entry(&mut m, name, ExportEntry { ty, visibility, transparent: false });
        self.traits = m;
    }

    /// The exported value `name`, if there is one.
    pub fn get_value(&self, name: &str) -> (r: Option<&ExportEntry>)
        ensures
            r matches Some(e) ==> self@.values.dom().contains(name@) && entry_view(*e) == self@.values[name@],
            r is None ==> !self@.values.dom().contains(name@),
    {
        proof {
            use_type_invariant(self);
        }
        self.values.get(name)
    }

    /// The exported type `name`, if there is one.
    pub fn get_type(&self, name: &str) -> (r: Option<&ExportEntry>)
        ensures
            r matches Some(e) ==> self@.types.dom().contains(name@) && entry_view(*e) == self@.types[name@],
            r is None ==> !self@.types.dom().contains(name@),
    {
        proof {
            use_type_invariant(self);
        }
        self.types.get(name)
    }

    /// The exported trait `name`, if there is one.
    pub fn get_trait(&self, name: &str) -> (r: Option<&ExportEntry>)
        ensures
            r matches Some(e) ==> self@.traits.dom().contains(name@) && entry_view(*e) == self@.traits[name@],
            r is None ==> !self@.traits.dom().contains(name@),
    {
        proof {
            use_type_invariant(self);
        }
        self.traits.get(name)
    }

    /// The public values, each once.
    pub fn public_values(&self) -> (r: Vec<(String, ExportEntry)>)
        ensures
            forall|i: int|
                0 <= i < r.len() ==> self@.values.dom().contains((#[trigger] r@[i]).0@) && entry_view(r@[i].1)
                    == self@.values[r@[i].0@] && r@[i].1.visibility == Visibility::Public,
            forall|k: Seq<char>|
                #[trigger] self@.values.dom().contains(k) && self@.values[k].1 == Visibility::Public ==> exists|i: int|
                    0 <= i < r.len() && r@[i].0@ == k,
            forall|i: int, j: int| 0 <= i < j < r.len() ==> r@[i].0@ != r@[j].0@,
            listing_view(r@) == self.value_listing(),
    {
        proof {
            use_type_invariant(self);
        }
        public_entries(&self.values)
    }

    /// The public types, each once.
    pub fn public_types(&self) -> (r: Vec<(String, ExportEntry)>)
        ensures
            forall|i: int|
                0 <= i < r.len() ==> self@.types.dom().contains((#[trigger] r@[i]).0@) && entry_view(r@[i].1)
                    == self@.types[r@[i].0@] && r@[i].1.visibility == Visibility::Public,
            forall|k: Seq<char>|
                #[trigger] self@.types.dom().contains(k) && self@.types[k].1 == Visibility::Public ==> exists|i: int|
                    0 <= i < r.len() && r@[i].0@ == k,
            forall|i: int, j: int| 0 <= i < j < r.len() ==> r@[i].0@ != r@[j].0@,
            listing_view(r@) == self.type_listing(),
    {
        proof {
            use_type_invariant(self);
        }
        public_entries(&self.types)
    }

    /// The public traits, each once.
    pub fn public_traits(&self) -> (r: Vec<(String, ExportEntry)>)
        ensures
            forall|i: int|
                0 <= i < r.len() ==> self@.traits.dom().contains((#[trigger] r@[i]).0@) && entry_view(r@[i].1)
                    == self@.traits[r@[i].0@] && r@[i].1.visibility == Visibility::Public,
            forall|k: Seq<char>|
                #[trigger] self@.traits.dom().contains(k) && self@.traits[k].1 == Visibility::Public ==> exists|i: int|
                    0 <= i < r.len() && r@[i].0@ == k,
            forall|i: int, j: int| 0 <= i < j < r.len() ==> r@[i].0@ != r@[j].0@,
    {
        proof {
            use_type_invariant(self);
        }
        public_entries(&self.traits)
    }
}


/// The values exported for the first `n` methods of an implementation, each
/// public under its method name.
pub open spec fn methods_exported(
    v: Map<Seq<char>, (SpecType, Visibility, bool)>,
    ms: Seq<MethodDef>,
    n: int,
) -> Map<Seq<char>, (SpecType, Visibility, bool)>
    decreases n,
{
    if n <= 0 {
        v
    } else {
        methods_exported(v, ms, n - 1).insert(ms[n - 1].name.0@, (ms[n - 1].ty@, Visibility::Public, false))
    }
}

/// The exports after one more declaration: a public type, value or trait is
/// exported; an implementation for a type that is not polymorphic exports
/// its methods as public values.
pub open spec fn decl_exports(e: ExportsView, d: Decl) -> ExportsView {
    match d {
        Decl::TypeDecl { visibility, name, ty, transparent, .. } => if visibility == Visibility::Public {
            ExportsView { types: e.types.insert(name@, (ty@, visibility, transparent)), ..e }
        } else {
            e
        },
        Decl::ValDecl { visibility, name, ty, .. } => if visibility == Visibility::Public {
            ExportsView { values: e.values.insert(name@, (ty@, visibility, false)), ..e }
        } else {
            e
        },
        Decl::TraitDecl { visibility, name, params, .. } => if visibility == Visibility::Public {
            ExportsView {
                traits: e.traits.insert(
                    name@,
                    (
                        if params.len() == 0 {
                            SpecType::Native(NativeKind::Unit)
                        } else {
                            SpecType::Inductive(name@, seq![])
                        },
                        visibility,
                        false,
                    ),
                ),
                ..e
            }
        } else {
            e
        },
        Decl::ImplDecl { ty, methods, .. } => if !spec_is_polymorphic(ty@) {
            ExportsView { values: methods_exported(e.values, methods@, methods.len() as int), ..e }
        } else {
            e
        },
        _ => e,
    }
}

/// The exports of the first `n` declarations.
pub open spec fn exports_of(ds: Seq<Decl>, n: int) -> ExportsView
    decreases n,
{
    if n <= 0 {
        no_exports()
    } else {
        decl_exports(exports_of(ds, n - 1), ds[n - 1])
    }
}

/// The exports after walking a term: each abstraction exports its bound
/// variable as a private value of type `annot →¹ Unit`, in the order met.
pub open spec fn collect(e: ExportsView, t: SpecTerm) -> ExportsView
    decreases t, 0int,
{
    match t {
        SpecTerm::Abs(v, _, annot, body) => collect(
            ExportsView {
                values: e.values.insert(
                    v,
                    (crate::ast::terms::arrow1(annot, SpecType::Native(NativeKind::Unit)), Visibility::Private, false),
                ),
                ..e
            },
            *body,
        ),
        SpecTerm::App(f, a) => collect(collect(e, *f), *a),
        SpecTerm::Let(_, _, _, _, body) => collect(e, *body),
        SpecTerm::Match(s, arms) => collect_arms(collect(e, *s), arms, 0),
        SpecTerm::View(s, arms) => collect_arms(collect(e, *s), arms, 0),
        _ => e,
    }
}

/// [`collect`] over the bodies of the arms `arms[i..]`.
pub open spec fn collect_arms(e: ExportsView, arms: Seq<(SpecPattern, SpecTerm)>, i: int) -> ExportsView
    decreases arms, arms.len() - i,
{
    if 0 <= i < arms.len() {
        proof {
            assert(decreases_to!(arms => arms[i]));
            assert(decreases_to!(arms[i] => arms[i].1));
        }
        collect_arms(collect(e, arms[i].1), arms, i + 1)
    } else {
        e
    }
}

fn collect_arm_exports(arms: &Vec<crate::ast::terms::Arm>, exports: &mut Exports)
    ensures
        final(exports)@ == collect_arms(old(exports)@, arms_view(arms@), 0),
    decreases arms, 0nat,
{
    let ghost av = arms_view(arms@);
    let mut i: usize = 0;
    while i < arms.len()
        invariant
            i <= arms.len(),
            av == arms_view(arms@),
            collect_arms(exports@, av, i as int) == collect_arms(old(exports)@, av, 0),
        decreases arms.len() - i,
    {
        proof {
            broadcast use vstd::std_specs::vec::group_vec_axioms;
            assert(decreases_to!(*arms => arms@[i as int]));
            assert(decreases_to!(arms@[i as int] => arms@[i as int].body));
            assert(av[i as int].1 == arms@[i as int].body@);
        }
        collect_exports(&arms[i].body, exports);
        i += 1;
    }
}

/// Adds the exports [`collect`] finds in `term`.
pub fn collect_exports(term: &Term, exports: &mut Exports)
    ensures
        final(exports)@ == collect(old(exports)@, term@),
    decreases term, 1nat,
{
    proof {
        lemma_term_lists(*term);
    }
    match term {
        Term::Abs { var, annot, body, .. } => {
            let fn_type = Type::arrow(annot.clone(), Multiplicity::One, Type::unit());
            exports.add_value(var.clone(), fn_type, Visibility::Private);
            collect_exports(body, exports);
        },
        Term::App { fun, arg } => {
            collect_exports(fun, exports);
            collect_exports(arg, exports);
        },
        Term::Let { body, .. } => {
            collect_exports(body, exports);
        },
        Term::Match { scrutinee, arms } | Term::View { scrutinee, arms } => {
            collect_exports(scrutinee, exports);
            collect_arm_exports(arms, exports);
        },
        _ => {},
    }
}

impl Exports {
    /// The exports of a module's declarations: its public types, values and
    /// traits, and the methods of its implementations for types that are not
    /// polymorphic, as public values.
    pub fn from_decl(decls: &[Decl]) -> (r: Exports)
        ensures
            r@ == exports_of(decls@, decls@.len() as int),
    {
        let mut exports = Exports::new();
        let mut i: usize = 0;
        while i < decls.len()
            invariant
                i <= decls.len(),
                exports@ == exports_of(decls@, i as int),
            decreases decls.len() - i,
        {
            match &decls[i] {
                Decl::TypeDecl { name, visibility, ty, transparent, .. } => {
                    if *visibility == Visibility::Public {
                        exports.add_type(name.clone(), ty.clone(), *visibility, *transparent);
                    }
                },
                Decl::ValDecl { name, visibility, ty, .. } => {
                    if *visibility == Visibility::Public {
                        exports.add_value(name.clone(), ty.clone(), *visibility);
                    }
                },
                Decl::TraitDecl { name, visibility, params, .. } => {
                    if *visibility == Visibility::Public {
                        let trait_type = if params.len() == 0 {
                            Type::unit()
                        } else {
                            let t = Type::inductive(name.as_str(), Vec::new());
                            assert(t@->Inductive_1 =~= seq![]);
                            t
                        };
                        exports.add_trait(name.clone(), trait_type, *visibility);
                    }
                },
                Decl::ImplDecl { ty, methods, .. } => {
                    if !ty.is_polymorphic() {
                        let ghost e0 = exports@;
                        let mut j: usize = 0;
                        while j < methods.len()
                            invariant
                                j <= methods.len(),
                                exports@ == (ExportsView {
                                    values: methods_exported(e0.values, methods@, j as int),
                                    ..e0
                                }),
                            decreases methods.len() - j,
                        {
                            let m = &methods[j];
                            exports.add_value(m.name.0.clone(), m.ty.clone(), Visibility::Public);
                            j += 1;
                        }
                    }
                },
                Decl::UseDecl { .. } => {},
                Decl::NoPrelude => {},
            }
            i += 1;
        }
        exports
    }

    /// The exports found in a program's term, and its result as the public
    /// value `main`: the result type of `return_type` when it is a function
    /// type, else `return_type` itself.
    pub fn from_term(term: &Term, return_type: Type) -> (r: Exports)
        ensures
            r@ == (ExportsView {
                values: collect(no_exports(), term@).values.insert(
                    "main"@,
                    (
                        match return_type@ {
                            SpecType::Arrow(_, _, ret) => *ret,
                            _ => return_type@,
                        },
                        Visibility::Public,
                        false,
                    ),
                ),
                ..collect(no_exports(), term@)
            }),
    {
        let mut exports = Exports::new();
        collect_exports(term, &mut exports);
        proof {
            crate::ast::types::lemma_view_variant(return_type);
        }
        match return_type {
            Type::Arrow(m, a, ret) => {
                assert(return_type@ == SpecType::Arrow(m, Box::new(a@), Box::new(ret@)));
                exports.add_value(owned("main"), *ret, Visibility::Public);
            },
            _ => {
                exports.add_value(owned("main"), return_type, Visibility::Public);
            },
        }
        exports
    }
}

} // verus!
