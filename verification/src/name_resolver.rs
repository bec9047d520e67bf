//! Imports between modules, the graph of module dependencies, and the
//! resolution of names that modules export.
use vstd::prelude::*;

use crate::ast::terms::{Decl, SpecUseMode, UseMode};
use crate::ast::types::{SpecType, Type};
use crate::modules::export::{Exports, ExportsView};
use crate::strmap::StrMap;
use crate::graph::DepGraph;
use crate::text::{concat, join, joined, owned};

verus! {

/// An import of a module by its dotted path.
#[derive(Debug)]
pub struct Import {
    pub path: Vec<String>,
    pub mode: UseMode,
    pub alias: Option<String>,
}

/// The path of a module written with dots between its parts.
pub open spec fn dotted(parts: Seq<Seq<char>>) -> Seq<char> {
    joined(parts, seq!['.'])
}

impl Import {
    /// The module's path, written with dots between its parts.
    pub fn module_name(&self) -> (r: String)
        ensures
            r@ == dotted(self.path@.map_values(|s: String| s@)),
    {
        proof {
            reveal_strlit(".");
            assert("."@ =~= seq!['.']);
        }
        join(&self.path, ".")
    }

    /// The name the imported module is referred to by: its alias, else the
    /// last part of its path, else its (empty) dotted name.
    pub fn qualifier(&self) -> (r: String)
        ensures
            self.alias matches Some(a) ==> r@ == a@,
            self.alias is None && self.path.len() > 0 ==> r@ == self.path@.last()@,
            self.alias is None && self.path.len() == 0 ==> r@ == dotted(self.path@.map_values(|s: String| s@)),
    {
        match &self.alias {
            Some(a) => a.clone(),
            None => {
                if self.path.len() > 0 {
                    self.path[self.path.len() - 1].clone()
                } else {
                    self.module_name()
                }
            },
        }
    }
}

/// The alias that an aliased import gives the module.
pub fn extract_alias(mode: &UseMode) -> (r: Option<String>)
    ensures
        mode matches UseMode::Aliased(a) ==> r matches Some(s) && s@ == a@,
        !(mode is Aliased) ==> r is None,
{
    match mode {
        UseMode::Aliased(name) => Some(name.clone()),
        _ => None,
    }
}

/// The modules of a program and the modules each depends on.
#[derive(Debug)]
pub struct ImportGraph {
    graph: DepGraph,
}

impl ImportGraph {
    #[verifier::type_invariant]
    spec fn inv(self) -> bool {
        self.graph.wf()
    }

    /// The graph of modules, by name.
    pub closed spec fn modules_graph(self) -> DepGraph {
        self.graph
    }

    /// The names of all modules.
    pub open spec fn spec_modules(self) -> Set<Seq<char>> {
        self.modules_graph().spec_names().to_set()
    }

    /// The modules `m` depends on, in the order the dependencies were added.
    pub open spec fn spec_dependencies(self, m: Seq<char>) -> Seq<Seq<char>> {
        self.modules_graph().name_deps(m)
    }

    /// An empty graph.
    pub fn new() -> (r: ImportGraph)
        ensures
            r.spec_modules() == Set::<Seq<char>>::empty(),
            forall|m: Seq<char>| #[trigger] r.spec_dependencies(m) == Seq::<Seq<char>>::empty(),
    {
        let r = ImportGraph { graph: DepGraph::new() };
        assert(r.spec_modules() =~= Set::<Seq<char>>::empty());
        r
    }

    /// Adds the module `name`, with no dependencies if it is new.
    pub fn add_module(&mut self, name: &str)
        ensures
            final(self).spec_modules() == old(self).spec_modules().insert(name@),
            forall|m: Seq<char>| #[trigger] final(self).spec_dependencies(m) == old(self).spec_dependencies(m),
    {
        proof {
            use_type_invariant(&*self);
        }
        let mut g = DepGraph::new();
        std::mem::swap(&mut g, &mut self.graph);
        g.add_named(name, true);
        self.graph = g;
    }

    /// Records that module `from` depends on module `to`, adding either
    /// module if it is new.
    pub fn add_dependency(&mut self, from: &str, to: &str)
        ensures
            final(self).spec_modules() == old(self).spec_modules().insert(from@).insert(to@),
            final(self).spec_dependencies(from@) == old(self).spec_dependencies(from@).push(to@),
            forall|m: Seq<char>| m != from@ ==> #[trigger] final(self).spec_dependencies(m) == old(self).spec_dependencies(m),
    {
        proof {
            use_type_invariant(&*self);
        }
        let mut g = DepGraph::new();
        std::mem::swap(&mut g, &mut self.graph);
        g.add_named_edge(from, to, true);
        self.graph = g;
    }

    /// The modules `module` depends on; none for an unknown module.
    pub fn get_dependencies(&self, module: &str) -> (r: Vec<String>)
        ensures
            r@.map_values(|s: String| s@) == self.spec_dependencies(module@),
    {
        proof {
            use_type_invariant(self);
        }
        match self.graph.find(module) {
            Some(i) => {
                proof {
                    self.graph.lemma_name_deps_at(i as int);
                }
                self.graph.dep_names(i)
            },
            None => {
                let r: Vec<String> = Vec::new();
                assert(r@.map_values(|s: String| s@) =~= Seq::<Seq<char>>::empty());
                r
            },
        }
    }

    /// The names of all modules, each once.
    pub fn modules(&self) -> (r: Vec<String>)
        ensures
            r@.map_values(|s: String| s@) == self.modules_graph().spec_names(),
            r@.map_values(|s: String| s@).to_set() == self.spec_modules(),
            crate::graph::distinct(r@.map_values(|s: String| s@)),
    {
        proof {
            use_type_invariant(self);
            self.graph.lemma_wf_facts();
        }
        let n = self.graph.len();
        let mut r: Vec<String> = Vec::new();
        let mut i: usize = 0;
        while i < n
            invariant
                n == self.graph.spec_names().len(),
                i <= n,
                r@.map_values(|s: String| s@) == self.graph.spec_names().take(i as int),
            decreases n - i,
        {
            let ghost old_r = r@;
            let s = self.graph.name(i);
            r.push(s);
            proof {
                assert(r@.map_values(|s: String| s@) =~= old_r.map_values(|s: String| s@).push(s@));
                assert(self.graph.spec_names().take(i + 1) =~= self.graph.spec_names().take(i as int).push(s@));
            }
            i += 1;
        }
        assert(self.graph.spec_names().take(n as int) =~= self.graph.spec_names());
        r
    }

    /// The modules along some cycle of dependencies, the first module
    /// repeated at the end; none when there is no cycle.
    pub fn detect_cycle(&self) -> (r: Option<Vec<String>>)
        ensures
            r matches Some(c) ==> self.modules_graph().is_name_cycle(c@.map_values(|s: String| s@)),
            r is None ==> self.modules_graph().has_no_cycle(),
    {
        proof {
            use_type_invariant(self);
        }
        self.graph.find_cycle()
    }

    /// Every module, each after the modules it depends on; fails with a
    /// cycle exactly when the dependencies have one.
    pub fn topological_sort(&self) -> (r: Result<Vec<String>, CycleError>)
        ensures
            r matches Ok(o) ==> self.modules_graph().is_dependency_order(o@.map_values(|s: String| s@)),
            r matches Err(e) ==> self.modules_graph().is_name_cycle(e.modules@.map_values(|s: String| s@)),
            r is Ok <==> self.modules_graph().has_no_cycle(),
    {
        proof {
            use_type_invariant(self);
        }
        match self.graph.order_names() {
            Ok(o) => Ok(o),
            Err(c) => Err(CycleError { modules: c }),
        }
    }
}

/// A cycle among module dependencies.
#[derive(Debug, Clone)]
pub struct CycleError {
    pub modules: Vec<String>,
}

impl CycleError {
    /// The message shown for this error.
    pub fn message(&self) -> (r: String)
        ensures
            r@ == "Cycle detected: "@ + joined(self.modules@.map_values(|s: String| s@), " -> "@),
    {
        let path = join(&self.modules, " -> ");
        concat("Cycle detected: ", path.as_str())
    }
}

/// Why a name could not be resolved.
#[derive(Debug, Clone)]
pub enum NameResolutionError {
    ModuleNotFound(String),
    NameNotFound { module: String, name: String },
    CycleDetected(Vec<String>),
}

impl NameResolutionError {
    /// The message shown for this error.
    pub fn message(&self) -> (r: String)
        ensures
            self matches NameResolutionError::ModuleNotFound(m) ==> r@ == "Module not found: "@ + m@,
            self matches NameResolutionError::NameNotFound { module, name } ==> r@ == "Name '"@ + name@
                + "' not found in module '"@ + module@ + "'"@,
            self matches NameResolutionError::CycleDetected(ms) ==> r@ == "Cyclic dependency: "@ + joined(
                ms@.map_values(|s: String| s@),
                " -> "@,
            ),
    {
        match self {
            NameResolutionError::ModuleNotFound(m) => concat("Module not found: ", m.as_str()),
            NameResolutionError::NameNotFound { module, name } => {
                let a = concat("Name '", name.as_str());
                let b = concat(a.as_str(), "' not found in module '");
                let c = concat(b.as_str(), module.as_str());
                concat(c.as_str(), "'")
            },
            NameResolutionError::CycleDetected(ms) => {
                let path = join(ms, " -> ");
                concat("Cyclic dependency: ", path.as_str())
            },
        }
    }
}

impl From<CycleError> for NameResolutionError {
    fn from(e: CycleError) -> (r: NameResolutionError) {
        NameResolutionError::CycleDetected(e.modules)
    }
}

impl vstd::std_specs::convert::FromSpecImpl<CycleError> for NameResolutionError {
    open spec fn obeys_from_spec() -> bool {
        true
    }

    open spec fn from_spec(e: CycleError) -> NameResolutionError {
        NameResolutionError::CycleDetected(e.modules)
    }
}

/// Fails with the modules of a cycle when the graph has one.
pub fn check_cycles(graph: &ImportGraph) -> (r: Result<(), NameResolutionError>)
    ensures
        r is Ok <==> graph.modules_graph().has_no_cycle(),
        r matches Err(e) ==> e matches NameResolutionError::CycleDetected(c) && graph.modules_graph().is_name_cycle(
            c@.map_values(|s: String| s@),
        ),
{
    match graph.detect_cycle() {
        Some(cycle) => Err(NameResolutionError::CycleDetected(cycle)),
        None => Ok(()),
    }
}


/// Some declaration opts out of the prelude.
pub open spec fn opts_out_of_prelude(decls: Seq<Decl>) -> bool {
    exists|i: int| 0 <= i < decls.len() && #[trigger] decls[i] is NoPrelude
}

/// Whether some declaration opts out of the prelude.
pub fn has_no_prelude(decls: &[Decl]) -> (r: bool)
    ensures
        r == opts_out_of_prelude(decls@),
{
    let mut i: usize = 0;
    while i < decls.len()
        invariant
            i <= decls.len(),
            forall|k: int| 0 <= k < i ==> !(#[trigger] decls@[k] is NoPrelude),
        decreases decls.len() - i,
    {
        if let Decl::NoPrelude = &decls[i] {
            return true;
        }
        i += 1;
    }
    false
}

/// The paths and modes of the first `n` use declarations, in order.
pub open spec fn uses_of(decls: Seq<Decl>, n: int) -> Seq<(Seq<Seq<char>>, SpecUseMode)>
    decreases n,
{
    if n <= 0 {
        seq![]
    } else {
        match decls[n - 1] {
            Decl::UseDecl { path, mode } => uses_of(decls, n - 1).push((path@.map_values(|s: String| s@), mode@)),
            _ => uses_of(decls, n - 1),
        }
    }
}

/// The alias an import has under a mode.
pub open spec fn alias_of(mode: SpecUseMode) -> Option<Seq<char>> {
    match mode {
        SpecUseMode::Aliased(a) => Some(a),
        _ => None,
    }
}

/// The value of an import: its path, mode and alias.
pub open spec fn import_view(i: Import) -> (Seq<Seq<char>>, SpecUseMode, Option<Seq<char>>) {
    (i.path@.map_values(|s: String| s@), i.mode@, match i.alias {
        Some(a) => Some(a@),
        None => None,
    })
}

/// The module graph of one module and its imports: the module depends on
/// the module of each use declaration, in order, and the imports record the
/// paths, modes and aliases.
pub fn build_import_graph(module_name: &str, decls: &[Decl]) -> (r: (ImportGraph, Vec<Import>))
    ensures
        r.1.len() == uses_of(decls@, decls@.len() as int).len(),
        forall|k: int|
            0 <= k < r.1.len() ==> #[trigger] import_view(r.1@[k]) == (
                uses_of(decls@, decls@.len() as int)[k].0,
                uses_of(decls@, decls@.len() as int)[k].1,
                alias_of(uses_of(decls@, decls@.len() as int)[k].1),
            ),
        r.0.spec_modules() == uses_of(decls@, decls@.len() as int).map_values(
            |u: (Seq<Seq<char>>, SpecUseMode)| dotted(u.0),
        ).to_set().insert(module_name@),
        r.0.spec_dependencies(module_name@) == uses_of(decls@, decls@.len() as int).map_values(
            |u: (Seq<Seq<char>>, SpecUseMode)| dotted(u.0),
        ),
        forall|m: Seq<char>| m != module_name@ ==> #[trigger] r.0.spec_dependencies(m) == Seq::<Seq<char>>::empty(),
{
    let mut graph = ImportGraph::new();
    graph.add_module(module_name);
    let mut imports: Vec<Import> = Vec::new();
    let mut i: usize = 0;
    let ghost targets = |u: (Seq<Seq<char>>, SpecUseMode)| dotted(u.0);
    proof {
        assert(uses_of(decls@, 0).map_values(targets).to_set().insert(module_name@) =~= Set::empty().insert(module_name@));
        assert(graph.spec_dependencies(module_name@) =~= uses_of(decls@, 0).map_values(targets));
    }
    while i < decls.len()
        invariant
            i <= decls.len(),
            targets == (|u: (Seq<Seq<char>>, SpecUseMode)| dotted(u.0)),
            imports.len() == uses_of(decls@, i as int).len(),
            forall|k: int|
                0 <= k < imports.len() ==> #[trigger] import_view(imports@[k]) == (
                    uses_of(decls@, i as int)[k].0,
                    uses_of(decls@, i as int)[k].1,
                    alias_of(uses_of(decls@, i as int)[k].1),
                ),
            graph.spec_modules() == uses_of(decls@, i as int).map_values(targets).to_set().insert(module_name@),
            graph.spec_dependencies(module_name@) == uses_of(decls@, i as int).map_values(targets),
            forall|m: Seq<char>| m != module_name@ ==> #[trigger] graph.spec_dependencies(m) == Seq::<Seq<char>>::empty(),
        decreases decls.len() - i,
    {
        let ghost u0 = uses_of(decls@, i as int);
        match &decls[i] {
            Decl::UseDecl { path, mode } => {
                let import = Import { path: crate::ast::terms::clone_strings(path), mode: mode.copy(), alias: extract_alias(mode) };
                let target = import.module_name();
                let ghost g0 = graph;
                graph.add_dependency(module_name, target.as_str());
                let ghost iv = import_view(import);
                let ghost im0 = imports@;
                imports.push(import);
                proof {
                    let u1 = uses_of(decls@, i + 1);
                    assert(u1 == u0.push((path@.map_values(|s: String| s@), mode@)));
                    assert(iv.2 == alias_of(mode@));
                    assert forall|k: int| 0 <= k < imports.len() implies #[trigger] import_view(imports@[k]) == (
                        u1[k].0,
                        u1[k].1,
                        alias_of(u1[k].1),
                    ) by {
                        if k < im0.len() {
                            assert(imports@[k] == im0[k]);
                        }
                    }
                    let a = u0.map_values(targets);
                    let b = u1.map_values(targets);
                    assert(b =~= a.push(target@));
                    assert forall|x: Seq<char>| b.to_set().contains(x) <==> a.to_set().insert(target@).contains(x) by {
                        if b.contains(x) {
                            let j = choose|j: int| 0 <= j < b.len() && b[j] == x;
                            if j < a.len() {
                                assert(a[j] == x);
                            }
                        }
                        if a.contains(x) {
                            let j = choose|j: int| 0 <= j < a.len() && a[j] == x;
                            assert(b[j] == x);
                        }
                        if x == target@ {
                            assert(b[a.len() as int] == x);
                        }
                    }
                    assert(b.to_set() =~= a.to_set().insert(target@));
                    assert(b.to_set().insert(module_name@) =~= a.to_set().insert(module_name@).insert(target@));
                }
            },
            _ => {
                assert(uses_of(decls@, i + 1) == u0);
            },
        }
        i += 1;
    }
    (graph, imports)
}

/// The type a module exports under `n`: a value first, else a type.
pub open spec fn exported_type(e: ExportsView, n: Seq<char>) -> Option<SpecType> {
    if e.values.dom().contains(n) {
        Some(e.values[n].0)
    } else if e.types.dom().contains(n) {
        Some(e.types[n].0)
    } else {
        None
    }
}

/// The exports of each module, by name.
pub open spec fn modules_exports(exports: StrMap<Exports>) -> Map<Seq<char>, ExportsView> {
    exports.spec_map().map_values(|e: Exports| e@)
}

/// The type of the exported name `module.name`: the module must be known
/// and export a value or a type of that name.
pub fn resolve_qualified_name(module: &str, name: &str, exports: &StrMap<Exports>) -> (r: Result<
    Option<Type>,
    NameResolutionError,
>)
    requires
        exports.wf(),
    ensures
        !modules_exports(*exports).dom().contains(module@) ==> (r matches Err(NameResolutionError::ModuleNotFound(m))
            && m@ == module@),
        modules_exports(*exports).dom().contains(module@) ==> match exported_type(
            modules_exports(*exports)[module@],
            name@,
        ) {
            Some(t) => (r matches Ok(Some(ty)) && ty@ == t),
            None => (r matches Err(NameResolutionError::NameNotFound { module: m, name: n }) && m@ == module@ && n@
                == name@),
        },
{
    let module_exports = match exports.get(module) {
        Some(e) => e,
        None => {
            return Err(NameResolutionError::ModuleNotFound(owned(module)));
        },
    };
    if let Some(entry) = module_exports.get_value(name) {
        return Ok(Some(entry.ty.clone()));
    }
    if let Some(entry) = module_exports.get_type(name) {
        return Ok(Some(entry.ty.clone()));
    }
    Err(NameResolutionError::NameNotFound { module: owned(module), name: owned(name) })
}

/// Every item of `items` is exported by `e`.
pub open spec fn all_exported(e: ExportsView, items: Seq<Seq<char>>) -> bool {
    forall|k: int| 0 <= k < items.len() ==> #[trigger] exported_type(e, items[k]) is Some
}

/// The position of the first item that `e` does not export.
pub open spec fn first_missing(e: ExportsView, items: Seq<Seq<char>>) -> int {
    choose|k: int|
        0 <= k < items.len() && exported_type(e, items[k]) is None && forall|j: int|
            0 <= j < k ==> #[trigger] exported_type(e, items[j]) is Some
}

/// The types of the items a selective import names: the module must be
/// known and export each of them, as a value or a type.
pub fn resolve_selective_import(module: &str, items: &[String], exports: &StrMap<Exports>) -> (r: Result<
    StrMap<Type>,
    NameResolutionError,
>)
    requires
        exports.wf(),
    ensures
        !modules_exports(*exports).dom().contains(module@) ==> (r matches Err(NameResolutionError::ModuleNotFound(m))
            && m@ == module@),
        modules_exports(*exports).dom().contains(module@) ==> {
            let e = modules_exports(*exports)[module@];
            let names = items@.map_values(|s: String| s@);
            if all_exported(e, names) {
                (r matches Ok(m) && m.wf() && m.spec_map().dom() == names.to_set() && forall|k: Seq<char>|
                    #[trigger] m.spec_map().dom().contains(k) ==> exported_type(e, k) == Some(m.spec_map()[k]@))
            } else {
                (r matches Err(NameResolutionError::NameNotFound { module: m, name: n }) && m@ == module@ && n@
                    == names[first_missing(e, names)])
            }
        },
{
    let module_exports = match exports.get(module) {
        Some(e) => e,
        None => {
            return Err(NameResolutionError::ModuleNotFound(owned(module)));
        },
    };
    let ghost e = module_exports@;
    let ghost names = items@.map_values(|s: String| s@);
    let mut resolved: StrMap<Type> = StrMap::new();
    let mut i: usize = 0;
    while i < items.len()
        invariant
            i <= items.len(),
            e == module_exports@,
            modules_exports(*exports).dom().contains(module@),
            modules_exports(*exports)[module@] == e,
            names == items@.map_values(|s: String| s@),
            resolved.wf(),
            forall|j: int| 0 <= j < i ==> #[trigger] exported_type(e, names[j]) is Some,
            resolved.spec_map().dom() == names.take(i as int).to_set(),
            forall|k: Seq<char>|
                #[trigger] resolved.spec_map().dom().contains(k) ==> exported_type(e, k) == Some(resolved.spec_map()[k]@),
        decreases items.len() - i,
    {
        let item = &items[i];
        let ghost r0 = resolved.spec_map();
        let ty = if let Some(entry) = module_exports.get_value(item.as_str()) {
            entry.ty.clone()
        } else if let Some(entry) = module_exports.get_type(item.as_str()) {
            entry.ty.clone()
        } else {
            proof {
                assert(exported_type(e, names[i as int]) is None);
                assert(!all_exported(e, names));
                let k = first_missing(e, names);
                assert(0 <= k < names.len() && exported_type(e, names[k]) is None && forall|j: int|
                    0 <= j < k ==> #[trigger] exported_type(e, names[j]) is Some) by {
                    assert(forall|j: int| 0 <= j < i ==> #[trigger] exported_type(e, names[j]) is Some);
                }
                if k < i {
                    assert(exported_type(e, names[k]) is Some);
                } else if k > i {
                    assert(exported_type(e, names[i as int]) is Some);
                }
            }
            return Err(NameResolutionError::NameNotFound { module: owned(module), name: item.clone() });
        };
        resolved.insert(item.clone(), ty);
        proof {
            assert(names.take(i + 1).to_set() =~= names.take(i as int).to_set().insert(names[i as int])) by {
                let a = names.take(i as int);
                let b = names.take(i + 1);
                assert(b =~= a.push(names[i as int]));
                assert forall|x: Seq<char>| b.to_set().contains(x) <==> a.to_set().insert(names[i as int]).contains(x) by {
                    if b.contains(x) {
                        let j = choose|j: int| 0 <= j < b.len() && b[j] == x;
                        if j < i {
                            assert(a[j] == x);
                        }
                    }
                    if a.contains(x) {
                        let j = choose|j: int| 0 <= j < a.len() && a[j] == x;
                        assert(b[j] == x);
                    }
                    if x == names[i as int] {
                        assert(b[i as int] == x);
                    }
                }
            }
        }
        i += 1;
    }
    proof {
        assert(names.take(items.len() as int) =~= names);
    }
    Ok(resolved)
}

} // verus!
