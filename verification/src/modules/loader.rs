//! The import graph of a program's modules and its cycles, and the names of
//! modules given by their file paths.
use vstd::prelude::*;

use crate::ast::terms::Decl;
use crate::graph::DepGraph;
use crate::name_resolver::dotted;
use crate::modules::ModuleError;
use crate::text::{concat, join, joined, owned, str_eq};

verus! {

/// The modules each module imports. Only modules added with
/// [`ImportGraph::add_module`] or as importers are listed as modules; a
/// module that is only imported is not.
#[derive(Debug)]
pub struct ImportGraph {
    graph: DepGraph,
}

impl ImportGraph {
    #[verifier::type_invariant]
    spec fn inv(self) -> bool {
        self.graph.wf()
    }

    /// The graph of imports, by module name.
    pub closed spec fn imports_graph(self) -> DepGraph {
        self.graph
    }

    /// The listed modules.
    pub open spec fn spec_modules(self) -> Set<Seq<char>> {
        self.imports_graph().listed_names()
    }

    /// The modules `m` imports, in the order the imports were added.
    pub open spec fn spec_imports(self, m: Seq<char>) -> Seq<Seq<char>> {
        self.imports_graph().name_deps(m)
    }

    /// An empty graph.
    pub fn new() -> (r: ImportGraph)
        ensures
            r.spec_modules() == Set::<Seq<char>>::empty(),
            forall|m: Seq<char>| #[trigger] r.spec_imports(m) == Seq::<Seq<char>>::empty(),
    {
        let r = ImportGraph { graph: DepGraph::new() };
        assert(r.spec_modules() =~= Set::<Seq<char>>::empty());
        r
    }

    /// Lists `module`, with no imports if it is new.
    pub fn add_module(&mut self, module: &str)
        ensures
            final(self).spec_modules() == old(self).spec_modules().insert(module@),
            forall|m: Seq<char>| #[trigger] final(self).spec_imports(m) == old(self).spec_imports(m),
    {
        proof {
            use_type_invariant(&*self);
        }
        let mut g = DepGraph::new();
        std::mem::swap(&mut g, &mut self.graph);
        g.add_named(module, true);
        self.graph = g;
    }

    /// Records that `from` imports `to`; `from` becomes listed.
    pub fn add_import(&mut self, from: &str, to: &str)
        ensures
            final(self).spec_modules() == old(self).spec_modules().insert(from@),
            final(self).spec_imports(from@) == old(self).spec_imports(from@).push(to@),
            forall|m: Seq<char>| m != from@ ==> #[trigger] final(self).spec_imports(m) == old(self).spec_imports(m),
    {
        proof {
            use_type_invariant(&*self);
        }
        let mut g = DepGraph::new();
        std::mem::swap(&mut g, &mut self.graph);
        g.add_named_edge(from, to, false);
        self.graph = g;
    }

    /// The modules `module` imports; none for an unknown module.
    pub fn get_imports(&self, module: &str) -> (r: Vec<String>)
        ensures
            r@.map_values(|s: String| s@) == self.spec_imports(module@),
    {
        proof {
            use_type_invariant(self);
        }
        match self.graph.find(module) {
            Some(i) => {
                proof {
                    self.graph.lemma_name_deps_at(i as int);
                }
                self.graph.dep_names(i)
            },
            None => {
                let r: Vec<String> = Vec::new();
                assert(r@.map_values(|s: String| s@) =~= Seq::<Seq<char>>::empty());
                r
            },
        }
    }

    /// The listed modules, each once.
    pub fn get_modules(&self) -> (r: Vec<String>)
        ensures
            r@.map_values(|s: String| s@).to_set() == self.spec_modules(),
            crate::graph::distinct(r@.map_values(|s: String| s@)),
    {
        proof {
            use_type_invariant(self);
            self.graph.lemma_wf_facts();
        }
        let ghost names = self.graph.spec_names();
        let ghost listed = self.graph.spec_listed();
        let n = self.graph.len();
        let mut r: Vec<String> = Vec::new();
        let mut i: usize = 0;
        while i < n
            invariant
                self.graph.wf(),
                names == self.graph.spec_names(),
                listed == self.graph.spec_listed(),
                listed.len() == names.len(),
                n == names.len(),
                i <= n,
                crate::graph::distinct(names),
                crate::graph::distinct(r@.map_values(|s: String| s@)),
                forall|x: Seq<char>|
                    r@.map_values(|s: String| s@).contains(x) <==> #[trigger] listed_before(names, listed, i as int, x),
            decreases n - i,
        {
            let ghost old_r = r@.map_values(|s: String| s@);
            if self.graph.is_listed(i) {
                let s = self.graph.name(i);
                r.push(s);
                proof {
                    let rv = r@.map_values(|s: String| s@);
                    assert(rv =~= old_r.push(names[i as int]));
                    assert forall|a: int, b: int| 0 <= a < rv.len() && 0 <= b < rv.len() && a != b implies rv[a] != rv[b] by {
                        if a == old_r.len() || b == old_r.len() {
                            let other = if a == old_r.len() { b } else { a };
                            assert(old_r.contains(rv[other]));
                            assert(listed_before(names, listed, i as int, rv[other]));
                            let k = choose|k: int| 0 <= k < i && listed[k] && names[k] == rv[other];
                            assert(k != i as int);
                        }
                    }
                    assert forall|x: Seq<char>| rv.contains(x) <==> #[trigger] listed_before(names, listed, i + 1, x) by {
                        if rv.contains(x) {
                            let j = choose|j: int| 0 <= j < rv.len() && rv[j] == x;
                            if j < old_r.len() {
                                assert(old_r.contains(x));
                                assert(listed_before(names, listed, i as int, x));
                            } else {
                                assert(listed[i as int] && names[i as int] == x);
                            }
                        }
                        if listed_before(names, listed, i + 1, x) {
                            let k = choose|k: int| 0 <= k < i + 1 && listed[k] && names[k] == x;
                            if k < i {
                                assert(listed_before(names, listed, i as int, x));
                                assert(old_r.contains(x));
                                let j = choose|j: int| 0 <= j < old_r.len() && old_r[j] == x;
                                assert(rv[j] == x);
                            } else {
                                assert(rv[old_r.len() as int] == x);
                            }
                        }
                    }
                }
            } else {
                proof {
                    assert forall|x: Seq<char>| #[trigger] listed_before(names, listed, i + 1, x) == listed_before(names, listed, i as int, x) by {
                        if listed_before(names, listed, i + 1, x) {
                            let k = choose|k: int| 0 <= k < i + 1 && listed[k] && names[k] == x;
                            assert(k != i as int);
                        }
                    }
                }
            }
            i += 1;
        }
        proof {
            let rv = r@.map_values(|s: String| s@);
            assert forall|x: Seq<char>| rv.to_set().contains(x) <==> self.graph.listed_names().contains(x) by {
                assert(rv.contains(x) <==> listed_before(names, listed, n as int, x));
            }
            assert(rv.to_set() =~= self.graph.listed_names());
        }
        r
    }
}

/// Some node before position `i` is listed and named `x`.
pub open spec fn listed_before(names: Seq<Seq<char>>, listed: Seq<bool>, i: int, x: Seq<char>) -> bool {
    exists|k: int| 0 <= k < i && listed[k] && names[k] == x
}

/// A cycle of imports.
#[derive(Debug, Clone)]
pub struct CycleInfo {
    pub modules: Vec<String>,
}

impl CycleInfo {
    /// The message shown for this cycle.
    pub fn display(&self) -> (r: String)
        ensures
            r@ == "Cycle detected: "@ + joined(self.modules@.map_values(|s: String| s@), " -> "@),
    {
        let path = join(&self.modules, " -> ");
        concat("Cycle detected: ", path.as_str())
    }
}

/// The modules along some cycle of imports, the first module repeated at
/// the end; none when the imports have no cycle.
pub fn detect_cycles(graph: &ImportGraph) -> (r: Option<CycleInfo>)
    ensures
        r matches Some(c) ==> graph.imports_graph().is_name_cycle(c.modules@.map_values(|s: String| s@)),
        r is None ==> graph.imports_graph().has_no_cycle(),
{
    proof {
        use_type_invariant(graph);
    }
    match graph.graph.find_cycle() {
        Some(modules) => Some(CycleInfo { modules }),
        None => None,
    }
}


/// The imports of the first `n` declarations, as pairs of importing and
/// imported module, with the module that later use declarations belong to:
/// use declarations belong to the module of the last type declaration
/// before them, `__main__` before any.
pub open spec fn imports_of(decls: Seq<Decl>, n: int) -> (Seq<(Seq<char>, Seq<char>)>, Seq<char>)
    decreases n,
{
    if n <= 0 {
        (seq![], "__main__"@)
    } else {
        let (imps, cur) = imports_of(decls, n - 1);
        match decls[n - 1] {
            Decl::UseDecl { path, .. } => (imps.push((cur, dotted(path@.map_values(|s: String| s@)))), cur),
            Decl::TypeDecl { name, .. } => (imps, name@),
            _ => (imps, cur),
        }
    }
}

/// The pairs of importing and imported module, by name.
pub open spec fn pairs_view(v: Seq<(String, String)>) -> Seq<(Seq<char>, Seq<char>)> {
    v.map_values(|p: (String, String)| (p.0@, p.1@))
}

/// The imports that the use declarations make, in order.
pub fn extract_imports(decls: &[Decl]) -> (r: Vec<(String, String)>)
    ensures
        pairs_view(r@) == imports_of(decls@, decls@.len() as int).0,
{
    let mut imports: Vec<(String, String)> = Vec::new();
    let mut current_module = owned("__main__");
    let mut i: usize = 0;
    while i < decls.len()
        invariant
            i <= decls.len(),
            pairs_view(imports@) == imports_of(decls@, i as int).0,
            current_module@ == imports_of(decls@, i as int).1,
        decreases decls.len() - i,
    {
        match &decls[i] {
            Decl::UseDecl { path, .. } => {
                let target = crate::text::join(path, ".");
                proof {
                    reveal_strlit(".");
                    assert("."@ =~= seq!['.']);
                }
                let ghost i0 = imports@;
                imports.push((current_module.clone(), target));
                assert(pairs_view(imports@) =~= pairs_view(i0).push((current_module@, target@)));
            },
            Decl::TypeDecl { name, .. } => {
                current_module = name.clone();
            },
            _ => {},
        }
        i += 1;
    }
    imports
}

/// `imps` records that `a` imports `b`.
pub open spec fn imports_edge(imps: Seq<(Seq<char>, Seq<char>)>, a: Seq<char>, b: Seq<char>) -> bool {
    exists|k: int| 0 <= k < imps.len() && imps[k] == (a, b)
}

/// `c` names a cycle of imports, the first module repeated at the end.
pub open spec fn is_import_cycle(imps: Seq<(Seq<char>, Seq<char>)>, c: Seq<Seq<char>>) -> bool {
    &&& c.len() >= 2
    &&& c[0] == c[c.len() - 1]
    &&& forall|i: int| 0 <= i < c.len() - 1 ==> #[trigger] imports_edge(imps, c[i], c[i + 1])
}

/// Fails with the modules of a cycle when the imports that the declarations
/// make have one.
pub fn verify_no_cycles(decls: &[Decl]) -> (r: Result<(), ModuleError>)
    ensures
        r is Ok <==> forall|c: Seq<Seq<char>>| !#[trigger] is_import_cycle(imports_of(decls@, decls@.len() as int).0, c),
        r matches Err(e) ==> exists|c: Seq<Seq<char>>|
            #[trigger] is_import_cycle(imports_of(decls@, decls@.len() as int).0, c) && e.message@ == "Cycle detected: "@
                + joined(c, " -> "@),
{
    let imports = extract_imports(decls);
    let ghost imps = pairs_view(imports@);
    let mut graph = ImportGraph::new();
    let mut i: usize = 0;
    while i < imports.len()
        invariant
            i <= imports.len(),
            imps == pairs_view(imports@),
            forall|m: Seq<char>, x: Seq<char>|
                #[trigger] graph.spec_imports(m).contains(x) <==> imports_edge(imps.take(i as int), m, x),
        decreases imports.len() - i,
    {
        let ghost g0 = graph;
        graph.add_import(imports[i].0.as_str(), imports[i].1.as_str());
        proof {
            let a = imps.take(i as int);
            let b = imps.take(i + 1);
            assert(b =~= a.push(imps[i as int]));
            assert forall|m: Seq<char>, x: Seq<char>| #[trigger] graph.spec_imports(m).contains(x) <==> imports_edge(b, m, x) by {
                if imports_edge(b, m, x) {
                    let k = choose|k: int| 0 <= k < b.len() && b[k] == (m, x);
                    if k < a.len() {
                        assert(a[k] == (m, x));
                        assert(g0.spec_imports(m).contains(x));
                        if m == imps[i as int].0 {
                            let j = choose|j: int| 0 <= j < g0.spec_imports(m).len() && g0.spec_imports(m)[j] == x;
                            assert(graph.spec_imports(m)[j] == x);
                        }
                    } else {
                        assert(graph.spec_imports(m)[g0.spec_imports(m).len() as int] == x);
                    }
                }
                if graph.spec_imports(m).contains(x) {
                    let j = choose|j: int| 0 <= j < graph.spec_imports(m).len() && graph.spec_imports(m)[j] == x;
                    if m == imps[i as int].0 && j == g0.spec_imports(m).len() {
                        assert(b[i as int] == (m, x));
                    } else {
                        assert(g0.spec_imports(m)[j] == x);
                        assert(g0.spec_imports(m).contains(x));
                        let k = choose|k: int| 0 <= k < a.len() && a[k] == (m, x);
                        assert(b[k] == (m, x));
                    }
                }
            }
        }
        i += 1;
    }
    proof {
        assert(imps.take(imports.len() as int) =~= imps);
    }
    match detect_cycles(&graph) {
        Some(cycle) => {
            let msg = cycle.display();
            proof {
                let c = cycle.modules@.map_values(|s: String| s@);
                assert forall|k: int| 0 <= k < c.len() - 1 implies #[trigger] imports_edge(imps, c[k], c[k + 1]) by {
                    assert(graph.imports_graph().name_deps(c[k]).contains(c[k + 1]));
                    assert(graph.spec_imports(c[k]).contains(c[k + 1]));
                }
                assert(is_import_cycle(imps, c));
            }
            Err(ModuleError { message: msg })
        },
        None => {
            proof {
                assert forall|c: Seq<Seq<char>>| !#[trigger] is_import_cycle(imps, c) by {
                    if is_import_cycle(imps, c) {
                        assert forall|k: int| 0 <= k < c.len() - 1 implies #[trigger] graph.imports_graph().name_deps(c[k]).contains(
                            c[k + 1],
                        ) by {
                            assert(imports_edge(imps, c[k], c[k + 1]));
                            assert(graph.spec_imports(c[k]).contains(c[k + 1]));
                        }
                        assert(graph.imports_graph().is_name_cycle(c));
                    }
                }
            }
            Ok(())
        },
    }
}

/// The parts of a path between its `/` separators, from left to right;
/// empty parts are kept, so a path without `/` is one part.
pub open spec fn slash_parts(p: Seq<char>) -> Seq<Seq<char>>
    decreases p.len(),
{
    if p.len() == 0 {
        seq![seq![]]
    } else if p.last() == '/' {
        slash_parts(p.drop_last()).push(seq![])
    } else {
        let r = slash_parts(p.drop_last());
        r.update(r.len() - 1, r.last().push(p.last()))
    }
}

/// A path has at least one part.
proof fn lemma_slash_parts_len(p: Seq<char>)
    ensures
        slash_parts(p).len() >= 1,
    decreases p.len(),
{
    if p.len() > 0 {
        lemma_slash_parts_len(p.drop_last());
    }
}

/// A relative path of plain names separated by `/`: no part is empty, `.`
/// or `..`, and no character is `\` or `:`, so every platform splits it at
/// each `/` and nowhere else.
pub open spec fn plain_path(p: Seq<char>) -> bool {
    &&& p.len() > 0
    &&& !p.contains('\\')
    &&& !p.contains(':')
    &&& forall|i: int|
        0 <= i < slash_parts(p).len() ==> {
            &&& (#[trigger] slash_parts(p)[i]).len() > 0
            &&& slash_parts(p)[i] != seq!['.']
            &&& slash_parts(p)[i] != seq!['.', '.']
        }
}

/// A name without the text from its last `.` on; the name itself when it
/// has no `.`.
pub open spec fn before_last_dot(n: Seq<char>) -> Seq<char>
    decreases n.len(),
{
    if n.len() == 0 {
        n
    } else if n.last() == '.' {
        n.drop_last()
    } else {
        before_last_dot(n.drop_last())
    }
}

/// The stem of a file name: the whole name when it has no `.` or its only
/// `.` is its first character, else the part before its last `.`.
pub open spec fn stem_of(name: Seq<char>) -> Seq<char> {
    if !name.contains('.') || (name[0] == '.' && !name.drop_first().contains('.')) {
        name
    } else {
        before_last_dot(name)
    }
}

/// A plain path (see [`plain_path`]) behind a leading `./`.
pub open spec fn dot_path(p: Seq<char>) -> bool {
    p.len() > 2 && p[0] == '.' && p[1] == '/' && plain_path(p.subrange(2, p.len() as int))
}

/// The path behind the leading `./` of a [`dot_path`].
pub open spec fn dot_rest(p: Seq<char>) -> Seq<char> {
    p.subrange(2, p.len() as int)
}

/// Calls `std::path::Path::parent` and takes the parent as a string. std
/// documents the parent as the path without its last component, and `None`
/// for the empty path. So a plain path (see [`plain_path`]) has the path
/// without its last part as parent, the empty path when there is only one
/// part; a [`dot_path`] keeps its leading `./`, and is left with `.` when
/// only one part follows it. On other paths the result depends on the
/// platform and nothing is stated.
#[verifier::external_body]
fn path_parent(path: &str) -> (r: Option<String>)
    ensures
        path@.len() == 0 ==> r is None,
        dot_path(path@) ==> r is Some,
        dot_path(path@) && slash_parts(dot_rest(path@)).len() == 1 ==> r->0@ == seq!['.'],
        dot_path(path@) && slash_parts(dot_rest(path@)).len() > 1 ==> dot_path(r->0@) && slash_parts(dot_rest(r->0@))
            == slash_parts(dot_rest(path@)).drop_last(),
        plain_path(path@) ==> r is Some,
        plain_path(path@) && slash_parts(path@).len() == 1 ==> r->0@.len() == 0,
        plain_path(path@) && slash_parts(path@).len() > 1 ==> plain_path(r->0@) && slash_parts(r->0@) == slash_parts(
            path@,
        ).drop_last(),
{
    match std::path::Path::new(path).parent() {
        Some(p) => Some(p.to_string_lossy().into_owned()),
        None => None,
    }
}

/// Calls `std::path::Path::iter` and takes each component as a string. The
/// empty path has no component; a plain path (see [`plain_path`]) has its
/// parts between `/`; a leading `.` is kept as a component of its own, as
/// std documents, so `.` is one component and a [`dot_path`] has `.` and
/// then the parts behind it. On other paths the result depends on the
/// platform and nothing is stated.
#[verifier::external_body]
fn path_components(path: &str) -> (r: Vec<String>)
    ensures
        path@.len() == 0 ==> r.len() == 0,
        path@ == seq!['.'] ==> r@.map_values(|s: String| s@) == seq![seq!['.']],
        dot_path(path@) ==> r@.map_values(|s: String| s@) == seq![seq!['.']] + slash_parts(dot_rest(path@)),
        plain_path(path@) ==> r@.map_values(|s: String| s@) == slash_parts(path@),
{
    let mut v = Vec::new();
    for c in std::path::Path::new(path).iter() {
        v.push(c.to_string_lossy().into_owned());
    }
    v
}

/// Calls `std::path::Path::file_stem` and takes the stem as a string. The
/// empty path has no file name and so no stem; for a plain path (see
/// [`plain_path`]), or one behind a leading `./`, std documents the stem of
/// its last part as [`stem_of`] says. On other paths the result depends on
/// the platform and nothing is stated.
#[verifier::external_body]
fn path_file_stem(path: &str) -> (r: Option<String>)
    ensures
        path@.len() == 0 ==> r is None,
        dot_path(path@) ==> r is Some,
        dot_path(path@) ==> r->0@ == stem_of(slash_parts(dot_rest(path@)).last()),
        plain_path(path@) ==> r is Some,
        plain_path(path@) ==> r->0@ == stem_of(slash_parts(path@).last()),
{
    match std::path::Path::new(path).file_stem() {
        Some(s) => Some(s.to_string_lossy().into_owned()),
        None => None,
    }
}

/// The first `n` parts of a module's directory, without `src` and `.`.
pub open spec fn module_dirs(parts: Seq<Seq<char>>, n: int) -> Seq<Seq<char>>
    decreases n,
{
    if n <= 0 {
        seq![]
    } else if parts[n - 1] == "src"@ || parts[n - 1] == "."@ {
        module_dirs(parts, n - 1)
    } else {
        module_dirs(parts, n - 1).push(parts[n - 1])
    }
}

/// A leading `.` part adds nothing to a module's directory.
proof fn lemma_module_dirs_drop_dot(d: Seq<Seq<char>>)
    ensures
        module_dirs(seq![seq!['.']] + d, d.len() + 1int) == module_dirs(d, d.len() as int),
{
    lemma_module_dirs_shift(d, d.len() as int);
}

proof fn lemma_module_dirs_shift(d: Seq<Seq<char>>, n: int)
    requires
        0 <= n <= d.len(),
    ensures
        module_dirs(seq![seq!['.']] + d, n + 1) == module_dirs(d, n),
    decreases n,
{
    let e = seq![seq!['.']] + d;
    if n == 0 {
        reveal_strlit(".");
        assert(e[0] == "."@);
        assert(module_dirs(e, 0) == Seq::<Seq<char>>::empty());
    } else {
        lemma_module_dirs_shift(d, n - 1);
        assert(e[n] == d[n - 1]);
    }
}

/// The name of a module from the parts of its directory and the stem of
/// its file: the parts other than `src` and `.`, then the stem, joined with
/// dots; `Main` when there is nothing to join.
pub open spec fn module_name_of(parts: Seq<Seq<char>>, stem: Option<Seq<char>>) -> Seq<char> {
    let dirs = module_dirs(parts, parts.len() as int);
    let all = match stem {
        Some(s) => dirs.push(s),
        None => dirs,
    };
    if all.len() == 0 {
        "Main"@
    } else {
        dotted(all)
    }
}

/// The name of a module from the parts of its directory and the stem of its
/// file, as [`module_name_of`] says.
pub fn module_name_from_parts(parts: &Vec<String>, stem: Option<String>) -> (r: String)
    ensures
        r@ == module_name_of(parts@.map_values(|s: String| s@), match stem {
            Some(s) => Some(s@),
            None => None,
        }),
{
    let ghost pv = parts@.map_values(|s: String| s@);
    let mut components: Vec<String> = Vec::new();
    let mut i: usize = 0;
    while i < parts.len()
        invariant
            i <= parts.len(),
            pv == parts@.map_values(|s: String| s@),
            components@.map_values(|s: String| s@) == module_dirs(pv, i as int),
        decreases parts.len() - i,
    {
        let p = &parts[i];
        if !str_eq(p.as_str(), "src") && !str_eq(p.as_str(), ".") {
            let ghost c0 = components@;
            components.push(p.clone());
            assert(components@.map_values(|s: String| s@) =~= c0.map_values(|s: String| s@).push(p@));
        }
        i += 1;
    }
    match stem {
        Some(s) => {
            let ghost c0 = components@;
            let ghost sv = s@;
            components.push(s);
            assert(components@.map_values(|s: String| s@) =~= c0.map_values(|s: String| s@).push(sv));
        },
        None => {},
    }
    if components.len() == 0 {
        owned("Main")
    } else {
        proof {
            reveal_strlit(".");
            assert("."@ =~= seq!['.']);
        }
        join(&components, ".")
    }
}

/// The name of the module a file at a plain path holds: the parts of its
/// directory, then the stem of its file, as [`module_name_of`] says.
pub open spec fn path_module_name(p: Seq<char>) -> Seq<char> {
    module_name_of(slash_parts(p).drop_last(), Some(stem_of(slash_parts(p).last())))
}

/// The name of the module a file at `path` holds: the directories of its
/// path other than `src` and `.`, then the file's stem, joined with dots;
/// `Main` when there is nothing to join.
pub fn module_name_from_path(path: &str) -> (r: String)
    ensures
        plain_path(path@) ==> r@ == path_module_name(path@),
        dot_path(path@) ==> r@ == path_module_name(dot_rest(path@)),
        path@.len() == 0 ==> r@ == "Main"@,
{
    proof {
        lemma_slash_parts_len(path@);
        lemma_slash_parts_len(dot_rest(path@));
    }
    let parent = path_parent(path);
    let parts = match &parent {
        Some(q) => path_components(q.as_str()),
        None => Vec::new(),
    };
    proof {
        if plain_path(path@) {
            assert(parts@.map_values(|s: String| s@) =~= slash_parts(path@).drop_last());
        }
        if dot_path(path@) {
            let d = slash_parts(dot_rest(path@)).drop_last();
            if slash_parts(dot_rest(path@)).len() == 1 {
                assert(parts@.map_values(|s: String| s@) =~= seq![seq!['.']] + d);
            } else {
                let q = parent->0@;
                assert(slash_parts(dot_rest(q)) == d);
                assert(parts@.map_values(|s: String| s@) =~= seq![seq!['.']] + d);
            }
            lemma_module_dirs_drop_dot(d);
        }
        if path@.len() == 0 {
            assert(parts@.map_values(|s: String| s@) =~= Seq::<Seq<char>>::empty());
        }
    }
    let stem = path_file_stem(path);
    module_name_from_parts(&parts, stem)
}

/// Accepts a module only in the file whose path gives its name.
pub fn check_module_name(path: &str, actual_name: &str, expected_name: &str) -> (r: Result<(), ModuleError>)
    ensures
        r is Ok <==> actual_name@ == expected_name@,
        r matches Err(e) ==> e.message@ == "Module name mismatch: file '"@ + path@ + "' defines module '"@ + actual_name@
            + "' but expected '"@ + expected_name@ + "'"@,
{
    if !str_eq(actual_name, expected_name) {
        let a = concat("Module name mismatch: file '", path);
        let b = concat(a.as_str(), "' defines module '");
        let c = concat(b.as_str(), actual_name);
        let d = concat(c.as_str(), "' but expected '");
        let e = concat(d.as_str(), expected_name);
        return Err(ModuleError { message: concat(e.as_str(), "'") });
    }
    Ok(())
}

/// The module name that [`module_name_from_path`] is stated to give for a
/// path: for a plain path, one behind a leading `./` and the empty path.
pub open spec fn stated_module_name(p: Seq<char>) -> Option<Seq<char>> {
    if plain_path(p) {
        Some(path_module_name(p))
    } else if dot_path(p) {
        Some(path_module_name(dot_rest(p)))
    } else if p.len() == 0 {
        Some("Main"@)
    } else {
        None
    }
}

/// Accepts a module only in the file whose path gives its name, as
/// [`module_name_from_path`] reads it.
pub fn validate_module_name(path: &str, expected_name: &str) -> (r: Result<(), ModuleError>)
    ensures
        r matches Err(e) ==> exists|actual: Seq<char>|
            actual != expected_name@ && e.message@ == "Module name mismatch: file '"@ + path@ + "' defines module '"@
                + actual + "' but expected '"@ + expected_name@ + "'"@,
        stated_module_name(path@) matches Some(n) ==> (r is Ok <==> n == expected_name@),
        stated_module_name(path@) matches Some(n) ==> (r matches Err(e) ==> e.message@ == "Module name mismatch: file '"@
            + path@ + "' defines module '"@ + n + "' but expected '"@ + expected_name@ + "'"@),
{
    let actual_name = module_name_from_path(path);
    let r = check_module_name(path, actual_name.as_str(), expected_name);
    assert(stated_module_name(path@) matches Some(n) ==> actual_name@ == n);
    r
}

} // verus!
