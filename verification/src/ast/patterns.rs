//! Patterns of match and view arms.
use vstd::prelude::*;

use crate::ast::types::Multiplicity;
use crate::text::owned;

verus! {

#[derive(Debug, PartialEq, Eq, Hash)]
pub enum Pattern {
    Wildcard,
    Var(String),
    Constructor(String, Vec<Pattern>),
}

/// The mathematical value of a [`Pattern`].
pub enum SpecPattern {
    Wildcard,
    Var(Seq<char>),
    Constructor(Seq<char>, Seq<SpecPattern>),
}

impl Pattern {
    pub open spec fn spec_view(self) -> SpecPattern
        decreases self,
    {
        match self {
            Pattern::Wildcard => SpecPattern::Wildcard,
            Pattern::Var(n) => SpecPattern::Var(n@),
            Pattern::Constructor(n, args) => SpecPattern::Constructor(
                n@,
                Seq::new(args.len() as nat, |i: int| if 0 <= i < args.len() { args@[i].spec_view() } else { SpecPattern::Wildcard }),
            ),
        }
    }
}

impl View for Pattern {
    type V = SpecPattern;

    open spec fn view(&self) -> SpecPattern {
        self.spec_view()
    }
}

/// The view of a constructor pattern lists the views of its arguments.
pub proof fn lemma_constructor_view(n: String, args: Vec<Pattern>)
    ensures
        Pattern::Constructor(n, args)@ matches SpecPattern::Constructor(m, a) && m == n@ && a.len() == args.len()
            && forall|i: int| 0 <= i < args.len() ==> a[i] == #[trigger] args@[i]@,
{
    let p = Pattern::Constructor(n, args);
    assert(p@ == SpecPattern::Constructor(n@, p@->Constructor_1));
    assert(forall|i: int| 0 <= i < args.len() ==> p@->Constructor_1[i] == args@[i]@);
}

/// The variables that a pattern binds, from left to right.
pub open spec fn spec_bindings(p: SpecPattern) -> Seq<Seq<char>>
    decreases p, 0int,
{
    match p {
        SpecPattern::Wildcard => seq![],
        SpecPattern::Var(n) => seq![n],
        SpecPattern::Constructor(_, args) => bindings_from(args, 0),
    }
}

/// The variables bound by the patterns `args[i..]`, from left to right.
pub open spec fn bindings_from(args: Seq<SpecPattern>, i: int) -> Seq<Seq<char>>
    decreases args, args.len() - i,
{
    if 0 <= i < args.len() {
        spec_bindings(args[i]) + bindings_from(args, i + 1)
    } else {
        seq![]
    }
}

/// Whether the pattern binds the variable `x`.
pub open spec fn spec_binds(p: SpecPattern, x: Seq<char>) -> bool
    decreases p,
{
    match p {
        SpecPattern::Wildcard => false,
        SpecPattern::Var(n) => n == x,
        SpecPattern::Constructor(_, args) => exists|i: int| 0 <= i < args.len() && spec_binds(#[trigger] args[i], x),
    }
}

/// The definition of [`spec_binds`] for a constructor pattern.
pub proof fn lemma_binds_constructor(s: Seq<char>, a: Seq<SpecPattern>, x: Seq<char>)
    ensures
        spec_binds(SpecPattern::Constructor(s, a), x) == exists|j: int| 0 <= j < a.len() && spec_binds(#[trigger] a[j], x),
{
    broadcast use vstd::seq::group_seq_axioms;
    let c = SpecPattern::Constructor(s, a);
    assert(decreases_to!(c => c->Constructor_1));
}

/// A pattern binds a variable, so that `multiplicity_of` gives it
/// multiplicity one, exactly when the variable is among the names that
/// `bindings` lists; otherwise `multiplicity_of` gives none.
pub proof fn law_multiplicity_of_agrees_with_bindings(p: SpecPattern, x: Seq<char>)
    ensures
        spec_binds(p, x) <==> spec_bindings(p).contains(x),
    decreases p, 0int,
{
    match p {
        SpecPattern::Wildcard => {},
        SpecPattern::Var(n) => {
            assert(seq![n][0] == n);
        },
        SpecPattern::Constructor(s, a) => {
            assert(decreases_to!(p => a));
            lemma_bindings_from_contains(a, 0, x);
            lemma_binds_constructor(s, a, x);
        },
    }
}

/// The names bound by `a[i..]` hold `x` exactly when one of those patterns
/// binds it.
proof fn lemma_bindings_from_contains(a: Seq<SpecPattern>, i: int, x: Seq<char>)
    requires
        0 <= i,
    ensures
        bindings_from(a, i).contains(x) <==> exists|j: int| i <= j < a.len() && spec_binds(#[trigger] a[j], x),
    decreases a, a.len() - i,
{
    if i < a.len() {
        assert(decreases_to!(a => a[i]));
        law_multiplicity_of_agrees_with_bindings(a[i], x);
        lemma_bindings_from_contains(a, i + 1, x);
        let h = spec_bindings(a[i]);
        let t = bindings_from(a, i + 1);
        assert(bindings_from(a, i) == h + t);
        if (h + t).contains(x) {
            let k = choose|k: int| 0 <= k < (h + t).len() && (h + t)[k] == x;
            if k < h.len() {
                assert(h[k] == x);
            } else {
                assert(t[k - h.len()] == x);
            }
        }
        if h.contains(x) {
            let k = choose|k: int| 0 <= k < h.len() && h[k] == x;
            assert((h + t)[k] == x);
        }
        if t.contains(x) {
            let k = choose|k: int| 0 <= k < t.len() && t[k] == x;
            assert((h + t)[k + h.len()] == x);
        }
        if exists|j: int| i <= j < a.len() && spec_binds(#[trigger] a[j], x) {
            let j = choose|j: int| i <= j < a.len() && spec_binds(#[trigger] a[j], x);
            if j > i {
                assert(i + 1 <= j);
            }
        }
    }
}

impl Pattern {
    pub fn wildcard() -> (p: Pattern)
        ensures
            p@ == SpecPattern::Wildcard,
    {
        Pattern::Wildcard
    }

    pub fn var(name: &str) -> (p: Pattern)
        ensures
            p@ == SpecPattern::Var(name@),
    {
        Pattern::Var(owned(name))
    }

    pub fn constructor(name: &str, args: Vec<Pattern>) -> (p: Pattern)
        ensures
            p@ matches SpecPattern::Constructor(n, a) && n == name@ && a.len() == args.len()
                && forall|i: int| 0 <= i < args.len() ==> a[i] == #[trigger] args@[i]@,
    {
        let n = owned(name);
        proof {
            lemma_constructor_view(n, args);
        }
        Pattern::Constructor(n, args)
    }

    pub fn is_wildcard(&self) -> (r: bool)
        ensures
            r == (self@ is Wildcard),
    {
        match self {
            Pattern::Wildcard => true,
            _ => false,
        }
    }

    /// The variables the pattern binds, each with multiplicity one, from left
    /// to right.
    pub fn bindings(&self) -> (r: Vec<(String, Multiplicity)>)
        ensures
            r.len() == spec_bindings(self@).len(),
            forall|i: int| 0 <= i < r.len() ==> (#[trigger] r@[i]).0@ == spec_bindings(self@)[i] && r@[i].1 == Multiplicity::One,
        decreases self, 1nat,
    {
        match self {
            Pattern::Wildcard => Vec::new(),
            Pattern::Var(name) => {
                let mut v = Vec::new();
                v.push((name.clone(), Multiplicity::One));
                v
            }
            Pattern::Constructor(n, args) => {
                proof {
                    lemma_constructor_view(*n, *args);
                }
                let ghost a = self@->Constructor_1;
                let mut out: Vec<(String, Multiplicity)> = Vec::new();
                let mut i: usize = 0;
                while i < args.len()
                    invariant
                        i <= args.len(),
                        a.len() == args.len(),
                        forall|k: int| 0 <= k < args.len() ==> a[k] == #[trigger] args@[k]@,
                        self@ == SpecPattern::Constructor(n@, a),
                        *self == Pattern::Constructor(*n, *args),
                        out@.len() + bindings_from(a, i as int).len() == bindings_from(a, 0).len(),
                        forall|k: int| 0 <= k < out.len() ==> (#[trigger] out@[k]).0@ == bindings_from(a, 0)[k] && out@[k].1 == Multiplicity::One,
                        forall|k: int| 0 <= k < bindings_from(a, i as int).len() ==> bindings_from(a, 0)[out@.len() + k] == #[trigger] bindings_from(a, i as int)[k],
                    decreases args.len() - i,
                {
                    proof {
                        broadcast use vstd::std_specs::vec::group_vec_axioms;
                        assert(decreases_to!(*args => args@[i as int]));
                    }
                    let b = args[i].bindings();
                    let ghost before = out@;
                    let ghost rest = bindings_from(a, i as int);
                    assert(rest == spec_bindings(a[i as int]) + bindings_from(a, i + 1));
                    assert(forall|k: int| 0 <= k < before.len() ==> (#[trigger] before[k]).0@ == bindings_from(a, 0)[k] && before[k].1 == Multiplicity::One);
                    assert(forall|k: int| 0 <= k < rest.len() ==> bindings_from(a, 0)[before.len() + k] == #[trigger] rest[k]);
                    let mut j: usize = 0;
                    while j < b.len()
                        invariant
                            j <= b.len(),
                            b.len() == spec_bindings(a[i as int]).len(),
                            forall|k: int| 0 <= k < b.len() ==> (#[trigger] b@[k]).0@ == spec_bindings(a[i as int])[k] && b@[k].1 == Multiplicity::One,
                            out@.len() == before.len() + j,
                            forall|k: int| 0 <= k < before.len() ==> out@[k] == before[k],
                            forall|k: int| 0 <= k < j ==> (#[trigger] out@[before.len() + k]).0@ == spec_bindings(a[i as int])[k] && out@[before.len() + k].1 == Multiplicity::One,
                        decreases b.len() - j,
                    {
                        out.push((b[j].0.clone(), Multiplicity::One));
                        j += 1;
                    }
                    assert forall|k: int| 0 <= k < out.len() implies (#[trigger] out@[k]).0@ == bindings_from(a, 0)[k] && out@[k].1 == Multiplicity::One by {
                        if k < before.len() {
                            assert(out@[k] == before[k]);
                            assert(before[k].0@ == bindings_from(a, 0)[k]);
                        } else {
                            let kk = k - before.len();
                            assert(k == before.len() + kk);
                            assert(out@[before.len() + kk].0@ == spec_bindings(a[i as int])[kk]);
                            assert(rest[kk] == spec_bindings(a[i as int])[kk]);
                            assert(bindings_from(a, 0)[before.len() + kk] == rest[kk]);
                        }
                    }
                    assert forall|k: int| 0 <= k < bindings_from(a, i + 1).len() implies bindings_from(a, 0)[out@.len() + k] == #[trigger] bindings_from(a, i + 1)[k] by {
                        assert(rest[b.len() + k] == bindings_from(a, i + 1)[k]);
                    }
                    i += 1;
                }
                out
            }
        }
    }

    /// The multiplicity with which the pattern binds `var`: one if it binds it.
    pub fn multiplicity_of(&self, var: &str) -> (r: Option<Multiplicity>)
        ensures
            r == (if spec_binds(self@, var@) { Some(Multiplicity::One) } else { None }),
        decreases self, 1nat,
    {
        match self {
            Pattern::Wildcard => None,
            Pattern::Var(name) => {
                if crate::text::str_eq(name.as_str(), var) {
                    Some(Multiplicity::One)
                } else {
                    None
                }
            }
            Pattern::Constructor(n, args) => {
                proof {
                    lemma_constructor_view(*n, *args);
                }
                let ghost a = self@->Constructor_1;
                let mut i: usize = 0;
                while i < args.len()
                    invariant
                        i <= args.len(),
                        a.len() == args.len(),
                        forall|k: int| 0 <= k < args.len() ==> a[k] == #[trigger] args@[k]@,
                        self@ == SpecPattern::Constructor(n@, a),
                        *self == Pattern::Constructor(*n, *args),
                        forall|k: int| 0 <= k < i ==> !spec_binds(#[trigger] a[k], var@),
                    decreases args.len() - i,
                {
                    proof {
                        broadcast use vstd::std_specs::vec::group_vec_axioms;
                        assert(decreases_to!(*self => *args));
                        assert(decreases_to!(*args => args@[i as int]));
                    }
                    if let Some(m) = args[i].multiplicity_of(var) {
                        assert(spec_binds(a[i as int], var@));
                        proof {
                            lemma_binds_constructor(n@, a, var@);
                        }
                        return Some(m);
                    }
                    i += 1;
                }
                proof {
                    lemma_binds_constructor(n@, a, var@);
                }
                None
            }
        }
    }

    /// A variable or constructor pattern binds once, a wildcard never.
    pub fn binding_multiplicity(&self) -> (r: Multiplicity)
        ensures
            r == (if self@ is Wildcard { Multiplicity::Zero } else { Multiplicity::One }),
    {
        match self {
            Pattern::Wildcard => Multiplicity::Zero,
            Pattern::Var(_) => Multiplicity::One,
            Pattern::Constructor(_, _) => Multiplicity::One,
        }
    }
}


/// A copy of a list of patterns, element by element.
pub fn clone_patterns(v: &Vec<Pattern>) -> (r: Vec<Pattern>)
    ensures
        r.len() == v.len(),
        forall|i: int| 0 <= i < v.len() ==> #[trigger] r@[i]@ == v@[i]@,
    decreases v, 0nat,
{
    let mut r: Vec<Pattern> = Vec::new();
    let mut i: usize = 0;
    while i < v.len()
        invariant
            i <= v.len(),
            r.len() == i,
            forall|j: int| 0 <= j < i ==> #[trigger] r@[j]@ == v@[j]@,
        decreases v.len() - i,
    {
        proof {
            broadcast use vstd::std_specs::vec::group_vec_axioms;
            assert(decreases_to!(*v => v@[i as int]));
        }
        r.push(v[i].clone());
        i += 1;
    }
    r
}

impl Clone for Pattern {
    fn clone(&self) -> (r: Pattern)
        ensures
            r@ == self@,
        decreases self, 1nat,
    {
        match self {
            Pattern::Wildcard => Pattern::Wildcard,
            Pattern::Var(n) => Pattern::Var(n.clone()),
            Pattern::Constructor(n, args) => {
                let c = clone_patterns(args);
                let n2 = n.clone();
                proof {
                    lemma_constructor_view(n2, c);
                    lemma_constructor_view(*n, *args);
                    assert forall|i: int| 0 <= i < args.len() implies Pattern::Constructor(n2, c)@->Constructor_1[i]
                        == self@->Constructor_1[i] by {
                        assert(c@[i]@ == args@[i]@);
                    }
                    assert(Pattern::Constructor(n2, c)@->Constructor_1 =~= self@->Constructor_1);
                }
                Pattern::Constructor(n2, c)
            },
        }
    }
}

} // verus!
