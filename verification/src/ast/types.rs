//! Types of λ◦ and their multiplicities.
use vstd::prelude::*;

use crate::text::{concat, joined, owned};

verus! {

/// The built-in value kinds.
#[derive(Debug, Clone, Copy, PartialEq, Eq, Hash, Structural)]
pub enum NativeKind {
    Int,
    Float,
    Bool,
    Char,
    Unit,
}

/// How often a bound variable may be used: never, exactly once, any number
/// of times, or only borrowed.
#[derive(Debug, Clone, Copy, PartialEq, Eq, Hash, Structural)]
pub enum Multiplicity {
    Zero,
    One,
    Omega,
    Borrow,
}

impl Multiplicity {
    /// The symbol a multiplicity is written with in source text.
    pub open spec fn spec_from_symbol(s: Seq<char>) -> Option<Multiplicity> {
        if s == seq!['0'] {
            Some(Multiplicity::Zero)
        } else if s == seq!['1'] {
            Some(Multiplicity::One)
        } else if s == seq!['ω'] || s == seq!['o', 'm', 'e', 'g', 'a'] {
            Some(Multiplicity::Omega)
        } else if s == seq!['&'] {
            Some(Multiplicity::Borrow)
        } else {
            None
        }
    }

    pub fn from_symbol(s: &str) -> (r: Option<Multiplicity>)
        ensures
            r == Self::spec_from_symbol(s@),
    {
        let c = crate::text::chars_of(s);
        if c.len() == 1 {
            let ch = c[0];
            assert(c@ =~= seq![ch]);
            if ch == '0' {
                return Some(Multiplicity::Zero);
            } else if ch == '1' {
                return Some(Multiplicity::One);
            } else if ch == 'ω' {
                return Some(Multiplicity::Omega);
            } else if ch == '&' {
                return Some(Multiplicity::Borrow);
            }
            return None;
        }
        if c.len() == 5 && c[0] == 'o' && c[1] == 'm' && c[2] == 'e' && c[3] == 'g' && c[4] == 'a' {
            assert(c@ =~= seq!['o', 'm', 'e', 'g', 'a']);
            return Some(Multiplicity::Omega);
        }
        assert(c@.len() != 5 || c@ != seq!['o', 'm', 'e', 'g', 'a']) by {
            if c@.len() == 5 && c@ == seq!['o', 'm', 'e', 'g', 'a'] {
                assert(c@[0] == 'o' && c@[1] == 'm' && c@[2] == 'e' && c@[3] == 'g' && c@[4] == 'a');
            }
        }
        None
    }

    pub fn is_quantity(&self) -> (r: bool)
        ensures
            r == (*self != Multiplicity::Borrow),
    {
        match self {
            Multiplicity::Zero | Multiplicity::One | Multiplicity::Omega => true,
            Multiplicity::Borrow => false,
        }
    }

    pub fn is_borrow(&self) -> (r: bool)
        ensures
            r == (*self == Multiplicity::Borrow),
    {
        match self {
            Multiplicity::Borrow => true,
            _ => false,
        }
    }
}

/// A type and its view are built by the same constructor.
pub proof fn lemma_view_variant(t: Type)
    ensures
        (t is Native) == (t@ is Native),
        (t is Arrow) == (t@ is Arrow),
        (t is Forall) == (t@ is Forall),
        (t is TraitConstraint) == (t@ is TraitConstraint),
        (t is Inductive) == (t@ is Inductive),
        (t is Borrow) == (t@ is Borrow),
        (t is Product) == (t@ is Product),
        (t is Sum) == (t@ is Sum),
        (t is Var) == (t@ is Var),
        (t is App) == (t@ is App),
{
}

#[derive(Debug, Clone, PartialEq, Eq, Hash)]
pub struct TraitName(pub String);

impl TraitName {
    pub fn new(name: &str) -> (r: TraitName)
        ensures
            r.0@ == name@,
    {
        TraitName(owned(name))
    }
}

#[derive(Debug, Clone, PartialEq, Eq, Hash)]
pub struct TypeName(pub String);

impl TypeName {
    pub fn new(name: &str) -> (r: TypeName)
        ensures
            r.0@ == name@,
    {
        TypeName(owned(name))
    }
}

#[derive(Debug, Clone, PartialEq, Eq, Hash)]
pub struct MethodName(pub String);

impl MethodName {
    pub fn new(name: &str) -> (r: MethodName)
        ensures
            r.0@ == name@,
    {
        MethodName(owned(name))
    }
}

/// The types of λ◦.
#[derive(Debug, PartialEq, Eq, Hash)]
pub enum Type {
    Native(NativeKind),
    Arrow(Multiplicity, Box<Type>, Box<Type>),
    Forall(String, Box<Type>),
    TraitConstraint(TraitName, Box<Type>),
    Inductive(TypeName, Vec<Type>),
    Borrow(Box<Type>),
    Product(Box<Type>, Box<Type>),
    Sum(Box<Type>, Box<Type>),
    Var(String),
    App(Box<Type>, Vec<Type>),
}

/// The mathematical value of a [`Type`]: names are character sequences and
/// parameter lists are sequences.
pub enum SpecType {
    Native(NativeKind),
    Arrow(Multiplicity, Box<SpecType>, Box<SpecType>),
    Forall(Seq<char>, Box<SpecType>),
    TraitConstraint(Seq<char>, Box<SpecType>),
    Inductive(Seq<char>, Seq<SpecType>),
    Borrow(Box<SpecType>),
    Product(Box<SpecType>, Box<SpecType>),
    Sum(Box<SpecType>, Box<SpecType>),
    Var(Seq<char>),
    App(Box<SpecType>, Seq<SpecType>),
}

impl Type {
    pub open spec fn spec_view(self) -> SpecType
        decreases self,
    {
        match self {
            Type::Native(k) => SpecType::Native(k),
            Type::Arrow(m, a, r) => SpecType::Arrow(m, Box::new(a.spec_view()), Box::new(r.spec_view())),
            Type::Forall(n, t) => SpecType::Forall(n@, Box::new(t.spec_view())),
            Type::TraitConstraint(n, t) => SpecType::TraitConstraint(n.0@, Box::new(t.spec_view())),
            Type::Inductive(n, ps) => SpecType::Inductive(
                n.0@,
                Seq::new(ps.len() as nat, |i: int| if 0 <= i < ps.len() { ps@[i].spec_view() } else { SpecType::Native(NativeKind::Unit) }),
            ),
            Type::Borrow(t) => SpecType::Borrow(Box::new(t.spec_view())),
            Type::Product(a, b) => SpecType::Product(Box::new(a.spec_view()), Box::new(b.spec_view())),
            Type::Sum(a, b) => SpecType::Sum(Box::new(a.spec_view()), Box::new(b.spec_view())),
            Type::Var(n) => SpecType::Var(n@),
            Type::App(t, args) => SpecType::App(
                Box::new(t.spec_view()),
                Seq::new(args.len() as nat, |i: int| if 0 <= i < args.len() { args@[i].spec_view() } else { SpecType::Native(NativeKind::Unit) }),
            ),
        }
    }
}

/// A copy of a list of types, element by element.
pub fn clone_types(v: &Vec<Type>) -> (r: Vec<Type>)
    ensures
        r.len() == v.len(),
        forall|i: int| 0 <= i < v.len() ==> #[trigger] r@[i]@ == v@[i]@,
    decreases v, 0nat,
{
    let mut r: Vec<Type> = Vec::new();
    let mut i: usize = 0;
    while i < v.len()
        invariant
            i <= v.len(),
            r.len() == i,
            forall|j: int| 0 <= j < i ==> #[trigger] r@[j]@ == v@[j]@,
        decreases v.len() - i,
    {
        proof {
            broadcast use vstd::std_specs::vec::group_vec_axioms;
            assert(decreases_to!(*v => v@[i as int]));
        }
        r.push(v[i].clone());
        i += 1;
    }
    r
}

impl Clone for Type {
    fn clone(&self) -> (r: Type)
        ensures
            r@ == self@,
        decreases self, 1nat,
    {
        let r = match self {
            Type::Native(k) => Type::Native(*k),
            Type::Arrow(m, a, b) => Type::Arrow(*m, Box::new((**a).clone()), Box::new((**b).clone())),
            Type::Forall(n, t) => Type::Forall(n.clone(), Box::new((**t).clone())),
            Type::TraitConstraint(n, t) => Type::TraitConstraint(TraitName(n.0.clone()), Box::new((**t).clone())),
            Type::Inductive(n, ps) => {
                let c = clone_types(ps);
                let r = Type::Inductive(TypeName(n.0.clone()), c);
                assert(r@->Inductive_1.len() == self@->Inductive_1.len());
                assert(forall|i: int| 0 <= i < c.len() ==> r@->Inductive_1[i] == c@[i]@);
                assert(forall|i: int| 0 <= i < c.len() ==> self@->Inductive_1[i] == ps@[i]@);
                assert(r@->Inductive_1 =~= self@->Inductive_1);
                r
            }
            Type::Borrow(t) => Type::Borrow(Box::new((**t).clone())),
            Type::Product(a, b) => Type::Product(Box::new((**a).clone()), Box::new((**b).clone())),
            Type::Sum(a, b) => Type::Sum(Box::new((**a).clone()), Box::new((**b).clone())),
            Type::Var(n) => Type::Var(n.clone()),
            Type::App(t, args) => {
                let c = clone_types(args);
                let r = Type::App(Box::new((**t).clone()), c);
                assert(forall|i: int| 0 <= i < c.len() ==> r@->App_1[i] == c@[i]@);
                assert(forall|i: int| 0 <= i < c.len() ==> self@->App_1[i] == args@[i]@);
                assert(r@->App_1 =~= self@->App_1);
                r
            }
        };
        r
    }
}

impl View for Type {
    type V = SpecType;

    open spec fn view(&self) -> SpecType {
        self.spec_view()
    }
}

/// Whether a type mentions a type variable or a quantifier.
pub open spec fn spec_is_polymorphic(t: SpecType) -> bool
    decreases t,
{
    match t {
        SpecType::Var(_) => true,
        SpecType::Forall(_, _) => true,
        SpecType::Arrow(_, a, r) => spec_is_polymorphic(*a) || spec_is_polymorphic(*r),
        SpecType::TraitConstraint(_, t) => spec_is_polymorphic(*t),
        SpecType::Inductive(_, ps) => exists|i: int| 0 <= i < ps.len() && spec_is_polymorphic(#[trigger] ps[i]),
        SpecType::Borrow(t) => spec_is_polymorphic(*t),
        SpecType::Product(a, b) => spec_is_polymorphic(*a) || spec_is_polymorphic(*b),
        SpecType::Sum(a, b) => spec_is_polymorphic(*a) || spec_is_polymorphic(*b),
        SpecType::App(t, args) => spec_is_polymorphic(*t) || exists|i: int|
            0 <= i < args.len() && spec_is_polymorphic(#[trigger] args[i]),
        SpecType::Native(_) => false,
    }
}

/// The definition of [`spec_is_polymorphic`] for inductive types and
/// applications.
pub proof fn lemma_polymorphic_lists(n: Seq<char>, t: SpecType, a: Seq<SpecType>)
    ensures
        spec_is_polymorphic(SpecType::Inductive(n, a)) == exists|i: int| 0 <= i < a.len() && spec_is_polymorphic(#[trigger] a[i]),
        spec_is_polymorphic(SpecType::App(Box::new(t), a)) == (spec_is_polymorphic(t) || exists|i: int|
            0 <= i < a.len() && spec_is_polymorphic(#[trigger] a[i])),
{
    broadcast use vstd::seq::group_seq_axioms;
    let c = SpecType::Inductive(n, a);
    assert(decreases_to!(c => c->Inductive_1));
    let d = SpecType::App(Box::new(t), a);
    assert(decreases_to!(d => d->App_1));
}

impl Type {
    pub fn arrow(arg: Type, mult: Multiplicity, ret: Type) -> (r: Type)
        ensures
            r@ == SpecType::Arrow(mult, Box::new(arg@), Box::new(ret@)),
    {
        Type::Arrow(mult, Box::new(arg), Box::new(ret))
    }

    pub fn for_all(name: &str, ty: Type) -> (r: Type)
        ensures
            r@ == SpecType::Forall(name@, Box::new(ty@)),
    {
        Type::Forall(owned(name), Box::new(ty))
    }

    pub fn trait_constraint(trait_name: TraitName, ty: Type) -> (r: Type)
        ensures
            r@ == SpecType::TraitConstraint(trait_name.0@, Box::new(ty@)),
    {
        Type::TraitConstraint(trait_name, Box::new(ty))
    }

    pub fn inductive(name: &str, params: Vec<Type>) -> (r: Type)
        ensures
            r@ matches SpecType::Inductive(n, ps) && n == name@ && ps.len() == params.len()
                && forall|i: int| 0 <= i < params.len() ==> ps[i] == #[trigger] params@[i]@,
    {
        Type::Inductive(TypeName::new(name), params)
    }

    pub fn borrow(ty: Type) -> (r: Type)
        ensures
            r@ == SpecType::Borrow(Box::new(ty@)),
    {
        Type::Borrow(Box::new(ty))
    }

    pub fn product(left: Type, right: Type) -> (r: Type)
        ensures
            r@ == SpecType::Product(Box::new(left@), Box::new(right@)),
    {
        Type::Product(Box::new(left), Box::new(right))
    }

    pub fn sum(left: Type, right: Type) -> (r: Type)
        ensures
            r@ == SpecType::Sum(Box::new(left@), Box::new(right@)),
    {
        Type::Sum(Box::new(left), Box::new(right))
    }

    pub fn native(kind: NativeKind) -> (r: Type)
        ensures
            r@ == SpecType::Native(kind),
    {
        Type::Native(kind)
    }

    pub fn unit() -> (r: Type)
        ensures
            r@ == SpecType::Native(NativeKind::Unit),
    {
        Type::Native(NativeKind::Unit)
    }

    pub fn bool() -> (r: Type)
        ensures
            r@ == SpecType::Native(NativeKind::Bool),
    {
        Type::Native(NativeKind::Bool)
    }

    pub fn int_type() -> (r: Type)
        ensures
            r@ == SpecType::Native(NativeKind::Int),
    {
        Type::Native(NativeKind::Int)
    }

    pub fn float() -> (r: Type)
        ensures
            r@ == SpecType::Native(NativeKind::Float),
    {
        Type::Native(NativeKind::Float)
    }

    pub fn char() -> (r: Type)
        ensures
            r@ == SpecType::Native(NativeKind::Char),
    {
        Type::Native(NativeKind::Char)
    }

    pub fn app(ty: Type, args: Vec<Type>) -> (r: Type)
        ensures
            r@ matches SpecType::App(t, a) && *t == ty@ && a.len() == args.len()
                && forall|i: int| 0 <= i < args.len() ==> a[i] == #[trigger] args@[i]@,
    {
        Type::App(Box::new(ty), args)
    }

    /// Check if a type contains type variables (is polymorphic)
    pub fn is_polymorphic(&self) -> (r: bool)
        ensures
            r == spec_is_polymorphic(self@),
        decreases self, 1nat,
    {
        match self {
            Type::Var(n) => {
                assert(self@ == SpecType::Var(n@));
                true
            },
            Type::Forall(_, _) => true,
            Type::Arrow(_, arg, ret) => arg.is_polymorphic() || ret.is_polymorphic(),
            Type::TraitConstraint(_, ty) => ty.is_polymorphic(),
            Type::Inductive(_, params) => {
                let r = any_polymorphic(params);
                proof {
                    let ps = self@->Inductive_1;
                    assert(self@ == SpecType::Inductive(self@->Inductive_0, ps));
                    lemma_polymorphic_lists(self@->Inductive_0, SpecType::Native(NativeKind::Unit), ps);
                    assert(forall|i: int| 0 <= i < params.len() ==> ps[i] == params@[i]@);
                    if r {
                        let k = choose|k: int| 0 <= k < params.len() && spec_is_polymorphic(#[trigger] params@[k]@);
                        assert(spec_is_polymorphic(ps[k]));
                    }
                }
                r
            }
            Type::Borrow(ty) => ty.is_polymorphic(),
            Type::Product(left, right) => left.is_polymorphic() || right.is_polymorphic(),
            Type::Sum(left, right) => left.is_polymorphic() || right.is_polymorphic(),
            Type::App(ty, args) => {
                let a = ty.is_polymorphic();
                let b = any_polymorphic(args);
                proof {
                    let ps = self@->App_1;
                    assert(self@ == SpecType::App(Box::new(ty@), ps));
                    lemma_polymorphic_lists(seq![], ty@, ps);
                    assert(forall|i: int| 0 <= i < args.len() ==> ps[i] == args@[i]@);
                    if b {
                        let k = choose|k: int| 0 <= k < args.len() && spec_is_polymorphic(#[trigger] args@[k]@);
                        assert(spec_is_polymorphic(ps[k]));
                    }
                }
                a || b
            }
            Type::Native(_) => false,
        }
    }

    /// Structural equality of the types' values.
    pub fn equals(&self, other: &Type) -> (r: bool)
        ensures
            r == (self@ == other@),
        decreases self, 1nat,
    {
        match (self, other) {
            (Type::Native(a), Type::Native(b)) => {
                let r = *a == *b;
                assert(self@ == SpecType::Native(*a));
                assert(r == (self@ == other@));
                r
            }
            (Type::Arrow(m1, a1, r1), Type::Arrow(m2, a2, r2)) => {
                let r = *m1 == *m2 && a1.equals(a2) && r1.equals(r2);
                assert(self@ == SpecType::Arrow(*m1, Box::new(a1@), Box::new(r1@)));
                assert(other@ == SpecType::Arrow(*m2, Box::new(a2@), Box::new(r2@)));
                assert(r == (self@ == other@));
                r
            }
            (Type::Forall(n1, t1), Type::Forall(n2, t2)) => {
                let r = *n1 == *n2 && t1.equals(t2);
                assert(self@ == SpecType::Forall(n1@, Box::new(t1@)));
                assert(other@ == SpecType::Forall(n2@, Box::new(t2@)));
                assert(r == (self@ == other@));
                r
            }
            (Type::TraitConstraint(n1, t1), Type::TraitConstraint(n2, t2)) => {
                let r = n1.0 == n2.0 && t1.equals(t2);
                assert(self@ == SpecType::TraitConstraint(n1.0@, Box::new(t1@)));
                assert(other@ == SpecType::TraitConstraint(n2.0@, Box::new(t2@)));
                assert(r == (self@ == other@));
                r
            }
            (Type::Inductive(n1, p1), Type::Inductive(n2, p2)) => {
                let a = n1.0 == n2.0;
                let b = all_equal(p1, p2);
                assert(self@ == SpecType::Inductive(n1.0@, self@->Inductive_1));
                assert(other@ == SpecType::Inductive(n2.0@, other@->Inductive_1));
                assert(self@->Inductive_1.len() == p1.len() && other@->Inductive_1.len() == p2.len());
                assert(forall|i: int| 0 <= i < p1.len() ==> self@->Inductive_1[i] == p1@[i]@);
                assert(forall|i: int| 0 <= i < p2.len() ==> other@->Inductive_1[i] == p2@[i]@);
                if b {
                    assert(self@->Inductive_1 =~= other@->Inductive_1);
                } else if p1.len() == p2.len() {
                    let ghost k = choose|k: int| 0 <= k < p1.len() && p1@[k]@ != p2@[k]@;
                    assert(self@->Inductive_1[k] != other@->Inductive_1[k]);
                }
                assert((a && b) == (self@ == other@));
                a && b
            }
            (Type::Borrow(t1), Type::Borrow(t2)) => {
                let r = t1.equals(t2);
                assert(self@ == SpecType::Borrow(Box::new(t1@)));
                assert(other@ == SpecType::Borrow(Box::new(t2@)));
                assert(r == (self@ == other@));
                r
            }
            (Type::Product(a1, b1), Type::Product(a2, b2)) => {
                let r = a1.equals(a2) && b1.equals(b2);
                assert(self@ == SpecType::Product(Box::new(a1@), Box::new(b1@)));
                assert(other@ == SpecType::Product(Box::new(a2@), Box::new(b2@)));
                assert(r == (self@ == other@));
                r
            }
            (Type::Sum(a1, b1), Type::Sum(a2, b2)) => {
                let r = a1.equals(a2) && b1.equals(b2);
                assert(self@ == SpecType::Sum(Box::new(a1@), Box::new(b1@)));
                assert(other@ == SpecType::Sum(Box::new(a2@), Box::new(b2@)));
                assert(r == (self@ == other@));
                r
            }
            (Type::Var(n1), Type::Var(n2)) => {
                let r = *n1 == *n2;
                assert(self@ == SpecType::Var(n1@));
                assert(other@ == SpecType::Var(n2@));
                assert(r == (self@ == other@));
                r
            }
            (Type::App(t1, p1), Type::App(t2, p2)) => {
                let a = t1.equals(t2);
                let b = all_equal(p1, p2);
                assert(self@ == SpecType::App(Box::new(t1@), self@->App_1));
                assert(other@ == SpecType::App(Box::new(t2@), other@->App_1));
                assert(self@->App_1.len() == p1.len() && other@->App_1.len() == p2.len());
                assert(forall|i: int| 0 <= i < p1.len() ==> self@->App_1[i] == p1@[i]@);
                assert(forall|i: int| 0 <= i < p2.len() ==> other@->App_1[i] == p2@[i]@);
                if b {
                    assert(self@->App_1 =~= other@->App_1);
                } else if p1.len() == p2.len() {
                    let ghost k = choose|k: int| 0 <= k < p1.len() && p1@[k]@ != p2@[k]@;
                    assert(self@->App_1[k] != other@->App_1[k]);
                }
                assert((a && b) == (self@ == other@));
                a && b
            }
            _ => {
                proof {
                    lemma_view_variant(*self);
                    lemma_view_variant(*other);
                }
                false
            }
        }
    }
}

/// Whether some type of the list is polymorphic.
fn any_polymorphic(v: &Vec<Type>) -> (r: bool)
    ensures
        r == exists|i: int| 0 <= i < v.len() && spec_is_polymorphic(#[trigger] v@[i]@),
    decreases v, 0nat,
{
    let mut i: usize = 0;
    while i < v.len()
        invariant
            i <= v.len(),
            forall|j: int| 0 <= j < i ==> !spec_is_polymorphic(#[trigger] v@[j]@),
        decreases v.len() - i,
    {
        proof {
            broadcast use vstd::std_specs::vec::group_vec_axioms;
            assert(decreases_to!(*v => v@[i as int]));
        }
        if v[i].is_polymorphic() {
            return true;
        }
        i += 1;
    }
    false
}

/// Whether two lists of types have the same length and equal elements.
fn all_equal(a: &Vec<Type>, b: &Vec<Type>) -> (r: bool)
    ensures
        r == (a.len() == b.len() && forall|i: int| 0 <= i < a.len() ==> #[trigger] a@[i]@ == b@[i]@),
    decreases a, 0nat,
{
    if a.len() != b.len() {
        return false;
    }
    let mut i: usize = 0;
    while i < a.len()
        invariant
            i <= a.len(),
            a.len() == b.len(),
            forall|j: int| 0 <= j < i ==> #[trigger] a@[j]@ == b@[j]@,
        decreases a.len() - i,
    {
        proof {
            broadcast use vstd::std_specs::vec::group_vec_axioms;
            assert(decreases_to!(*a => a@[i as int]));
        }
        if !a[i].equals(&b[i]) {
            return false;
        }
        i += 1;
    }
    true
}


/// How a native kind is written.
pub open spec fn native_text(k: NativeKind) -> Seq<char> {
    match k {
        NativeKind::Int => "Int"@,
        NativeKind::Float => "Float"@,
        NativeKind::Bool => "Bool"@,
        NativeKind::Char => "Char"@,
        NativeKind::Unit => "Unit"@,
    }
}

/// Reading back the symbol a multiplicity is written with gives the same
/// multiplicity.
pub proof fn law_from_symbol_inverts_to_text(m: Multiplicity)
    ensures
        Multiplicity::spec_from_symbol(mult_text(m)) == Some(m),
{
    reveal_strlit("0");
    reveal_strlit("1");
    reveal_strlit("ω");
    reveal_strlit("&");
    assert("0"@ =~= seq!['0']);
    assert("1"@ =~= seq!['1']);
    assert("ω"@ =~= seq!['ω']);
    assert("&"@ =~= seq!['&']);
    let t = mult_text(m);
    assert(t.len() == 1);
    if t != seq!['0'] {
        assert(t[0] != '0');
    }
    if t != seq!['1'] {
        assert(t[0] != '1');
    }
    if t != seq!['ω'] {
        assert(t[0] != 'ω');
    }
    assert(t != seq!['o', 'm', 'e', 'g', 'a']);
}

/// How a multiplicity is written.
pub open spec fn mult_text(m: Multiplicity) -> Seq<char> {
    match m {
        Multiplicity::Zero => "0"@,
        Multiplicity::One => "1"@,
        Multiplicity::Omega => "ω"@,
        Multiplicity::Borrow => "&"@,
    }
}

/// How a type is written.
pub open spec fn type_text(t: SpecType) -> Seq<char>
    decreases t,
{
    match t {
        SpecType::Native(k) => native_text(k),
        SpecType::Arrow(m, a, r) => "("@ + type_text(*a) + " →^"@ + mult_text(m) + " "@ + type_text(*r) + ")"@,
        SpecType::Forall(n, b) => "∀"@ + n + ". "@ + type_text(*b),
        SpecType::TraitConstraint(n, b) => n + " "@ + type_text(*b),
        SpecType::Inductive(n, ps) => if ps.len() == 0 {
            n
        } else {
            n + " "@ + joined(types_texts(ps), " "@)
        },
        SpecType::Borrow(b) => "&"@ + type_text(*b),
        SpecType::Product(a, b) => "("@ + type_text(*a) + ", "@ + type_text(*b) + ")"@,
        SpecType::Sum(a, b) => type_text(*a) + " + "@ + type_text(*b),
        SpecType::Var(n) => n,
        SpecType::App(b, args) => if args.len() == 0 {
            type_text(*b)
        } else {
            type_text(*b) + "<"@ + joined(types_texts(args), ", "@) + ">"@
        },
    }
}

/// How each type of a list is written.
pub open spec fn types_texts(ps: Seq<SpecType>) -> Seq<Seq<char>>
    decreases ps,
{
    Seq::new(ps.len(), |i: int| if 0 <= i < ps.len() { type_text(ps[i]) } else { Seq::empty() })
}

/// The values of a list of types.
pub open spec fn types_view(v: Seq<Type>) -> Seq<SpecType> {
    v.map_values(|t: Type| t@)
}

impl NativeKind {
    /// How the kind is written.
    pub fn to_text(&self) -> (r: String)
        ensures
            r@ == native_text(*self),
    {
        match self {
            NativeKind::Int => owned("Int"),
            NativeKind::Float => owned("Float"),
            NativeKind::Bool => owned("Bool"),
            NativeKind::Char => owned("Char"),
            NativeKind::Unit => owned("Unit"),
        }
    }
}

impl Multiplicity {
    /// How the multiplicity is written.
    pub fn to_text(&self) -> (r: String)
        ensures
            r@ == mult_text(*self),
    {
        match self {
            Multiplicity::Zero => owned("0"),
            Multiplicity::One => owned("1"),
            Multiplicity::Omega => owned("ω"),
            Multiplicity::Borrow => owned("&"),
        }
    }
}

/// The texts of a list of types, with `sep` between each two.
fn types_text(v: &Vec<Type>, sep: &str) -> (r: String)
    ensures
        r@ == joined(types_texts(types_view(v@)), sep@),
    decreases v, 0nat,
{
    let ghost ts = types_texts(types_view(v@));
    let mut r = String::new();
    let mut i: usize = 0;
    while i < v.len()
        invariant
            i <= v.len(),
            ts == types_texts(types_view(v@)),
            r@ == joined(ts.take(i as int), sep@),
        decreases v.len() - i,
    {
        proof {
            broadcast use vstd::std_specs::vec::group_vec_axioms;
            assert(decreases_to!(*v => v@[i as int]));
            assert(ts.take(i + 1).drop_last() =~= ts.take(i as int));
        }
        let t = v[i].to_text();
        assert(ts[i as int] == t@);
        if i == 0 {
            r = t;
            assert(ts.take(1) =~= seq![ts[0]]);
        } else {
            let with_sep = concat(r.as_str(), sep);
            r = concat(with_sep.as_str(), t.as_str());
        }
        i += 1;
    }
    assert(ts.take(v.len() as int) =~= ts);
    r
}

impl Type {
    /// How the type is written.
    pub fn to_text(&self) -> (r: String)
        ensures
            r@ == type_text(self@),
        decreases self, 1nat,
    {
        let r = match self {
            Type::Native(k) => {
                assert(self@ == SpecType::Native(*k));
                k.to_text()
            },
            Type::Arrow(m, a, b) => {
                let x = concat("(", a.to_text().as_str());
                let x = concat(x.as_str(), " →^");
                let x = concat(x.as_str(), m.to_text().as_str());
                let x = concat(x.as_str(), " ");
                let x = concat(x.as_str(), b.to_text().as_str());
                assert(self@ == SpecType::Arrow(*m, Box::new(a@), Box::new(b@)));
                concat(x.as_str(), ")")
            },
            Type::Forall(n, b) => {
                let x = concat("∀", n.as_str());
                let x = concat(x.as_str(), ". ");
                assert(self@ == SpecType::Forall(n@, Box::new(b@)));
                concat(x.as_str(), b.to_text().as_str())
            },
            Type::TraitConstraint(n, b) => {
                let x = concat(n.0.as_str(), " ");
                let r = concat(x.as_str(), b.to_text().as_str());
                assert(self@ == SpecType::TraitConstraint(n.0@, Box::new(b@)));
                r
            },
            Type::Inductive(n, ps) => {
                proof {
                    let v = self@->Inductive_1;
                    assert(self@ == SpecType::Inductive(n.0@, v));
                    assert(v =~= types_view(ps@));
                }
                let r = if ps.len() == 0 {
                    n.0.clone()
                } else {
                    let x = concat(n.0.as_str(), " ");
                    concat(x.as_str(), types_text(ps, " ").as_str())
                };
                assert(r@ == type_text(self@));
                r
            },
            Type::Borrow(b) => {
                assert(self@ == SpecType::Borrow(Box::new(b@)));
                concat("&", b.to_text().as_str())
            },
            Type::Product(a, b) => {
                let x = concat("(", a.to_text().as_str());
                let x = concat(x.as_str(), ", ");
                let x = concat(x.as_str(), b.to_text().as_str());
                assert(self@ == SpecType::Product(Box::new(a@), Box::new(b@)));
                concat(x.as_str(), ")")
            },
            Type::Sum(a, b) => {
                assert(self@ == SpecType::Sum(Box::new(a@), Box::new(b@)));
                let x = concat(a.to_text().as_str(), " + ");
                concat(x.as_str(), b.to_text().as_str())
            },
            Type::Var(n) => {
                assert(self@ == SpecType::Var(n@));
                n.clone()
            },
            Type::App(b, args) => {
                proof {
                    let v = self@->App_1;
                    assert(self@ == SpecType::App(Box::new(b@), v));
                    assert(v =~= types_view(args@));
                }
                let r = if args.len() == 0 {
                    b.to_text()
                } else {
                    let x = concat(b.to_text().as_str(), "<");
                    let x = concat(x.as_str(), types_text(args, ", ").as_str());
                    concat(x.as_str(), ">")
                };
                assert(r@ == type_text(self@));
                r
            },
        };
        r
    }
}

} // verus!
