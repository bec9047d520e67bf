//! Terms, literals and declarations of λ◦.
use vstd::prelude::*;

use crate::ast::patterns::{Pattern, SpecPattern};
use crate::ast::types::{MethodName, Multiplicity, NativeKind, SpecType, TraitName, Type};
use crate::runtime::primitives::PrimOp;
use crate::text::owned;

verus! {

/// A literal value. A floating-point number is held as the digits it was
/// written with; its value is read where floating-point numbers are
/// computed with.
#[derive(Debug, PartialEq, Eq)]
pub enum Literal {
    Int(i64),
    Float(String),
    Bool(bool),
    Char(char),
    Str(String),
    Unit,
    Prim(PrimOp),
}

/// `Int → Int → Int`, each argument taken once.
pub open spec fn int_binop() -> SpecType {
    arrow1(SpecType::Native(NativeKind::Int), arrow1(SpecType::Native(NativeKind::Int), SpecType::Native(NativeKind::Int)))
}

/// A function type whose argument is used once.
pub open spec fn arrow1(a: SpecType, r: SpecType) -> SpecType {
    SpecType::Arrow(Multiplicity::One, Box::new(a), Box::new(r))
}

/// `a → a → r`.
pub open spec fn binop(a: SpecType, r: SpecType) -> SpecType {
    arrow1(a, arrow1(a, r))
}

/// `Result Int DivisionByZero`.
pub open spec fn division_result() -> SpecType {
    SpecType::Inductive(
        "Result"@,
        seq![SpecType::Native(NativeKind::Int), SpecType::Inductive("DivisionByZero"@, seq![])],
    )
}

/// The inductive type of strings.
pub open spec fn string_type() -> SpecType {
    SpecType::Inductive("String"@, seq![])
}

/// The type of a primitive operation used as a value.
pub open spec fn prim_type(op: PrimOp) -> SpecType {
    let it = SpecType::Native(NativeKind::Int);
    let ft = SpecType::Native(NativeKind::Float);
    let bt = SpecType::Native(NativeKind::Bool);
    let ct = SpecType::Native(NativeKind::Char);
    match op {
        PrimOp::INeg | PrimOp::IHash => arrow1(it, it),
        PrimOp::IAdd | PrimOp::ISub | PrimOp::IMul => binop(it, it),
        PrimOp::IDiv | PrimOp::IRem => arrow1(it, arrow1(it, division_result())),
        PrimOp::IEq | PrimOp::IFEq | PrimOp::IGt | PrimOp::IGe | PrimOp::ILt | PrimOp::ILe => binop(it, bt),
        PrimOp::FAdd | PrimOp::FSub | PrimOp::FMul | PrimOp::FDiv | PrimOp::FRem => binop(ft, ft),
        PrimOp::FNeg => arrow1(ft, ft),
        PrimOp::FEq | PrimOp::FNe | PrimOp::FGt | PrimOp::FGe | PrimOp::FLt | PrimOp::FLe => binop(ft, bt),
        PrimOp::Not | PrimOp::BNot => arrow1(bt, bt),
        PrimOp::And | PrimOp::BAnd | PrimOp::Or | PrimOp::BOr | PrimOp::BEq => binop(bt, bt),
        PrimOp::Chr => arrow1(it, ct),
        PrimOp::Ord | PrimOp::CHash => arrow1(ct, it),
        PrimOp::CEq | PrimOp::COrd => binop(ct, bt),
        PrimOp::BHash => arrow1(bt, it),
        PrimOp::IntToString => arrow1(it, string_type()),
        PrimOp::FloatToString => arrow1(ft, string_type()),
        PrimOp::CharToString => arrow1(ct, string_type()),
    }
}

/// The type of a literal.
pub open spec fn lit_type(l: SpecLiteral) -> SpecType {
    match l {
        SpecLiteral::Int(_) => SpecType::Native(NativeKind::Int),
        SpecLiteral::Float(_) => SpecType::Native(NativeKind::Float),
        SpecLiteral::Bool(_) => SpecType::Native(NativeKind::Bool),
        SpecLiteral::Char(_) => SpecType::Native(NativeKind::Char),
        SpecLiteral::Str(_) => string_type(),
        SpecLiteral::Unit => SpecType::Native(NativeKind::Unit),
        SpecLiteral::Prim(op) => prim_type(op),
    }
}

fn arrow_one(a: Type, r: Type) -> (t: Type)
    ensures
        t@ == arrow1(a@, r@),
{
    Type::arrow(a, Multiplicity::One, r)
}

fn bin_op(a: &Type, r: Type) -> (t: Type)
    ensures
        t@ == binop(a@, r@),
{
    arrow_one(a.clone(), arrow_one(a.clone(), r))
}

fn named_type(name: &str, params: Vec<Type>) -> (t: Type)
    ensures
        t@ == SpecType::Inductive(name@, crate::ast::types::types_view(params@)),
        params@.len() == 0 ==> t@ == SpecType::Inductive(name@, seq![]),
{
    let ghost v = crate::ast::types::types_view(params@);
    let t = Type::inductive(name, params);
    assert(t@->Inductive_1 =~= v);
    assert(params@.len() == 0 ==> v =~= seq![]);
    t
}

/// The value of a [`Literal`]: digits and strings as character sequences.
pub enum SpecLiteral {
    Int(i64),
    Float(Seq<char>),
    Bool(bool),
    Char(char),
    Str(Seq<char>),
    Unit,
    Prim(PrimOp),
}

impl View for Literal {
    type V = SpecLiteral;

    open spec fn view(&self) -> SpecLiteral {
        match self {
            Literal::Int(n) => SpecLiteral::Int(*n),
            Literal::Float(s) => SpecLiteral::Float(s@),
            Literal::Bool(b) => SpecLiteral::Bool(*b),
            Literal::Char(c) => SpecLiteral::Char(*c),
            Literal::Str(s) => SpecLiteral::Str(s@),
            Literal::Unit => SpecLiteral::Unit,
            Literal::Prim(op) => SpecLiteral::Prim(*op),
        }
    }
}

impl Literal {
    /// A copy of the literal.
    pub fn copy(&self) -> (r: Literal)
        ensures
            r@ == self@,
    {
        match self {
            Literal::Int(n) => Literal::Int(*n),
            Literal::Float(s) => Literal::Float(s.clone()),
            Literal::Bool(b) => Literal::Bool(*b),
            Literal::Char(c) => Literal::Char(*c),
            Literal::Str(s) => Literal::Str(s.clone()),
            Literal::Unit => Literal::Unit,
            Literal::Prim(op) => Literal::Prim(*op),
        }
    }

    /// The type of the literal.
    pub fn ty(&self) -> (r: Type)
        ensures
            r@ == lit_type(self@),
    {
        let it = Type::int_type();
        let ft = Type::float();
        let bt = Type::bool();
        let ct = Type::char();
        match self {
            Literal::Int(_) => it,
            Literal::Float(_) => ft,
            Literal::Bool(_) => bt,
            Literal::Char(_) => ct,
            Literal::Str(_) => named_type("String", Vec::new()),
            Literal::Unit => Type::unit(),
            Literal::Prim(op) => match op {
                PrimOp::INeg | PrimOp::IHash => arrow_one(it.clone(), it),
                PrimOp::IAdd | PrimOp::ISub | PrimOp::IMul => bin_op(&it, it.clone()),
                PrimOp::IDiv | PrimOp::IRem => {
                    let dz = named_type("DivisionByZero", Vec::new());
                    assert(dz@ == SpecType::Inductive("DivisionByZero"@, seq![])) by {
                        assert(dz@->Inductive_1 =~= seq![]);
                    }
                    let mut ps = Vec::new();
                    ps.push(it.clone());
                    ps.push(dz);
                    let res = named_type("Result", ps);
                    assert(res@ == division_result()) by {
                        assert(crate::ast::types::types_view(ps@) =~= seq![ps@[0]@, ps@[1]@]);
                        assert(crate::ast::types::types_view(ps@) =~= division_result()->Inductive_1);
                    }
                    arrow_one(it.clone(), arrow_one(it, res))
                },
                PrimOp::IEq | PrimOp::IFEq | PrimOp::IGt | PrimOp::IGe | PrimOp::ILt | PrimOp::ILe => bin_op(&it, bt),
                PrimOp::FAdd | PrimOp::FSub | PrimOp::FMul | PrimOp::FDiv | PrimOp::FRem => bin_op(&ft, ft.clone()),
                PrimOp::FNeg => arrow_one(ft.clone(), ft),
                PrimOp::FEq | PrimOp::FNe | PrimOp::FGt | PrimOp::FGe | PrimOp::FLt | PrimOp::FLe => bin_op(&ft, bt),
                PrimOp::Not | PrimOp::BNot => arrow_one(bt.clone(), bt),
                PrimOp::And | PrimOp::BAnd | PrimOp::Or | PrimOp::BOr | PrimOp::BEq => bin_op(&bt, bt.clone()),
                PrimOp::Chr => arrow_one(it, ct),
                PrimOp::Ord | PrimOp::CHash => arrow_one(ct, it),
                PrimOp::CEq | PrimOp::COrd => bin_op(&ct, bt),
                PrimOp::BHash => arrow_one(bt, it),
                PrimOp::IntToString => {
                    let s = named_type("String", Vec::new());
                    assert(s@ == string_type()) by {
                        assert(s@->Inductive_1 =~= seq![]);
                    }
                    arrow_one(it, s)
                },
                PrimOp::FloatToString => {
                    let s = named_type("String", Vec::new());
                    assert(s@ == string_type()) by {
                        assert(s@->Inductive_1 =~= seq![]);
                    }
                    arrow_one(ft, s)
                },
                PrimOp::CharToString => {
                    let s = named_type("String", Vec::new());
                    assert(s@ == string_type()) by {
                        assert(s@->Inductive_1 =~= seq![]);
                    }
                    arrow_one(ct, s)
                },
            },
        }
    }
}

/// One arm of a match or view: a pattern and the body it selects.
#[derive(Debug, PartialEq)]
pub struct Arm {
    pub pattern: Pattern,
    pub body: Box<Term>,
}

impl Arm {
    pub fn new(pattern: Pattern, body: Term) -> (r: Arm)
        ensures
            r.pattern == pattern,
            *r.body == body,
    {
        Arm { pattern, body: Box::new(body) }
    }
}

/// Whether a declaration is visible outside its module.
#[derive(Debug, Clone, Copy, PartialEq, Eq, Structural)]
pub enum Visibility {
    Private,
    Public,
}

/// How a `use` declaration brings a module's names into scope.
#[derive(Debug, PartialEq)]
pub enum UseMode {
    Qualified,
    Selective(Vec<String>),
    Unqualified,
    Aliased(String),
}

/// The value of a [`UseMode`].
pub enum SpecUseMode {
    Qualified,
    Selective(Seq<Seq<char>>),
    Unqualified,
    Aliased(Seq<char>),
}

impl View for UseMode {
    type V = SpecUseMode;

    open spec fn view(&self) -> SpecUseMode {
        match self {
            UseMode::Qualified => SpecUseMode::Qualified,
            UseMode::Selective(names) => SpecUseMode::Selective(names@.map_values(|s: String| s@)),
            UseMode::Unqualified => SpecUseMode::Unqualified,
            UseMode::Aliased(a) => SpecUseMode::Aliased(a@),
        }
    }
}

/// A copy of a list of strings.
pub fn clone_strings(v: &Vec<String>) -> (r: Vec<String>)
    ensures
        r@.map_values(|s: String| s@) == v@.map_values(|s: String| s@),
{
    let mut r: Vec<String> = Vec::new();
    let mut i: usize = 0;
    while i < v.len()
        invariant
            i <= v.len(),
            r@.map_values(|s: String| s@) == v@.take(i as int).map_values(|s: String| s@),
        decreases v.len() - i,
    {
        let ghost r0 = r@;
        r.push(v[i].clone());
        proof {
            assert(r@.map_values(|s: String| s@) =~= r0.map_values(|s: String| s@).push(v@[i as int]@));
            assert(v@.take(i + 1).map_values(|s: String| s@) =~= v@.take(i as int).map_values(|s: String| s@).push(
                v@[i as int]@,
            ));
        }
        i += 1;
    }
    assert(v@.take(v.len() as int) =~= v@);
    r
}

impl UseMode {
    /// A copy with the same value.
    pub fn copy(&self) -> (r: UseMode)
        ensures
            r@ == self@,
    {
        match self {
            UseMode::Qualified => UseMode::Qualified,
            UseMode::Selective(names) => UseMode::Selective(clone_strings(names)),
            UseMode::Unqualified => UseMode::Unqualified,
            UseMode::Aliased(a) => UseMode::Aliased(a.clone()),
        }
    }
}

/// A top-level declaration of a module.
#[derive(Debug, PartialEq)]
pub enum Decl {
    TypeDecl { visibility: Visibility, name: String, params: Vec<String>, ty: Type, transparent: bool },
    ValDecl { visibility: Visibility, name: String, ty: Type, term: Box<Term> },
    TraitDecl { visibility: Visibility, name: String, params: Vec<String>, methods: Vec<MethodSig> },
    ImplDecl { ty: Type, trait_name: TraitName, methods: Vec<MethodDef> },
    UseDecl { path: Vec<String>, mode: UseMode },
    NoPrelude,
}

/// The names of a list of strings, as character sequences.
pub open spec fn names_view(v: Seq<String>) -> Seq<Seq<char>> {
    v.map_values(|s: String| s@)
}

/// The value of a [`Decl`]: names as character sequences, a method
/// signature as its name and type, a method definition as its name, type
/// and body.
pub enum SpecDecl {
    TypeDecl(Visibility, Seq<char>, Seq<Seq<char>>, SpecType, bool),
    ValDecl(Visibility, Seq<char>, SpecType, SpecTerm),
    TraitDecl(Visibility, Seq<char>, Seq<Seq<char>>, Seq<(Seq<char>, SpecType)>),
    ImplDecl(SpecType, Seq<char>, Seq<(Seq<char>, SpecType, SpecTerm)>),
    UseDecl(Seq<Seq<char>>, SpecUseMode),
    NoPrelude,
}

/// The values of a list of method signatures.
pub open spec fn sigs_view(v: Seq<MethodSig>) -> Seq<(Seq<char>, SpecType)> {
    v.map_values(|m: MethodSig| (m.name.0@, m.ty@))
}

/// The values of a list of method definitions.
pub open spec fn defs_view(v: Seq<MethodDef>) -> Seq<(Seq<char>, SpecType, SpecTerm)> {
    v.map_values(|m: MethodDef| (m.name.0@, m.ty@, (*m.term)@))
}

impl View for Decl {
    type V = SpecDecl;

    open spec fn view(&self) -> SpecDecl {
        match self {
            Decl::TypeDecl { visibility, name, params, ty, transparent } => SpecDecl::TypeDecl(
                *visibility,
                name@,
                names_view(params@),
                ty@,
                *transparent,
            ),
            Decl::ValDecl { visibility, name, ty, term } => SpecDecl::ValDecl(*visibility, name@, ty@, (**term)@),
            Decl::TraitDecl { visibility, name, params, methods } => SpecDecl::TraitDecl(
                *visibility,
                name@,
                names_view(params@),
                sigs_view(methods@),
            ),
            Decl::ImplDecl { ty, trait_name, methods } => SpecDecl::ImplDecl(ty@, trait_name.0@, defs_view(methods@)),
            Decl::UseDecl { path, mode } => SpecDecl::UseDecl(names_view(path@), mode@),
            Decl::NoPrelude => SpecDecl::NoPrelude,
        }
    }
}

/// The signature of a trait method.
#[derive(Debug, PartialEq)]
pub struct MethodSig {
    pub name: MethodName,
    pub ty: Type,
}

/// A method of an implementation, with its type and body.
#[derive(Debug, PartialEq)]
pub struct MethodDef {
    pub name: MethodName,
    pub ty: Type,
    pub term: Box<Term>,
}

/// The terms of λ◦.
#[derive(Debug, PartialEq)]
pub enum Term {
    Var(String),
    Abs { var: String, multiplicity: Multiplicity, annot: Type, body: Box<Term> },
    App { fun: Box<Term>, arg: Box<Term> },
    Let { var: String, multiplicity: Multiplicity, annot: Type, value: Box<Term>, body: Box<Term> },
    Match { scrutinee: Box<Term>, arms: Vec<Arm> },
    View { scrutinee: Box<Term>, arms: Vec<Arm> },
    TraitMethod { trait_name: TraitName, method: MethodName, arg: Box<Term> },
    Constructor(String, Vec<Term>),
    NativeLiteral(Literal),
    PrimCall { prim_name: String, args: Vec<Term> },
}

/// The mathematical value of a [`Term`]: names are character sequences,
/// lists are sequences, and an arm is a pair of a pattern and a body.
pub enum SpecTerm {
    Var(Seq<char>),
    Abs(Seq<char>, Multiplicity, SpecType, Box<SpecTerm>),
    App(Box<SpecTerm>, Box<SpecTerm>),
    Let(Seq<char>, Multiplicity, SpecType, Box<SpecTerm>, Box<SpecTerm>),
    Match(Box<SpecTerm>, Seq<(SpecPattern, SpecTerm)>),
    View(Box<SpecTerm>, Seq<(SpecPattern, SpecTerm)>),
    TraitMethod(Seq<char>, Seq<char>, Box<SpecTerm>),
    Constructor(Seq<char>, Seq<SpecTerm>),
    NativeLiteral(SpecLiteral),
    PrimCall(Seq<char>, Seq<SpecTerm>),
}

impl Term {
    pub open spec fn spec_view(self) -> SpecTerm
        decreases self,
    {
        match self {
            Term::Var(n) => SpecTerm::Var(n@),
            Term::Abs { var, multiplicity, annot, body } => SpecTerm::Abs(var@, multiplicity, annot@, Box::new(body.spec_view())),
            Term::App { fun, arg } => SpecTerm::App(Box::new(fun.spec_view()), Box::new(arg.spec_view())),
            Term::Let { var, multiplicity, annot, value, body } => SpecTerm::Let(
                var@,
                multiplicity,
                annot@,
                Box::new(value.spec_view()),
                Box::new(body.spec_view()),
            ),
            Term::Match { scrutinee, arms } => SpecTerm::Match(
                Box::new(scrutinee.spec_view()),
                Seq::new(
                    arms.len() as nat,
                    |i: int|
                        if 0 <= i < arms.len() {
                            (arms@[i].pattern@, arms@[i].body.spec_view())
                        } else {
                            (SpecPattern::Wildcard, SpecTerm::NativeLiteral(SpecLiteral::Unit))
                        },
                ),
            ),
            Term::View { scrutinee, arms } => SpecTerm::View(
                Box::new(scrutinee.spec_view()),
                Seq::new(
                    arms.len() as nat,
                    |i: int|
                        if 0 <= i < arms.len() {
                            (arms@[i].pattern@, arms@[i].body.spec_view())
                        } else {
                            (SpecPattern::Wildcard, SpecTerm::NativeLiteral(SpecLiteral::Unit))
                        },
                ),
            ),
            Term::TraitMethod { trait_name, method, arg } => SpecTerm::TraitMethod(
                trait_name.0@,
                method.0@,
                Box::new(arg.spec_view()),
            ),
            Term::Constructor(n, args) => SpecTerm::Constructor(
                n@,
                Seq::new(
                    args.len() as nat,
                    |i: int| if 0 <= i < args.len() { args@[i].spec_view() } else { SpecTerm::NativeLiteral(SpecLiteral::Unit) },
                ),
            ),
            Term::NativeLiteral(l) => SpecTerm::NativeLiteral(l@),
            Term::PrimCall { prim_name, args } => SpecTerm::PrimCall(
                prim_name@,
                Seq::new(
                    args.len() as nat,
                    |i: int| if 0 <= i < args.len() { args@[i].spec_view() } else { SpecTerm::NativeLiteral(SpecLiteral::Unit) },
                ),
            ),
        }
    }
}

impl View for Term {
    type V = SpecTerm;

    open spec fn view(&self) -> SpecTerm {
        self.spec_view()
    }
}

/// The values of a list of arms.
pub open spec fn arms_view(arms: Seq<Arm>) -> Seq<(SpecPattern, SpecTerm)> {
    arms.map_values(|a: Arm| (a.pattern@, a.body@))
}

/// The values of a list of terms.
pub open spec fn terms_view(ts: Seq<Term>) -> Seq<SpecTerm> {
    ts.map_values(|t: Term| t@)
}

/// The view of a term with lists holds the views of the list's elements.
pub proof fn lemma_term_lists(t: Term)
    ensures
        t matches Term::Match { scrutinee, arms } ==> t@ == SpecTerm::Match(Box::new(scrutinee@), arms_view(arms@)),
        t matches Term::View { scrutinee, arms } ==> t@ == SpecTerm::View(Box::new(scrutinee@), arms_view(arms@)),
        t matches Term::Constructor(n, args) ==> t@ == SpecTerm::Constructor(n@, terms_view(args@)),
        t matches Term::PrimCall { prim_name, args } ==> t@ == SpecTerm::PrimCall(prim_name@, terms_view(args@)),
{
    match t {
        Term::Match { scrutinee, arms } => {
            assert(t@->Match_1 =~= arms_view(arms@));
        },
        Term::View { scrutinee, arms } => {
            assert(t@->View_1 =~= arms_view(arms@));
        },
        Term::Constructor(n, args) => {
            assert(t@->Constructor_1 =~= terms_view(args@));
        },
        Term::PrimCall { prim_name, args } => {
            assert(t@->PrimCall_1 =~= terms_view(args@));
        },
        _ => {},
    }
}

/// The type a term is annotated with, as far as it can be read off the
/// term without a context.
pub open spec fn term_type(t: SpecTerm) -> Option<SpecType>
    decreases t,
{
    match t {
        SpecTerm::Abs(_, _, annot, body) => Some(
            arrow1(
                annot,
                match term_type(*body) {
                    Some(b) => b,
                    None => SpecType::Native(NativeKind::Unit),
                },
            ),
        ),
        SpecTerm::App(fun, _) => match term_type(*fun) {
            Some(SpecType::Arrow(_, _, ret)) => Some(*ret),
            _ => None,
        },
        SpecTerm::Let(_, _, annot, _, body) => match term_type(*body) {
            Some(b) => Some(b),
            None => Some(annot),
        },
        SpecTerm::Match(_, arms) => if arms.len() > 0 {
            term_type(arms[0].1)
        } else {
            None
        },
        SpecTerm::View(_, arms) => if arms.len() > 0 {
            term_type(arms[0].1)
        } else {
            None
        },
        SpecTerm::NativeLiteral(l) => Some(lit_type(l)),
        _ => None,
    }
}

/// A copy of a list of terms, element by element.
pub fn clone_terms(v: &Vec<Term>) -> (r: Vec<Term>)
    ensures
        r.len() == v.len(),
        forall|i: int| 0 <= i < v.len() ==> #[trigger] r@[i]@ == v@[i]@,
    decreases v, 0nat,
{
    let mut r: Vec<Term> = Vec::new();
    let mut i: usize = 0;
    while i < v.len()
        invariant
            i <= v.len(),
            r.len() == i,
            forall|j: int| 0 <= j < i ==> #[trigger] r@[j]@ == v@[j]@,
        decreases v.len() - i,
    {
        proof {
            broadcast use vstd::std_specs::vec::group_vec_axioms;
            assert(decreases_to!(*v => v@[i as int]));
        }
        r.push(v[i].clone());
        i += 1;
    }
    r
}

/// A copy of a list of arms, element by element.
pub fn clone_arms(v: &Vec<Arm>) -> (r: Vec<Arm>)
    ensures
        r.len() == v.len(),
        forall|i: int| 0 <= i < v.len() ==> (#[trigger] r@[i]).pattern@ == v@[i].pattern@ && r@[i].body@ == v@[i].body@,
    decreases v, 0nat,
{
    let mut r: Vec<Arm> = Vec::new();
    let mut i: usize = 0;
    while i < v.len()
        invariant
            i <= v.len(),
            r.len() == i,
            forall|j: int| 0 <= j < i ==> (#[trigger] r@[j]).pattern@ == v@[j].pattern@ && r@[j].body@ == v@[j].body@,
        decreases v.len() - i,
    {
        proof {
            broadcast use vstd::std_specs::vec::group_vec_axioms;
            assert(decreases_to!(*v => v@[i as int]));
            assert(decreases_to!(v@[i as int] => v@[i as int].body));
        }
        let a = &v[i];
        let b: Term = (*a.body).clone();
        r.push(Arm { pattern: a.pattern.clone(), body: Box::new(b) });
        i += 1;
    }
    r
}

impl Clone for Term {
    fn clone(&self) -> (r: Term)
        ensures
            r@ == self@,
        decreases self, 1nat,
    {
        proof {
            lemma_term_lists(*self);
        }
        let r = match self {
            Term::Var(n) => Term::Var(n.clone()),
            Term::Abs { var, multiplicity, annot, body } => Term::Abs {
                var: var.clone(),
                multiplicity: *multiplicity,
                annot: annot.clone(),
                body: Box::new((**body).clone()),
            },
            Term::App { fun, arg } => Term::App { fun: Box::new((**fun).clone()), arg: Box::new((**arg).clone()) },
            Term::Let { var, multiplicity, annot, value, body } => Term::Let {
                var: var.clone(),
                multiplicity: *multiplicity,
                annot: annot.clone(),
                value: Box::new((**value).clone()),
                body: Box::new((**body).clone()),
            },
            Term::Match { scrutinee, arms } => {
                let c = clone_arms(arms);
                let r = Term::Match { scrutinee: Box::new((**scrutinee).clone()), arms: c };
                proof {
                    lemma_term_lists(r);
                    assert(arms_view(c@) =~= arms_view(arms@));
                }
                r
            },
            Term::View { scrutinee, arms } => {
                let c = clone_arms(arms);
                let r = Term::View { scrutinee: Box::new((**scrutinee).clone()), arms: c };
                proof {
                    lemma_term_lists(r);
                    assert(arms_view(c@) =~= arms_view(arms@));
                }
                r
            },
            Term::TraitMethod { trait_name, method, arg } => Term::TraitMethod {
                trait_name: TraitName(trait_name.0.clone()),
                method: MethodName(method.0.clone()),
                arg: Box::new((**arg).clone()),
            },
            Term::Constructor(n, args) => {
                let c = clone_terms(args);
                let r = Term::Constructor(n.clone(), c);
                proof {
                    lemma_term_lists(r);
                    assert(terms_view(c@) =~= terms_view(args@));
                }
                r
            },
            Term::NativeLiteral(l) => Term::NativeLiteral(l.copy()),
            Term::PrimCall { prim_name, args } => {
                let c = clone_terms(args);
                let r = Term::PrimCall { prim_name: prim_name.clone(), args: c };
                proof {
                    lemma_term_lists(r);
                    assert(terms_view(c@) =~= terms_view(args@));
                }
                r
            },
        };
        r
    }
}

impl Term {
    pub fn var(name: &str) -> (r: Term)
        ensures
            r@ == SpecTerm::Var(name@),
    {
        Term::Var(owned(name))
    }

    pub fn abs(var: &str, mult: Multiplicity, annot: Type, body: Term) -> (r: Term)
        ensures
            r@ == SpecTerm::Abs(var@, mult, annot@, Box::new(body@)),
    {
        Term::Abs { var: owned(var), multiplicity: mult, annot, body: Box::new(body) }
    }

    pub fn app(fun: Term, arg: Term) -> (r: Term)
        ensures
            r@ == SpecTerm::App(Box::new(fun@), Box::new(arg@)),
    {
        Term::App { fun: Box::new(fun), arg: Box::new(arg) }
    }

    pub fn let_in(var: &str, mult: Multiplicity, annot: Type, value: Term, body: Term) -> (r: Term)
        ensures
            r@ == SpecTerm::Let(var@, mult, annot@, Box::new(value@), Box::new(body@)),
    {
        Term::Let { var: owned(var), multiplicity: mult, annot, value: Box::new(value), body: Box::new(body) }
    }

    pub fn match_on(scrutinee: Term, arms: Vec<Arm>) -> (r: Term)
        ensures
            r@ == SpecTerm::Match(Box::new(scrutinee@), arms_view(arms@)),
    {
        let r = Term::Match { scrutinee: Box::new(scrutinee), arms };
        proof {
            lemma_term_lists(r);
        }
        r
    }

    pub fn view_on(scrutinee: Term, arms: Vec<Arm>) -> (r: Term)
        ensures
            r@ == SpecTerm::View(Box::new(scrutinee@), arms_view(arms@)),
    {
        let r = Term::View { scrutinee: Box::new(scrutinee), arms };
        proof {
            lemma_term_lists(r);
        }
        r
    }

    pub fn constructor(name: &str, args: Vec<Term>) -> (r: Term)
        ensures
            r@ == SpecTerm::Constructor(name@, terms_view(args@)),
    {
        let r = Term::Constructor(owned(name), args);
        proof {
            lemma_term_lists(r);
        }
        r
    }

    pub fn literal(lit: Literal) -> (r: Term)
        ensures
            r@ == SpecTerm::NativeLiteral(lit@),
    {
        Term::NativeLiteral(lit)
    }

    pub fn trait_method(trait_name: TraitName, method: MethodName, arg: Term) -> (r: Term)
        ensures
            r@ == SpecTerm::TraitMethod(trait_name.0@, method.0@, Box::new(arg@)),
    {
        Term::TraitMethod { trait_name, method, arg: Box::new(arg) }
    }

    /// The type the term is annotated with, as far as it can be read off
    /// the term without a context.
    pub fn get_type(&self) -> (r: Option<Type>)
        ensures
            r matches Some(t) ==> term_type(self@) == Some(t@),
            r is None ==> term_type(self@) is None,
        decreases self,
    {
        proof {
            lemma_term_lists(*self);
        }
        match self {
            Term::Var(_) => None,
            Term::Abs { annot, body, .. } => {
                let b = match body.get_type() {
                    Some(t) => t,
                    None => Type::unit(),
                };
                Some(Type::arrow(annot.clone(), Multiplicity::One, b))
            },
            Term::App { fun, .. } => match fun.get_type() {
                Some(Type::Arrow(_, _, ret)) => Some(*ret),
                Some(t) => {
                    assert(!(t@ is Arrow)) by {
                        crate::ast::types::lemma_view_variant(t);
                    }
                    None
                },
                None => None,
            },
            Term::Let { annot, body, .. } => match body.get_type() {
                Some(t) => Some(t),
                None => Some(annot.clone()),
            },
            Term::Match { arms, .. } | Term::View { arms, .. } => {
                if arms.len() > 0 {
                    proof {
                        broadcast use vstd::std_specs::vec::group_vec_axioms;
                        assert(decreases_to!(*arms => arms@[0]));
                        assert(decreases_to!(arms@[0] => arms@[0].body));
                    }
                    arms[0].body.get_type()
                } else {
                    None
                }
            },
            Term::TraitMethod { .. } => None,
            Term::Constructor(_, _) => None,
            Term::NativeLiteral(lit) => Some(lit.ty()),
            Term::PrimCall { .. } => None,
        }
    }
}

} // verus!
