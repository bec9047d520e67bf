//! How terms, patterns and literals are written.
use vstd::prelude::*;

use crate::ast::patterns::{Pattern, SpecPattern};
use crate::ast::terms::{arms_view, lemma_term_lists, terms_view, Arm, Literal, SpecLiteral, SpecTerm, Term};
use crate::ast::types::{mult_text, type_text};
use crate::runtime::primitives::{int_decimal, int_to_decimal, PrimOp};
use crate::text::{concat, join, joined, owned, string_of};

verus! {

/// The name of a primitive operation, as `{:?}` writes it.
pub open spec fn op_name(op: PrimOp) -> Seq<char> {
    match op {
        PrimOp::IAdd => "IAdd"@,
        PrimOp::ISub => "ISub"@,
        PrimOp::IMul => "IMul"@,
        PrimOp::IDiv => "IDiv"@,
        PrimOp::IRem => "IRem"@,
        PrimOp::INeg => "INeg"@,
        PrimOp::IHash => "IHash"@,
        PrimOp::FAdd => "FAdd"@,
        PrimOp::FSub => "FSub"@,
        PrimOp::FMul => "FMul"@,
        PrimOp::FDiv => "FDiv"@,
        PrimOp::FRem => "FRem"@,
        PrimOp::FNeg => "FNeg"@,
        PrimOp::IEq => "IEq"@,
        PrimOp::IFEq => "IFEq"@,
        PrimOp::IGt => "IGt"@,
        PrimOp::IGe => "IGe"@,
        PrimOp::ILt => "ILt"@,
        PrimOp::ILe => "ILe"@,
        PrimOp::FEq => "FEq"@,
        PrimOp::FNe => "FNe"@,
        PrimOp::FGt => "FGt"@,
        PrimOp::FGe => "FGe"@,
        PrimOp::FLt => "FLt"@,
        PrimOp::FLe => "FLe"@,
        PrimOp::Not => "Not"@,
        PrimOp::BNot => "BNot"@,
        PrimOp::And => "And"@,
        PrimOp::BAnd => "BAnd"@,
        PrimOp::Or => "Or"@,
        PrimOp::BOr => "BOr"@,
        PrimOp::Chr => "Chr"@,
        PrimOp::Ord => "Ord"@,
        PrimOp::CEq => "CEq"@,
        PrimOp::COrd => "COrd"@,
        PrimOp::CHash => "CHash"@,
        PrimOp::BEq => "BEq"@,
        PrimOp::BHash => "BHash"@,
        PrimOp::IntToString => "IntToString"@,
        PrimOp::FloatToString => "FloatToString"@,
        PrimOp::CharToString => "CharToString"@,
    }
}

pub fn op_name_text(op: PrimOp) -> (r: String)
    ensures
        r@ == op_name(op),
{
    match op {
        PrimOp::IAdd => owned("IAdd"),
        PrimOp::ISub => owned("ISub"),
        PrimOp::IMul => owned("IMul"),
        PrimOp::IDiv => owned("IDiv"),
        PrimOp::IRem => owned("IRem"),
        PrimOp::INeg => owned("INeg"),
        PrimOp::IHash => owned("IHash"),
        PrimOp::FAdd => owned("FAdd"),
        PrimOp::FSub => owned("FSub"),
        PrimOp::FMul => owned("FMul"),
        PrimOp::FDiv => owned("FDiv"),
        PrimOp::FRem => owned("FRem"),
        PrimOp::FNeg => owned("FNeg"),
        PrimOp::IEq => owned("IEq"),
        PrimOp::IFEq => owned("IFEq"),
        PrimOp::IGt => owned("IGt"),
        PrimOp::IGe => owned("IGe"),
        PrimOp::ILt => owned("ILt"),
        PrimOp::ILe => owned("ILe"),
        PrimOp::FEq => owned("FEq"),
        PrimOp::FNe => owned("FNe"),
        PrimOp::FGt => owned("FGt"),
        PrimOp::FGe => owned("FGe"),
        PrimOp::FLt => owned("FLt"),
        PrimOp::FLe => owned("FLe"),
        PrimOp::Not => owned("Not"),
        PrimOp::BNot => owned("BNot"),
        PrimOp::And => owned("And"),
        PrimOp::BAnd => owned("BAnd"),
        PrimOp::Or => owned("Or"),
        PrimOp::BOr => owned("BOr"),
        PrimOp::Chr => owned("Chr"),
        PrimOp::Ord => owned("Ord"),
        PrimOp::CEq => owned("CEq"),
        PrimOp::COrd => owned("COrd"),
        PrimOp::CHash => owned("CHash"),
        PrimOp::BEq => owned("BEq"),
        PrimOp::BHash => owned("BHash"),
        PrimOp::IntToString => owned("IntToString"),
        PrimOp::FloatToString => owned("FloatToString"),
        PrimOp::CharToString => owned("CharToString"),
    }
}

/// How a literal is written: numbers in decimal (a float as written in the
/// source), characters in single quotes, strings in double quotes, and a
/// primitive as `prim(` its name `)`.
pub open spec fn literal_text(l: SpecLiteral) -> Seq<char> {
    match l {
        SpecLiteral::Int(n) => int_decimal(n as int),
        SpecLiteral::Float(d) => d,
        SpecLiteral::Bool(b) => if b { "true"@ } else { "false"@ },
        SpecLiteral::Char(c) => seq!['\'', c, '\''],
        SpecLiteral::Str(s) => seq!['"'] + s + seq!['"'],
        SpecLiteral::Unit => "()"@,
        SpecLiteral::Prim(op) => "prim("@ + op_name(op) + ")"@,
    }
}

/// How a pattern is written: `_`, a name, or a constructor with its parts in
/// brackets after a space.
pub open spec fn pattern_text(p: SpecPattern) -> Seq<char>
    decreases p,
{
    match p {
        SpecPattern::Wildcard => "_"@,
        SpecPattern::Var(n) => n,
        SpecPattern::Constructor(n, args) => if args.len() == 0 {
            n
        } else {
            n + " ("@ + joined(patterns_texts(args), ", "@) + ")"@
        },
    }
}

pub open spec fn patterns_texts(ps: Seq<SpecPattern>) -> Seq<Seq<char>>
    decreases ps,
{
    Seq::new(ps.len(), |i: int| if 0 <= i < ps.len() { pattern_text(ps[i]) } else { Seq::empty() })
}

/// How a term is written.
pub open spec fn term_text(t: SpecTerm) -> Seq<char>
    decreases t,
{
    match t {
        SpecTerm::Var(n) => n,
        SpecTerm::Abs(x, m, a, b) => "λ"@ + x + ":"@ + mult_text(m) + ":"@ + type_text(a) + ". "@ + term_text(*b),
        SpecTerm::App(f, a) => "("@ + term_text(*f) + " "@ + term_text(*a) + ")"@,
        SpecTerm::Let(x, m, a, v, b) => "let "@ + x + ":"@ + mult_text(m) + type_text(a) + " = "@ + term_text(*v) + " in "@
            + term_text(*b),
        SpecTerm::Match(s, arms) => "match "@ + term_text(*s) + " with { "@ + joined(arms_texts(arms), " | "@) + " }"@,
        SpecTerm::View(s, arms) => "view "@ + term_text(*s) + " with { "@ + joined(arms_texts(arms), " | "@) + " }"@,
        SpecTerm::TraitMethod(tn, m, a) => "("@ + tn + "."@ + m + " "@ + term_text(*a) + ")"@,
        SpecTerm::Constructor(n, args) => n + "("@ + joined(terms_texts(args), ", "@) + ")"@,
        SpecTerm::NativeLiteral(l) => literal_text(l),
        SpecTerm::PrimCall(n, args) => n + "("@ + joined(terms_texts(args), ", "@) + ")"@,
    }
}

pub open spec fn terms_texts(ts: Seq<SpecTerm>) -> Seq<Seq<char>>
    decreases ts,
{
    Seq::new(ts.len(), |i: int| if 0 <= i < ts.len() { term_text(ts[i]) } else { Seq::empty() })
}

/// An arm: its pattern, an arrow, its body.
pub open spec fn arm_text(a: (SpecPattern, SpecTerm)) -> Seq<char>
    decreases a,
{
    pattern_text(a.0) + " -> "@ + term_text(a.1)
}

pub open spec fn arms_texts(arms: Seq<(SpecPattern, SpecTerm)>) -> Seq<Seq<char>>
    decreases arms,
{
    Seq::new(arms.len(), |i: int| if 0 <= i < arms.len() { arm_text(arms[i]) } else { Seq::empty() })
}

/// `a`, then `b`, then `c`.
fn concat3(a: &str, b: &str, c: &str) -> (r: String)
    ensures
        r@ == a@ + b@ + c@,
{
    let ab = concat(a, b);
    concat(ab.as_str(), c)
}

impl Literal {
    /// How the literal is written.
    pub fn to_text(&self) -> (r: String)
        ensures
            r@ == literal_text(self@),
    {
        match self {
            Literal::Int(n) => int_to_decimal(*n),
            Literal::Float(d) => d.clone(),
            Literal::Bool(b) => if *b {
                owned("true")
            } else {
                owned("false")
            },
            Literal::Char(c) => {
                let mut v: Vec<char> = Vec::new();
                v.push('\'');
                v.push(*c);
                v.push('\'');
                assert(v@ =~= seq!['\'', *c, '\'']);
                string_of(v.as_slice())
            },
            Literal::Str(s) => {
                let mut q: Vec<char> = Vec::new();
                q.push('"');
                let quote = string_of(q.as_slice());
                assert(quote@ =~= seq!['"']);
                concat3(quote.as_str(), s.as_str(), quote.as_str())
            },
            Literal::Unit => owned("()"),
            Literal::Prim(op) => concat3("prim(", op_name_text(*op).as_str(), ")"),
        }
    }
}

impl Pattern {
    /// How the pattern is written.
    pub fn to_text(&self) -> (r: String)
        ensures
            r@ == pattern_text(self@),
        decreases self, 0nat,
    {
        match self {
            Pattern::Wildcard => owned("_"),
            Pattern::Var(n) => n.clone(),
            Pattern::Constructor(n, args) => {
                proof {
                    crate::ast::patterns::lemma_constructor_view(*n, *args);
                    assert(self@->Constructor_1 =~= args@.map_values(|q: Pattern| q@));
                }
                if args.len() == 0 {
                    n.clone()
                } else {
                    let parts = patterns_to_texts(args);
                    let inner = join(&parts, ", ");
                    let head = concat(n.as_str(), " (");
                    concat3(head.as_str(), inner.as_str(), ")")
                }
            },
        }
    }
}

/// The texts of a list of patterns.
fn patterns_to_texts(ps: &Vec<Pattern>) -> (r: Vec<String>)
    ensures
        r@.map_values(|s: String| s@) == patterns_texts(ps@.map_values(|q: Pattern| q@)),
    decreases ps, 1nat,
{
    let ghost pv = ps@.map_values(|q: Pattern| q@);
    let mut r: Vec<String> = Vec::new();
    let mut i: usize = 0;
    while i < ps.len()
        invariant
            i <= ps.len(),
            pv == ps@.map_values(|q: Pattern| q@),
            r@.map_values(|s: String| s@) == patterns_texts(pv).take(i as int),
        decreases ps.len() - i,
    {
        proof {
            broadcast use vstd::std_specs::vec::group_vec_axioms;
            assert(decreases_to!(*ps => ps@[i as int]));
        }
        let t = ps[i].to_text();
        assert(pv[i as int] == ps@[i as int]@);
        assert(patterns_texts(pv)[i as int] == t@);
        let ghost before = r@.map_values(|s: String| s@);
        r.push(t);
        assert(r@.map_values(|s: String| s@) =~= before.push(t@));
        assert(r@.map_values(|s: String| s@) =~= patterns_texts(pv).take(i + 1));
        i += 1;
    }
    assert(patterns_texts(pv).take(ps.len() as int) =~= patterns_texts(pv));
    r
}

impl Term {
    /// How the term is written.
    pub fn to_text(&self) -> (r: String)
        ensures
            r@ == term_text(self@),
        decreases self, 0nat,
    {
        proof {
            lemma_term_lists(*self);
        }
        match self {
            Term::Var(n) => n.clone(),
            Term::Abs { var, multiplicity, annot, body } => {
                let a = concat3("λ", var.as_str(), ":");
                let b = concat3(a.as_str(), multiplicity.to_text().as_str(), ":");
                let c = concat3(b.as_str(), annot.to_text().as_str(), ". ");
                concat(c.as_str(), body.to_text().as_str())
            },
            Term::App { fun, arg } => {
                let a = concat3("(", fun.to_text().as_str(), " ");
                concat3(a.as_str(), arg.to_text().as_str(), ")")
            },
            Term::Let { var, multiplicity, annot, value, body } => {
                let a = concat3("let ", var.as_str(), ":");
                let b = concat3(a.as_str(), multiplicity.to_text().as_str(), annot.to_text().as_str());
                let c = concat3(b.as_str(), " = ", value.to_text().as_str());
                concat3(c.as_str(), " in ", body.to_text().as_str())
            },
            Term::Match { scrutinee, arms } => {
                let parts = arms_to_texts(arms);
                let inner = join(&parts, " | ");
                let a = concat3("match ", scrutinee.to_text().as_str(), " with { ");
                concat3(a.as_str(), inner.as_str(), " }")
            },
            Term::View { scrutinee, arms } => {
                let parts = arms_to_texts(arms);
                let inner = join(&parts, " | ");
                let a = concat3("view ", scrutinee.to_text().as_str(), " with { ");
                concat3(a.as_str(), inner.as_str(), " }")
            },
            Term::TraitMethod { trait_name, method, arg } => {
                let a = concat3("(", trait_name.0.as_str(), ".");
                let b = concat3(a.as_str(), method.0.as_str(), " ");
                concat3(b.as_str(), arg.to_text().as_str(), ")")
            },
            Term::Constructor(n, args) => {
                let parts = terms_to_texts(args);
                let inner = join(&parts, ", ");
                let a = concat(n.as_str(), "(");
                concat3(a.as_str(), inner.as_str(), ")")
            },
            Term::NativeLiteral(l) => l.to_text(),
            Term::PrimCall { prim_name, args } => {
                let parts = terms_to_texts(args);
                let inner = join(&parts, ", ");
                let a = concat(prim_name.as_str(), "(");
                concat3(a.as_str(), inner.as_str(), ")")
            },
        }
    }
}

/// The texts of a list of terms.
fn terms_to_texts(ts: &Vec<Term>) -> (r: Vec<String>)
    ensures
        r@.map_values(|s: String| s@) == terms_texts(terms_view(ts@)),
    decreases ts, 1nat,
{
    let ghost tv = terms_view(ts@);
    let mut r: Vec<String> = Vec::new();
    let mut i: usize = 0;
    while i < ts.len()
        invariant
            i <= ts.len(),
            tv == terms_view(ts@),
            r@.map_values(|s: String| s@) == terms_texts(tv).take(i as int),
        decreases ts.len() - i,
    {
        proof {
            broadcast use vstd::std_specs::vec::group_vec_axioms;
            assert(decreases_to!(*ts => ts@[i as int]));
        }
        let t = ts[i].to_text();
        assert(tv[i as int] == ts@[i as int]@);
        assert(terms_texts(tv)[i as int] == t@);
        let ghost before = r@.map_values(|s: String| s@);
        r.push(t);
        assert(r@.map_values(|s: String| s@) =~= before.push(t@));
        assert(r@.map_values(|s: String| s@) =~= terms_texts(tv).take(i + 1));
        i += 1;
    }
    assert(terms_texts(tv).take(ts.len() as int) =~= terms_texts(tv));
    r
}

/// The texts of the arms of a match.
fn arms_to_texts(arms: &Vec<Arm>) -> (r: Vec<String>)
    ensures
        r@.map_values(|s: String| s@) == arms_texts(arms_view(arms@)),
    decreases arms, 1nat,
{
    let ghost av = arms_view(arms@);
    let mut r: Vec<String> = Vec::new();
    let mut i: usize = 0;
    while i < arms.len()
        invariant
            i <= arms.len(),
            av == arms_view(arms@),
            r@.map_values(|s: String| s@) == arms_texts(av).take(i as int),
        decreases arms.len() - i,
    {
        let arm = &arms[i];
        proof {
            broadcast use vstd::std_specs::vec::group_vec_axioms;
            assert(decreases_to!(*arms => arms@[i as int]));
            assert(decreases_to!(arms@[i as int] => arms@[i as int].body));
            assert(av[i as int] == (arm.pattern@, arm.body@));
        }
        let p = arm.pattern.to_text();
        let b = arm.body.to_text();
        let t = concat3(p.as_str(), " -> ", b.as_str());
        assert(arms_texts(av)[i as int] == arm_text(av[i as int]));
        assert(arms_texts(av)[i as int] == t@);
        let ghost before = r@.map_values(|s: String| s@);
        r.push(t);
        assert(r@.map_values(|s: String| s@) =~= before.push(t@));
        assert(r@.map_values(|s: String| s@) =~= arms_texts(av).take(i + 1));
        i += 1;
    }
    assert(arms_texts(av).take(arms.len() as int) =~= arms_texts(av));
    r
}

} // verus!
