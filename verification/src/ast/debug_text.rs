//! Types written as the derived `Debug` format writes them.
use vstd::prelude::*;

use crate::ast::types::{native_text, types_view, Multiplicity, SpecType, Type};
use crate::text::{chars_of, concat, joined, string_of};

verus! {

/// How `Debug` writes a character inside a string: a quote, a backslash,
/// a newline, a carriage return, a tab and NUL behind a backslash; any
/// other character as it is.
pub open spec fn char_escape(c: char) -> Seq<char> {
    if c == '"' {
        seq!['\\', '"']
    } else if c == '\\' {
        seq!['\\', '\\']
    } else if c == '\n' {
        seq!['\\', 'n']
    } else if c == '\r' {
        seq!['\\', 'r']
    } else if c == '\t' {
        seq!['\\', 't']
    } else if c == '\0' {
        seq!['\\', '0']
    } else {
        seq![c]
    }
}

/// The characters of a string, each as [`char_escape`] writes it.
pub open spec fn escaped(s: Seq<char>) -> Seq<char>
    decreases s.len(),
{
    if s.len() == 0 {
        seq![]
    } else {
        escaped(s.drop_last()) + char_escape(s.last())
    }
}

/// A string in double quotes, escaped.
pub open spec fn quoted(s: Seq<char>) -> Seq<char> {
    seq!['"'] + escaped(s) + seq!['"']
}

/// The name of a multiplicity's variant.
pub open spec fn mult_debug(m: Multiplicity) -> Seq<char> {
    match m {
        Multiplicity::Zero => "Zero"@,
        Multiplicity::One => "One"@,
        Multiplicity::Omega => "Omega"@,
        Multiplicity::Borrow => "Borrow"@,
    }
}

/// A type as the derived `Debug` writes it: each variant's name with its
/// fields in brackets, separated by `, `; boxes are transparent, names of
/// traits and types stand in `TraitName(..)` and `TypeName(..)`, lists in
/// square brackets.
pub open spec fn type_debug(t: SpecType) -> Seq<char>
    decreases t,
{
    match t {
        SpecType::Native(k) => "Native("@ + native_text(k) + ")"@,
        SpecType::Arrow(m, a, r) => "Arrow("@ + mult_debug(m) + ", "@ + type_debug(*a) + ", "@ + type_debug(*r) + ")"@,
        SpecType::Forall(n, b) => "Forall("@ + quoted(n) + ", "@ + type_debug(*b) + ")"@,
        SpecType::TraitConstraint(n, b) => "TraitConstraint(TraitName("@ + quoted(n) + "), "@ + type_debug(*b) + ")"@,
        SpecType::Inductive(n, ps) => "Inductive(TypeName("@ + quoted(n) + "), ["@ + joined(types_debugs(ps), ", "@)
            + "])"@,
        SpecType::Borrow(b) => "Borrow("@ + type_debug(*b) + ")"@,
        SpecType::Product(a, b) => "Product("@ + type_debug(*a) + ", "@ + type_debug(*b) + ")"@,
        SpecType::Sum(a, b) => "Sum("@ + type_debug(*a) + ", "@ + type_debug(*b) + ")"@,
        SpecType::Var(n) => "Var("@ + quoted(n) + ")"@,
        SpecType::App(b, args) => "App("@ + type_debug(*b) + ", ["@ + joined(types_debugs(args), ", "@) + "])"@,
    }
}

/// [`type_debug`] of each type of a list.
pub open spec fn types_debugs(ps: Seq<SpecType>) -> Seq<Seq<char>>
    decreases ps,
{
    Seq::new(ps.len(), |i: int| if 0 <= i < ps.len() { type_debug(ps[i]) } else { Seq::empty() })
}

/// A string in double quotes, escaped (see [`quoted`]).
pub fn quote(s: &str) -> (r: String)
    ensures
        r@ == quoted(s@),
{
    let cs = chars_of(s);
    let mut out: Vec<char> = Vec::new();
    out.push('"');
    let mut i: usize = 0;
    while i < cs.len()
        invariant
            i <= cs.len(),
            cs@ == s@,
            out@ == seq!['"'] + escaped(cs@.take(i as int)),
        decreases cs.len() - i,
    {
        let c = cs[i];
        let ghost before = out@;
        if c == '"' {
            out.push('\\');
            out.push('"');
        } else if c == '\\' {
            out.push('\\');
            out.push('\\');
        } else if c == '\n' {
            out.push('\\');
            out.push('n');
        } else if c == '\r' {
            out.push('\\');
            out.push('r');
        } else if c == '\t' {
            out.push('\\');
            out.push('t');
        } else if c == '\0' {
            out.push('\\');
            out.push('0');
        } else {
            out.push(c);
        }
        proof {
            assert(cs@.take(i + 1).drop_last() =~= cs@.take(i as int));
            assert(cs@.take(i + 1).last() == c);
            assert(out@ =~= before + char_escape(c));
            assert(out@ =~= seq!['"'] + escaped(cs@.take(i + 1)));
        }
        i += 1;
    }
    out.push('"');
    assert(cs@.take(cs.len() as int) =~= s@);
    assert(out@ =~= quoted(s@));
    string_of(out.as_slice())
}

impl Multiplicity {
    /// The name of the variant, as `Debug` writes it.
    pub fn debug_text(&self) -> (r: String)
        ensures
            r@ == mult_debug(*self),
    {
        match self {
            Multiplicity::Zero => crate::text::owned("Zero"),
            Multiplicity::One => crate::text::owned("One"),
            Multiplicity::Omega => crate::text::owned("Omega"),
            Multiplicity::Borrow => crate::text::owned("Borrow"),
        }
    }
}

/// The `Debug` texts of a list of types, with `, ` between each two.
fn types_debug_text(v: &Vec<Type>) -> (r: String)
    ensures
        r@ == joined(types_debugs(types_view(v@)), ", "@),
    decreases v, 0nat,
{
    let ghost ts = types_debugs(types_view(v@));
    let mut r = String::new();
    let mut i: usize = 0;
    while i < v.len()
        invariant
            i <= v.len(),
            ts == types_debugs(types_view(v@)),
            r@ == joined(ts.take(i as int), ", "@),
        decreases v.len() - i,
    {
        proof {
            broadcast use vstd::std_specs::vec::group_vec_axioms;
            assert(decreases_to!(*v => v@[i as int]));
            assert(ts.take(i + 1).drop_last() =~= ts.take(i as int));
        }
        let t = v[i].debug_text();
        assert(ts[i as int] == t@);
        if i == 0 {
            r = t;
            assert(ts.take(1) =~= seq![ts[0]]);
        } else {
            let with_sep = concat(r.as_str(), ", ");
            r = concat(with_sep.as_str(), t.as_str());
        }
        i += 1;
    }
    assert(ts.take(v.len() as int) =~= ts);
    r
}

impl Type {
    /// The type as the derived `Debug` writes it (see [`type_debug`]).
    pub fn debug_text(&self) -> (r: String)
        ensures
            r@ == type_debug(self@),
        decreases self, 1nat,
    {
        match self {
            Type::Native(k) => {
                assert(self@ == SpecType::Native(*k));
                let x = concat("Native(", k.to_text().as_str());
                concat(x.as_str(), ")")
            },
            Type::Arrow(m, a, b) => {
                assert(self@ == SpecType::Arrow(*m, Box::new(a@), Box::new(b@)));
                let x = concat("Arrow(", m.debug_text().as_str());
                let x = concat(x.as_str(), ", ");
                let x = concat(x.as_str(), a.debug_text().as_str());
                let x = concat(x.as_str(), ", ");
                let x = concat(x.as_str(), b.debug_text().as_str());
                concat(x.as_str(), ")")
            },
            Type::Forall(n, b) => {
                assert(self@ == SpecType::Forall(n@, Box::new(b@)));
                let x = concat("Forall(", quote(n.as_str()).as_str());
                let x = concat(x.as_str(), ", ");
                let x = concat(x.as_str(), b.debug_text().as_str());
                concat(x.as_str(), ")")
            },
            Type::TraitConstraint(n, b) => {
                assert(self@ == SpecType::TraitConstraint(n.0@, Box::new(b@)));
                let x = concat("TraitConstraint(TraitName(", quote(n.0.as_str()).as_str());
                let x = concat(x.as_str(), "), ");
                let x = concat(x.as_str(), b.debug_text().as_str());
                concat(x.as_str(), ")")
            },
            Type::Inductive(n, ps) => {
                proof {
                    let v = self@->Inductive_1;
                    assert(self@ == SpecType::Inductive(n.0@, v));
                    assert(v =~= types_view(ps@));
                }
                let x = concat("Inductive(TypeName(", quote(n.0.as_str()).as_str());
                let x = concat(x.as_str(), "), [");
                let x = concat(x.as_str(), types_debug_text(ps).as_str());
                concat(x.as_str(), "])")
            },
            Type::Borrow(b) => {
                assert(self@ == SpecType::Borrow(Box::new(b@)));
                let x = concat("Borrow(", b.debug_text().as_str());
                concat(x.as_str(), ")")
            },
            Type::Product(a, b) => {
                assert(self@ == SpecType::Product(Box::new(a@), Box::new(b@)));
                let x = concat("Product(", a.debug_text().as_str());
                let x = concat(x.as_str(), ", ");
                let x = concat(x.as_str(), b.debug_text().as_str());
                concat(x.as_str(), ")")
            },
            Type::Sum(a, b) => {
                assert(self@ == SpecType::Sum(Box::new(a@), Box::new(b@)));
                let x = concat("Sum(", a.debug_text().as_str());
                let x = concat(x.as_str(), ", ");
                let x = concat(x.as_str(), b.debug_text().as_str());
                concat(x.as_str(), ")")
            },
            Type::Var(n) => {
                assert(self@ == SpecType::Var(n@));
                let x = concat("Var(", quote(n.as_str()).as_str());
                concat(x.as_str(), ")")
            },
            Type::App(b, args) => {
                proof {
                    let v = self@->App_1;
                    assert(self@ == SpecType::App(Box::new(b@), v));
                    assert(v =~= types_view(args@));
                }
                let x = concat("App(", b.debug_text().as_str());
                let x = concat(x.as_str(), ", [");
                let x = concat(x.as_str(), types_debug_text(args).as_str());
                concat(x.as_str(), "])")
            },
        }
    }
}

} // verus!
