//! The declarations of the grammar: `type`, `val`, `trait`, `impl` and
//! `use`, and whole programs.
use vstd::prelude::*;

use crate::ast::terms::{Decl, MethodSig, SpecDecl, SpecUseMode, UseMode, Visibility, names_view, sigs_view};
use crate::ast::types::{MethodName, SpecType, Type, TypeName};
use crate::parser::grammar::{
    char_is_lowercase, first_is_uppercase, g_brace_sigs, g_consume, g_constructor, g_ctor_args, g_ctors_rest,
    g_expect_ident, g_items_rest, g_module_path, g_path_rest, g_sig, g_supertrait, g_trait_decl, g_type_body,
    g_type_decl, g_type_params, g_use_decl, g_val_decl, g_val_sigs, g_visibility, is_type_atom_start, outcome, sum_of,
    tok, unit_ty, ParseError, Parser, SpecParseError,
};
use crate::parser::lexer::{SpecToken, Token};
use crate::text::owned;

verus! {

/// A constructor of a sum type, as a type declaration writes it.
struct Constructor {
    name: String,
    args: Vec<Type>,
}

/// The name and argument types of each constructor.
spec fn ctors_view(v: Seq<Constructor>) -> Seq<(Seq<char>, Seq<SpecType>)> {
    v.map_values(|c: Constructor| (c.name@, crate::ast::types::types_view(c.args@)))
}

/// The sum of the constructors; see [`sum_of`].
fn build_sum_type(constructors: &Vec<Constructor>) -> (r: Type)
    ensures
        r@ == sum_of(ctors_view(constructors@), 0),
{
    let ghost cv = ctors_view(constructors@);
    let mut result = Type::unit();
    let mut i: usize = constructors.len();
    while i > 0
        invariant
            i <= constructors.len(),
            cv == ctors_view(constructors@),
            result@ == sum_of(cv, i as int),
        decreases i,
    {
        let ctor = &constructors[i - 1];
        let args = crate::ast::types::clone_types(&ctor.args);
        let ctor_type = Type::Inductive(TypeName(ctor.name.clone()), args);
        proof {
            assert(crate::ast::types::types_view(args@) =~= crate::ast::types::types_view(ctor.args@));
            assert(ctor_type@->Inductive_1 =~= crate::ast::types::types_view(args@));
            assert(cv[i - 1] == (ctor.name@, crate::ast::types::types_view(ctor.args@)));
        }
        result = Type::sum(ctor_type, result);
        i -= 1;
    }
    result
}

impl<'a> Parser<'a> {
    /// Whether the next token is an identifier.
    pub(crate) fn next_is_ident(&self) -> (r: bool)
        requires
            self.wf(),
        ensures
            r == (tok(self.toks(), self.at()) matches Some(SpecToken::Ident(_, _, _))),
    {
        match self.peek() {
            Some(Token::Ident(_, _, _)) => true,
            _ => false,
        }
    }

    /// `pub` reads as public, anything else as private and stays unread.
    pub(crate) fn parse_visibility(&mut self) -> (r: Visibility)
        requires
            old(self).wf(),
        ensures
            final(self).wf(),
            final(self).toks() == old(self).toks(),
            g_visibility(old(self).toks(), old(self).at(), None) == (r, final(self).at()),
    {
        if self.check(&Token::KwPub(0, 0)) {
            self.advance();
            Visibility::Public
        } else {
            Visibility::Private
        }
    }

    /// The visibility passed down, or else the one read; see
    /// [`g_visibility`].
    pub(crate) fn visibility(&mut self, given: Option<Visibility>) -> (r: Visibility)
        requires
            old(self).wf(),
        ensures
            final(self).wf(),
            final(self).toks() == old(self).toks(),
            g_visibility(old(self).toks(), old(self).at(), given) == (r, final(self).at()),
    {
        match given {
            Some(v) => v,
            None => self.parse_visibility(),
        }
    }

    /// Type parameters; see [`g_type_params`].
    pub(crate) fn parse_type_params(&mut self) -> (r: Result<Vec<String>, ParseError>)
        requires
            old(self).wf(),
        ensures
            final(self).wf(),
            final(self).toks() == old(self).toks(),
            r matches Ok(v) ==> g_type_params(old(self).toks(), old(self).at(), seq![]) == Ok::<
                (Seq<Seq<char>>, int),
                SpecParseError,
            >((names_view(v@), final(self).at())),
            r matches Err(e) ==> g_type_params(old(self).toks(), old(self).at(), seq![]) == Err::<
                (Seq<Seq<char>>, int),
                SpecParseError,
            >(e@),
            r is Ok ==> old(self).at() <= final(self).at(),
    {
        let ghost ts = self.toks();
        let ghost p0 = self.at();
        let mut params: Vec<String> = Vec::new();
        assert(names_view(params@) =~= seq![]);
        while self.next_is_ident()
            invariant
                self.wf(),
                self.toks() == ts,
                ts == old(self).toks(),
                p0 == old(self).at(),
                p0 <= self.at(),
                g_type_params(ts, p0, seq![]) == g_type_params(ts, self.at(), names_view(params@)),
            decreases self.tokens.len() - self.pos,
        {
            let ghost b = names_view(params@);
            let name = match self.expect_ident() {
                Ok(n) => n,
                Err(e) => {
                    return Err(e);
                },
            };
            let cs = crate::text::chars_of(name.as_str());
            let ok = cs.len() > 0 && (char_is_lowercase(cs[0]) || cs[0] == '_');
            if !ok {
                let a = crate::text::concat("type parameter must be lowercase, found '", name.as_str());
                return Err(ParseError::UnexpectedToken(crate::text::concat(a.as_str(), "'")));
            }
            params.push(name);
            assert(names_view(params@) =~= b.push(name@));
        }
        Ok(params)
    }

    /// A dotted module path; see [`g_module_path`].
    pub(crate) fn parse_module_path(&mut self) -> (r: Result<Vec<String>, ParseError>)
        requires
            old(self).wf(),
        ensures
            final(self).wf(),
            final(self).toks() == old(self).toks(),
            r matches Ok(v) ==> g_module_path(old(self).toks(), old(self).at()) == Ok::<(Seq<Seq<char>>, int), SpecParseError>(
                (names_view(v@), final(self).at()),
            ),
            r matches Err(e) ==> g_module_path(old(self).toks(), old(self).at()) == Err::<
                (Seq<Seq<char>>, int),
                SpecParseError,
            >(e@),
            r is Ok ==> old(self).at() < final(self).at(),
    {
        let ghost ts = self.toks();
        let mut path: Vec<String> = Vec::new();
        let first = match self.expect_ident() {
            Ok(n) => n,
            Err(e) => {
                return Err(e);
            },
        };
        path.push(first);
        assert(names_view(path@) =~= seq![first@]);
        let ghost p1 = self.at();
        while self.check(&Token::Dot(0, 0))
            invariant
                self.wf(),
                self.toks() == ts,
                ts == old(self).toks(),
                old(self).at() < self.at(),
                g_module_path(ts, old(self).at()) == g_path_rest(ts, p1, seq![first@]),
                g_path_rest(ts, p1, seq![first@]) == g_path_rest(ts, self.at(), names_view(path@)),
            decreases self.tokens.len() - self.pos,
        {
            let ghost b = names_view(path@);
            self.advance();
            let n = match self.expect_ident() {
                Ok(n) => n,
                Err(e) => {
                    return Err(e);
                },
            };
            path.push(n);
            assert(names_view(path@) =~= b.push(n@));
        }
        Ok(path)
    }

    /// A value declaration; see [`g_val_decl`].
    pub(crate) fn val_decl(&mut self, given: Option<Visibility>) -> (r: Result<Decl, ParseError>)
        requires
            old(self).wf(),
        ensures
            final(self).wf(),
            final(self).toks() == old(self).toks(),
            g_val_decl(old(self).toks(), old(self).at(), given) == outcome(r, final(self).at()),
            r is Ok ==> old(self).at() < final(self).at(),
    {
        proof {
            reveal(g_val_decl);
        }
        let visibility = self.visibility(given);
        match self.consume(&Token::KwVal(0, 0)) {
            Ok(()) => {},
            Err(e) => {
                return Err(e);
            },
        }
        let name = match self.expect_ident() {
            Ok(n) => n,
            Err(e) => {
                return Err(e);
            },
        };
        match self.consume(&Token::Colon(0, 0)) {
            Ok(()) => {},
            Err(e) => {
                return Err(e);
            },
        }
        let ty = match self.ty() {
            Ok(t) => t,
            Err(e) => {
                return Err(e);
            },
        };
        match self.consume(&Token::Equals(0, 0)) {
            Ok(()) => {},
            Err(e) => {
                return Err(e);
            },
        }
        let term = match self.term() {
            Ok(t) => t,
            Err(e) => {
                return Err(e);
            },
        };
        Ok(Decl::ValDecl { visibility, name, ty, term: Box::new(term) })
    }

    /// Whether the next token can start an argument of a constructor.
    pub(crate) fn is_ctor_arg_start(&self) -> (r: bool)
        requires
            self.wf(),
        ensures
            r == (is_type_atom_start(self.toks(), self.at()) || tok(self.toks(), self.at()) matches Some(
                SpecToken::MultiplicityBorrow(_, _),
            )),
    {
        self.is_type_atom_start() || self.check(&Token::MultiplicityBorrow(0, 0))
    }

    /// A constructor of a sum type; see [`g_constructor`].
    fn parse_constructor(&mut self) -> (r: Result<Constructor, ParseError>)
        requires
            old(self).wf(),
        ensures
            final(self).wf(),
            final(self).toks() == old(self).toks(),
            r matches Ok(c) ==> g_constructor(old(self).toks(), old(self).at()) == Ok::<
                ((Seq<char>, Seq<SpecType>), int),
                SpecParseError,
            >(((c.name@, crate::ast::types::types_view(c.args@)), final(self).at())) && old(self).at() < final(self).at(),
            r matches Err(e) ==> g_constructor(old(self).toks(), old(self).at()) == Err::<
                ((Seq<char>, Seq<SpecType>), int),
                SpecParseError,
            >(e@),
    {
        let ghost ts = self.toks();
        let name = match self.expect_ident() {
            Ok(n) => n,
            Err(e) => {
                return Err(e);
            },
        };
        let ghost p1 = self.at();
        let ghost nv = name@;
        let mut args: Vec<Type> = Vec::new();
        assert(crate::ast::types::types_view(args@) =~= seq![]);
        while self.is_ctor_arg_start()
            invariant
                self.wf(),
                self.toks() == ts,
                ts == old(self).toks(),
                old(self).at() < p1 <= self.at(),
                nv == name@,
                g_constructor(ts, old(self).at()) == match g_ctor_args(ts, p1, seq![]) {
                    Err(e) => Err(e),
                    Ok((a, p2)) => Ok(((nv, a), p2)),
                },
                g_ctor_args(ts, p1, seq![]) == g_ctor_args(ts, self.at(), crate::ast::types::types_view(args@)),
            decreases self.tokens.len() - self.pos,
        {
            let ghost b = crate::ast::types::types_view(args@);
            let arg = match self.ty_atom() {
                Ok(t) => t,
                Err(e) => {
                    return Err(e);
                },
            };
            args.push(arg);
            assert(crate::ast::types::types_view(args@) =~= b.push(arg@));
        }
        Ok(Constructor { name, args })
    }

    /// The body of a type declaration; see [`g_type_body`].
    pub(crate) fn parse_type_body(&mut self) -> (r: Result<(Type, bool), ParseError>)
        requires
            old(self).wf(),
        ensures
            final(self).wf(),
            final(self).toks() == old(self).toks(),
            r matches Ok((t, b)) ==> g_type_body(old(self).toks(), old(self).at()) == Ok::<((SpecType, bool), int), SpecParseError>(
                ((t@, b), final(self).at()),
            ),
            r matches Err(e) ==> g_type_body(old(self).toks(), old(self).at()) == Err::<
                ((SpecType, bool), int),
                SpecParseError,
            >(e@),
            r is Ok ==> old(self).at() < final(self).at(),
    {
        let ghost ts = self.toks();
        let is_sum_type = match self.peek() {
            Some(Token::Ident(name, _, _)) => {
                proof {
                    reveal_strlit("None");
                }
                first_is_uppercase(name.as_str()) || crate::text::str_eq(name.as_str(), "None") || crate::text::str_eq(
                    name.as_str(),
                    "Some",
                ) || crate::text::str_eq(name.as_str(), "Ok") || crate::text::str_eq(name.as_str(), "Err")
                    || crate::text::str_eq(name.as_str(), "LT") || crate::text::str_eq(name.as_str(), "EQ")
                    || crate::text::str_eq(name.as_str(), "GT")
            },
            _ => false,
        };
        if !is_sum_type {
            return match self.ty() {
                Ok(t) => Ok((t, false)),
                Err(e) => Err(e),
            };
        }
        let mut constructors: Vec<Constructor> = Vec::new();
        let first = match self.parse_constructor() {
            Ok(c) => c,
            Err(e) => {
                return Err(e);
            },
        };
        let ghost fv = (first.name@, crate::ast::types::types_view(first.args@));
        constructors.push(first);
        assert(ctors_view(constructors@) =~= seq![fv]);
        let ghost p1 = self.at();
        while self.check(&Token::Pipe(0, 0))
            invariant
                self.wf(),
                self.toks() == ts,
                ts == old(self).toks(),
                old(self).at() < self.at(),
                g_ctors_rest(ts, p1, seq![fv]) == g_ctors_rest(ts, self.at(), ctors_view(constructors@)),
                g_type_body(ts, old(self).at()) == match g_ctors_rest(ts, p1, seq![fv]) {
                    Err(e) => Err(e),
                    Ok((cs, p2)) => if cs.len() == 1 {
                        Ok(((if cs[0].1.len() > 0 { cs[0].1[0] } else { unit_ty() }, false), p2))
                    } else {
                        Ok(((sum_of(cs, 0), false), p2))
                    },
                },
            decreases self.tokens.len() - self.pos,
        {
            let ghost b = ctors_view(constructors@);
            self.advance();
            let c = match self.parse_constructor() {
                Ok(c) => c,
                Err(e) => {
                    return Err(e);
                },
            };
            let ghost cv = (c.name@, crate::ast::types::types_view(c.args@));
            constructors.push(c);
            assert(ctors_view(constructors@) =~= b.push(cv));
        }
        if constructors.len() == 1 {
            let ctor = &constructors[0];
            let ty = if ctor.args.len() > 0 {
                ctor.args[0].clone()
            } else {
                Type::unit()
            };
            Ok((ty, false))
        } else {
            Ok((build_sum_type(&constructors), false))
        }
    }

    /// A type declaration; see [`g_type_decl`].
    pub(crate) fn type_decl(&mut self, given: Option<Visibility>) -> (r: Result<Decl, ParseError>)
        requires
            old(self).wf(),
        ensures
            final(self).wf(),
            final(self).toks() == old(self).toks(),
            g_type_decl(old(self).toks(), old(self).at(), given) == outcome(r, final(self).at()),
            r is Ok ==> old(self).at() < final(self).at(),
    {
        proof {
            reveal(g_type_decl);
        }
        let visibility = self.visibility(given);
        match self.consume(&Token::KwType(0, 0)) {
            Ok(()) => {},
            Err(e) => {
                return Err(e);
            },
        }
        let name = match self.expect_ident() {
            Ok(n) => n,
            Err(e) => {
                return Err(e);
            },
        };
        let params = match self.parse_type_params() {
            Ok(p) => p,
            Err(e) => {
                return Err(e);
            },
        };
        let is_abstract = if self.check(&Token::LParen(0, 0)) {
            self.advance();
            if self.check(&Token::DotDot(0, 0)) {
                self.advance();
                match self.consume(&Token::RParen(0, 0)) {
                    Ok(()) => {},
                    Err(e) => {
                        return Err(e);
                    },
                }
                true
            } else {
                return Err(ParseError::UnexpectedToken(owned("expected ..")));
            }
        } else {
            false
        };
        let (ty, transparent) = if self.check(&Token::Equals(0, 0)) {
            self.advance();
            match self.parse_type_body() {
                Ok(b) => b,
                Err(e) => {
                    return Err(e);
                },
            }
        } else if is_abstract {
            (Type::unit(), true)
        } else {
            return Err(ParseError::UnexpectedToken(owned("expected = or (..)")));
        };
        Ok(Decl::TypeDecl { visibility, name, params, ty, transparent })
    }

    /// A method signature after any `val`; see [`g_sig`].
    pub(crate) fn method_sig(&mut self) -> (r: Result<MethodSig, ParseError>)
        requires
            old(self).wf(),
        ensures
            final(self).wf(),
            final(self).toks() == old(self).toks(),
            r matches Ok(m) ==> g_sig(old(self).toks(), old(self).at()) == Ok::<((Seq<char>, SpecType), int), SpecParseError>(
                ((m.name.0@, m.ty@), final(self).at()),
            ) && old(self).at() < final(self).at(),
            r matches Err(e) ==> g_sig(old(self).toks(), old(self).at()) == Err::<((Seq<char>, SpecType), int), SpecParseError>(
                e@,
            ),
    {
        let method_name_str = match self.expect_ident() {
            Ok(n) => n,
            Err(e) => {
                return Err(e);
            },
        };
        match self.consume(&Token::Colon(0, 0)) {
            Ok(()) => {},
            Err(e) => {
                return Err(e);
            },
        }
        let method_ty = match self.ty() {
            Ok(t) => t,
            Err(e) => {
                return Err(e);
            },
        };
        if self.check(&Token::Equals(0, 0)) {
            self.advance();
            match self.term() {
                Ok(_) => {},
                Err(e) => {
                    return Err(e);
                },
            }
        }
        Ok(MethodSig { name: MethodName(method_name_str), ty: method_ty })
    }

    /// An optional supertrait clause, read and dropped; see
    /// [`g_supertrait`].
    pub(crate) fn supertrait(&mut self) -> (r: Result<(), ParseError>)
        requires
            old(self).wf(),
        ensures
            final(self).wf(),
            final(self).toks() == old(self).toks(),
            r is Ok ==> g_supertrait(old(self).toks(), old(self).at()) == Ok::<int, SpecParseError>(final(self).at()),
            r matches Err(e) ==> g_supertrait(old(self).toks(), old(self).at()) == Err::<int, SpecParseError>(e@),
            r is Ok ==> old(self).at() <= final(self).at(),
    {
        if self.check(&Token::KwWhere(0, 0)) {
            self.advance();
            let supertrait_named = match self.peek() {
                Some(Token::Ident(n, _, _)) => first_is_uppercase(n.as_str()),
                _ => false,
            };
            if supertrait_named {
                match self.expect_ident() {
                    Ok(_) => {},
                    Err(e) => {
                        return Err(e);
                    },
                }
                match self.parse_type_params() {
                    Ok(_) => {},
                    Err(e) => {
                        return Err(e);
                    },
                }
            }
        }
        Ok(())
    }

    /// The method signatures introduced by `val`; see [`g_val_sigs`].
    pub(crate) fn val_sigs(&mut self) -> (r: Result<Vec<MethodSig>, ParseError>)
        requires
            old(self).wf(),
        ensures
            final(self).wf(),
            final(self).toks() == old(self).toks(),
            r matches Ok(v) ==> g_val_sigs(old(self).toks(), old(self).at(), seq![]) == Ok::<
                (Seq<(Seq<char>, SpecType)>, int),
                SpecParseError,
            >((sigs_view(v@), final(self).at())),
            r matches Err(e) ==> g_val_sigs(old(self).toks(), old(self).at(), seq![]) == Err::<
                (Seq<(Seq<char>, SpecType)>, int),
                SpecParseError,
            >(e@),
            r is Ok ==> old(self).at() <= final(self).at(),
    {
        let ghost ts = self.toks();
        let ghost p4 = self.at();
        let mut methods: Vec<MethodSig> = Vec::new();
        assert(sigs_view(methods@) =~= seq![]);
        while self.check(&Token::KwVal(0, 0))
            invariant
                self.wf(),
                self.toks() == ts,
                ts == old(self).toks(),
                p4 == old(self).at(),
                p4 <= self.at(),
                g_val_sigs(ts, p4, seq![]) == g_val_sigs(ts, self.at(), sigs_view(methods@)),
            decreases self.tokens.len() - self.pos,
        {
            let ghost b = sigs_view(methods@);
            self.advance();
            let m = match self.method_sig() {
                Ok(m) => m,
                Err(e) => {
                    return Err(e);
                },
            };
            let ghost mv = (m.name.0@, m.ty@);
            methods.push(m);
            assert(sigs_view(methods@) =~= b.push(mv));
        }
        Ok(methods)
    }

    /// The method signatures of a braced trait body, after those of
    /// `initial`; see [`g_brace_sigs`].
    pub(crate) fn brace_sigs(&mut self, initial: Vec<MethodSig>) -> (r: Result<Vec<MethodSig>, ParseError>)
        requires
            old(self).wf(),
        ensures
            final(self).wf(),
            final(self).toks() == old(self).toks(),
            r matches Ok(v) ==> g_brace_sigs(old(self).toks(), old(self).at(), sigs_view(initial@)) == Ok::<
                (Seq<(Seq<char>, SpecType)>, int),
                SpecParseError,
            >((sigs_view(v@), final(self).at())),
            r matches Err(e) ==> g_brace_sigs(old(self).toks(), old(self).at(), sigs_view(initial@)) == Err::<
                (Seq<(Seq<char>, SpecType)>, int),
                SpecParseError,
            >(e@),
            r is Ok ==> old(self).at() <= final(self).at(),
    {
        let ghost ts = self.toks();
        let ghost p5 = self.at();
        let ghost ms = sigs_view(initial@);
        let mut methods = initial;
        while !self.check(&Token::RBrace(0, 0))
            invariant
                self.wf(),
                self.toks() == ts,
                ts == old(self).toks(),
                p5 == old(self).at(),
                p5 <= self.at(),
                ms == sigs_view(initial@),
                g_brace_sigs(ts, p5, ms) == g_brace_sigs(ts, self.at(), sigs_view(methods@)),
            decreases self.tokens.len() - self.pos,
        {
            let ghost b = sigs_view(methods@);
            let ghost here = self.at();
            if self.check(&Token::KwVal(0, 0)) {
                self.advance();
            }
            let ghost q = self.at();
            assert(q == if tok(ts, here) matches Some(SpecToken::KwVal(_, _)) { here + 1 } else { here });
            let m = match self.method_sig() {
                Ok(m) => m,
                Err(e) => {
                    assert(g_sig(ts, q) == Err::<((Seq<char>, SpecType), int), SpecParseError>(e@));
                    assert(g_brace_sigs(ts, here, b) == Err::<(Seq<(Seq<char>, SpecType)>, int), SpecParseError>(e@));
                    return Err(e);
                },
            };
            let ghost mv = (m.name.0@, m.ty@);
            methods.push(m);
            assert(sigs_view(methods@) =~= b.push(mv));
        }
        Ok(methods)
    }

    /// A trait declaration; see [`g_trait_decl`].
    pub(crate) fn trait_decl(&mut self, given: Option<Visibility>) -> (r: Result<Decl, ParseError>)
        requires
            old(self).wf(),
        ensures
            final(self).wf(),
            final(self).toks() == old(self).toks(),
            g_trait_decl(old(self).toks(), old(self).at(), given) == outcome(r, final(self).at()),
            r is Ok ==> old(self).at() < final(self).at(),
    {
        proof {
            reveal(g_trait_decl);
        }
        let ghost ts = self.toks();
        let visibility = self.visibility(given);
        match self.consume(&Token::KwTrait(0, 0)) {
            Ok(()) => {},
            Err(e) => {
                return Err(e);
            },
        }
        let name = match self.expect_ident() {
            Ok(n) => n,
            Err(e) => {
                return Err(e);
            },
        };
        let params = match self.parse_type_params() {
            Ok(p) => p,
            Err(e) => {
                return Err(e);
            },
        };
        match self.supertrait() {
            Ok(()) => {},
            Err(e) => {
                return Err(e);
            },
        }
        let methods = match self.val_sigs() {
            Ok(m) => m,
            Err(e) => {
                return Err(e);
            },
        };
        let methods = if self.check(&Token::LBrace(0, 0)) {
            self.advance();
            let methods = match self.brace_sigs(methods) {
                Ok(m) => m,
                Err(e) => {
                    return Err(e);
                },
            };
            match self.consume(&Token::RBrace(0, 0)) {
                Ok(()) => {},
                Err(e) => {
                    return Err(e);
                },
            }
            methods
        } else {
            methods
        };
        Ok(Decl::TraitDecl { visibility, name, params, methods })
    }

    /// A `use` declaration; see [`g_use_decl`].
    pub(crate) fn use_decl(&mut self) -> (r: Result<Decl, ParseError>)
        requires
            old(self).wf(),
        ensures
            final(self).wf(),
            final(self).toks() == old(self).toks(),
            g_use_decl(old(self).toks(), old(self).at()) == outcome(r, final(self).at()),
            r is Ok ==> old(self).at() < final(self).at(),
    {
        proof {
            reveal(g_use_decl);
        }
        let ghost ts = self.toks();
        match self.consume(&Token::KwUse(0, 0)) {
            Ok(()) => {},
            Err(e) => {
                return Err(e);
            },
        }
        let path = match self.parse_module_path() {
            Ok(p) => p,
            Err(e) => {
                return Err(e);
            },
        };
        let mode = if self.check(&Token::LParen(0, 0)) {
            self.advance();
            if self.check(&Token::DotDot(0, 0)) {
                self.advance();
                match self.consume(&Token::RParen(0, 0)) {
                    Ok(()) => {},
                    Err(e) => {
                        return Err(e);
                    },
                }
                UseMode::Unqualified
            } else {
                let mut items: Vec<String> = Vec::new();
                let first = match self.expect_ident() {
                    Ok(n) => n,
                    Err(e) => {
                        return Err(e);
                    },
                };
                items.push(first);
                assert(names_view(items@) =~= seq![first@]);
                let ghost p3 = self.at();
                let ghost pathv = names_view(path@);
                while self.check(&Token::Comma(0, 0))
                    invariant
                        self.wf(),
                        self.toks() == ts,
                        ts == old(self).toks(),
                        old(self).at() < self.at(),
                        pathv == names_view(path@),
                        g_items_rest(ts, p3, seq![first@]) == g_items_rest(ts, self.at(), names_view(items@)),
                        g_use_decl(ts, old(self).at()) == match g_items_rest(ts, p3, seq![first@]) {
                            Err(e) => Err(e),
                            Ok((its, p4)) => match g_consume(ts, p4, SpecToken::RParen(0, 0)) {
                                Err(e) => Err(e),
                                Ok(p5) => Ok((SpecDecl::UseDecl(pathv, SpecUseMode::Selective(its)), p5)),
                            },
                        },
                    decreases self.tokens.len() - self.pos,
                {
                    let ghost b = names_view(items@);
                    self.advance();
                    let n = match self.expect_ident() {
                        Ok(n) => n,
                        Err(e) => {
                            return Err(e);
                        },
                    };
                    items.push(n);
                    assert(names_view(items@) =~= b.push(n@));
                }
                match self.consume(&Token::RParen(0, 0)) {
                    Ok(()) => {},
                    Err(e) => {
                        return Err(e);
                    },
                }
                UseMode::Selective(items)
            }
        } else if self.check(&Token::KwAs(0, 0)) {
            self.advance();
            match self.expect_ident() {
                Ok(alias) => UseMode::Aliased(alias),
                Err(e) => {
                    return Err(e);
                },
            }
        } else {
            UseMode::Qualified
        };
        Ok(Decl::UseDecl { path, mode })
    }
}

} // verus!
