//! Implementation declarations: `impl Trait for Type with ... { ... }`.
use vstd::prelude::*;

use crate::ast::terms::{defs_view, Decl, Literal, MethodDef, SpecDecl, SpecLiteral, SpecTerm, Term};
use crate::ast::types::{MethodName, SpecType, TraitName, Type};
use crate::parser::grammar::{
    ends_with_methods, g_brace_defs, g_constraint_atoms, g_constraints, g_consume, g_expect_ident, g_impl_decl,
    g_impl_head, g_impl_methods,
    g_prefix_constraints, g_ty, g_with_methods, outcome, tok, unit_ty, ParseError, Parser, SpecParseError,
};
use crate::parser::lexer::{SpecToken, Token};
use crate::text::owned;

verus! {

impl<'a> Parser<'a> {
    /// Constraints with atomic types, read and dropped; see
    /// [`g_constraint_atoms`].
    fn constraint_atoms(&mut self) -> (r: Result<(), ParseError>)
        requires
            old(self).wf(),
        ensures
            final(self).wf(),
            final(self).toks() == old(self).toks(),
            r is Ok ==> g_constraint_atoms(old(self).toks(), old(self).at()) == Ok::<int, SpecParseError>(final(self).at())
                && old(self).at() < final(self).at(),
            r matches Err(e) ==> g_constraint_atoms(old(self).toks(), old(self).at()) == Err::<int, SpecParseError>(e@),
    {
        let ghost ts = self.toks();
        let ghost p0 = self.at();
        loop
            invariant
                self.wf(),
                self.toks() == ts,
                ts == old(self).toks(),
                p0 == old(self).at(),
                p0 <= self.at(),
                g_constraint_atoms(ts, p0) == g_constraint_atoms(ts, self.at()),
            decreases self.tokens.len() - self.pos,
        {
            match self.expect_ident() {
                Ok(_) => {},
                Err(e) => {
                    return Err(e);
                },
            }
            match self.ty_atom() {
                Ok(_) => {},
                Err(e) => {
                    return Err(e);
                },
            }
            if self.check(&Token::Comma(0, 0)) {
                self.advance();
            } else {
                return Ok(());
            }
        }
    }

    /// Constraints after `where`, read and dropped; see [`g_constraints`].
    fn parse_constraints(&mut self) -> (r: Result<(), ParseError>)
        requires
            old(self).wf(),
        ensures
            final(self).wf(),
            final(self).toks() == old(self).toks(),
            r is Ok ==> g_constraints(old(self).toks(), old(self).at()) == Ok::<int, SpecParseError>(final(self).at())
                && old(self).at() < final(self).at(),
            r matches Err(e) ==> g_constraints(old(self).toks(), old(self).at()) == Err::<int, SpecParseError>(e@),
    {
        let ghost ts = self.toks();
        let ghost p0 = self.at();
        loop
            invariant
                self.wf(),
                self.toks() == ts,
                ts == old(self).toks(),
                p0 == old(self).at(),
                p0 <= self.at(),
                g_constraints(ts, p0) == g_constraints(ts, self.at()),
            decreases self.tokens.len() - self.pos,
        {
            match self.expect_ident() {
                Ok(_) => {},
                Err(e) => {
                    return Err(e);
                },
            }
            match self.ty() {
                Ok(_) => {},
                Err(e) => {
                    return Err(e);
                },
            }
            if self.check(&Token::Comma(0, 0)) {
                self.advance();
            } else {
                return Ok(());
            }
        }
    }

    /// An optional prefix of constraints, read and dropped; see
    /// [`g_prefix_constraints`].
    fn prefix_constraints(&mut self) -> (r: Result<(), ParseError>)
        requires
            old(self).wf(),
        ensures
            final(self).wf(),
            final(self).toks() == old(self).toks(),
            r is Ok ==> g_prefix_constraints(old(self).toks(), old(self).at()) == Ok::<int, SpecParseError>(final(self).at())
                && old(self).at() <= final(self).at(),
            r matches Err(e) ==> g_prefix_constraints(old(self).toks(), old(self).at()) == Err::<int, SpecParseError>(e@),
    {
        if !self.check(&Token::LParen(0, 0)) {
            return Ok(());
        }
        self.advance();
        if self.check(&Token::RParen(0, 0)) {
            self.advance();
            return Ok(());
        }
        match self.constraint_atoms() {
            Ok(()) => {},
            Err(e) => {
                return Err(e);
            },
        }
        match self.consume(&Token::RParen(0, 0)) {
            Ok(()) => {},
            Err(e) => {
                return Err(e);
            },
        }
        if self.check(&Token::FatArrow(0, 0)) {
            self.advance();
            Ok(())
        } else {
            Err(ParseError::UnexpectedToken(owned("expected '=>' after impl constraints")))
        }
    }

    /// Whether the next token ends the inline methods of an impl.
    fn ends_with_methods(&self) -> (r: bool)
        requires
            self.wf(),
        ensures
            r == ends_with_methods(self.toks(), self.at()),
    {
        match self.peek() {
            Some(Token::KwImpl(_, _)) | Some(Token::KwType(_, _)) | Some(Token::KwVal(_, _)) | Some(Token::KwTrait(_, _))
            | Some(Token::EOF(_, _)) | None => true,
            _ => false,
        }
    }

    /// The inline methods of an impl; see [`g_with_methods`].
    fn with_methods(&mut self) -> (r: Result<Vec<MethodDef>, ParseError>)
        requires
            old(self).wf(),
        ensures
            final(self).wf(),
            final(self).toks() == old(self).toks(),
            r matches Ok(v) ==> g_with_methods(old(self).toks(), old(self).at(), seq![]) == Ok::<
                (Seq<(Seq<char>, SpecType, SpecTerm)>, int),
                SpecParseError,
            >((defs_view(v@), final(self).at())) && old(self).at() <= final(self).at(),
            r matches Err(e) ==> g_with_methods(old(self).toks(), old(self).at(), seq![]) == Err::<
                (Seq<(Seq<char>, SpecType, SpecTerm)>, int),
                SpecParseError,
            >(e@),
    {
        let ghost ts = self.toks();
        let ghost p0 = self.at();
        let mut methods: Vec<MethodDef> = Vec::new();
        assert(defs_view(methods@) =~= seq![]);
        loop
            invariant
                self.wf(),
                self.toks() == ts,
                ts == old(self).toks(),
                p0 == old(self).at(),
                p0 <= self.at(),
                g_with_methods(ts, p0, seq![]) == g_with_methods(ts, self.at(), defs_view(methods@)),
            decreases self.tokens.len() - self.pos,
        {
            let ghost here = self.at();
            let ghost b = defs_view(methods@);
            if self.ends_with_methods() {
                return Ok(methods);
            }
            if self.check(&Token::RBrace(0, 0)) {
                self.advance();
                return Ok(methods);
            }
            let method_name = if self.check(&Token::KwVal(0, 0)) {
                self.advance();
                match self.expect_ident() {
                    Ok(n) => n,
                    Err(e) => {
                        return Err(e);
                    },
                }
            } else if self.next_is_ident() {
                match self.expect_ident() {
                    Ok(n) => n,
                    Err(e) => {
                        return Err(e);
                    },
                }
            } else {
                return Ok(methods);
            };
            let method_ty = if self.check(&Token::Colon(0, 0)) {
                self.advance();
                match self.ty() {
                    Ok(t) => t,
                    Err(e) => {
                        return Err(e);
                    },
                }
            } else {
                Type::unit()
            };
            let term = if self.check(&Token::Equals(0, 0)) {
                self.advance();
                match self.term() {
                    Ok(t) => t,
                    Err(e) => {
                        return Err(e);
                    },
                }
            } else {
                Term::NativeLiteral(Literal::Unit)
            };
            let ghost entry = (method_name@, method_ty@, term@);
            methods.push(MethodDef { name: MethodName(method_name), ty: method_ty, term: Box::new(term) });
            assert(defs_view(methods@) =~= b.push(entry));
            if self.check(&Token::Comma(0, 0)) {
                self.advance();
            } else if !(self.next_is_ident() || self.check(&Token::KwVal(0, 0))) {
                return Ok(methods);
            }
        }
    }

    /// The methods of a braced impl body, after those of `initial`; see
    /// [`g_brace_defs`].
    fn brace_defs(&mut self, initial: Vec<MethodDef>) -> (r: Result<Vec<MethodDef>, ParseError>)
        requires
            old(self).wf(),
        ensures
            final(self).wf(),
            final(self).toks() == old(self).toks(),
            r matches Ok(v) ==> g_brace_defs(old(self).toks(), old(self).at(), defs_view(initial@)) == Ok::<
                (Seq<(Seq<char>, SpecType, SpecTerm)>, int),
                SpecParseError,
            >((defs_view(v@), final(self).at())) && old(self).at() <= final(self).at(),
            r matches Err(e) ==> g_brace_defs(old(self).toks(), old(self).at(), defs_view(initial@)) == Err::<
                (Seq<(Seq<char>, SpecType, SpecTerm)>, int),
                SpecParseError,
            >(e@),
    {
        let ghost ts = self.toks();
        let ghost p0 = self.at();
        let ghost ms = defs_view(initial@);
        let mut methods = initial;
        while !self.check(&Token::RBrace(0, 0))
            invariant
                self.wf(),
                self.toks() == ts,
                ts == old(self).toks(),
                p0 == old(self).at(),
                p0 <= self.at(),
                ms == defs_view(initial@),
                g_brace_defs(ts, p0, ms) == g_brace_defs(ts, self.at(), defs_view(methods@)),
            decreases self.tokens.len() - self.pos,
        {
            let ghost b = defs_view(methods@);
            match self.consume(&Token::KwVal(0, 0)) {
                Ok(()) => {},
                Err(e) => {
                    return Err(e);
                },
            }
            let method_name_str = match self.expect_ident() {
                Ok(n) => n,
                Err(e) => {
                    return Err(e);
                },
            };
            match self.consume(&Token::Colon(0, 0)) {
                Ok(()) => {},
                Err(e) => {
                    return Err(e);
                },
            }
            let method_ty = match self.ty() {
                Ok(t) => t,
                Err(e) => {
                    return Err(e);
                },
            };
            match self.consume(&Token::Equals(0, 0)) {
                Ok(()) => {},
                Err(e) => {
                    return Err(e);
                },
            }
            let term = match self.term() {
                Ok(t) => t,
                Err(e) => {
                    return Err(e);
                },
            };
            let ghost entry = (method_name_str@, method_ty@, term@);
            methods.push(MethodDef { name: MethodName(method_name_str), ty: method_ty, term: Box::new(term) });
            assert(defs_view(methods@) =~= b.push(entry));
            if self.check(&Token::Comma(0, 0)) {
                self.advance();
            }
        }
        Ok(methods)
    }

    /// The head of an implementation; see [`g_impl_head`].
    fn impl_head(&mut self) -> (r: Result<(TraitName, Type), ParseError>)
        requires
            old(self).wf(),
        ensures
            final(self).wf(),
            final(self).toks() == old(self).toks(),
            r matches Ok((tn, ty)) ==> g_impl_head(old(self).toks(), old(self).at()) == Ok::<
                ((Seq<char>, SpecType), int),
                SpecParseError,
            >(((tn.0@, ty@), final(self).at())) && old(self).at() < final(self).at(),
            r matches Err(e) ==> g_impl_head(old(self).toks(), old(self).at()) == Err::<
                ((Seq<char>, SpecType), int),
                SpecParseError,
            >(e@),
    {
        match self.consume(&Token::KwImpl(0, 0)) {
            Ok(()) => {},
            Err(e) => {
                return Err(e);
            },
        }
        match self.prefix_constraints() {
            Ok(()) => {},
            Err(e) => {
                return Err(e);
            },
        }
        let trait_name_str = match self.expect_ident() {
            Ok(n) => n,
            Err(e) => {
                return Err(e);
            },
        };
        let trait_name = TraitName(trait_name_str);
        let is_for = match self.peek() {
            Some(Token::Ident(name, _, _)) => crate::text::str_eq(name.as_str(), "for"),
            _ => false,
        };
        if is_for {
            self.advance();
        }
        let ty = match self.ty() {
            Ok(t) => t,
            Err(e) => {
                return Err(e);
            },
        };
        if self.check(&Token::KwWhere(0, 0)) {
            self.advance();
            match self.parse_constraints() {
                Ok(()) => {},
                Err(e) => {
                    return Err(e);
                },
            }
        }
        Ok((trait_name, ty))
    }

    /// The methods of an implementation; see [`g_impl_methods`].
    fn impl_methods(&mut self) -> (r: Result<Vec<MethodDef>, ParseError>)
        requires
            old(self).wf(),
        ensures
            final(self).wf(),
            final(self).toks() == old(self).toks(),
            r matches Ok(v) ==> g_impl_methods(old(self).toks(), old(self).at()) == Ok::<
                (Seq<(Seq<char>, SpecType, SpecTerm)>, int),
                SpecParseError,
            >((defs_view(v@), final(self).at())) && old(self).at() <= final(self).at(),
            r matches Err(e) ==> g_impl_methods(old(self).toks(), old(self).at()) == Err::<
                (Seq<(Seq<char>, SpecType, SpecTerm)>, int),
                SpecParseError,
            >(e@),
    {
        let methods = if self.check(&Token::KwWith(0, 0)) {
            self.advance();
            match self.with_methods() {
                Ok(m) => m,
                Err(e) => {
                    return Err(e);
                },
            }
        } else {
            let v: Vec<MethodDef> = Vec::new();
            assert(defs_view(v@) =~= seq![]);
            v
        };
        if self.check(&Token::LBrace(0, 0)) {
            self.advance();
            let methods = match self.brace_defs(methods) {
                Ok(m) => m,
                Err(e) => {
                    return Err(e);
                },
            };
            match self.consume(&Token::RBrace(0, 0)) {
                Ok(()) => {},
                Err(e) => {
                    return Err(e);
                },
            }
            Ok(methods)
        } else {
            Ok(methods)
        }
    }

    /// An implementation; see [`g_impl_decl`].
    pub(crate) fn impl_decl(&mut self) -> (r: Result<Decl, ParseError>)
        requires
            old(self).wf(),
        ensures
            final(self).wf(),
            final(self).toks() == old(self).toks(),
            g_impl_decl(old(self).toks(), old(self).at()) == outcome(r, final(self).at()),
            r is Ok ==> old(self).at() < final(self).at(),
    {
        proof {
            reveal(g_impl_decl);
        }
        let (trait_name, ty) = match self.impl_head() {
            Ok(h) => h,
            Err(e) => {
                return Err(e);
            },
        };
        let methods = match self.impl_methods() {
            Ok(m) => m,
            Err(e) => {
                return Err(e);
            },
        };
        Ok(Decl::ImplDecl { ty, trait_name, methods })
    }
}

} // verus!
