//! Whole programs and terms: the entry points of the parser.
use vstd::prelude::*;

use crate::ast::terms::{term_type, Decl, SpecDecl, Term, Visibility};
use crate::ast::types::Type;
use crate::parser::grammar::{
    g_decl, g_parse, g_program, g_term, outcome, peek_text, tok, ParseError, Parser, SpecParseError,
};
use crate::parser::lexer::{SpecToken, Token};
use crate::text::owned;

verus! {

/// The values of a list of declarations.
pub open spec fn decls_view(v: Seq<Decl>) -> Seq<SpecDecl> {
    v.map_values(|d: Decl| d@)
}

impl<'a> Parser<'a> {
    /// A declaration; see [`g_decl`].
    fn decl(&mut self) -> (r: Result<Decl, ParseError>)
        requires
            old(self).wf(),
        ensures
            final(self).wf(),
            final(self).toks() == old(self).toks(),
            g_decl(old(self).toks(), old(self).at()) == outcome(r, final(self).at()),
            r is Ok ==> old(self).at() < final(self).at(),
    {
        proof {
            reveal(g_decl);
        }
        match self.peek() {
            Some(Token::KwNoPrelude(_, _)) => {
                self.advance();
                Ok(Decl::NoPrelude)
            },
            Some(Token::KwType(_, _)) => self.type_decl(None),
            Some(Token::KwVal(_, _)) => self.val_decl(None),
            Some(Token::KwTrait(_, _)) => self.trait_decl(None),
            Some(Token::KwImpl(_, _)) => self.impl_decl(),
            Some(Token::KwUse(_, _)) => self.use_decl(),
            Some(Token::KwPub(_, _)) => {
                self.advance();
                match self.peek() {
                    Some(Token::KwType(_, _)) => self.type_decl(Some(Visibility::Public)),
                    Some(Token::KwVal(_, _)) => self.val_decl(Some(Visibility::Public)),
                    Some(Token::KwTrait(_, _)) => self.trait_decl(Some(Visibility::Public)),
                    _ => Err(
                        ParseError::UnexpectedToken(
                            crate::text::concat("expected declaration after pub, found ", self.peek_text().as_str()),
                        ),
                    ),
                }
            },
            _ => {
                let term = match self.term() {
                    Ok(t) => t,
                    Err(e) => {
                        return Err(e);
                    },
                };
                let ty = match term.get_type() {
                    Some(t) => t,
                    None => Type::unit(),
                };
                Ok(Decl::ValDecl { visibility: Visibility::Private, name: owned("main"), ty, term: Box::new(term) })
            },
        }
    }

    /// The declarations of a whole program, up to the end of the tokens or
    /// the end-of-input token; see [`g_program`].
    pub fn parse_program(&mut self) -> (r: Result<Vec<Decl>, ParseError>)
        requires
            old(self).wf(),
        ensures
            final(self).wf(),
            final(self).toks() == old(self).toks(),
            r matches Ok(v) ==> g_program(old(self).toks(), old(self).at(), seq![]) == Ok::<Seq<SpecDecl>, SpecParseError>(
                decls_view(v@),
            ),
            r matches Err(e) ==> g_program(old(self).toks(), old(self).at(), seq![]) == Err::<Seq<SpecDecl>, SpecParseError>(
                e@,
            ),
    {
        let ghost ts = self.toks();
        let ghost p0 = self.at();
        let mut decls: Vec<Decl> = Vec::new();
        assert(decls_view(decls@) =~= seq![]);
        while !self.is_at_end()
            invariant
                self.wf(),
                self.toks() == ts,
                ts == old(self).toks(),
                p0 == old(self).at(),
                g_program(ts, p0, seq![]) == g_program(ts, self.at(), decls_view(decls@)),
            ensures
                self.wf(),
                self.toks() == ts,
                g_program(ts, p0, seq![]) == g_program(ts, self.at(), decls_view(decls@)),
                self.at() < ts.len() ==> tok(ts, self.at()) matches Some(SpecToken::EOF(_, _)),
            decreases self.tokens.len() - self.pos,
        {
            if self.check(&Token::EOF(0, 0)) {
                break;
            }
            let ghost b = decls_view(decls@);
            let decl = match self.decl() {
                Ok(d) => d,
                Err(e) => {
                    return Err(e);
                },
            };
            let ghost dv = decl@;
            decls.push(decl);
            assert(decls_view(decls@) =~= b.push(dv));
        }
        if !self.is_at_end() {
            match self.consume(&Token::EOF(0, 0)) {
                Ok(()) => {},
                Err(e) => {
                    return Err(e);
                },
            }
        }
        Ok(decls)
    }

    /// A whole term followed by the end-of-input token; see [`g_parse`].
    pub fn parse(&mut self) -> (r: Result<Term, ParseError>)
        requires
            old(self).wf(),
            old(self).at() == 0,
        ensures
            final(self).wf(),
            final(self).toks() == old(self).toks(),
            r matches Ok(t) ==> g_parse(old(self).toks()) == Ok::<crate::ast::terms::SpecTerm, SpecParseError>(t@),
            r matches Err(e) ==> g_parse(old(self).toks()) == Err::<crate::ast::terms::SpecTerm, SpecParseError>(e@),
    {
        let result = match self.term() {
            Ok(t) => t,
            Err(e) => {
                return Err(e);
            },
        };
        match self.consume(&Token::EOF(0, 0)) {
            Ok(()) => Ok(result),
            Err(e) => Err(e),
        }
    }
}

} // verus!
