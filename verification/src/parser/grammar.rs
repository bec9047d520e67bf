//! The grammar of λ◦: a recursive-descent parser over tokens.
//!
//! Each parsing function is stated by a spec function of the same name
//! with a `g_` in front, over the tokens' values and the position at which
//! it starts; it gives what is parsed and the position after it, or the
//! error.
use vstd::prelude::*;

use crate::ast::patterns::{Pattern, SpecPattern};
use crate::ast::terms::{
    Arm, Decl, Literal, MethodDef, MethodSig, SpecDecl, SpecLiteral, SpecTerm, SpecUseMode, Term, UseMode, Visibility,
    arms_view, defs_view, names_view, sigs_view,
};
use crate::ast::types::{MethodName, TraitName};
use crate::ast::types::{Multiplicity, NativeKind, SpecType, Type, TypeName};
use crate::parser::lexer::{token_kind, token_name, tokens_view, SpecToken, Token};
use crate::text::owned;

mod decls;
mod impls;
pub mod program;

verus! {

/// Why the tokens do not form a term or a program.
#[derive(Debug)]
pub enum ParseError {
    UnexpectedToken(String),
    ExpectedToken { expected: String, found: String },
    UnexpectedEndOfInput,
}

/// The value of a [`ParseError`].
pub enum SpecParseError {
    UnexpectedToken(Seq<char>),
    ExpectedToken(Seq<char>, Seq<char>),
    UnexpectedEndOfInput,
}

impl View for ParseError {
    type V = SpecParseError;

    open spec fn view(&self) -> SpecParseError {
        match self {
            ParseError::UnexpectedToken(s) => SpecParseError::UnexpectedToken(s@),
            ParseError::ExpectedToken { expected, found } => SpecParseError::ExpectedToken(expected@, found@),
            ParseError::UnexpectedEndOfInput => SpecParseError::UnexpectedEndOfInput,
        }
    }
}

/// The message shown for a parse error.
pub open spec fn parse_error_text(e: SpecParseError) -> Seq<char> {
    match e {
        SpecParseError::UnexpectedToken(s) => "Unexpected token: "@ + s,
        SpecParseError::ExpectedToken(expected, found) => "Expected "@ + expected + ", found "@ + found,
        SpecParseError::UnexpectedEndOfInput => "Unexpected end of input"@,
    }
}

impl ParseError {
    /// The message shown for this error.
    pub fn message(&self) -> (r: String)
        ensures
            r@ == parse_error_text(self@),
    {
        match self {
            ParseError::UnexpectedToken(s) => crate::text::concat("Unexpected token: ", s.as_str()),
            ParseError::ExpectedToken { expected, found } => {
                let a = crate::text::concat("Expected ", expected.as_str());
                let b = crate::text::concat(a.as_str(), ", found ");
                crate::text::concat(b.as_str(), found.as_str())
            },
            ParseError::UnexpectedEndOfInput => owned("Unexpected end of input"),
        }
    }
}

/// What a parsing function gave, with the position after it, as values.
pub open spec fn outcome<T: View>(r: Result<T, ParseError>, pos: int) -> Result<(T::V, int), SpecParseError> {
    match r {
        Ok(x) => Ok((x@, pos)),
        Err(e) => Err(e@),
    }
}

/// The token at position `p`, if there is one.
pub open spec fn tok(ts: Seq<SpecToken>, p: int) -> Option<SpecToken> {
    if 0 <= p < ts.len() {
        Some(ts[p])
    } else {
        None
    }
}

/// Whether the token at `p` is of the variant of `k`.
pub open spec fn at_kind(ts: Seq<SpecToken>, p: int, k: SpecToken) -> bool {
    tok(ts, p) matches Some(t) && token_kind(t) == token_kind(k)
}

/// The position after the token at `p`, which must be of the variant of
/// `k`.
pub open spec fn g_consume(ts: Seq<SpecToken>, p: int, k: SpecToken) -> Result<int, SpecParseError> {
    match tok(ts, p) {
        Some(t) => if token_kind(t) == token_kind(k) {
            Ok(p + 1)
        } else {
            Err(SpecParseError::ExpectedToken(token_name(k), token_name(t)))
        },
        None => Err(SpecParseError::UnexpectedEndOfInput),
    }
}

/// An identifier at `p`; the type keywords and `Unit` count as the names
/// they spell.
pub open spec fn g_expect_ident(ts: Seq<SpecToken>, p: int) -> Result<(Seq<char>, int), SpecParseError> {
    match tok(ts, p) {
        Some(SpecToken::Ident(n, _, _)) => Ok((n, p + 1)),
        Some(SpecToken::TyInt(_, _)) => Ok(("Int"@, p + 1)),
        Some(SpecToken::TyFloat(_, _)) => Ok(("Float"@, p + 1)),
        Some(SpecToken::TyChar(_, _)) => Ok(("Char"@, p + 1)),
        Some(SpecToken::KwUnit(_, _)) => Ok(("Unit"@, p + 1)),
        Some(t) => Err(SpecParseError::ExpectedToken("identifier"@, token_name(t))),
        None => Err(SpecParseError::UnexpectedEndOfInput),
    }
}

/// Whether `char::is_lowercase` holds of a character (Unicode's Lowercase
/// property).
pub uninterp spec fn is_lower(c: char) -> bool;

/// Whether `char::is_uppercase` holds of a character (Unicode's Uppercase
/// property).
pub uninterp spec fn is_upper(c: char) -> bool;

/// Calls `char::is_lowercase`; the result is named [`is_lower`].
#[verifier::external_body]
fn char_is_lowercase(c: char) -> (r: bool)
    ensures
        r == is_lower(c),
{
    c.is_lowercase()
}

/// Calls `char::is_uppercase`; the result is named [`is_upper`].
#[verifier::external_body]
fn char_is_uppercase(c: char) -> (r: bool)
    ensures
        r == is_upper(c),
{
    c.is_uppercase()
}

/// The name begins with a lowercase letter.
pub open spec fn starts_lower(n: Seq<char>) -> bool {
    n.len() > 0 && is_lower(n[0])
}

/// The name begins with an uppercase letter.
pub open spec fn starts_upper(n: Seq<char>) -> bool {
    n.len() > 0 && is_upper(n[0])
}

/// Whether the first character of `s` is lowercase.
fn first_is_lowercase(s: &str) -> (r: bool)
    ensures
        r == starts_lower(s@),
{
    let cs = crate::text::chars_of(s);
    cs.len() > 0 && char_is_lowercase(cs[0])
}

/// Whether the first character of `s` is uppercase.
fn first_is_uppercase(s: &str) -> (r: bool)
    ensures
        r == starts_upper(s@),
{
    let cs = crate::text::chars_of(s);
    cs.len() > 0 && char_is_uppercase(cs[0])
}

/// `a → b`, the argument taken once.
pub open spec fn arrow_once(a: SpecType, b: SpecType) -> SpecType {
    SpecType::Arrow(Multiplicity::One, Box::new(a), Box::new(b))
}

/// The unit type.
pub open spec fn unit_ty() -> SpecType {
    SpecType::Native(NativeKind::Unit)
}

/// A type, at `p`: arrows, right-nested.
pub open spec fn g_ty(ts: Seq<SpecToken>, p: int) -> Result<(SpecType, int), SpecParseError>
    decreases ts.len() - p, 3int,
{
    g_ty_arrow(ts, p)
}

/// An application type, then `-> type` if an arrow follows.
pub open spec fn g_ty_arrow(ts: Seq<SpecToken>, p: int) -> Result<(SpecType, int), SpecParseError>
    decreases ts.len() - p, 2int,
{
    match g_ty_app(ts, p) {
        Err(e) => Err(e),
        Ok((lhs, p1)) => if tok(ts, p1) matches Some(SpecToken::Arrow(_, _)) {
            if p < p1 <= ts.len() {
                match g_ty_arrow(ts, p1 + 1) {
                    Err(e) => Err(e),
                    Ok((rhs, p2)) => Ok((arrow_once(lhs, rhs), p2)),
                }
            } else {
                Err(SpecParseError::UnexpectedEndOfInput)
            }
        } else {
            Ok((lhs, p1))
        },
    }
}

/// An atomic type applied to the atomic types that follow it.
pub open spec fn g_ty_app(ts: Seq<SpecToken>, p: int) -> Result<(SpecType, int), SpecParseError>
    decreases ts.len() - p, 1int,
{
    match g_ty_atom(ts, p) {
        Err(e) => Err(e),
        Ok((t, p1)) => if p < p1 <= ts.len() {
            g_ty_app_rest(ts, p1, t)
        } else {
            Err(SpecParseError::UnexpectedEndOfInput)
        },
    }
}

/// A type `acc` applied to the atomic types from `p` on: an inductive type
/// or an application takes them as further parameters, a variable becomes
/// applied to them; any other type cannot be applied.
pub open spec fn g_ty_app_rest(ts: Seq<SpecToken>, p: int, acc: SpecType) -> Result<(SpecType, int), SpecParseError>
    decreases ts.len() - p, 1int,
{
    if is_type_atom_start(ts, p) {
        match g_ty_atom(ts, p) {
            Err(e) => Err(e),
            Ok((arg, p1)) => match apply_type(acc, arg) {
                Some(t) => if p < p1 <= ts.len() {
                    g_ty_app_rest(ts, p1, t)
                } else {
                    Err(SpecParseError::UnexpectedEndOfInput)
                },
                None => Err(SpecParseError::UnexpectedToken("expected type constructor or type variable"@)),
            },
        }
    } else {
        Ok((acc, p))
    }
}

/// `acc` applied to one more type, if it can be.
pub open spec fn apply_type(acc: SpecType, arg: SpecType) -> Option<SpecType> {
    match acc {
        SpecType::Inductive(n, args) => Some(SpecType::Inductive(n, args.push(arg))),
        SpecType::Var(n) => Some(SpecType::App(Box::new(SpecType::Var(n)), seq![arg])),
        SpecType::App(b, args) => Some(SpecType::App(b, args.push(arg))),
        _ => None,
    }
}

/// Whether an atomic type can start at `p`.
pub open spec fn is_type_atom_start(ts: Seq<SpecToken>, p: int) -> bool {
    match tok(ts, p) {
        Some(SpecToken::TyInt(_, _)) | Some(SpecToken::TyFloat(_, _)) | Some(SpecToken::TyChar(_, _)) | Some(
            SpecToken::KwUnit(_, _),
        ) | Some(SpecToken::LParen(_, _)) | Some(SpecToken::Ident(_, _, _)) => true,
        _ => false,
    }
}

/// An atomic type at `p`: a native type, a borrowed type, a type variable
/// (a lowercase name), an inductive type (any other name), or a
/// parenthesised type or pair of types.
pub open spec fn g_ty_atom(ts: Seq<SpecToken>, p: int) -> Result<(SpecType, int), SpecParseError>
    decreases ts.len() - p, 0int,
{
    match tok(ts, p) {
        Some(SpecToken::KwUnit(_, _)) => Ok((unit_ty(), p + 1)),
        Some(SpecToken::TyInt(_, _)) => Ok((SpecType::Native(NativeKind::Int), p + 1)),
        Some(SpecToken::TyFloat(_, _)) => Ok((SpecType::Native(NativeKind::Float), p + 1)),
        Some(SpecToken::TyChar(_, _)) => Ok((SpecType::Native(NativeKind::Char), p + 1)),
        Some(SpecToken::MultiplicityBorrow(_, _)) => match g_ty_atom(ts, p + 1) {
            Err(e) => Err(e),
            Ok((inner, p1)) => Ok((SpecType::Borrow(Box::new(inner)), p1)),
        },
        Some(SpecToken::Ident(n, _, _)) => if starts_lower(n) {
            Ok((SpecType::Var(n), p + 1))
        } else {
            Ok((SpecType::Inductive(n, seq![]), p + 1))
        },
        Some(SpecToken::LParen(_, _)) => match g_ty(ts, p + 1) {
            Err(e) => Err(e),
            Ok((t, p1)) => if tok(ts, p1) matches Some(SpecToken::Comma(_, _)) {
                if p < p1 <= ts.len() {
                    match g_ty(ts, p1 + 1) {
                        Err(e) => Err(e),
                        Ok((t2, p2)) => match g_consume(ts, p2, SpecToken::RParen(0, 0)) {
                            Err(e) => Err(e),
                            Ok(p3) => Ok((SpecType::Product(Box::new(t), Box::new(t2)), p3)),
                        },
                    }
                } else {
                    Err(SpecParseError::UnexpectedEndOfInput)
                }
            } else {
                match g_consume(ts, p1, SpecToken::RParen(0, 0)) {
                    Err(e) => Err(e),
                    Ok(p3) => Ok((t, p3)),
                }
            },
        },
        _ => Err(SpecParseError::UnexpectedToken("expected type"@)),
    }
}

/// The values of a list of patterns.
pub open spec fn pats(v: Seq<Pattern>) -> Seq<SpecPattern> {
    v.map_values(|p: Pattern| p@)
}

/// Whether an atomic pattern can start at `p`.
pub open spec fn is_pattern_atom_start(ts: Seq<SpecToken>, p: int) -> bool {
    match tok(ts, p) {
        Some(SpecToken::Underscore(_, _)) | Some(SpecToken::Ident(_, _, _)) | Some(SpecToken::LParen(_, _)) => true,
        _ => false,
    }
}

/// A pattern at `p`: an atomic pattern, and, if it is a constructor, the
/// atomic patterns that follow as further arguments of it.
pub open spec fn g_pattern(ts: Seq<SpecToken>, p: int) -> Result<(SpecPattern, int), SpecParseError>
    decreases ts.len() - p, 3int,
{
    match g_pattern_atom(ts, p) {
        Err(e) => Err(e),
        Ok((pa, p1)) => if p < p1 <= ts.len() {
            match g_pattern_args(ts, p1, seq![]) {
                Err(e) => Err(e),
                Ok((args, p2)) => if args.len() == 0 {
                    Ok((pa, p2))
                } else {
                    match pa {
                        SpecPattern::Constructor(n, ca) => Ok((SpecPattern::Constructor(n, ca + args), p2)),
                        _ => Ok((pa, p2)),
                    }
                },
            }
        } else {
            Err(SpecParseError::UnexpectedEndOfInput)
        },
    }
}

/// The atomic patterns from `p` on, after those of `acc`.
pub open spec fn g_pattern_args(ts: Seq<SpecToken>, p: int, acc: Seq<SpecPattern>) -> Result<
    (Seq<SpecPattern>, int),
    SpecParseError,
>
    decreases ts.len() - p, 2int,
{
    if is_pattern_atom_start(ts, p) {
        match g_pattern_atom(ts, p) {
            Err(e) => Err(e),
            Ok((a, p1)) => if p < p1 <= ts.len() {
                g_pattern_args(ts, p1, acc.push(a))
            } else {
                Err(SpecParseError::UnexpectedEndOfInput)
            },
        }
    } else {
        Ok((acc, p))
    }
}

/// An atomic pattern at `p`: `_`; `true` or `false` as the constructors
/// `True` and `False`; a variable (a lowercase name); a constructor with the
/// atomic patterns that follow as its arguments; or a parenthesised
/// pattern.
pub open spec fn g_pattern_atom(ts: Seq<SpecToken>, p: int) -> Result<(SpecPattern, int), SpecParseError>
    decreases ts.len() - p, 1int,
{
    match tok(ts, p) {
        Some(SpecToken::Underscore(_, _)) => Ok((SpecPattern::Wildcard, p + 1)),
        Some(SpecToken::Ident(n, _, _)) => if n == "true"@ {
            Ok((SpecPattern::Constructor("True"@, seq![]), p + 1))
        } else if n == "false"@ {
            Ok((SpecPattern::Constructor("False"@, seq![]), p + 1))
        } else if starts_lower(n) {
            Ok((SpecPattern::Var(n), p + 1))
        } else {
            match g_pattern_args(ts, p + 1, seq![]) {
                Err(e) => Err(e),
                Ok((args, p1)) => Ok((SpecPattern::Constructor(n, args), p1)),
            }
        },
        Some(SpecToken::LParen(_, _)) => match g_pattern(ts, p + 1) {
            Err(e) => Err(e),
            Ok((pt, p1)) => match g_consume(ts, p1, SpecToken::RParen(0, 0)) {
                Err(e) => Err(e),
                Ok(p2) => Ok((pt, p2)),
            },
        },
        _ => Err(SpecParseError::UnexpectedToken("expected pattern"@)),
    }
}

/// Whether a further argument of an application can start at `p`.
pub open spec fn is_app_continuation(ts: Seq<SpecToken>, p: int) -> bool {
    match tok(ts, p) {
        Some(SpecToken::Ident(_, _, _)) | Some(SpecToken::LParen(_, _)) | Some(SpecToken::KwLet(_, _)) | Some(
            SpecToken::KwMatch(_, _),
        ) | Some(SpecToken::KwView(_, _)) | Some(SpecToken::IntLit(_, _, _)) | Some(SpecToken::FloatLit(_, _, _))
        | Some(SpecToken::CharLit(_, _, _)) | Some(SpecToken::StringLit(_, _, _)) | Some(SpecToken::UnitLit(_, _)) => true,
        _ => false,
    }
}

/// A term at `p`: an application.
pub open spec fn g_term(ts: Seq<SpecToken>, p: int) -> Result<(SpecTerm, int), SpecParseError>
    decreases ts.len() - p, 4int,
{
    g_app_expr(ts, p)
}

/// An atomic term applied to the atomic terms that follow it, leftmost
/// first.
pub open spec fn g_app_expr(ts: Seq<SpecToken>, p: int) -> Result<(SpecTerm, int), SpecParseError>
    decreases ts.len() - p, 3int,
{
    match g_atom_expr(ts, p) {
        Err(e) => Err(e),
        Ok((h, p1)) => if p < p1 <= ts.len() {
            g_app_rest(ts, p1, h)
        } else {
            Err(SpecParseError::UnexpectedEndOfInput)
        },
    }
}

/// `acc` applied to the atomic terms from `p` on.
pub open spec fn g_app_rest(ts: Seq<SpecToken>, p: int, acc: SpecTerm) -> Result<(SpecTerm, int), SpecParseError>
    decreases ts.len() - p, 2int,
{
    if is_app_continuation(ts, p) {
        match g_atom_expr(ts, p) {
            Err(e) => Err(e),
            Ok((a, p1)) => if p < p1 <= ts.len() {
                g_app_rest(ts, p1, SpecTerm::App(Box::new(acc), Box::new(a)))
            } else {
                Err(SpecParseError::UnexpectedEndOfInput)
            },
        }
    } else {
        Ok((acc, p))
    }
}

/// The text of the next token, as an error reports it: its variant's name
/// in `Some(..)`, or `None` at the end.
pub open spec fn peek_text(ts: Seq<SpecToken>, p: int) -> Seq<char> {
    match tok(ts, p) {
        Some(t) => "Some("@ + token_name(t) + ")"@,
        None => "None"@,
    }
}

/// An atomic term at `p`: a literal; a constructor (a name beginning with
/// an uppercase letter) or a variable; an abstraction, `let`, `match`,
/// `view`, or a parenthesised term.
pub open spec fn g_atom_expr(ts: Seq<SpecToken>, p: int) -> Result<(SpecTerm, int), SpecParseError>
    decreases ts.len() - p, 1int,
{
    match tok(ts, p) {
        Some(SpecToken::IntLit(n, _, _)) => Ok((SpecTerm::NativeLiteral(SpecLiteral::Int(n)), p + 1)),
        Some(SpecToken::FloatLit(d, _, _)) => Ok((SpecTerm::NativeLiteral(SpecLiteral::Float(d)), p + 1)),
        Some(SpecToken::CharLit(c, _, _)) => Ok((SpecTerm::NativeLiteral(SpecLiteral::Char(c)), p + 1)),
        Some(SpecToken::StringLit(s, _, _)) => Ok((SpecTerm::NativeLiteral(SpecLiteral::Str(s)), p + 1)),
        Some(SpecToken::UnitLit(_, _)) => Ok((SpecTerm::NativeLiteral(SpecLiteral::Unit), p + 1)),
        Some(SpecToken::KwUnit(_, _)) => Ok((SpecTerm::NativeLiteral(SpecLiteral::Unit), p + 1)),
        Some(SpecToken::Ident(n, _, _)) => if starts_upper(n) {
            Ok((SpecTerm::Constructor(n, seq![]), p + 1))
        } else {
            Ok((SpecTerm::Var(n), p + 1))
        },
        Some(SpecToken::KwLambda(_, _)) => g_lambda_expr(ts, p),
        Some(SpecToken::KwLet(_, _)) => g_let_expr(ts, p),
        Some(SpecToken::KwMatch(_, _)) => g_arms_expr(ts, p, false),
        Some(SpecToken::KwView(_, _)) => g_arms_expr(ts, p, true),
        Some(SpecToken::LParen(_, _)) => match g_term(ts, p + 1) {
            Err(e) => Err(e),
            Ok((t, p1)) => match g_consume(ts, p1, SpecToken::RParen(0, 0)) {
                Err(e) => Err(e),
                Ok(p2) => Ok((t, p2)),
            },
        },
        _ => Err(SpecParseError::UnexpectedToken(peek_text(ts, p))),
    }
}

/// The multiplicity and type with which a binder is annotated, from the
/// token after its colon: an optional multiplicity (`0`, `1`, `ω`, or `&`
/// when a colon follows it) with its own colon, then a type; the
/// multiplicity is one where none is written.
pub open spec fn g_binder(ts: Seq<SpecToken>, p: int) -> Result<((Multiplicity, SpecType), int), SpecParseError> {
    let m = match tok(ts, p) {
        Some(SpecToken::MultiplicityZero(_, _)) => match g_consume(ts, p + 1, SpecToken::Colon(0, 0)) {
            Ok(p1) => Ok((Multiplicity::Zero, p1)),
            Err(e) => Err(e),
        },
        Some(SpecToken::MultiplicityOne(_, _)) => match g_consume(ts, p + 1, SpecToken::Colon(0, 0)) {
            Ok(p1) => Ok((Multiplicity::One, p1)),
            Err(e) => Err(e),
        },
        Some(SpecToken::MultiplicityOmega(_, _)) => match g_consume(ts, p + 1, SpecToken::Colon(0, 0)) {
            Ok(p1) => Ok((Multiplicity::Omega, p1)),
            Err(e) => Err(e),
        },
        Some(SpecToken::MultiplicityBorrow(_, _)) => if tok(ts, p + 1) matches Some(SpecToken::Colon(_, _)) {
            Ok((Multiplicity::Borrow, p + 2))
        } else {
            Ok((Multiplicity::One, p))
        },
        Some(SpecToken::IntLit(n, _, _)) => match g_consume(ts, p + 1, SpecToken::Colon(0, 0)) {
            Ok(p1) => if n == 0 {
                Ok((Multiplicity::Zero, p1))
            } else if n == 1 {
                Ok((Multiplicity::One, p1))
            } else {
                Err(
                    SpecParseError::UnexpectedToken(
                        "expected multiplicity (0, 1), found "@ + crate::runtime::primitives::int_decimal(n as int),
                    ),
                )
            },
            Err(e) => Err(e),
        },
        _ => Ok((Multiplicity::One, p)),
    };
    match m {
        Err(e) => Err(e),
        Ok((mult, p1)) => match g_ty(ts, p1) {
            Err(e) => Err(e),
            Ok((ty, p2)) => Ok(((mult, ty), p2)),
        },
    }
}

/// The variable bound at `p`, and an optional annotation after it; without
/// one the multiplicity is one and the type unit.
pub open spec fn g_binding(ts: Seq<SpecToken>, p: int) -> Result<((Seq<char>, Multiplicity, SpecType), int), SpecParseError> {
    match tok(ts, p) {
        Some(SpecToken::Ident(v, _, _)) => if tok(ts, p + 1) matches Some(SpecToken::Colon(_, _)) {
            match g_binder(ts, p + 2) {
                Err(e) => Err(e),
                Ok(((m, ty), p1)) => Ok(((v, m, ty), p1)),
            }
        } else {
            Ok(((v, Multiplicity::One, unit_ty()), p + 1))
        },
        _ => Err(SpecParseError::UnexpectedToken("expected variable"@)),
    }
}

/// An abstraction at `p`: `λ x [: annotation] . term`.
pub open spec fn g_lambda_expr(ts: Seq<SpecToken>, p: int) -> Result<(SpecTerm, int), SpecParseError>
    decreases ts.len() - p, 0int,
{
    match g_binding(ts, p + 1) {
        Err(e) => Err(e),
        Ok(((v, m, ann), p1)) => match g_consume(ts, p1, SpecToken::Dot(0, 0)) {
            Err(e) => Err(e),
            Ok(p2) => if p < p2 <= ts.len() {
                match g_term(ts, p2) {
                    Err(e) => Err(e),
                    Ok((body, p3)) => Ok((SpecTerm::Abs(v, m, ann, Box::new(body)), p3)),
                }
            } else {
                Err(SpecParseError::UnexpectedEndOfInput)
            },
        },
    }
}

/// A `let` at `p`: `let x [: annotation] = term in term`.
pub open spec fn g_let_expr(ts: Seq<SpecToken>, p: int) -> Result<(SpecTerm, int), SpecParseError>
    decreases ts.len() - p, 0int,
{
    match g_binding(ts, p + 1) {
        Err(e) => Err(e),
        Ok(((v, m, ann), p1)) => match g_consume(ts, p1, SpecToken::Equals(0, 0)) {
            Err(e) => Err(e),
            Ok(p2) => if p < p2 <= ts.len() {
                match g_term(ts, p2) {
                    Err(e) => Err(e),
                    Ok((value, p3)) => match g_consume(ts, p3, SpecToken::KwIn(0, 0)) {
                        Err(e) => Err(e),
                        Ok(p4) => if p < p4 <= ts.len() {
                            match g_term(ts, p4) {
                                Err(e) => Err(e),
                                Ok((body, p5)) => Ok((SpecTerm::Let(v, m, ann, Box::new(value), Box::new(body)), p5)),
                            }
                        } else {
                            Err(SpecParseError::UnexpectedEndOfInput)
                        },
                    },
                }
            } else {
                Err(SpecParseError::UnexpectedEndOfInput)
            },
        },
    }
}

/// A `match` (or, with `view` set, a `view`) at `p`:
/// `match term with { pattern => term | ... }`.
pub open spec fn g_arms_expr(ts: Seq<SpecToken>, p: int, view: bool) -> Result<(SpecTerm, int), SpecParseError>
    decreases ts.len() - p, 0int,
{
    if !(0 <= p < ts.len()) {
        Err(SpecParseError::UnexpectedEndOfInput)
    } else {
    match g_term(ts, p + 1) {
        Err(e) => Err(e),
        Ok((s, p1)) => match g_consume(ts, p1, SpecToken::KwWith(0, 0)) {
            Err(e) => Err(e),
            Ok(p2) => match g_consume(ts, p2, SpecToken::LBrace(0, 0)) {
                Err(e) => Err(e),
                Ok(p3) => if p < p3 <= ts.len() {
                    match g_arms(ts, p3, seq![]) {
                        Err(e) => Err(e),
                        Ok((arms, p4)) => if view {
                            Ok((SpecTerm::View(Box::new(s), arms), p4))
                        } else {
                            Ok((SpecTerm::Match(Box::new(s), arms), p4))
                        },
                    }
                } else {
                    Err(SpecParseError::UnexpectedEndOfInput)
                },
            },
        },
    }
    }
}

/// The arms from `p` on, after those of `acc`, up to and including the
/// closing brace.
pub open spec fn g_arms(ts: Seq<SpecToken>, p: int, acc: Seq<(SpecPattern, SpecTerm)>) -> Result<
    (Seq<(SpecPattern, SpecTerm)>, int),
    SpecParseError,
>
    decreases ts.len() - p, 0int,
{
    match g_pattern(ts, p) {
        Err(e) => Err(e),
        Ok((pat, p1)) => match g_consume(ts, p1, SpecToken::FatArrow(0, 0)) {
            Err(e) => Err(e),
            Ok(p2) => if p < p2 <= ts.len() {
                match g_term(ts, p2) {
                    Err(e) => Err(e),
                    Ok((body, p3)) => {
                        let acc2 = acc.push((pat, body));
                        match tok(ts, p3) {
                            Some(SpecToken::Pipe(_, _)) => if p < p3 + 1 <= ts.len() {
                                g_arms(ts, p3 + 1, acc2)
                            } else {
                                Err(SpecParseError::UnexpectedEndOfInput)
                            },
                            Some(SpecToken::RBrace(_, _)) => Ok((acc2, p3 + 1)),
                            _ => Err(SpecParseError::UnexpectedToken("expected | or }"@)),
                        }
                    },
                }
            } else {
                Err(SpecParseError::UnexpectedEndOfInput)
            },
        },
    }
}

/// The visibility a declaration is given: the one passed down, or else
/// public when a `pub` stands at `p`, which is then read.
pub open spec fn g_visibility(ts: Seq<SpecToken>, p: int, given: Option<Visibility>) -> (Visibility, int) {
    match given {
        Some(v) => (v, p),
        None => if tok(ts, p) matches Some(SpecToken::KwPub(_, _)) {
            (Visibility::Public, p + 1)
        } else {
            (Visibility::Private, p)
        },
    }
}

/// A name may stand for a type parameter when it begins with a lowercase
/// letter or an underscore.
pub open spec fn is_param_name(n: Seq<char>) -> bool {
    n.len() > 0 && (is_lower(n[0]) || n[0] == '_')
}

/// The type parameters from `p` on, after those of `acc`: the names that
/// follow, each of which must be a parameter name.
pub open spec fn g_type_params(ts: Seq<SpecToken>, p: int, acc: Seq<Seq<char>>) -> Result<(Seq<Seq<char>>, int), SpecParseError>
    decreases ts.len() - p,
{
    if tok(ts, p) matches Some(SpecToken::Ident(_, _, _)) {
        match g_expect_ident(ts, p) {
            Err(e) => Err(e),
            Ok((n, p1)) => if !is_param_name(n) {
                Err(SpecParseError::UnexpectedToken("type parameter must be lowercase, found '"@ + n + "'"@))
            } else if p < p1 <= ts.len() {
                g_type_params(ts, p1, acc.push(n))
            } else {
                Err(SpecParseError::UnexpectedEndOfInput)
            },
        }
    } else {
        Ok((acc, p))
    }
}

/// The rest of a dotted module path from `p` on, after the names of `acc`.
pub open spec fn g_path_rest(ts: Seq<SpecToken>, p: int, acc: Seq<Seq<char>>) -> Result<(Seq<Seq<char>>, int), SpecParseError>
    decreases ts.len() - p,
{
    if tok(ts, p) matches Some(SpecToken::Dot(_, _)) {
        match g_expect_ident(ts, p + 1) {
            Err(e) => Err(e),
            Ok((n, p1)) => if p < p1 <= ts.len() {
                g_path_rest(ts, p1, acc.push(n))
            } else {
                Err(SpecParseError::UnexpectedEndOfInput)
            },
        }
    } else {
        Ok((acc, p))
    }
}

/// A dotted module path at `p`.
pub open spec fn g_module_path(ts: Seq<SpecToken>, p: int) -> Result<(Seq<Seq<char>>, int), SpecParseError> {
    match g_expect_ident(ts, p) {
        Err(e) => Err(e),
        Ok((n, p1)) => g_path_rest(ts, p1, seq![n]),
    }
}

/// The names after the first of a selective import, each after a comma.
pub open spec fn g_items_rest(ts: Seq<SpecToken>, p: int, acc: Seq<Seq<char>>) -> Result<(Seq<Seq<char>>, int), SpecParseError>
    decreases ts.len() - p,
{
    if tok(ts, p) matches Some(SpecToken::Comma(_, _)) {
        match g_expect_ident(ts, p + 1) {
            Err(e) => Err(e),
            Ok((n, p1)) => if p < p1 <= ts.len() {
                g_items_rest(ts, p1, acc.push(n))
            } else {
                Err(SpecParseError::UnexpectedEndOfInput)
            },
        }
    } else {
        Ok((acc, p))
    }
}

/// A `use` declaration at `p`: `use Path`, `use Path (..)`,
/// `use Path (a, b)` or `use Path as Alias`.
#[verifier::opaque]
pub open spec fn g_use_decl(ts: Seq<SpecToken>, p: int) -> Result<(SpecDecl, int), SpecParseError> {
    match g_consume(ts, p, SpecToken::KwUse(0, 0)) {
        Err(e) => Err(e),
        Ok(p1) => match g_module_path(ts, p1) {
            Err(e) => Err(e),
            Ok((path, p2)) => match tok(ts, p2) {
                Some(SpecToken::LParen(_, _)) => if tok(ts, p2 + 1) matches Some(SpecToken::DotDot(_, _)) {
                    match g_consume(ts, p2 + 2, SpecToken::RParen(0, 0)) {
                        Err(e) => Err(e),
                        Ok(p3) => Ok((SpecDecl::UseDecl(path, SpecUseMode::Unqualified), p3)),
                    }
                } else {
                    match g_expect_ident(ts, p2 + 1) {
                        Err(e) => Err(e),
                        Ok((first, p3)) => match g_items_rest(ts, p3, seq![first]) {
                            Err(e) => Err(e),
                            Ok((items, p4)) => match g_consume(ts, p4, SpecToken::RParen(0, 0)) {
                                Err(e) => Err(e),
                                Ok(p5) => Ok((SpecDecl::UseDecl(path, SpecUseMode::Selective(items)), p5)),
                            },
                        },
                    }
                },
                Some(SpecToken::KwAs(_, _)) => match g_expect_ident(ts, p2 + 1) {
                    Err(e) => Err(e),
                    Ok((alias, p3)) => Ok((SpecDecl::UseDecl(path, SpecUseMode::Aliased(alias)), p3)),
                },
                _ => Ok((SpecDecl::UseDecl(path, SpecUseMode::Qualified), p2)),
            },
        },
    }
}

/// A value declaration at `p`: `[pub] val name : type = term`.
#[verifier::opaque]
pub open spec fn g_val_decl(ts: Seq<SpecToken>, p: int, given: Option<Visibility>) -> Result<(SpecDecl, int), SpecParseError> {
    let (vis, p0) = g_visibility(ts, p, given);
    match g_consume(ts, p0, SpecToken::KwVal(0, 0)) {
        Err(e) => Err(e),
        Ok(p1) => match g_expect_ident(ts, p1) {
            Err(e) => Err(e),
            Ok((name, p2)) => match g_consume(ts, p2, SpecToken::Colon(0, 0)) {
                Err(e) => Err(e),
                Ok(p3) => match g_ty(ts, p3) {
                    Err(e) => Err(e),
                    Ok((ty, p4)) => match g_consume(ts, p4, SpecToken::Equals(0, 0)) {
                        Err(e) => Err(e),
                        Ok(p5) => match g_term(ts, p5) {
                            Err(e) => Err(e),
                            Ok((t, p6)) => Ok((SpecDecl::ValDecl(vis, name, ty, t), p6)),
                        },
                    },
                },
            },
        },
    }
}

/// The arguments of a constructor from `p` on, after those of `acc`: the
/// atomic types and borrowed types that follow.
pub open spec fn g_ctor_args(ts: Seq<SpecToken>, p: int, acc: Seq<SpecType>) -> Result<(Seq<SpecType>, int), SpecParseError>
    decreases ts.len() - p,
{
    if is_type_atom_start(ts, p) || tok(ts, p) matches Some(SpecToken::MultiplicityBorrow(_, _)) {
        match g_ty_atom(ts, p) {
            Err(e) => Err(e),
            Ok((a, p1)) => if p < p1 <= ts.len() {
                g_ctor_args(ts, p1, acc.push(a))
            } else {
                Err(SpecParseError::UnexpectedEndOfInput)
            },
        }
    } else {
        Ok((acc, p))
    }
}

/// A constructor of a sum type at `p`: its name and argument types.
pub open spec fn g_constructor(ts: Seq<SpecToken>, p: int) -> Result<((Seq<char>, Seq<SpecType>), int), SpecParseError> {
    match g_expect_ident(ts, p) {
        Err(e) => Err(e),
        Ok((n, p1)) => match g_ctor_args(ts, p1, seq![]) {
            Err(e) => Err(e),
            Ok((args, p2)) => Ok(((n, args), p2)),
        },
    }
}

/// The constructors after the first from `p` on, each after a `|`.
pub open spec fn g_ctors_rest(ts: Seq<SpecToken>, p: int, acc: Seq<(Seq<char>, Seq<SpecType>)>) -> Result<
    (Seq<(Seq<char>, Seq<SpecType>)>, int),
    SpecParseError,
>
    decreases ts.len() - p,
{
    if tok(ts, p) matches Some(SpecToken::Pipe(_, _)) {
        match g_constructor(ts, p + 1) {
            Err(e) => Err(e),
            Ok((c, p1)) => if p < p1 <= ts.len() {
                g_ctors_rest(ts, p1, acc.push(c))
            } else {
                Err(SpecParseError::UnexpectedEndOfInput)
            },
        }
    } else {
        Ok((acc, p))
    }
}

/// The sum of the constructors from index `i` on, each an inductive type
/// of its name over its arguments, ending in unit.
pub open spec fn sum_of(cs: Seq<(Seq<char>, Seq<SpecType>)>, i: int) -> SpecType
    decreases cs.len() - i,
{
    if i < 0 || i >= cs.len() {
        unit_ty()
    } else {
        SpecType::Sum(Box::new(SpecType::Inductive(cs[i].0, cs[i].1)), Box::new(sum_of(cs, i + 1)))
    }
}

/// The names that start a sum type though they need not be capitalised.
pub open spec fn is_known_ctor(n: Seq<char>) -> bool {
    n == "None"@ || n == "Some"@ || n == "Ok"@ || n == "Err"@ || n == "LT"@ || n == "EQ"@ || n == "GT"@
}

/// The body of a type declaration at `p`, with whether it is transparent:
/// a sum of constructors, where a constructor's name starts it (a single
/// constructor stands for its first argument, or unit), or else a type.
pub open spec fn g_type_body(ts: Seq<SpecToken>, p: int) -> Result<((SpecType, bool), int), SpecParseError> {
    let is_sum = match tok(ts, p) {
        Some(SpecToken::Ident(n, _, _)) => starts_upper(n) || is_known_ctor(n),
        _ => false,
    };
    if !is_sum {
        match g_ty(ts, p) {
            Err(e) => Err(e),
            Ok((t, p1)) => Ok(((t, false), p1)),
        }
    } else {
        match g_constructor(ts, p) {
            Err(e) => Err(e),
            Ok((first, p1)) => match g_ctors_rest(ts, p1, seq![first]) {
                Err(e) => Err(e),
                Ok((cs, p2)) => if cs.len() == 1 {
                    Ok(((if cs[0].1.len() > 0 { cs[0].1[0] } else { unit_ty() }, false), p2))
                } else {
                    Ok(((sum_of(cs, 0), false), p2))
                },
            },
        }
    }
}

/// A type declaration at `p`: `[pub] type Name params = body`, or an
/// abstract `type Name params (..)`, which is transparent and unit.
#[verifier::opaque]
pub open spec fn g_type_decl(ts: Seq<SpecToken>, p: int, given: Option<Visibility>) -> Result<(SpecDecl, int), SpecParseError> {
    let (vis, p0) = g_visibility(ts, p, given);
    match g_consume(ts, p0, SpecToken::KwType(0, 0)) {
        Err(e) => Err(e),
        Ok(p1) => match g_expect_ident(ts, p1) {
            Err(e) => Err(e),
            Ok((name, p2)) => match g_type_params(ts, p2, seq![]) {
                Err(e) => Err(e),
                Ok((params, p3)) => {
                    let abs = if tok(ts, p3) matches Some(SpecToken::LParen(_, _)) {
                        if tok(ts, p3 + 1) matches Some(SpecToken::DotDot(_, _)) {
                            match g_consume(ts, p3 + 2, SpecToken::RParen(0, 0)) {
                                Err(e) => Err(e),
                                Ok(p4) => Ok((true, p4)),
                            }
                        } else {
                            Err(SpecParseError::UnexpectedToken("expected .."@))
                        }
                    } else {
                        Ok((false, p3))
                    };
                    match abs {
                        Err(e) => Err(e),
                        Ok((is_abstract, p4)) => if tok(ts, p4) matches Some(SpecToken::Equals(_, _)) {
                            match g_type_body(ts, p4 + 1) {
                                Err(e) => Err(e),
                                Ok(((ty, transparent), p5)) => Ok((SpecDecl::TypeDecl(vis, name, params, ty, transparent), p5)),
                            }
                        } else if is_abstract {
                            Ok((SpecDecl::TypeDecl(vis, name, params, unit_ty(), true), p4))
                        } else {
                            Err(SpecParseError::UnexpectedToken("expected = or (..)"@))
                        },
                    }
                },
            },
        },
    }
}

/// A method signature at `p`, after any `val`: `name : type`, with an
/// optional default body, which is read and dropped.
pub open spec fn g_sig(ts: Seq<SpecToken>, p: int) -> Result<((Seq<char>, SpecType), int), SpecParseError> {
    match g_expect_ident(ts, p) {
        Err(e) => Err(e),
        Ok((n, p1)) => match g_consume(ts, p1, SpecToken::Colon(0, 0)) {
            Err(e) => Err(e),
            Ok(p2) => match g_ty(ts, p2) {
                Err(e) => Err(e),
                Ok((t, p3)) => if tok(ts, p3) matches Some(SpecToken::Equals(_, _)) {
                    match g_term(ts, p3 + 1) {
                        Err(e) => Err(e),
                        Ok((_, p4)) => Ok(((n, t), p4)),
                    }
                } else {
                    Ok(((n, t), p3))
                },
            },
        },
    }
}

/// The method signatures introduced by `val` from `p` on.
pub open spec fn g_val_sigs(ts: Seq<SpecToken>, p: int, acc: Seq<(Seq<char>, SpecType)>) -> Result<
    (Seq<(Seq<char>, SpecType)>, int),
    SpecParseError,
>
    decreases ts.len() - p,
{
    if tok(ts, p) matches Some(SpecToken::KwVal(_, _)) {
        match g_sig(ts, p + 1) {
            Err(e) => Err(e),
            Ok((m, p1)) => if p < p1 <= ts.len() {
                g_val_sigs(ts, p1, acc.push(m))
            } else {
                Err(SpecParseError::UnexpectedEndOfInput)
            },
        }
    } else {
        Ok((acc, p))
    }
}

/// The method signatures of a braced trait body from `p` on, each with an
/// optional `val`, up to the closing brace, which is not read.
pub open spec fn g_brace_sigs(ts: Seq<SpecToken>, p: int, acc: Seq<(Seq<char>, SpecType)>) -> Result<
    (Seq<(Seq<char>, SpecType)>, int),
    SpecParseError,
>
    decreases ts.len() - p,
{
    if tok(ts, p) matches Some(SpecToken::RBrace(_, _)) {
        Ok((acc, p))
    } else {
        let q = if tok(ts, p) matches Some(SpecToken::KwVal(_, _)) {
            p + 1
        } else {
            p
        };
        match g_sig(ts, q) {
            Err(e) => Err(e),
            Ok((m, p1)) => if p < p1 <= ts.len() {
                g_brace_sigs(ts, p1, acc.push(m))
            } else {
                Err(SpecParseError::UnexpectedEndOfInput)
            },
        }
    }
}

/// The position after an optional `where Supertrait params` clause of a
/// trait, which is read and dropped; a `where` followed by anything else
/// is read alone.
pub open spec fn g_supertrait(ts: Seq<SpecToken>, p: int) -> Result<int, SpecParseError> {
    if tok(ts, p) matches Some(SpecToken::KwWhere(_, _)) {
        if tok(ts, p + 1) matches Some(SpecToken::Ident(n, _, _)) && starts_upper(n) {
            match g_expect_ident(ts, p + 1) {
                Err(e) => Err(e),
                Ok((_, p1)) => match g_type_params(ts, p1, seq![]) {
                    Err(e) => Err(e),
                    Ok((_, p2)) => Ok(p2),
                },
            }
        } else {
            Ok(p + 1)
        }
    } else {
        Ok(p)
    }
}

/// A trait declaration at `p`: `[pub] trait Name params [where Super]`,
/// then method signatures introduced by `val` and, or, in braces.
#[verifier::opaque]
pub open spec fn g_trait_decl(ts: Seq<SpecToken>, p: int, given: Option<Visibility>) -> Result<(SpecDecl, int), SpecParseError> {
    let (vis, p0) = g_visibility(ts, p, given);
    match g_consume(ts, p0, SpecToken::KwTrait(0, 0)) {
        Err(e) => Err(e),
        Ok(p1) => match g_expect_ident(ts, p1) {
            Err(e) => Err(e),
            Ok((name, p2)) => match g_type_params(ts, p2, seq![]) {
                Err(e) => Err(e),
                Ok((params, p3)) => match g_supertrait(ts, p3) {
                    Err(e) => Err(e),
                    Ok(p4) => match g_val_sigs(ts, p4, seq![]) {
                        Err(e) => Err(e),
                        Ok((ms, p5)) => if tok(ts, p5) matches Some(SpecToken::LBrace(_, _)) {
                            match g_brace_sigs(ts, p5 + 1, ms) {
                                Err(e) => Err(e),
                                Ok((ms2, p6)) => match g_consume(ts, p6, SpecToken::RBrace(0, 0)) {
                                    Err(e) => Err(e),
                                    Ok(p7) => Ok((SpecDecl::TraitDecl(vis, name, params, ms2), p7)),
                                },
                            }
                        } else {
                            Ok((SpecDecl::TraitDecl(vis, name, params, ms), p5))
                        },
                    },
                },
            },
        },
    }
}

/// Constraints `Trait type, ...` from `p` on, each type atomic; read and
/// dropped.
pub open spec fn g_constraint_atoms(ts: Seq<SpecToken>, p: int) -> Result<int, SpecParseError>
    decreases ts.len() - p,
{
    match g_expect_ident(ts, p) {
        Err(e) => Err(e),
        Ok((_, p1)) => match g_ty_atom(ts, p1) {
            Err(e) => Err(e),
            Ok((_, p2)) => if tok(ts, p2) matches Some(SpecToken::Comma(_, _)) {
                if p < p2 + 1 <= ts.len() {
                    g_constraint_atoms(ts, p2 + 1)
                } else {
                    Err(SpecParseError::UnexpectedEndOfInput)
                }
            } else {
                Ok(p2)
            },
        },
    }
}

/// Constraints `Trait type, ...` from `p` on; read and dropped.
pub open spec fn g_constraints(ts: Seq<SpecToken>, p: int) -> Result<int, SpecParseError>
    decreases ts.len() - p,
{
    match g_expect_ident(ts, p) {
        Err(e) => Err(e),
        Ok((_, p1)) => match g_ty(ts, p1) {
            Err(e) => Err(e),
            Ok((_, p2)) => if tok(ts, p2) matches Some(SpecToken::Comma(_, _)) {
                if p < p2 + 1 <= ts.len() {
                    g_constraints(ts, p2 + 1)
                } else {
                    Err(SpecParseError::UnexpectedEndOfInput)
                }
            } else {
                Ok(p2)
            },
        },
    }
}

/// The position after an optional prefix `(C a, ...) =>` of an impl; the
/// constraints are dropped.
pub open spec fn g_prefix_constraints(ts: Seq<SpecToken>, p: int) -> Result<int, SpecParseError> {
    if tok(ts, p) matches Some(SpecToken::LParen(_, _)) {
        if tok(ts, p + 1) matches Some(SpecToken::RParen(_, _)) {
            Ok(p + 2)
        } else {
            match g_constraint_atoms(ts, p + 1) {
                Err(e) => Err(e),
                Ok(p1) => match g_consume(ts, p1, SpecToken::RParen(0, 0)) {
                    Err(e) => Err(e),
                    Ok(p2) => if tok(ts, p2) matches Some(SpecToken::FatArrow(_, _)) {
                        Ok(p2 + 1)
                    } else {
                        Err(SpecParseError::UnexpectedToken("expected '=>' after impl constraints"@))
                    },
                },
            }
        }
    } else {
        Ok(p)
    }
}

/// Whether the token at `p` ends the inline methods of an impl.
pub open spec fn ends_with_methods(ts: Seq<SpecToken>, p: int) -> bool {
    match tok(ts, p) {
        Some(SpecToken::KwImpl(_, _)) | Some(SpecToken::KwType(_, _)) | Some(SpecToken::KwVal(_, _)) | Some(
            SpecToken::KwTrait(_, _),
        ) | Some(SpecToken::EOF(_, _)) | None => true,
        _ => false,
    }
}

/// The inline methods of an impl after `with`, from `p` on, after those of
/// `acc`: `name [: type] [= term]`, separated by commas or not, up to the
/// next declaration or a closing brace, which is read; a method without a
/// type has the unit type, one without a body the unit literal.
pub open spec fn g_with_methods(ts: Seq<SpecToken>, p: int, acc: Seq<(Seq<char>, SpecType, SpecTerm)>) -> Result<
    (Seq<(Seq<char>, SpecType, SpecTerm)>, int),
    SpecParseError,
>
    decreases ts.len() - p,
{
    if ends_with_methods(ts, p) {
        Ok((acc, p))
    } else if tok(ts, p) matches Some(SpecToken::RBrace(_, _)) {
        Ok((acc, p + 1))
    } else {
        let name = if tok(ts, p) matches Some(SpecToken::KwVal(_, _)) {
            g_expect_ident(ts, p + 1)
        } else if tok(ts, p) matches Some(SpecToken::Ident(_, _, _)) {
            g_expect_ident(ts, p)
        } else {
            Err(SpecParseError::UnexpectedEndOfInput)
        };
        if !(tok(ts, p) matches Some(SpecToken::KwVal(_, _))) && !(tok(ts, p) matches Some(SpecToken::Ident(_, _, _))) {
            Ok((acc, p))
        } else {
            match name {
                Err(e) => Err(e),
                Ok((n, p1)) => {
                    let ty = if tok(ts, p1) matches Some(SpecToken::Colon(_, _)) {
                        g_ty(ts, p1 + 1)
                    } else {
                        Ok((unit_ty(), p1))
                    };
                    match ty {
                        Err(e) => Err(e),
                        Ok((t, p2)) => {
                            let body = if tok(ts, p2) matches Some(SpecToken::Equals(_, _)) {
                                g_term(ts, p2 + 1)
                            } else {
                                Ok((SpecTerm::NativeLiteral(SpecLiteral::Unit), p2))
                            };
                            match body {
                                Err(e) => Err(e),
                                Ok((b, p3)) => {
                                    let acc2 = acc.push((n, t, b));
                                    if tok(ts, p3) matches Some(SpecToken::Comma(_, _)) {
                                        if p < p3 + 1 <= ts.len() {
                                            g_with_methods(ts, p3 + 1, acc2)
                                        } else {
                                            Err(SpecParseError::UnexpectedEndOfInput)
                                        }
                                    } else if tok(ts, p3) matches Some(SpecToken::Ident(_, _, _)) || tok(ts, p3) matches Some(
                                        SpecToken::KwVal(_, _),
                                    ) {
                                        if p < p3 <= ts.len() {
                                            g_with_methods(ts, p3, acc2)
                                        } else {
                                            Err(SpecParseError::UnexpectedEndOfInput)
                                        }
                                    } else {
                                        Ok((acc2, p3))
                                    }
                                },
                            }
                        },
                    }
                },
            }
        }
    }
}

/// The methods of a braced impl body from `p` on, after those of `acc`:
/// `val name : type = term`, each optionally followed by a comma, up to
/// the closing brace, which is not read.
pub open spec fn g_brace_defs(ts: Seq<SpecToken>, p: int, acc: Seq<(Seq<char>, SpecType, SpecTerm)>) -> Result<
    (Seq<(Seq<char>, SpecType, SpecTerm)>, int),
    SpecParseError,
>
    decreases ts.len() - p,
{
    if tok(ts, p) matches Some(SpecToken::RBrace(_, _)) {
        Ok((acc, p))
    } else {
        match g_consume(ts, p, SpecToken::KwVal(0, 0)) {
            Err(e) => Err(e),
            Ok(p1) => match g_expect_ident(ts, p1) {
                Err(e) => Err(e),
                Ok((n, p2)) => match g_consume(ts, p2, SpecToken::Colon(0, 0)) {
                    Err(e) => Err(e),
                    Ok(p3) => match g_ty(ts, p3) {
                        Err(e) => Err(e),
                        Ok((t, p4)) => match g_consume(ts, p4, SpecToken::Equals(0, 0)) {
                            Err(e) => Err(e),
                            Ok(p5) => match g_term(ts, p5) {
                                Err(e) => Err(e),
                                Ok((b, p6)) => {
                                    let q = if tok(ts, p6) matches Some(SpecToken::Comma(_, _)) {
                                        p6 + 1
                                    } else {
                                        p6
                                    };
                                    if p < q <= ts.len() {
                                        g_brace_defs(ts, q, acc.push((n, t, b)))
                                    } else {
                                        Err(SpecParseError::UnexpectedEndOfInput)
                                    }
                                },
                            },
                        },
                    },
                },
            },
        }
    }
}

/// The head of an implementation at `p`: `impl [(constraints) =>] Trait
/// [for] type [where constraints]`, giving the trait's name and the type;
/// the constraints are read and dropped.
pub open spec fn g_impl_head(ts: Seq<SpecToken>, p: int) -> Result<((Seq<char>, SpecType), int), SpecParseError> {
    match g_consume(ts, p, SpecToken::KwImpl(0, 0)) {
        Err(e) => Err(e),
        Ok(p1) => match g_prefix_constraints(ts, p1) {
            Err(e) => Err(e),
            Ok(p2) => match g_expect_ident(ts, p2) {
                Err(e) => Err(e),
                Ok((tn, p3)) => {
                    let p4 = if tok(ts, p3) matches Some(SpecToken::Ident(w, _, _)) && w == "for"@ {
                        p3 + 1
                    } else {
                        p3
                    };
                    match g_ty(ts, p4) {
                        Err(e) => Err(e),
                        Ok((ty, p5)) => if tok(ts, p5) matches Some(SpecToken::KwWhere(_, _)) {
                            match g_constraints(ts, p5 + 1) {
                                Err(e) => Err(e),
                                Ok(p6) => Ok(((tn, ty), p6)),
                            }
                        } else {
                            Ok(((tn, ty), p5))
                        },
                    }
                },
            },
        },
    }
}

/// The methods of an implementation at `p`: inline ones after `with`, then
/// braced ones.
pub open spec fn g_impl_methods(ts: Seq<SpecToken>, p: int) -> Result<(Seq<(Seq<char>, SpecType, SpecTerm)>, int), SpecParseError> {
    let inline = if tok(ts, p) matches Some(SpecToken::KwWith(_, _)) {
        g_with_methods(ts, p + 1, seq![])
    } else {
        Ok((seq![], p))
    };
    match inline {
        Err(e) => Err(e),
        Ok((ms, p1)) => if tok(ts, p1) matches Some(SpecToken::LBrace(_, _)) {
            match g_brace_defs(ts, p1 + 1, ms) {
                Err(e) => Err(e),
                Ok((ms2, p2)) => match g_consume(ts, p2, SpecToken::RBrace(0, 0)) {
                    Err(e) => Err(e),
                    Ok(p3) => Ok((ms2, p3)),
                },
            }
        } else {
            Ok((ms, p1))
        },
    }
}

/// An implementation at `p`: its head, then its methods.
#[verifier::opaque]
pub open spec fn g_impl_decl(ts: Seq<SpecToken>, p: int) -> Result<(SpecDecl, int), SpecParseError> {
    match g_impl_head(ts, p) {
        Err(e) => Err(e),
        Ok(((tn, ty), p1)) => match g_impl_methods(ts, p1) {
            Err(e) => Err(e),
            Ok((ms, p2)) => Ok((SpecDecl::ImplDecl(ty, tn, ms), p2)),
        },
    }
}

/// A declaration at `p`; a term standing alone is the private value `main`,
/// of the type that can be read off it, or unit.
#[verifier::opaque]
pub open spec fn g_decl(ts: Seq<SpecToken>, p: int) -> Result<(SpecDecl, int), SpecParseError> {
    match tok(ts, p) {
        Some(SpecToken::KwNoPrelude(_, _)) => Ok((SpecDecl::NoPrelude, p + 1)),
        Some(SpecToken::KwType(_, _)) => g_type_decl(ts, p, None),
        Some(SpecToken::KwVal(_, _)) => g_val_decl(ts, p, None),
        Some(SpecToken::KwTrait(_, _)) => g_trait_decl(ts, p, None),
        Some(SpecToken::KwImpl(_, _)) => g_impl_decl(ts, p),
        Some(SpecToken::KwUse(_, _)) => g_use_decl(ts, p),
        Some(SpecToken::KwPub(_, _)) => match tok(ts, p + 1) {
            Some(SpecToken::KwType(_, _)) => g_type_decl(ts, p + 1, Some(Visibility::Public)),
            Some(SpecToken::KwVal(_, _)) => g_val_decl(ts, p + 1, Some(Visibility::Public)),
            Some(SpecToken::KwTrait(_, _)) => g_trait_decl(ts, p + 1, Some(Visibility::Public)),
            _ => Err(SpecParseError::UnexpectedToken("expected declaration after pub, found "@ + peek_text(ts, p + 1))),
        },
        _ => match g_term(ts, p) {
            Err(e) => Err(e),
            Ok((t, p1)) => Ok((
                SpecDecl::ValDecl(
                    Visibility::Private,
                    "main"@,
                    match crate::ast::terms::term_type(t) {
                        Some(ty) => ty,
                        None => unit_ty(),
                    },
                    t,
                ),
                p1,
            )),
        },
    }
}

/// The declarations from `p` on, after those of `acc`, up to the end of
/// the tokens or the end-of-input token, which is read.
pub open spec fn g_program(ts: Seq<SpecToken>, p: int, acc: Seq<SpecDecl>) -> Result<Seq<SpecDecl>, SpecParseError>
    decreases ts.len() - p,
{
    if p >= ts.len() {
        Ok(acc)
    } else if tok(ts, p) matches Some(SpecToken::EOF(_, _)) {
        Ok(acc)
    } else {
        match g_decl(ts, p) {
            Err(e) => Err(e),
            Ok((d, p1)) => if p < p1 <= ts.len() {
                g_program(ts, p1, acc.push(d))
            } else {
                Err(SpecParseError::UnexpectedEndOfInput)
            },
        }
    }
}

/// A whole term: a term followed by the end-of-input token.
pub open spec fn g_parse(ts: Seq<SpecToken>) -> Result<SpecTerm, SpecParseError> {
    match g_term(ts, 0) {
        Err(e) => Err(e),
        Ok((t, p1)) => match g_consume(ts, p1, SpecToken::EOF(0, 0)) {
            Err(e) => Err(e),
            Ok(_) => Ok(t),
        },
    }
}

/// Reads terms, types and declarations from a list of tokens.
pub struct Parser<'a> {
    tokens: &'a [Token],
    pos: usize,
}

impl<'a> Parser<'a> {
    /// The values of the tokens.
    pub closed spec fn toks(&self) -> Seq<SpecToken> {
        tokens_view(self.tokens@)
    }

    /// The position of the next token.
    pub closed spec fn at(&self) -> int {
        self.pos as int
    }

    /// The position lies within the tokens or just after them.
    pub closed spec fn wf(&self) -> bool {
        self.pos <= self.tokens.len()
    }

    /// A parser at the first of `tokens`.
    pub fn new(tokens: &'a [Token]) -> (r: Parser<'a>)
        ensures
            r.wf(),
            r.toks() == tokens_view(tokens@),
            r.at() == 0,
    {
        Parser { tokens, pos: 0 }
    }

    fn peek(&self) -> (r: Option<&Token>)
        requires
            self.wf(),
        ensures
            r matches Some(t) ==> tok(self.toks(), self.at()) == Some(t@),
            r is None ==> tok(self.toks(), self.at()) is None,
    {
        if self.pos < self.tokens.len() {
            Some(&self.tokens[self.pos])
        } else {
            None
        }
    }

    fn is_at_end(&self) -> (r: bool)
        requires
            self.wf(),
        ensures
            r == (self.at() >= self.toks().len()),
    {
        self.pos >= self.tokens.len()
    }

    fn advance(&mut self)
        requires
            old(self).wf(),
            old(self).at() < old(self).toks().len(),
        ensures
            final(self).wf(),
            final(self).toks() == old(self).toks(),
            final(self).at() == old(self).at() + 1,
    {
        self.pos = self.pos + 1;
    }

    /// Whether the next token is of the variant of `k`.
    fn check(&self, k: &Token) -> (r: bool)
        requires
            self.wf(),
        ensures
            r == at_kind(self.toks(), self.at(), k@),
    {
        match self.peek() {
            Some(t) => t.kind() == k.kind(),
            None => false,
        }
    }

    /// Steps over the next token, which must be of the variant of
    /// `expected`; see [`g_consume`].
    fn consume(&mut self, expected: &Token) -> (r: Result<(), ParseError>)
        requires
            old(self).wf(),
        ensures
            final(self).wf(),
            final(self).toks() == old(self).toks(),
            r is Ok ==> g_consume(old(self).toks(), old(self).at(), expected@) == Ok::<int, SpecParseError>(
                final(self).at(),
            ),
            r matches Err(e) ==> g_consume(old(self).toks(), old(self).at(), expected@) == Err::<int, SpecParseError>(e@),
    {
        match self.peek() {
            Some(token) => {
                if token.kind() == expected.kind() {
                    self.advance();
                    Ok(())
                } else {
                    Err(ParseError::ExpectedToken { expected: owned(expected.name()), found: owned(token.name()) })
                }
            },
            None => Err(ParseError::UnexpectedEndOfInput),
        }
    }

    /// A type; see [`g_ty`].
    fn ty(&mut self) -> (r: Result<Type, ParseError>)
        requires
            old(self).wf(),
        ensures
            final(self).wf(),
            final(self).toks() == old(self).toks(),
            g_ty(old(self).toks(), old(self).at()) == outcome(r, final(self).at()),
            r is Ok ==> old(self).at() < final(self).at(),
        decreases self.tokens.len() - self.pos, 3nat,
    {
        self.ty_arrow()
    }

    /// See [`g_ty_arrow`].
    fn ty_arrow(&mut self) -> (r: Result<Type, ParseError>)
        requires
            old(self).wf(),
        ensures
            final(self).wf(),
            final(self).toks() == old(self).toks(),
            g_ty_arrow(old(self).toks(), old(self).at()) == outcome(r, final(self).at()),
            r is Ok ==> old(self).at() < final(self).at(),
        decreases self.tokens.len() - self.pos, 2nat,
    {
        let lhs = match self.ty_app() {
            Ok(t) => t,
            Err(e) => {
                return Err(e);
            },
        };
        if self.check(&Token::Arrow(0, 0)) {
            self.advance();
            let rhs = match self.ty_arrow() {
                Ok(t) => t,
                Err(e) => {
                    return Err(e);
                },
            };
            Ok(Type::arrow(lhs, Multiplicity::One, rhs))
        } else {
            Ok(lhs)
        }
    }

    /// See [`g_ty_app`].
    fn ty_app(&mut self) -> (r: Result<Type, ParseError>)
        requires
            old(self).wf(),
        ensures
            final(self).wf(),
            final(self).toks() == old(self).toks(),
            g_ty_app(old(self).toks(), old(self).at()) == outcome(r, final(self).at()),
            r is Ok ==> old(self).at() < final(self).at(),
        decreases self.tokens.len() - self.pos, 1nat,
    {
        let ghost ts = self.toks();
        let ghost p0 = self.at();
        let mut ty = match self.ty_atom() {
            Ok(t) => t,
            Err(e) => {
                return Err(e);
            },
        };
        while self.is_type_atom_start()
            invariant
                self.wf(),
                self.toks() == ts,
                ts == old(self).toks(),
                p0 == old(self).at(),
                p0 < self.at(),
                g_ty_app(ts, p0) == g_ty_app_rest(ts, self.at(), ty@),
            decreases self.tokens.len() - self.pos,
        {
            let ghost p = self.at();
            let ghost tyv = ty@;
            let arg = match self.ty_atom() {
                Ok(t) => t,
                Err(e) => {
                    return Err(e);
                },
            };
            let next = match ty {
                Type::Inductive(name, args) => {
                    let ghost av = tyv->Inductive_1;
                    let ghost nv = name.0@;
                    let mut new_args = args;
                    proof {
                        assert(tyv == SpecType::Inductive(nv, av));
                        assert(av =~= crate::ast::types::types_view(new_args@));
                    }
                    new_args.push(arg);
                    let t = Type::Inductive(name, new_args);
                    proof {
                        assert(t@->Inductive_1 =~= crate::ast::types::types_view(new_args@));
                        assert(t@->Inductive_1 =~= av.push(arg@));
                        assert(t@ == SpecType::Inductive(nv, av.push(arg@)));
                    }
                    t
                },
                Type::Var(name) => {
                    assert(tyv == SpecType::Var(name@));
                    let mut v: Vec<Type> = Vec::new();
                    v.push(arg);
                    let t = Type::App(Box::new(Type::Var(name)), v);
                    proof {
                        assert(t@->App_1 =~= seq![arg@]);
                    }
                    t
                },
                Type::App(base, args) => {
                    let ghost av = tyv->App_1;
                    let ghost bv = base@;
                    let mut new_args = args;
                    proof {
                        assert(tyv == SpecType::App(Box::new(bv), av));
                        assert(av =~= crate::ast::types::types_view(new_args@));
                    }
                    new_args.push(arg);
                    let t = Type::App(base, new_args);
                    proof {
                        assert(t@->App_1 =~= crate::ast::types::types_view(new_args@));
                        assert(t@->App_1 =~= av.push(arg@));
                        assert(t@ == SpecType::App(Box::new(bv), av.push(arg@)));
                    }
                    t
                },
                _ => {
                    proof {
                        crate::ast::types::lemma_view_variant(ty);
                    }
                    return Err(
                        ParseError::UnexpectedToken(owned("expected type constructor or type variable")),
                    );
                },
            };
            proof {
                assert(apply_type(tyv, arg@) == Some(next@));
                assert(g_ty_atom(ts, p) == Ok::<(SpecType, int), SpecParseError>((arg@, self.at())));
                assert(g_ty_app_rest(ts, p, tyv) == g_ty_app_rest(ts, self.at(), next@));
            }
            ty = next;
        }
        Ok(ty)
    }

    /// Whether an atomic type can start at the next token.
    fn is_type_atom_start(&self) -> (r: bool)
        requires
            self.wf(),
        ensures
            r == is_type_atom_start(self.toks(), self.at()),
    {
        match self.peek() {
            Some(Token::TyInt(_, _)) | Some(Token::TyFloat(_, _)) | Some(Token::TyChar(_, _)) | Some(
                Token::KwUnit(_, _),
            ) | Some(Token::LParen(_, _)) | Some(Token::Ident(_, _, _)) => true,
            _ => false,
        }
    }

    /// See [`g_ty_atom`].
    fn ty_atom(&mut self) -> (r: Result<Type, ParseError>)
        requires
            old(self).wf(),
        ensures
            final(self).wf(),
            final(self).toks() == old(self).toks(),
            g_ty_atom(old(self).toks(), old(self).at()) == outcome(r, final(self).at()),
            r is Ok ==> old(self).at() < final(self).at(),
        decreases self.tokens.len() - self.pos, 0nat,
    {
        match self.peek() {
            Some(Token::KwUnit(_, _)) => {
                self.advance();
                Ok(Type::unit())
            },
            Some(Token::TyInt(_, _)) => {
                self.advance();
                Ok(Type::int_type())
            },
            Some(Token::TyFloat(_, _)) => {
                self.advance();
                Ok(Type::float())
            },
            Some(Token::TyChar(_, _)) => {
                self.advance();
                Ok(Type::char())
            },
            Some(Token::MultiplicityBorrow(_, _)) => {
                self.advance();
                match self.ty_atom() {
                    Ok(inner) => Ok(Type::borrow(inner)),
                    Err(e) => Err(e),
                }
            },
            Some(Token::Ident(name, _, _)) => {
                let name = name.clone();
                self.advance();
                if first_is_lowercase(name.as_str()) {
                    Ok(Type::Var(name))
                } else {
                    let t = Type::Inductive(TypeName(name), Vec::new());
                    assert(t@->Inductive_1 =~= seq![]);
                    Ok(t)
                }
            },
            Some(Token::LParen(_, _)) => {
                self.advance();
                let t = match self.ty() {
                    Ok(t) => t,
                    Err(e) => {
                        return Err(e);
                    },
                };
                if self.check(&Token::Comma(0, 0)) {
                    self.advance();
                    let t2 = match self.ty() {
                        Ok(t) => t,
                        Err(e) => {
                            return Err(e);
                        },
                    };
                    match self.consume(&Token::RParen(0, 0)) {
                        Ok(()) => Ok(Type::product(t, t2)),
                        Err(e) => Err(e),
                    }
                } else {
                    match self.consume(&Token::RParen(0, 0)) {
                        Ok(()) => Ok(t),
                        Err(e) => Err(e),
                    }
                }
            },
            _ => Err(ParseError::UnexpectedToken(owned("expected type"))),
        }
    }

    /// A pattern; see [`g_pattern`].
    fn pattern(&mut self) -> (r: Result<Pattern, ParseError>)
        requires
            old(self).wf(),
        ensures
            final(self).wf(),
            final(self).toks() == old(self).toks(),
            g_pattern(old(self).toks(), old(self).at()) == outcome(r, final(self).at()),
            r is Ok ==> old(self).at() < final(self).at(),
        decreases self.tokens.len() - self.pos, 3nat,
    {
        let p = match self.pattern_atom() {
            Ok(p) => p,
            Err(e) => {
                return Err(e);
            },
        };
        let args = match self.pattern_args() {
            Ok(a) => a,
            Err(e) => {
                return Err(e);
            },
        };
        if args.len() == 0 {
            Ok(p)
        } else {
            match p {
                Pattern::Constructor(name, ctor_args) => {
                    let ghost cv = pats(ctor_args@);
                    let ghost nv = name@;
                    proof {
                        crate::ast::patterns::lemma_constructor_view(name, ctor_args);
                        assert(Pattern::Constructor(name, ctor_args)@->Constructor_1 =~= cv);
                    }
                    let mut all = ctor_args;
                    let mut k: usize = 0;
                    while k < args.len()
                        invariant
                            k <= args.len(),
                            pats(all@) == cv + pats(args@).take(k as int),
                        decreases args.len() - k,
                    {
                        let ghost b = pats(all@);
                        all.push(args[k].clone());
                        assert(pats(args@)[k as int] == args@[k as int]@);
                        assert(pats(all@) =~= b.push(args@[k as int]@));
                        assert(pats(args@).take(k + 1) =~= pats(args@).take(k as int).push(args@[k as int]@));
                        k += 1;
                    }
                    assert(pats(args@).take(k as int) =~= pats(args@));
                    let r = Pattern::Constructor(name, all);
                    proof {
                        crate::ast::patterns::lemma_constructor_view(name, all);
                        assert(r@->Constructor_1 =~= pats(all@));
                    }
                    Ok(r)
                },
                _ => Ok(p),
            }
        }
    }

    /// The atomic patterns that follow; see [`g_pattern_args`].
    fn pattern_args(&mut self) -> (r: Result<Vec<Pattern>, ParseError>)
        requires
            old(self).wf(),
        ensures
            final(self).wf(),
            final(self).toks() == old(self).toks(),
            r matches Ok(v) ==> g_pattern_args(old(self).toks(), old(self).at(), seq![]) == Ok::<
                (Seq<SpecPattern>, int),
                SpecParseError,
            >((pats(v@), final(self).at())),
            r matches Err(e) ==> g_pattern_args(old(self).toks(), old(self).at(), seq![]) == Err::<
                (Seq<SpecPattern>, int),
                SpecParseError,
            >(e@),
            r is Ok ==> old(self).at() <= final(self).at(),
        decreases self.tokens.len() - self.pos, 2nat,
    {
        let ghost ts = self.toks();
        let ghost p0 = self.at();
        let mut args: Vec<Pattern> = Vec::new();
        assert(pats(args@) =~= seq![]);
        while self.is_pattern_atom_start()
            invariant
                self.wf(),
                self.toks() == ts,
                ts == old(self).toks(),
                p0 == old(self).at(),
                p0 <= self.at(),
                g_pattern_args(ts, p0, seq![]) == g_pattern_args(ts, self.at(), pats(args@)),
            decreases self.tokens.len() - self.pos,
        {
            let ghost b = pats(args@);
            let a = match self.pattern_atom() {
                Ok(a) => a,
                Err(e) => {
                    return Err(e);
                },
            };
            args.push(a);
            assert(pats(args@) =~= b.push(a@));
        }
        Ok(args)
    }

    /// Whether an atomic pattern can start at the next token.
    fn is_pattern_atom_start(&self) -> (r: bool)
        requires
            self.wf(),
        ensures
            r == is_pattern_atom_start(self.toks(), self.at()),
    {
        match self.peek() {
            Some(Token::Underscore(_, _)) | Some(Token::Ident(_, _, _)) | Some(Token::LParen(_, _)) => true,
            _ => false,
        }
    }

    /// An atomic pattern; see [`g_pattern_atom`].
    fn pattern_atom(&mut self) -> (r: Result<Pattern, ParseError>)
        requires
            old(self).wf(),
        ensures
            final(self).wf(),
            final(self).toks() == old(self).toks(),
            g_pattern_atom(old(self).toks(), old(self).at()) == outcome(r, final(self).at()),
            r is Ok ==> old(self).at() < final(self).at(),
        decreases self.tokens.len() - self.pos, 1nat,
    {
        match self.peek() {
            Some(Token::Underscore(_, _)) => {
                self.advance();
                Ok(Pattern::wildcard())
            },
            Some(Token::Ident(name, _, _)) => {
                let name = name.clone();
                self.advance();
                if crate::text::str_eq(name.as_str(), "true") {
                    let r = Pattern::constructor("True", Vec::new());
                    assert(r@->Constructor_1 =~= seq![]);
                    Ok(r)
                } else if crate::text::str_eq(name.as_str(), "false") {
                    let r = Pattern::constructor("False", Vec::new());
                    assert(r@->Constructor_1 =~= seq![]);
                    Ok(r)
                } else if first_is_lowercase(name.as_str()) {
                    Ok(Pattern::Var(name))
                } else {
                    match self.pattern_args() {
                        Ok(args) => {
                            let r = Pattern::Constructor(name, args);
                            proof {
                                crate::ast::patterns::lemma_constructor_view(name, args);
                                assert(r@->Constructor_1 =~= pats(args@));
                            }
                            Ok(r)
                        },
                        Err(e) => Err(e),
                    }
                }
            },
            Some(Token::LParen(_, _)) => self.pattern_parens(),
            _ => Err(ParseError::UnexpectedToken(owned("expected pattern"))),
        }
    }

    /// A parenthesised pattern.
    fn pattern_parens(&mut self) -> (r: Result<Pattern, ParseError>)
        requires
            old(self).wf(),
            at_kind(old(self).toks(), old(self).at(), SpecToken::LParen(0, 0)),
        ensures
            final(self).wf(),
            final(self).toks() == old(self).toks(),
            g_pattern_atom(old(self).toks(), old(self).at()) == outcome(r, final(self).at()),
            r is Ok ==> old(self).at() < final(self).at(),
        decreases self.tokens.len() - self.pos, 0nat,
    {
        match self.consume(&Token::LParen(0, 0)) {
            Ok(()) => {},
            Err(e) => {
                return Err(e);
            },
        }
        let p = match self.pattern() {
            Ok(p) => p,
            Err(e) => {
                return Err(e);
            },
        };
        match self.consume(&Token::RParen(0, 0)) {
            Ok(()) => Ok(p),
            Err(e) => Err(e),
        }
    }

    /// A term; see [`g_term`].
    fn term(&mut self) -> (r: Result<Term, ParseError>)
        requires
            old(self).wf(),
        ensures
            final(self).wf(),
            final(self).toks() == old(self).toks(),
            g_term(old(self).toks(), old(self).at()) == outcome(r, final(self).at()),
            r is Ok ==> old(self).at() < final(self).at(),
        decreases self.tokens.len() - self.pos, 4nat,
    {
        self.app_expr()
    }

    /// See [`g_app_expr`].
    fn app_expr(&mut self) -> (r: Result<Term, ParseError>)
        requires
            old(self).wf(),
        ensures
            final(self).wf(),
            final(self).toks() == old(self).toks(),
            g_app_expr(old(self).toks(), old(self).at()) == outcome(r, final(self).at()),
            r is Ok ==> old(self).at() < final(self).at(),
        decreases self.tokens.len() - self.pos, 3nat,
    {
        let ghost ts = self.toks();
        let ghost p0 = self.at();
        let mut result = match self.atom_expr() {
            Ok(t) => t,
            Err(e) => {
                return Err(e);
            },
        };
        while self.is_app_continuation()
            invariant
                self.wf(),
                self.toks() == ts,
                ts == old(self).toks(),
                p0 == old(self).at(),
                p0 < self.at(),
                g_app_expr(ts, p0) == g_app_rest(ts, self.at(), result@),
            decreases self.tokens.len() - self.pos,
        {
            let arg = match self.atom_expr() {
                Ok(t) => t,
                Err(e) => {
                    return Err(e);
                },
            };
            result = Term::app(result, arg);
        }
        Ok(result)
    }

    /// Whether a further argument of an application can start at the next
    /// token.
    fn is_app_continuation(&self) -> (r: bool)
        requires
            self.wf(),
        ensures
            r == is_app_continuation(self.toks(), self.at()),
    {
        match self.peek() {
            Some(Token::Ident(_, _, _)) | Some(Token::LParen(_, _)) | Some(Token::KwLet(_, _)) | Some(
                Token::KwMatch(_, _),
            ) | Some(Token::KwView(_, _)) | Some(Token::IntLit(_, _, _)) | Some(Token::FloatLit(_, _, _)) | Some(
                Token::CharLit(_, _, _),
            ) | Some(Token::StringLit(_, _, _)) | Some(Token::UnitLit(_, _)) => true,
            _ => false,
        }
    }

    /// An atomic term; see [`g_atom_expr`].
    fn atom_expr(&mut self) -> (r: Result<Term, ParseError>)
        requires
            old(self).wf(),
        ensures
            final(self).wf(),
            final(self).toks() == old(self).toks(),
            g_atom_expr(old(self).toks(), old(self).at()) == outcome(r, final(self).at()),
            r is Ok ==> old(self).at() < final(self).at(),
        decreases self.tokens.len() - self.pos, 1nat,
    {
        match self.peek() {
            Some(Token::IntLit(n, _, _)) => {
                let val = *n;
                self.advance();
                Ok(Term::literal(Literal::Int(val)))
            },
            Some(Token::FloatLit(d, _, _)) => {
                let val = d.clone();
                self.advance();
                Ok(Term::literal(Literal::Float(val)))
            },
            Some(Token::CharLit(c, _, _)) => {
                let val = *c;
                self.advance();
                Ok(Term::literal(Literal::Char(val)))
            },
            Some(Token::StringLit(st, _, _)) => {
                let val = st.clone();
                self.advance();
                Ok(Term::literal(Literal::Str(val)))
            },
            Some(Token::UnitLit(_, _)) => {
                self.advance();
                Ok(Term::literal(Literal::Unit))
            },
            Some(Token::KwUnit(_, _)) => {
                self.advance();
                Ok(Term::literal(Literal::Unit))
            },
            Some(Token::Ident(name, _, _)) => {
                let name = name.clone();
                self.advance();
                if first_is_uppercase(name.as_str()) {
                    let empty: Vec<Term> = Vec::new();
                    let r = Term::Constructor(name, empty);
                    proof {
                        crate::ast::terms::lemma_term_lists(r);
                        assert(crate::ast::terms::terms_view(empty@) =~= seq![]);
                    }
                    Ok(r)
                } else {
                    Ok(Term::Var(name))
                }
            },
            Some(Token::KwLambda(_, _)) => self.lambda_expr(),
            Some(Token::KwLet(_, _)) => self.let_expr(),
            Some(Token::KwMatch(_, _)) => self.arms_expr(false),
            Some(Token::KwView(_, _)) => self.arms_expr(true),
            Some(Token::LParen(_, _)) => self.parens_expr(),
            _ => Err(ParseError::UnexpectedToken(self.peek_text())),
        }
    }

    /// The text of the next token as an error reports it; see
    /// [`peek_text`].
    fn peek_text(&self) -> (r: String)
        requires
            self.wf(),
        ensures
            r@ == peek_text(self.toks(), self.at()),
    {
        match self.peek() {
            Some(t) => {
                let a = crate::text::concat("Some(", t.name());
                crate::text::concat(a.as_str(), ")")
            },
            None => owned("None"),
        }
    }

    /// The annotation of a binder after its colon; see [`g_binder`].
    fn binder_annotation(&mut self) -> (r: Result<(Multiplicity, Type), ParseError>)
        requires
            old(self).wf(),
        ensures
            final(self).wf(),
            final(self).toks() == old(self).toks(),
            r matches Ok((m, t)) ==> g_binder(old(self).toks(), old(self).at()) == Ok::<
                ((Multiplicity, SpecType), int),
                SpecParseError,
            >(((m, t@), final(self).at())) && old(self).at() < final(self).at(),
            r matches Err(e) ==> g_binder(old(self).toks(), old(self).at()) == Err::<
                ((Multiplicity, SpecType), int),
                SpecParseError,
            >(e@),
    {
        let mult = match self.peek() {
            Some(Token::MultiplicityZero(_, _)) => {
                self.advance();
                match self.consume(&Token::Colon(0, 0)) {
                    Ok(()) => Multiplicity::Zero,
                    Err(e) => {
                        return Err(e);
                    },
                }
            },
            Some(Token::MultiplicityOne(_, _)) => {
                self.advance();
                match self.consume(&Token::Colon(0, 0)) {
                    Ok(()) => Multiplicity::One,
                    Err(e) => {
                        return Err(e);
                    },
                }
            },
            Some(Token::MultiplicityOmega(_, _)) => {
                self.advance();
                match self.consume(&Token::Colon(0, 0)) {
                    Ok(()) => Multiplicity::Omega,
                    Err(e) => {
                        return Err(e);
                    },
                }
            },
            Some(Token::MultiplicityBorrow(_, _)) => {
                let followed_by_colon = self.pos + 1 < self.tokens.len() && match &self.tokens[self.pos + 1] {
                    Token::Colon(_, _) => true,
                    _ => false,
                };
                if followed_by_colon {
                    self.advance();
                    match self.consume(&Token::Colon(0, 0)) {
                        Ok(()) => Multiplicity::Borrow,
                        Err(e) => {
                            return Err(e);
                        },
                    }
                } else {
                    Multiplicity::One
                }
            },
            Some(Token::IntLit(n, _, _)) => {
                let n = *n;
                self.advance();
                match self.consume(&Token::Colon(0, 0)) {
                    Ok(()) => {},
                    Err(e) => {
                        return Err(e);
                    },
                }
                if n == 0 {
                    Multiplicity::Zero
                } else if n == 1 {
                    Multiplicity::One
                } else {
                    return Err(
                        ParseError::UnexpectedToken(
                            crate::text::concat(
                                "expected multiplicity (0, 1), found ",
                                crate::runtime::primitives::int_to_decimal(n).as_str(),
                            ),
                        ),
                    );
                }
            },
            _ => Multiplicity::One,
        };
        match self.ty() {
            Ok(annot) => Ok((mult, annot)),
            Err(e) => Err(e),
        }
    }

    /// The variable a binder binds and its optional annotation; see
    /// [`g_binding`].
    fn binding(&mut self) -> (r: Result<(String, Multiplicity, Type), ParseError>)
        requires
            old(self).wf(),
        ensures
            final(self).wf(),
            final(self).toks() == old(self).toks(),
            r matches Ok((v, m, t)) ==> g_binding(old(self).toks(), old(self).at()) == Ok::<
                ((Seq<char>, Multiplicity, SpecType), int),
                SpecParseError,
            >(((v@, m, t@), final(self).at())) && old(self).at() < final(self).at(),
            r matches Err(e) ==> g_binding(old(self).toks(), old(self).at()) == Err::<
                ((Seq<char>, Multiplicity, SpecType), int),
                SpecParseError,
            >(e@),
    {
        let var = match self.peek() {
            Some(Token::Ident(name, _, _)) => {
                let n = name.clone();
                self.advance();
                n
            },
            _ => {
                return Err(ParseError::UnexpectedToken(owned("expected variable")));
            },
        };
        if self.check(&Token::Colon(0, 0)) {
            self.advance();
            match self.binder_annotation() {
                Ok((m, annot)) => Ok((var, m, annot)),
                Err(e) => Err(e),
            }
        } else {
            Ok((var, Multiplicity::One, Type::unit()))
        }
    }

    /// An abstraction; see [`g_lambda_expr`].
    fn lambda_expr(&mut self) -> (r: Result<Term, ParseError>)
        requires
            old(self).wf(),
            at_kind(old(self).toks(), old(self).at(), SpecToken::KwLambda(0, 0)),
        ensures
            final(self).wf(),
            final(self).toks() == old(self).toks(),
            g_lambda_expr(old(self).toks(), old(self).at()) == outcome(r, final(self).at()),
            r is Ok ==> old(self).at() < final(self).at(),
        decreases self.tokens.len() - self.pos, 0nat,
    {
        match self.consume(&Token::KwLambda(0, 0)) {
            Ok(()) => {},
            Err(e) => {
                return Err(e);
            },
        }
        let (var, mult, annot) = match self.binding() {
            Ok(b) => b,
            Err(e) => {
                return Err(e);
            },
        };
        match self.consume(&Token::Dot(0, 0)) {
            Ok(()) => {},
            Err(e) => {
                return Err(e);
            },
        }
        let body = match self.term() {
            Ok(t) => t,
            Err(e) => {
                return Err(e);
            },
        };
        Ok(Term::Abs { var, multiplicity: mult, annot, body: Box::new(body) })
    }

    /// A `let`; see [`g_let_expr`].
    fn let_expr(&mut self) -> (r: Result<Term, ParseError>)
        requires
            old(self).wf(),
            at_kind(old(self).toks(), old(self).at(), SpecToken::KwLet(0, 0)),
        ensures
            final(self).wf(),
            final(self).toks() == old(self).toks(),
            g_let_expr(old(self).toks(), old(self).at()) == outcome(r, final(self).at()),
            r is Ok ==> old(self).at() < final(self).at(),
        decreases self.tokens.len() - self.pos, 0nat,
    {
        match self.consume(&Token::KwLet(0, 0)) {
            Ok(()) => {},
            Err(e) => {
                return Err(e);
            },
        }
        let (var, mult, annot) = match self.binding() {
            Ok(b) => b,
            Err(e) => {
                return Err(e);
            },
        };
        match self.consume(&Token::Equals(0, 0)) {
            Ok(()) => {},
            Err(e) => {
                return Err(e);
            },
        }
        let value = match self.term() {
            Ok(t) => t,
            Err(e) => {
                return Err(e);
            },
        };
        match self.consume(&Token::KwIn(0, 0)) {
            Ok(()) => {},
            Err(e) => {
                return Err(e);
            },
        }
        let body = match self.term() {
            Ok(t) => t,
            Err(e) => {
                return Err(e);
            },
        };
        Ok(Term::Let { var, multiplicity: mult, annot, value: Box::new(value), body: Box::new(body) })
    }

    /// A `match`, or with `view` set a `view`; see [`g_arms_expr`].
    fn arms_expr(&mut self, view: bool) -> (r: Result<Term, ParseError>)
        requires
            old(self).wf(),
            old(self).at() < old(self).toks().len(),
        ensures
            final(self).wf(),
            final(self).toks() == old(self).toks(),
            g_arms_expr(old(self).toks(), old(self).at(), view) == outcome(r, final(self).at()),
            r is Ok ==> old(self).at() < final(self).at(),
        decreases self.tokens.len() - self.pos, 0nat,
    {
        let ghost ts = self.toks();
        let ghost p0 = self.at();
        self.advance();
        let scrutinee = match self.term() {
            Ok(t) => t,
            Err(e) => {
                return Err(e);
            },
        };
        match self.consume(&Token::KwWith(0, 0)) {
            Ok(()) => {},
            Err(e) => {
                return Err(e);
            },
        }
        match self.consume(&Token::LBrace(0, 0)) {
            Ok(()) => {},
            Err(e) => {
                return Err(e);
            },
        }
        let mut arms: Vec<Arm> = Vec::new();
        assert(arms_view(arms@) =~= seq![]);
        let ghost p3 = self.at();
        let ghost sv = scrutinee@;
        loop
            invariant
                self.wf(),
                self.toks() == ts,
                ts == old(self).toks(),
                p0 == old(self).at(),
                p0 < p3 <= self.at(),
                sv == scrutinee@,
                g_arms(ts, p3, seq![]) == g_arms(ts, self.at(), arms_view(arms@)),
                g_arms_expr(ts, p0, view) == match g_arms(ts, p3, seq![]) {
                    Err(e) => Err(e),
                    Ok((a, p4)) => if view {
                        Ok((SpecTerm::View(Box::new(sv), a), p4))
                    } else {
                        Ok((SpecTerm::Match(Box::new(sv), a), p4))
                    },
                },
            decreases self.tokens.len() - self.pos,
        {
            let ghost here = self.at();
            let ghost before = arms_view(arms@);
            let pattern = match self.pattern() {
                Ok(p) => p,
                Err(e) => {
                    return Err(e);
                },
            };
            match self.consume(&Token::FatArrow(0, 0)) {
                Ok(()) => {},
                Err(e) => {
                    return Err(e);
                },
            }
            let body = match self.term() {
                Ok(t) => t,
                Err(e) => {
                    return Err(e);
                },
            };
            let ghost entry = (pattern@, body@);
            arms.push(Arm::new(pattern, body));
            assert(arms_view(arms@) =~= before.push(entry));
            if self.check(&Token::Pipe(0, 0)) {
                self.advance();
            } else if self.check(&Token::RBrace(0, 0)) {
                self.advance();
                let r = if view {
                    Term::view_on(scrutinee, arms)
                } else {
                    Term::match_on(scrutinee, arms)
                };
                return Ok(r);
            } else {
                return Err(ParseError::UnexpectedToken(owned("expected | or }")));
            }
        }
    }

    /// A parenthesised term.
    fn parens_expr(&mut self) -> (r: Result<Term, ParseError>)
        requires
            old(self).wf(),
            at_kind(old(self).toks(), old(self).at(), SpecToken::LParen(0, 0)),
        ensures
            final(self).wf(),
            final(self).toks() == old(self).toks(),
            g_atom_expr(old(self).toks(), old(self).at()) == outcome(r, final(self).at()),
            r is Ok ==> old(self).at() < final(self).at(),
        decreases self.tokens.len() - self.pos, 0nat,
    {
        match self.consume(&Token::LParen(0, 0)) {
            Ok(()) => {},
            Err(e) => {
                return Err(e);
            },
        }
        let expr = match self.term() {
            Ok(t) => t,
            Err(e) => {
                return Err(e);
            },
        };
        match self.consume(&Token::RParen(0, 0)) {
            Ok(()) => Ok(expr),
            Err(e) => Err(e),
        }
    }

    /// An identifier; see [`g_expect_ident`].
    fn expect_ident(&mut self) -> (r: Result<String, ParseError>)
        requires
            old(self).wf(),
        ensures
            final(self).wf(),
            final(self).toks() == old(self).toks(),
            g_expect_ident(old(self).toks(), old(self).at()) == outcome(r, final(self).at()),
    {
        proof {
            reveal_strlit("Int");
            reveal_strlit("Float");
            reveal_strlit("Char");
            reveal_strlit("Unit");
        }
        match self.peek() {
            Some(Token::Ident(name, _, _)) => {
                let name = name.clone();
                self.advance();
                Ok(name)
            },
            Some(Token::TyInt(_, _)) => {
                self.advance();
                Ok(owned("Int"))
            },
            Some(Token::TyFloat(_, _)) => {
                self.advance();
                Ok(owned("Float"))
            },
            Some(Token::TyChar(_, _)) => {
                self.advance();
                Ok(owned("Char"))
            },
            Some(Token::KwUnit(_, _)) => {
                self.advance();
                Ok(owned("Unit"))
            },
            Some(token) => Err(ParseError::ExpectedToken { expected: owned("identifier"), found: owned(token.name()) }),
            None => Err(ParseError::UnexpectedEndOfInput),
        }
    }
}

/// A term that begins with `view` reads as a view, and one that begins
/// with `match` as a match: the two keywords never give the same
/// constructor.
pub proof fn law_view_and_match_keywords(ts: Seq<SpecToken>, p: int)
    ensures
        tok(ts, p) matches Some(SpecToken::KwView(_, _)) ==> (g_atom_expr(ts, p) matches Ok((t, _)) ==> t is View),
        tok(ts, p) matches Some(SpecToken::KwMatch(_, _)) ==> (g_atom_expr(ts, p) matches Ok((t, _)) ==> t is Match),
{
}

/// A literal token reads as that literal, taking one token; a name reads
/// as a constructor when it begins with an uppercase letter and as a
/// variable otherwise; `λ` begins an abstraction and `let` a `let`.
pub proof fn law_atoms(ts: Seq<SpecToken>, p: int)
    ensures
        tok(ts, p) matches Some(SpecToken::IntLit(n, _, _)) ==> g_atom_expr(ts, p) == Ok::<(SpecTerm, int), SpecParseError>(
            (SpecTerm::NativeLiteral(SpecLiteral::Int(n)), p + 1),
        ),
        tok(ts, p) matches Some(SpecToken::FloatLit(d, _, _)) ==> g_atom_expr(ts, p) == Ok::<(SpecTerm, int), SpecParseError>(
            (SpecTerm::NativeLiteral(SpecLiteral::Float(d)), p + 1),
        ),
        tok(ts, p) matches Some(SpecToken::CharLit(c, _, _)) ==> g_atom_expr(ts, p) == Ok::<(SpecTerm, int), SpecParseError>(
            (SpecTerm::NativeLiteral(SpecLiteral::Char(c)), p + 1),
        ),
        tok(ts, p) matches Some(SpecToken::StringLit(st, _, _)) ==> g_atom_expr(ts, p) == Ok::<(SpecTerm, int), SpecParseError>(
            (SpecTerm::NativeLiteral(SpecLiteral::Str(st)), p + 1),
        ),
        tok(ts, p) matches Some(SpecToken::Ident(n, _, _)) ==> g_atom_expr(ts, p) == Ok::<(SpecTerm, int), SpecParseError>(
            (if starts_upper(n) { SpecTerm::Constructor(n, seq![]) } else { SpecTerm::Var(n) }, p + 1),
        ),
        tok(ts, p) matches Some(SpecToken::KwLambda(_, _)) ==> (g_atom_expr(ts, p) matches Ok((t, _)) ==> t is Abs),
        tok(ts, p) matches Some(SpecToken::KwLet(_, _)) ==> (g_atom_expr(ts, p) matches Ok((t, _)) ==> t is Let),
{
}

} // verus!
