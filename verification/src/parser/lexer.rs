//! The lexer of λ◦: source text to tokens with their positions.
use vstd::prelude::*;

use crate::text::{chars_of, str_eq, string_of};

verus! {

/// A token of λ◦ source text with the line and column at which it was read.
/// A floating-point literal keeps the digits it was written with.
#[derive(Debug, Clone)]
pub enum Token {
    KwLet(usize, usize),
    KwIn(usize, usize),
    KwMatch(usize, usize),
    KwView(usize, usize),
    KwWith(usize, usize),
    KwForall(usize, usize),
    KwUnit(usize, usize),
    KwLambda(usize, usize),
    KwPub(usize, usize),
    KwUse(usize, usize),
    KwType(usize, usize),
    KwTrait(usize, usize),
    KwImpl(usize, usize),
    KwNoPrelude(usize, usize),
    KwWhere(usize, usize),
    KwVal(usize, usize),
    KwAs(usize, usize),
    TyInt(usize, usize),
    TyFloat(usize, usize),
    TyChar(usize, usize),
    MultiplicityZero(usize, usize),
    MultiplicityOne(usize, usize),
    MultiplicityOmega(usize, usize),
    MultiplicityBorrow(usize, usize),
    LParen(usize, usize),
    RParen(usize, usize),
    LBrace(usize, usize),
    RBrace(usize, usize),
    Colon(usize, usize),
    Comma(usize, usize),
    Dot(usize, usize),
    DotDot(usize, usize),
    Equals(usize, usize),
    Arrow(usize, usize),
    FatArrow(usize, usize),
    Pipe(usize, usize),
    Underscore(usize, usize),
    IntLit(i64, usize, usize),
    FloatLit(String, usize, usize),
    CharLit(char, usize, usize),
    StringLit(String, usize, usize),
    UnitLit(usize, usize),
    Ident(String, usize, usize),
    EOF(usize, usize),
}

/// The value of a [`Token`].
pub enum SpecToken {
    KwLet(int, int),
    KwIn(int, int),
    KwMatch(int, int),
    KwView(int, int),
    KwWith(int, int),
    KwForall(int, int),
    KwUnit(int, int),
    KwLambda(int, int),
    KwPub(int, int),
    KwUse(int, int),
    KwType(int, int),
    KwTrait(int, int),
    KwImpl(int, int),
    KwNoPrelude(int, int),
    KwWhere(int, int),
    KwVal(int, int),
    KwAs(int, int),
    TyInt(int, int),
    TyFloat(int, int),
    TyChar(int, int),
    MultiplicityZero(int, int),
    MultiplicityOne(int, int),
    MultiplicityOmega(int, int),
    MultiplicityBorrow(int, int),
    LParen(int, int),
    RParen(int, int),
    LBrace(int, int),
    RBrace(int, int),
    Colon(int, int),
    Comma(int, int),
    Dot(int, int),
    DotDot(int, int),
    Equals(int, int),
    Arrow(int, int),
    FatArrow(int, int),
    Pipe(int, int),
    Underscore(int, int),
    IntLit(i64, int, int),
    FloatLit(Seq<char>, int, int),
    CharLit(char, int, int),
    StringLit(Seq<char>, int, int),
    UnitLit(int, int),
    Ident(Seq<char>, int, int),
    EOF(int, int),
}

impl View for Token {
    type V = SpecToken;

    open spec fn view(&self) -> SpecToken {
        match self {
            Token::KwLet(l, c) => SpecToken::KwLet(*l as int, *c as int),
            Token::KwIn(l, c) => SpecToken::KwIn(*l as int, *c as int),
            Token::KwMatch(l, c) => SpecToken::KwMatch(*l as int, *c as int),
            Token::KwView(l, c) => SpecToken::KwView(*l as int, *c as int),
            Token::KwWith(l, c) => SpecToken::KwWith(*l as int, *c as int),
            Token::KwForall(l, c) => SpecToken::KwForall(*l as int, *c as int),
            Token::KwUnit(l, c) => SpecToken::KwUnit(*l as int, *c as int),
            Token::KwLambda(l, c) => SpecToken::KwLambda(*l as int, *c as int),
            Token::KwPub(l, c) => SpecToken::KwPub(*l as int, *c as int),
            Token::KwUse(l, c) => SpecToken::KwUse(*l as int, *c as int),
            Token::KwType(l, c) => SpecToken::KwType(*l as int, *c as int),
            Token::KwTrait(l, c) => SpecToken::KwTrait(*l as int, *c as int),
            Token::KwImpl(l, c) => SpecToken::KwImpl(*l as int, *c as int),
            Token::KwNoPrelude(l, c) => SpecToken::KwNoPrelude(*l as int, *c as int),
            Token::KwWhere(l, c) => SpecToken::KwWhere(*l as int, *c as int),
            Token::KwVal(l, c) => SpecToken::KwVal(*l as int, *c as int),
            Token::KwAs(l, c) => SpecToken::KwAs(*l as int, *c as int),
            Token::TyInt(l, c) => SpecToken::TyInt(*l as int, *c as int),
            Token::TyFloat(l, c) => SpecToken::TyFloat(*l as int, *c as int),
            Token::TyChar(l, c) => SpecToken::TyChar(*l as int, *c as int),
            Token::MultiplicityZero(l, c) => SpecToken::MultiplicityZero(*l as int, *c as int),
            Token::MultiplicityOne(l, c) => SpecToken::MultiplicityOne(*l as int, *c as int),
            Token::MultiplicityOmega(l, c) => SpecToken::MultiplicityOmega(*l as int, *c as int),
            Token::MultiplicityBorrow(l, c) => SpecToken::MultiplicityBorrow(*l as int, *c as int),
            Token::LParen(l, c) => SpecToken::LParen(*l as int, *c as int),
            Token::RParen(l, c) => SpecToken::RParen(*l as int, *c as int),
            Token::LBrace(l, c) => SpecToken::LBrace(*l as int, *c as int),
            Token::RBrace(l, c) => SpecToken::RBrace(*l as int, *c as int),
            Token::Colon(l, c) => SpecToken::Colon(*l as int, *c as int),
            Token::Comma(l, c) => SpecToken::Comma(*l as int, *c as int),
            Token::Dot(l, c) => SpecToken::Dot(*l as int, *c as int),
            Token::DotDot(l, c) => SpecToken::DotDot(*l as int, *c as int),
            Token::Equals(l, c) => SpecToken::Equals(*l as int, *c as int),
            Token::Arrow(l, c) => SpecToken::Arrow(*l as int, *c as int),
            Token::FatArrow(l, c) => SpecToken::FatArrow(*l as int, *c as int),
            Token::Pipe(l, c) => SpecToken::Pipe(*l as int, *c as int),
            Token::Underscore(l, c) => SpecToken::Underscore(*l as int, *c as int),
            Token::UnitLit(l, c) => SpecToken::UnitLit(*l as int, *c as int),
            Token::EOF(l, c) => SpecToken::EOF(*l as int, *c as int),
            Token::IntLit(x, l, c) => SpecToken::IntLit(*x, *l as int, *c as int),
            Token::FloatLit(x, l, c) => SpecToken::FloatLit(x@, *l as int, *c as int),
            Token::CharLit(x, l, c) => SpecToken::CharLit(*x, *l as int, *c as int),
            Token::StringLit(x, l, c) => SpecToken::StringLit(x@, *l as int, *c as int),
            Token::Ident(x, l, c) => SpecToken::Ident(x@, *l as int, *c as int),
        }
    }
}

impl Token {
    /// The line and column at which the token was read.
    pub fn position(&self) -> (r: Option<(usize, usize)>)
        ensures
            r matches Some(p) && (p.0 as int, p.1 as int) == token_position(self@),
    {
        match self {
            Token::KwLet(l, c) => Some((*l, *c)),
            Token::KwIn(l, c) => Some((*l, *c)),
            Token::KwMatch(l, c) => Some((*l, *c)),
            Token::KwView(l, c) => Some((*l, *c)),
            Token::KwWith(l, c) => Some((*l, *c)),
            Token::KwForall(l, c) => Some((*l, *c)),
            Token::KwUnit(l, c) => Some((*l, *c)),
            Token::KwLambda(l, c) => Some((*l, *c)),
            Token::KwPub(l, c) => Some((*l, *c)),
            Token::KwUse(l, c) => Some((*l, *c)),
            Token::KwType(l, c) => Some((*l, *c)),
            Token::KwTrait(l, c) => Some((*l, *c)),
            Token::KwImpl(l, c) => Some((*l, *c)),
            Token::KwNoPrelude(l, c) => Some((*l, *c)),
            Token::KwWhere(l, c) => Some((*l, *c)),
            Token::KwVal(l, c) => Some((*l, *c)),
            Token::KwAs(l, c) => Some((*l, *c)),
            Token::TyInt(l, c) => Some((*l, *c)),
            Token::TyFloat(l, c) => Some((*l, *c)),
            Token::TyChar(l, c) => Some((*l, *c)),
            Token::MultiplicityZero(l, c) => Some((*l, *c)),
            Token::MultiplicityOne(l, c) => Some((*l, *c)),
            Token::MultiplicityOmega(l, c) => Some((*l, *c)),
            Token::MultiplicityBorrow(l, c) => Some((*l, *c)),
            Token::LParen(l, c) => Some((*l, *c)),
            Token::RParen(l, c) => Some((*l, *c)),
            Token::LBrace(l, c) => Some((*l, *c)),
            Token::RBrace(l, c) => Some((*l, *c)),
            Token::Colon(l, c) => Some((*l, *c)),
            Token::Comma(l, c) => Some((*l, *c)),
            Token::Dot(l, c) => Some((*l, *c)),
            Token::DotDot(l, c) => Some((*l, *c)),
            Token::Equals(l, c) => Some((*l, *c)),
            Token::Arrow(l, c) => Some((*l, *c)),
            Token::FatArrow(l, c) => Some((*l, *c)),
            Token::Pipe(l, c) => Some((*l, *c)),
            Token::Underscore(l, c) => Some((*l, *c)),
            Token::UnitLit(l, c) => Some((*l, *c)),
            Token::EOF(l, c) => Some((*l, *c)),
            Token::IntLit(_, l, c) => Some((*l, *c)),
            Token::FloatLit(_, l, c) => Some((*l, *c)),
            Token::CharLit(_, l, c) => Some((*l, *c)),
            Token::StringLit(_, l, c) => Some((*l, *c)),
            Token::Ident(_, l, c) => Some((*l, *c)),
        }
    }
}

/// The line and column of a token.
pub open spec fn token_position(t: SpecToken) -> (int, int) {
    match t {
        SpecToken::KwLet(l, c) => (l, c),
        SpecToken::KwIn(l, c) => (l, c),
        SpecToken::KwMatch(l, c) => (l, c),
        SpecToken::KwView(l, c) => (l, c),
        SpecToken::KwWith(l, c) => (l, c),
        SpecToken::KwForall(l, c) => (l, c),
        SpecToken::KwUnit(l, c) => (l, c),
        SpecToken::KwLambda(l, c) => (l, c),
        SpecToken::KwPub(l, c) => (l, c),
        SpecToken::KwUse(l, c) => (l, c),
        SpecToken::KwType(l, c) => (l, c),
        SpecToken::KwTrait(l, c) => (l, c),
        SpecToken::KwImpl(l, c) => (l, c),
        SpecToken::KwNoPrelude(l, c) => (l, c),
        SpecToken::KwWhere(l, c) => (l, c),
        SpecToken::KwVal(l, c) => (l, c),
        SpecToken::KwAs(l, c) => (l, c),
        SpecToken::TyInt(l, c) => (l, c),
        SpecToken::TyFloat(l, c) => (l, c),
        SpecToken::TyChar(l, c) => (l, c),
        SpecToken::MultiplicityZero(l, c) => (l, c),
        SpecToken::MultiplicityOne(l, c) => (l, c),
        SpecToken::MultiplicityOmega(l, c) => (l, c),
        SpecToken::MultiplicityBorrow(l, c) => (l, c),
        SpecToken::LParen(l, c) => (l, c),
        SpecToken::RParen(l, c) => (l, c),
        SpecToken::LBrace(l, c) => (l, c),
        SpecToken::RBrace(l, c) => (l, c),
        SpecToken::Colon(l, c) => (l, c),
        SpecToken::Comma(l, c) => (l, c),
        SpecToken::Dot(l, c) => (l, c),
        SpecToken::DotDot(l, c) => (l, c),
        SpecToken::Equals(l, c) => (l, c),
        SpecToken::Arrow(l, c) => (l, c),
        SpecToken::FatArrow(l, c) => (l, c),
        SpecToken::Pipe(l, c) => (l, c),
        SpecToken::Underscore(l, c) => (l, c),
        SpecToken::UnitLit(l, c) => (l, c),
        SpecToken::EOF(l, c) => (l, c),
        SpecToken::IntLit(_, l, c) => (l, c),
        SpecToken::FloatLit(_, l, c) => (l, c),
        SpecToken::CharLit(_, l, c) => (l, c),
        SpecToken::StringLit(_, l, c) => (l, c),
        SpecToken::Ident(_, l, c) => (l, c),
    }
}

/// The variant of a token, by its place in the list of variants.
pub open spec fn token_kind(t: SpecToken) -> int {
    match t {
        SpecToken::KwLet(..) => 0,
        SpecToken::KwIn(..) => 1,
        SpecToken::KwMatch(..) => 2,
        SpecToken::KwView(..) => 3,
        SpecToken::KwWith(..) => 4,
        SpecToken::KwForall(..) => 5,
        SpecToken::KwUnit(..) => 6,
        SpecToken::KwLambda(..) => 7,
        SpecToken::KwPub(..) => 8,
        SpecToken::KwUse(..) => 9,
        SpecToken::KwType(..) => 10,
        SpecToken::KwTrait(..) => 11,
        SpecToken::KwImpl(..) => 12,
        SpecToken::KwNoPrelude(..) => 13,
        SpecToken::KwWhere(..) => 14,
        SpecToken::KwVal(..) => 15,
        SpecToken::KwAs(..) => 16,
        SpecToken::TyInt(..) => 17,
        SpecToken::TyFloat(..) => 18,
        SpecToken::TyChar(..) => 19,
        SpecToken::MultiplicityZero(..) => 20,
        SpecToken::MultiplicityOne(..) => 21,
        SpecToken::MultiplicityOmega(..) => 22,
        SpecToken::MultiplicityBorrow(..) => 23,
        SpecToken::LParen(..) => 24,
        SpecToken::RParen(..) => 25,
        SpecToken::LBrace(..) => 26,
        SpecToken::RBrace(..) => 27,
        SpecToken::Colon(..) => 28,
        SpecToken::Comma(..) => 29,
        SpecToken::Dot(..) => 30,
        SpecToken::DotDot(..) => 31,
        SpecToken::Equals(..) => 32,
        SpecToken::Arrow(..) => 33,
        SpecToken::FatArrow(..) => 34,
        SpecToken::Pipe(..) => 35,
        SpecToken::Underscore(..) => 36,
        SpecToken::IntLit(..) => 37,
        SpecToken::FloatLit(..) => 38,
        SpecToken::CharLit(..) => 39,
        SpecToken::StringLit(..) => 40,
        SpecToken::UnitLit(..) => 41,
        SpecToken::Ident(..) => 42,
        SpecToken::EOF(..) => 43,
    }
}

impl Token {
    /// The variant of the token, by its place in the list of variants.
    pub fn kind(&self) -> (r: u8)
        ensures
            r as int == token_kind(self@),
    {
        match self {
            Token::KwLet(..) => 0,
            Token::KwIn(..) => 1,
            Token::KwMatch(..) => 2,
            Token::KwView(..) => 3,
            Token::KwWith(..) => 4,
            Token::KwForall(..) => 5,
            Token::KwUnit(..) => 6,
            Token::KwLambda(..) => 7,
            Token::KwPub(..) => 8,
            Token::KwUse(..) => 9,
            Token::KwType(..) => 10,
            Token::KwTrait(..) => 11,
            Token::KwImpl(..) => 12,
            Token::KwNoPrelude(..) => 13,
            Token::KwWhere(..) => 14,
            Token::KwVal(..) => 15,
            Token::KwAs(..) => 16,
            Token::TyInt(..) => 17,
            Token::TyFloat(..) => 18,
            Token::TyChar(..) => 19,
            Token::MultiplicityZero(..) => 20,
            Token::MultiplicityOne(..) => 21,
            Token::MultiplicityOmega(..) => 22,
            Token::MultiplicityBorrow(..) => 23,
            Token::LParen(..) => 24,
            Token::RParen(..) => 25,
            Token::LBrace(..) => 26,
            Token::RBrace(..) => 27,
            Token::Colon(..) => 28,
            Token::Comma(..) => 29,
            Token::Dot(..) => 30,
            Token::DotDot(..) => 31,
            Token::Equals(..) => 32,
            Token::Arrow(..) => 33,
            Token::FatArrow(..) => 34,
            Token::Pipe(..) => 35,
            Token::Underscore(..) => 36,
            Token::IntLit(..) => 37,
            Token::FloatLit(..) => 38,
            Token::CharLit(..) => 39,
            Token::StringLit(..) => 40,
            Token::UnitLit(..) => 41,
            Token::Ident(..) => 42,
            Token::EOF(..) => 43,
        }
    }
}

/// Two tokens are equal when they are of the same variant, whatever their
/// positions and contents.
impl PartialEq for Token {
    fn eq(&self, other: &Self) -> (r: bool) {
        self.kind() == other.kind()
    }
}

impl vstd::std_specs::cmp::PartialEqSpecImpl for Token {
    open spec fn obeys_eq_spec() -> bool {
        true
    }

    open spec fn eq_spec(&self, other: &Token) -> bool {
        token_kind(self@) == token_kind(other@)
    }
}

/// The name of a token's variant.
pub open spec fn token_name(t: SpecToken) -> Seq<char> {
    match t {
        SpecToken::KwLet(..) => "KwLet"@,
        SpecToken::KwIn(..) => "KwIn"@,
        SpecToken::KwMatch(..) => "KwMatch"@,
        SpecToken::KwView(..) => "KwView"@,
        SpecToken::KwWith(..) => "KwWith"@,
        SpecToken::KwForall(..) => "KwForall"@,
        SpecToken::KwUnit(..) => "KwUnit"@,
        SpecToken::KwLambda(..) => "KwLambda"@,
        SpecToken::KwPub(..) => "KwPub"@,
        SpecToken::KwUse(..) => "KwUse"@,
        SpecToken::KwType(..) => "KwType"@,
        SpecToken::KwTrait(..) => "KwTrait"@,
        SpecToken::KwImpl(..) => "KwImpl"@,
        SpecToken::KwNoPrelude(..) => "KwNoPrelude"@,
        SpecToken::KwWhere(..) => "KwWhere"@,
        SpecToken::KwVal(..) => "KwVal"@,
        SpecToken::KwAs(..) => "KwAs"@,
        SpecToken::TyInt(..) => "TyInt"@,
        SpecToken::TyFloat(..) => "TyFloat"@,
        SpecToken::TyChar(..) => "TyChar"@,
        SpecToken::MultiplicityZero(..) => "MultiplicityZero"@,
        SpecToken::MultiplicityOne(..) => "MultiplicityOne"@,
        SpecToken::MultiplicityOmega(..) => "MultiplicityOmega"@,
        SpecToken::MultiplicityBorrow(..) => "MultiplicityBorrow"@,
        SpecToken::LParen(..) => "LParen"@,
        SpecToken::RParen(..) => "RParen"@,
        SpecToken::LBrace(..) => "LBrace"@,
        SpecToken::RBrace(..) => "RBrace"@,
        SpecToken::Colon(..) => "Colon"@,
        SpecToken::Comma(..) => "Comma"@,
        SpecToken::Dot(..) => "Dot"@,
        SpecToken::DotDot(..) => "DotDot"@,
        SpecToken::Equals(..) => "Equals"@,
        SpecToken::Arrow(..) => "Arrow"@,
        SpecToken::FatArrow(..) => "FatArrow"@,
        SpecToken::Pipe(..) => "Pipe"@,
        SpecToken::Underscore(..) => "Underscore"@,
        SpecToken::IntLit(..) => "IntLit"@,
        SpecToken::FloatLit(..) => "FloatLit"@,
        SpecToken::CharLit(..) => "CharLit"@,
        SpecToken::StringLit(..) => "StringLit"@,
        SpecToken::UnitLit(..) => "UnitLit"@,
        SpecToken::Ident(..) => "Ident"@,
        SpecToken::EOF(..) => "EOF"@,
    }
}

impl Token {
    /// The name of the token's variant.
    pub fn name(&self) -> (r: &'static str)
        ensures
            r@ == token_name(self@),
    {
        let r = match self {
            Token::KwLet(..) => "KwLet",
            Token::KwIn(..) => "KwIn",
            Token::KwMatch(..) => "KwMatch",
            Token::KwView(..) => "KwView",
            Token::KwWith(..) => "KwWith",
            Token::KwForall(..) => "KwForall",
            Token::KwUnit(..) => "KwUnit",
            Token::KwLambda(..) => "KwLambda",
            Token::KwPub(..) => "KwPub",
            Token::KwUse(..) => "KwUse",
            Token::KwType(..) => "KwType",
            Token::KwTrait(..) => "KwTrait",
            Token::KwImpl(..) => "KwImpl",
            Token::KwNoPrelude(..) => "KwNoPrelude",
            Token::KwWhere(..) => "KwWhere",
            Token::KwVal(..) => "KwVal",
            Token::KwAs(..) => "KwAs",
            Token::TyInt(..) => "TyInt",
            Token::TyFloat(..) => "TyFloat",
            Token::TyChar(..) => "TyChar",
            Token::MultiplicityZero(..) => "MultiplicityZero",
            Token::MultiplicityOne(..) => "MultiplicityOne",
            Token::MultiplicityOmega(..) => "MultiplicityOmega",
            Token::MultiplicityBorrow(..) => "MultiplicityBorrow",
            Token::LParen(..) => "LParen",
            Token::RParen(..) => "RParen",
            Token::LBrace(..) => "LBrace",
            Token::RBrace(..) => "RBrace",
            Token::Colon(..) => "Colon",
            Token::Comma(..) => "Comma",
            Token::Dot(..) => "Dot",
            Token::DotDot(..) => "DotDot",
            Token::Equals(..) => "Equals",
            Token::Arrow(..) => "Arrow",
            Token::FatArrow(..) => "FatArrow",
            Token::Pipe(..) => "Pipe",
            Token::Underscore(..) => "Underscore",
            Token::IntLit(..) => "IntLit",
            Token::FloatLit(..) => "FloatLit",
            Token::CharLit(..) => "CharLit",
            Token::StringLit(..) => "StringLit",
            Token::UnitLit(..) => "UnitLit",
            Token::Ident(..) => "Ident",
            Token::EOF(..) => "EOF",
        };
        proof {
            reveal_strlit("KwLet");
            reveal_strlit("KwIn");
            reveal_strlit("KwMatch");
            reveal_strlit("KwView");
            reveal_strlit("KwWith");
            reveal_strlit("KwForall");
            reveal_strlit("KwUnit");
            reveal_strlit("KwLambda");
            reveal_strlit("KwPub");
            reveal_strlit("KwUse");
            reveal_strlit("KwType");
            reveal_strlit("KwTrait");
            reveal_strlit("KwImpl");
            reveal_strlit("KwNoPrelude");
            reveal_strlit("KwWhere");
            reveal_strlit("KwVal");
            reveal_strlit("KwAs");
            reveal_strlit("TyInt");
            reveal_strlit("TyFloat");
            reveal_strlit("TyChar");
            reveal_strlit("MultiplicityZero");
            reveal_strlit("MultiplicityOne");
            reveal_strlit("MultiplicityOmega");
            reveal_strlit("MultiplicityBorrow");
            reveal_strlit("LParen");
            reveal_strlit("RParen");
            reveal_strlit("LBrace");
            reveal_strlit("RBrace");
            reveal_strlit("Colon");
            reveal_strlit("Comma");
            reveal_strlit("Dot");
            reveal_strlit("DotDot");
            reveal_strlit("Equals");
            reveal_strlit("Arrow");
            reveal_strlit("FatArrow");
            reveal_strlit("Pipe");
            reveal_strlit("Underscore");
            reveal_strlit("IntLit");
            reveal_strlit("FloatLit");
            reveal_strlit("CharLit");
            reveal_strlit("StringLit");
            reveal_strlit("UnitLit");
            reveal_strlit("Ident");
            reveal_strlit("EOF");
        }
        r
    }
}

/// Why the source text could not be split into tokens.
#[derive(Debug, Clone)]
pub enum LexError {
    UnexpectedChar(char, usize, usize),
    InvalidNumber(String),
}

/// The value of a [`LexError`].
pub enum SpecLexError {
    UnexpectedChar(char, int, int),
    InvalidNumber(Seq<char>),
}

impl View for LexError {
    type V = SpecLexError;

    open spec fn view(&self) -> SpecLexError {
        match self {
            LexError::UnexpectedChar(c, l, k) => SpecLexError::UnexpectedChar(*c, *l as int, *k as int),
            LexError::InvalidNumber(s) => SpecLexError::InvalidNumber(s@),
        }
    }
}

/// The message shown for a lexer error.
pub open spec fn lex_error_text(e: SpecLexError) -> Seq<char> {
    match e {
        SpecLexError::InvalidNumber(s) => "Invalid number: "@ + s,
        SpecLexError::UnexpectedChar(c, l, k) => "Unexpected character '"@ + seq![c] + "' at line "@
            + crate::runtime::primitives::nat_decimal(l as nat) + ", column "@ + crate::runtime::primitives::nat_decimal(
            k as nat,
        ),
    }
}

impl LexError {
    /// The message shown for this error.
    pub fn message(&self) -> (r: String)
        ensures
            r@ == lex_error_text(self@),
    {
        match self {
            LexError::UnexpectedChar(c, l, k) => {
                let mut cs: Vec<char> = Vec::new();
                cs.push(*c);
                let a = crate::text::concat("Unexpected character '", string_of(&cs).as_str());
                let b = crate::text::concat(a.as_str(), "' at line ");
                let d = crate::text::concat(b.as_str(), crate::runtime::primitives::usize_to_decimal(*l).as_str());
                let e = crate::text::concat(d.as_str(), ", column ");
                crate::text::concat(e.as_str(), crate::runtime::primitives::usize_to_decimal(*k).as_str())
            },
            LexError::InvalidNumber(s) => crate::text::concat("Invalid number: ", s.as_str()),
        }
    }
}

/// Whether a character has Unicode's White_Space property, which is what
/// `char::is_whitespace` tests: tab to carriage return, space, next line,
/// no-break space, ogham space mark, the spaces from en quad to hair space,
/// line and paragraph separators, narrow no-break space, medium mathematical
/// space and ideographic space.
pub open spec fn is_space(c: char) -> bool {
    let n = c as u32;
    ||| 0x09 <= n <= 0x0d
    ||| n == 0x20
    ||| n == 0x85
    ||| n == 0xa0
    ||| n == 0x1680
    ||| 0x2000 <= n <= 0x200a
    ||| n == 0x2028
    ||| n == 0x2029
    ||| n == 0x202f
    ||| n == 0x205f
    ||| n == 0x3000
}

/// Whether `char::is_alphanumeric` holds of a character (Unicode's
/// Alphabetic or Numeric properties).
pub uninterp spec fn is_alnum(c: char) -> bool;

/// Whether the character is white space, as [`is_space`] lists.
pub(crate) fn char_is_whitespace(c: char) -> (r: bool)
    ensures
        r == is_space(c),
{
    let n = c as u32;
    (0x09 <= n && n <= 0x0d) || n == 0x20 || n == 0x85 || n == 0xa0 || n == 0x1680 || (0x2000 <= n && n <= 0x200a)
        || n == 0x2028 || n == 0x2029 || n == 0x202f || n == 0x205f || n == 0x3000
}

/// Calls `char::is_alphanumeric`; the result is named [`is_alnum`].
#[verifier::external_body]
fn char_is_alphanumeric(c: char) -> (r: bool)
    ensures
        r == is_alnum(c),
        is_ascii_letter(c) ==> r,
{
    c.is_alphanumeric()
}

/// A decimal digit.
pub open spec fn is_digit(c: char) -> bool {
    '0' <= c && c <= '9'
}

/// An ASCII letter.
pub open spec fn is_ascii_letter(c: char) -> bool {
    ('a' <= c && c <= 'z') || ('A' <= c && c <= 'Z')
}

/// A character that may continue an identifier.
pub open spec fn is_ident_char(c: char) -> bool {
    is_alnum(c) || c == '_'
}

/// Where the lexer stands: the position in the text and the line and
/// column there.
pub struct LexPos {
    pub pos: int,
    pub line: int,
    pub col: int,
}

/// The position after reading `c`: a newline starts the next line.
pub open spec fn adv(st: LexPos, c: char) -> LexPos {
    LexPos {
        pos: st.pos + 1,
        line: if c == '\n' {
            st.line + 1
        } else {
            st.line
        },
        col: if c == '\n' {
            1
        } else {
            st.col + 1
        },
    }
}

/// The character at the lexer's position, if any.
pub open spec fn peek_at(s: Seq<char>, st: LexPos) -> Option<char> {
    if 0 <= st.pos < s.len() {
        Some(s[st.pos])
    } else {
        None
    }
}

/// The position after a comment: up to and including the next newline,
/// or the end of the text.
pub open spec fn skip_comment(s: Seq<char>, st: LexPos) -> LexPos
    decreases s.len() - st.pos,
{
    if !(0 <= st.pos < s.len()) {
        st
    } else if s[st.pos] == '\n' {
        adv(st, s[st.pos])
    } else {
        skip_comment(s, adv(st, s[st.pos]))
    }
}

/// The position after whitespace and `--` comments.
pub open spec fn skip_ws(s: Seq<char>, st: LexPos) -> LexPos
    decreases s.len() - st.pos,
{
    if !(0 <= st.pos < s.len()) {
        st
    } else if is_space(s[st.pos]) {
        skip_ws(s, adv(st, s[st.pos]))
    } else if s[st.pos] == '-' && st.pos + 1 < s.len() && s[st.pos + 1] == '-' {
        let n = skip_comment(s, st);
        if st.pos < n.pos <= s.len() {
            skip_ws(s, n)
        } else {
            n
        }
    } else {
        st
    }
}

/// The characters of an identifier from the lexer's position, and the
/// position after them.
pub open spec fn read_ident(s: Seq<char>, st: LexPos) -> (Seq<char>, LexPos)
    decreases s.len() - st.pos,
{
    if 0 <= st.pos < s.len() && is_ident_char(s[st.pos]) {
        let (t, e) = read_ident(s, adv(st, s[st.pos]));
        (seq![s[st.pos]] + t, e)
    } else {
        (seq![], st)
    }
}

/// The digits and dots of a number from the lexer's position, whether a dot
/// was read, and the position after them; a second dot is an error.
pub open spec fn scan_number(s: Seq<char>, st: LexPos, has_dot: bool) -> Result<(Seq<char>, bool, LexPos), SpecLexError>
    decreases s.len() - st.pos,
{
    if 0 <= st.pos < s.len() && is_digit(s[st.pos]) {
        match scan_number(s, adv(st, s[st.pos]), has_dot) {
            Ok((t, d, e)) => Ok((seq![s[st.pos]] + t, d, e)),
            Err(x) => Err(x),
        }
    } else if 0 <= st.pos < s.len() && s[st.pos] == '.' {
        if has_dot {
            Err(SpecLexError::UnexpectedChar('.', st.line, st.col))
        } else {
            match scan_number(s, adv(st, '.'), true) {
                Ok((t, d, e)) => Ok((seq!['.'] + t, d, e)),
                Err(x) => Err(x),
            }
        }
    } else {
        Ok((seq![], has_dot, st))
    }
}

/// The value of a sequence of decimal digits.
pub open spec fn decimal_value(t: Seq<char>) -> int
    decreases t.len(),
{
    if t.len() == 0 {
        0
    } else {
        decimal_value(t.drop_last()) * 10 + (t.last() as int - '0' as int)
    }
}

/// A number token read from the lexer's position, at that position: a
/// literal with a dot is a floating-point literal, kept as written; an
/// integer literal must fit in an `i64`.
pub open spec fn read_number(s: Seq<char>, st: LexPos) -> Result<(SpecToken, LexPos), SpecLexError> {
    match scan_number(s, st, false) {
        Err(x) => Err(x),
        Ok((t, d, e)) => if t.len() == 0 {
            Err(SpecLexError::InvalidNumber("empty"@))
        } else if d {
            Ok((SpecToken::FloatLit(t, st.line, st.col), e))
        } else if decimal_value(t) <= i64::MAX {
            Ok((SpecToken::IntLit(decimal_value(t) as i64, st.line, st.col), e))
        } else {
            Err(SpecLexError::InvalidNumber(t))
        },
    }
}

/// The characters an escape sequence `\e` stands for.
pub open spec fn escaped(e: char) -> Seq<char> {
    if e == 'n' {
        seq!['\n']
    } else if e == 't' {
        seq!['\t']
    } else if e == '\\' {
        seq!['\\']
    } else if e == '"' {
        seq!['"']
    } else {
        seq!['\\', e]
    }
}

/// The contents of a string literal from just after its opening quote, and
/// the position after its closing quote.
pub open spec fn scan_string(s: Seq<char>, st: LexPos) -> Result<(Seq<char>, LexPos), SpecLexError>
    decreases s.len() - st.pos,
{
    if !(0 <= st.pos < s.len()) {
        Err(SpecLexError::UnexpectedChar('"', st.line, st.col))
    } else if s[st.pos] == '"' {
        Ok((seq![], adv(st, '"')))
    } else if s[st.pos] == '\\' {
        let a = adv(st, '\\');
        if !(a.pos < s.len()) {
            Err(SpecLexError::UnexpectedChar('\\', a.line, a.col))
        } else {
            match scan_string(s, adv(a, s[a.pos])) {
                Ok((r, f)) => Ok((escaped(s[a.pos]) + r, f)),
                Err(x) => Err(x),
            }
        }
    } else {
        match scan_string(s, adv(st, s[st.pos])) {
            Ok((r, f)) => Ok((seq![s[st.pos]] + r, f)),
            Err(x) => Err(x),
        }
    }
}

/// The keyword a word spells, or an identifier.
pub open spec fn keyword_token(w: Seq<char>, l: int, c: int) -> SpecToken {
    if w == "let"@ {
        SpecToken::KwLet(l, c)
    } else if w == "in"@ {
        SpecToken::KwIn(l, c)
    } else if w == "match"@ {
        SpecToken::KwMatch(l, c)
    } else if w == "view"@ {
        SpecToken::KwView(l, c)
    } else if w == "with"@ {
        SpecToken::KwWith(l, c)
    } else if w == "forall"@ {
        SpecToken::KwForall(l, c)
    } else if w == "Unit"@ {
        SpecToken::KwUnit(l, c)
    } else if w == "lambda"@ || w == "λ"@ {
        SpecToken::KwLambda(l, c)
    } else if w == "pub"@ {
        SpecToken::KwPub(l, c)
    } else if w == "use"@ {
        SpecToken::KwUse(l, c)
    } else if w == "type"@ {
        SpecToken::KwType(l, c)
    } else if w == "trait"@ {
        SpecToken::KwTrait(l, c)
    } else if w == "impl"@ {
        SpecToken::KwImpl(l, c)
    } else if w == "no_prelude"@ {
        SpecToken::KwNoPrelude(l, c)
    } else if w == "where"@ {
        SpecToken::KwWhere(l, c)
    } else if w == "val"@ {
        SpecToken::KwVal(l, c)
    } else if w == "as"@ {
        SpecToken::KwAs(l, c)
    } else if w == "Int"@ {
        SpecToken::TyInt(l, c)
    } else if w == "Float"@ {
        SpecToken::TyFloat(l, c)
    } else if w == "Char"@ {
        SpecToken::TyChar(l, c)
    } else if w == "omega"@ {
        SpecToken::MultiplicityOmega(l, c)
    } else if w == "()"@ {
        SpecToken::UnitLit(l, c)
    } else {
        SpecToken::Ident(w, l, c)
    }
}

/// The token that starts at the lexer's position, which holds a character
/// that is not whitespace, and the position after it. Punctuation and the
/// words are given the position after them, numbers the position before.
pub open spec fn step(s: Seq<char>, st: LexPos) -> Result<(SpecToken, LexPos), SpecLexError> {
    let c = s[st.pos];
    let a = adv(st, c);
    if c == '(' {
        Ok((SpecToken::LParen(a.line, a.col), a))
    } else if c == ')' {
        Ok((SpecToken::RParen(a.line, a.col), a))
    } else if c == '{' {
        Ok((SpecToken::LBrace(a.line, a.col), a))
    } else if c == '}' {
        Ok((SpecToken::RBrace(a.line, a.col), a))
    } else if c == ':' {
        Ok((SpecToken::Colon(a.line, a.col), a))
    } else if c == ',' {
        Ok((SpecToken::Comma(a.line, a.col), a))
    } else if c == '.' {
        if peek_at(s, a) == Some('.') {
            let b = adv(a, '.');
            Ok((SpecToken::DotDot(b.line, b.col), b))
        } else {
            Ok((SpecToken::Dot(a.line, a.col), a))
        }
    } else if c == '|' {
        Ok((SpecToken::Pipe(a.line, a.col), a))
    } else if c == '=' {
        if peek_at(s, a) == Some('>') {
            let b = adv(a, '>');
            Ok((SpecToken::FatArrow(b.line, b.col), b))
        } else {
            Ok((SpecToken::Equals(a.line, a.col), a))
        }
    } else if c == '_' {
        if peek_at(s, a) matches Some(d) && is_ident_char(d) {
            let (w, e) = read_ident(s, a);
            Ok((keyword_token(seq!['_'] + w, e.line, e.col), e))
        } else {
            Ok((SpecToken::Underscore(a.line, a.col), a))
        }
    } else if c == '-' {
        if peek_at(s, a) == Some('>') {
            let b = adv(a, '>');
            Ok((SpecToken::Arrow(b.line, b.col), b))
        } else {
            Err(SpecLexError::UnexpectedChar('-', a.line, a.col))
        }
    } else if is_digit(c) {
        read_number(s, st)
    } else if c == 'ω' {
        Ok((SpecToken::MultiplicityOmega(a.line, a.col), a))
    } else if c == '&' {
        Ok((SpecToken::MultiplicityBorrow(a.line, a.col), a))
    } else if is_ascii_letter(c) {
        let (w, e) = read_ident(s, st);
        Ok((keyword_token(w, e.line, e.col), e))
    } else if c == 'λ' || c == '\\' {
        Ok((SpecToken::KwLambda(a.line, a.col), a))
    } else if c == '"' {
        match scan_string(s, a) {
            Ok((t, e)) => Ok((SpecToken::StringLit(t, e.line, e.col), e)),
            Err(x) => Err(x),
        }
    } else {
        Err(SpecLexError::UnexpectedChar(c, st.line, st.col))
    }
}

/// The tokens of the text from the lexer's position on, after those of
/// `acc`, ending with the end-of-input token; or the first error.
pub open spec fn lex_from(s: Seq<char>, st: LexPos, acc: Seq<SpecToken>) -> Result<Seq<SpecToken>, SpecLexError>
    decreases s.len() - st.pos,
{
    if !(0 <= st.pos < s.len()) {
        Ok(acc.push(SpecToken::EOF(st.line, st.col)))
    } else {
        let w = skip_ws(s, st);
        if !(0 <= w.pos < s.len()) {
            Ok(acc.push(SpecToken::EOF(w.line, w.col)))
        } else {
            match step(s, w) {
                Err(e) => Err(e),
                Ok((t, n)) => if st.pos < n.pos <= s.len() {
                    lex_from(s, n, acc.push(t))
                } else {
                    Ok(acc)
                },
            }
        }
    }
}

/// The values of a list of tokens.
pub open spec fn tokens_view(ts: Seq<Token>) -> Seq<SpecToken> {
    ts.map_values(|t: Token| t@)
}

/// Reads tokens from a source text, keeping the position, line and column.
#[derive(Debug)]
pub struct Lexer {
    chars: Vec<char>,
    pos: usize,
    line: usize,
    col: usize,
}

impl Lexer {
    /// The text being read.
    pub closed spec fn text(&self) -> Seq<char> {
        self.chars@
    }

    /// Where the lexer stands.
    pub closed spec fn at(&self) -> LexPos {
        LexPos { pos: self.pos as int, line: self.line as int, col: self.col as int }
    }

    /// The position lies within the text, and the line and column are at
    /// most one more than the number of characters read.
    pub closed spec fn wf(&self) -> bool {
        &&& self.chars.len() + 2 < usize::MAX
        &&& self.pos <= self.chars.len()
        &&& 1 <= self.line <= self.pos + 1
        &&& 1 <= self.col <= self.pos + 1
    }

    /// A lexer at the start of `input`, line 1, column 1.
    pub fn new(input: &str) -> (r: Lexer)
        requires
            input@.len() + 2 < usize::MAX,
        ensures
            r.wf(),
            r.text() == input@,
            r.at() == (LexPos { pos: 0, line: 1, col: 1 }),
    {
        Lexer { chars: chars_of(input), pos: 0, line: 1, col: 1 }
    }

    fn is_at_end(&self) -> (r: bool)
        requires
            self.wf(),
        ensures
            r == (self.pos >= self.chars.len()),
    {
        self.pos >= self.chars.len()
    }

    fn peek(&self) -> (r: Option<char>)
        requires
            self.wf(),
        ensures
            r == peek_at(self.text(), self.at()),
    {
        if self.pos < self.chars.len() {
            Some(self.chars[self.pos])
        } else {
            None
        }
    }

    fn peek_next(&self) -> (r: Option<char>)
        requires
            self.wf(),
        ensures
            r == (if self.pos + 1 < self.chars.len() {
                Some(self.chars@[self.pos + 1])
            } else {
                None
            }),
    {
        if self.pos + 1 < self.chars.len() {
            Some(self.chars[self.pos + 1])
        } else {
            None
        }
    }

    fn advance(&mut self) -> (c: char)
        requires
            old(self).wf(),
            old(self).pos < old(self).chars.len(),
        ensures
            final(self).wf(),
            final(self).text() == old(self).text(),
            c == old(self).text()[old(self).pos as int],
            final(self).at() == adv(old(self).at(), c),
    {
        let c = self.chars[self.pos];
        self.pos = self.pos + 1;
        if c == '\n' {
            self.line = self.line + 1;
            self.col = 1;
        } else {
            self.col = self.col + 1;
        }
        c
    }

    fn skip_whitespace(&mut self)
        requires
            old(self).wf(),
        ensures
            final(self).wf(),
            final(self).text() == old(self).text(),
            final(self).at() == skip_ws(old(self).text(), old(self).at()),
    {
        let ghost s = self.text();
        let ghost start = self.at();
        while self.pos < self.chars.len()
            invariant
                self.wf(),
                self.text() == s,
                skip_ws(s, self.at()) == skip_ws(s, start),
            ensures
                self.wf(),
                self.text() == s,
                skip_ws(s, self.at()) == skip_ws(s, start),
                skip_ws(s, self.at()) == self.at(),
            decreases self.chars.len() - self.pos,
        {
            let c = self.chars[self.pos];
            if char_is_whitespace(c) {
                self.advance();
            } else if c == '-' && self.peek_next() == Some('-') {
                let ghost cstart = self.at();
                let mut go = true;
                while go && self.pos < self.chars.len()
                    invariant
                        self.wf(),
                        self.text() == s,
                        cstart.pos < s.len(),
                        go ==> skip_comment(s, self.at()) == skip_comment(s, cstart) && self.pos >= cstart.pos,
                        !go ==> self.at() == skip_comment(s, cstart) && self.pos > cstart.pos,
                    decreases self.chars.len() - self.pos,
                {
                    let d = self.advance();
                    if d == '\n' {
                        go = false;
                    }
                }
                proof {
                    if go {
                        assert(skip_comment(s, self.at()) == self.at());
                        assert(self.pos > cstart.pos) by {
                            if self.pos == cstart.pos {
                                assert(cstart.pos < s.len());
                            }
                        }
                    }
                }
            } else {
                break;
            }
        }
    }

    fn read_identifier(&mut self) -> (r: Vec<char>)
        requires
            old(self).wf(),
        ensures
            final(self).wf(),
            final(self).text() == old(self).text(),
            (r@, final(self).at()) == read_ident(old(self).text(), old(self).at()),
            final(self).pos == old(self).pos + r.len(),
            old(self).pos < old(self).chars.len() && is_ascii_letter(old(self).text()[old(self).pos as int])
                ==> r.len() > 0,
    {
        let ghost s = self.text();
        let ghost start = self.at();
        let mut result: Vec<char> = Vec::new();
        while self.pos < self.chars.len()
            invariant
                self.wf(),
                self.text() == s,
                read_ident(s, start) == (result@ + read_ident(s, self.at()).0, read_ident(s, self.at()).1),
                self.pos == start.pos + result.len(),
                start == old(self).at(),
            ensures
                self.wf(),
                self.text() == s,
                read_ident(s, start) == (result@ + read_ident(s, self.at()).0, read_ident(s, self.at()).1),
                read_ident(s, self.at()) == (Seq::<char>::empty(), self.at()),
                self.pos == start.pos + result.len(),
                result.len() == 0 && self.pos < self.chars.len() ==> !is_ascii_letter(s[self.pos as int]),
            decreases self.chars.len() - self.pos,
        {
            let c = self.chars[self.pos];
            if char_is_alphanumeric(c) || c == '_' {
                let ghost r0 = result@;
                let ghost here = self.at();
                result.push(c);
                self.advance();
                proof {
                    let (t, e) = read_ident(s, self.at());
                    assert(read_ident(s, here) == (seq![c] + t, e));
                    assert(r0 + (seq![c] + t) =~= result@ + t);
                }
            } else {
                break;
            }
        }
        proof {
            assert(result@ + Seq::<char>::empty() =~= result@);
        }
        result
    }

    /// Reads a number from the lexer's position.
    fn read_number(&mut self) -> (r: Result<Token, LexError>)
        requires
            old(self).wf(),
            old(self).pos < old(self).chars.len(),
            is_digit(old(self).text()[old(self).pos as int]),
        ensures
            final(self).wf(),
            r is Ok ==> final(self).pos > old(self).pos,
            final(self).text() == old(self).text(),
            r matches Ok(t) ==> read_number(old(self).text(), old(self).at()) == Ok::<(SpecToken, LexPos), SpecLexError>(
                (t@, final(self).at()),
            ),
            r matches Err(e) ==> read_number(old(self).text(), old(self).at()) == Err::<(SpecToken, LexPos), SpecLexError>(
                e@,
            ),
    {
        let ghost s = self.text();
        let ghost start = self.at();
        let line = self.line;
        let col = self.col;
        let mut result: Vec<char> = Vec::new();
        let mut has_dot = false;
        while self.pos < self.chars.len()
            invariant
                self.wf(),
                self.text() == s,
                s == old(self).text(),
                start == old(self).at(),
                line == start.line,
                col == start.col,
                result.len() == self.pos - start.pos,
                !has_dot ==> forall|i: int| 0 <= i < result.len() ==> is_digit(#[trigger] result@[i]),
                scan_number(s, start, false) == match scan_number(s, self.at(), has_dot) {
                    Ok((t, d, e)) => Ok((result@ + t, d, e)),
                    Err(x) => Err(x),
                },
            ensures
                self.wf(),
                self.text() == s,
                result.len() == self.pos - start.pos,
                !has_dot ==> forall|i: int| 0 <= i < result.len() ==> is_digit(#[trigger] result@[i]),
                scan_number(s, start, false) == match scan_number(s, self.at(), has_dot) {
                    Ok((t, d, e)) => Ok((result@ + t, d, e)),
                    Err(x) => Err(x),
                },
                scan_number(s, self.at(), has_dot) == Ok::<(Seq<char>, bool, LexPos), SpecLexError>(
                    (Seq::<char>::empty(), has_dot, self.at()),
                ),
            decreases self.chars.len() - self.pos,
        {
            let c = self.chars[self.pos];
            if '0' <= c && c <= '9' {
                let ghost r0 = result@;
                let ghost here = self.at();
                result.push(c);
                self.advance();
                proof {
                    match scan_number(s, self.at(), has_dot) {
                        Ok((t, d, e)) => {
                            assert(r0 + (seq![c] + t) =~= result@ + t);
                        },
                        Err(_) => {},
                    }
                }
            } else if c == '.' {
                if has_dot {
                    return Err(LexError::UnexpectedChar('.', self.line, self.col));
                }
                let ghost r0 = result@;
                has_dot = true;
                result.push(c);
                self.advance();
                proof {
                    match scan_number(s, self.at(), true) {
                        Ok((t, d, e)) => {
                            assert(r0 + (seq!['.'] + t) =~= result@ + t);
                        },
                        Err(_) => {},
                    }
                }
            } else {
                break;
            }
        }
        proof {
            assert(result@ + Seq::<char>::empty() =~= result@);
        }
        if result.len() == 0 {
            proof {
                reveal_strlit("empty");
            }
            return Err(LexError::InvalidNumber(crate::text::owned("empty")));
        }
        if has_dot {
            return Ok(Token::FloatLit(string_of(&result), line, col));
        }
        match decimal_i64(&result) {
            Some(n) => Ok(Token::IntLit(n, line, col)),
            None => Err(LexError::InvalidNumber(string_of(&result))),
        }
    }

    /// Reads a string literal starting at its opening quote.
    fn read_string(&mut self) -> (r: Result<String, LexError>)
        requires
            old(self).wf(),
            old(self).pos < old(self).chars.len(),
        ensures
            final(self).wf(),
            final(self).text() == old(self).text(),
            r matches Ok(t) ==> scan_string(old(self).text(), adv(old(self).at(), old(self).text()[old(self).at().pos]))
                == Ok::<(Seq<char>, LexPos), SpecLexError>((t@, final(self).at())),
            final(self).pos > old(self).pos,
            r matches Err(e) ==> scan_string(old(self).text(), adv(old(self).at(), old(self).text()[old(self).at().pos]))
                == Err::<(Seq<char>, LexPos), SpecLexError>(e@),
    {
        let ghost s = self.text();
        self.advance();
        let ghost start = self.at();
        let mut result: Vec<char> = Vec::new();
        loop
            invariant
                self.wf(),
                self.text() == s,
                s == old(self).text(),
                start == adv(old(self).at(), old(self).text()[old(self).at().pos]),
                self.pos > old(self).pos,
                scan_string(s, start) == match scan_string(s, self.at()) {
                    Ok((t, e)) => Ok((result@ + t, e)),
                    Err(x) => Err(x),
                },
            decreases self.chars.len() - self.pos,
        {
            if self.pos >= self.chars.len() {
                return Err(LexError::UnexpectedChar('"', self.line, self.col));
            }
            let c = self.chars[self.pos];
            let ghost r0 = result@;
            if c == '"' {
                self.advance();
                proof {
                    assert(result@ + Seq::<char>::empty() =~= result@);
                }
                return Ok(string_of(&result));
            } else if c == '\\' {
                self.advance();
                if self.pos >= self.chars.len() {
                    return Err(LexError::UnexpectedChar('\\', self.line, self.col));
                }
                let e = self.advance();
                if e == 'n' {
                    result.push('\n');
                } else if e == 't' {
                    result.push('\t');
                } else if e == '\\' {
                    result.push('\\');
                } else if e == '"' {
                    result.push('"');
                } else {
                    result.push('\\');
                    result.push(e);
                }
                proof {
                    assert(result@ =~= r0 + escaped(e));
                    match scan_string(s, self.at()) {
                        Ok((t, f)) => {
                            assert(r0 + (escaped(e) + t) =~= result@ + t);
                        },
                        Err(_) => {},
                    }
                }
            } else {
                result.push(c);
                self.advance();
                proof {
                    match scan_string(s, self.at()) {
                        Ok((t, f)) => {
                            assert(r0 + (seq![c] + t) =~= result@ + t);
                        },
                        Err(_) => {},
                    }
                }
            }
        }
    }

    /// The keyword `w` spells at the lexer's line and column, or an
    /// identifier.
    fn keyword_or_ident(&self, w: &str) -> (r: Token)
        requires
            self.wf(),
        ensures
            r@ == keyword_token(w@, self.line as int, self.col as int),
    {
        let l = self.line;
        let c = self.col;
        if str_eq(w, "let") {
            Token::KwLet(l, c)
        } else if str_eq(w, "in") {
            Token::KwIn(l, c)
        } else if str_eq(w, "match") {
            Token::KwMatch(l, c)
        } else if str_eq(w, "view") {
            Token::KwView(l, c)
        } else if str_eq(w, "with") {
            Token::KwWith(l, c)
        } else if str_eq(w, "forall") {
            Token::KwForall(l, c)
        } else if str_eq(w, "Unit") {
            Token::KwUnit(l, c)
        } else if str_eq(w, "lambda") || str_eq(w, "λ") {
            Token::KwLambda(l, c)
        } else if str_eq(w, "pub") {
            Token::KwPub(l, c)
        } else if str_eq(w, "use") {
            Token::KwUse(l, c)
        } else if str_eq(w, "type") {
            Token::KwType(l, c)
        } else if str_eq(w, "trait") {
            Token::KwTrait(l, c)
        } else if str_eq(w, "impl") {
            Token::KwImpl(l, c)
        } else if str_eq(w, "no_prelude") {
            Token::KwNoPrelude(l, c)
        } else if str_eq(w, "where") {
            Token::KwWhere(l, c)
        } else if str_eq(w, "val") {
            Token::KwVal(l, c)
        } else if str_eq(w, "as") {
            Token::KwAs(l, c)
        } else if str_eq(w, "Int") {
            Token::TyInt(l, c)
        } else if str_eq(w, "Float") {
            Token::TyFloat(l, c)
        } else if str_eq(w, "Char") {
            Token::TyChar(l, c)
        } else if str_eq(w, "omega") {
            Token::MultiplicityOmega(l, c)
        } else if str_eq(w, "()") {
            Token::UnitLit(l, c)
        } else {
            Token::Ident(crate::text::owned(w), l, c)
        }
    }

    /// The token at the lexer's position, which holds a character that is
    /// not whitespace.
    fn next_token(&mut self) -> (r: Result<Token, LexError>)
        requires
            old(self).wf(),
            old(self).pos < old(self).chars.len(),
        ensures
            final(self).wf(),
            final(self).text() == old(self).text(),
            r matches Ok(t) ==> step(old(self).text(), old(self).at()) == Ok::<(SpecToken, LexPos), SpecLexError>(
                (t@, final(self).at()),
            ) && final(self).pos > old(self).pos,
            r matches Err(e) ==> step(old(self).text(), old(self).at()) == Err::<(SpecToken, LexPos), SpecLexError>(e@),
    {
        let ghost s = self.text();
        let ghost st = self.at();
        let c = self.chars[self.pos];
        if c == '(' {
            self.advance();
            Ok(Token::LParen(self.line, self.col))
        } else if c == ')' {
            self.advance();
            Ok(Token::RParen(self.line, self.col))
        } else if c == '{' {
            self.advance();
            Ok(Token::LBrace(self.line, self.col))
        } else if c == '}' {
            self.advance();
            Ok(Token::RBrace(self.line, self.col))
        } else if c == ':' {
            self.advance();
            Ok(Token::Colon(self.line, self.col))
        } else if c == ',' {
            self.advance();
            Ok(Token::Comma(self.line, self.col))
        } else if c == '.' {
            self.advance();
            if self.peek() == Some('.') {
                self.advance();
                let t = Token::DotDot(self.line, self.col);
                assert(step(s, st) == Ok::<(SpecToken, LexPos), SpecLexError>((t@, self.at())));
                Ok(t)
            } else {
                let t = Token::Dot(self.line, self.col);
                assert(step(s, st) == Ok::<(SpecToken, LexPos), SpecLexError>((t@, self.at())));
                Ok(t)
            }
        } else if c == '|' {
            self.advance();
            Ok(Token::Pipe(self.line, self.col))
        } else if c == '=' {
            self.advance();
            if self.peek() == Some('>') {
                self.advance();
                Ok(Token::FatArrow(self.line, self.col))
            } else {
                Ok(Token::Equals(self.line, self.col))
            }
        } else if c == '_' {
            self.advance();
            let next = self.peek();
            let continues = match next {
                Some(d) => char_is_alphanumeric(d) || d == '_',
                None => false,
            };
            if continues {
                let ident = self.read_identifier();
                let mut word: Vec<char> = Vec::new();
                word.push('_');
                let mut k: usize = 0;
                while k < ident.len()
                    invariant
                        k <= ident.len(),
                        word@ == seq!['_'] + ident@.take(k as int),
                    decreases ident.len() - k,
                {
                    word.push(ident[k]);
                    k += 1;
                    assert(ident@.take(k as int) =~= ident@.take(k - 1).push(ident@[k - 1]));
                }
                assert(ident@.take(ident.len() as int) =~= ident@);
                let w = string_of(&word);
                let t = self.keyword_or_ident(w.as_str());
                assert(step(s, st) == Ok::<(SpecToken, LexPos), SpecLexError>((t@, self.at())));
                Ok(t)
            } else {
                let t = Token::Underscore(self.line, self.col);
                assert(step(s, st) == Ok::<(SpecToken, LexPos), SpecLexError>((t@, self.at())));
                Ok(t)
            }
        } else if c == '-' {
            self.advance();
            if self.peek() == Some('>') {
                self.advance();
                Ok(Token::Arrow(self.line, self.col))
            } else {
                Err(LexError::UnexpectedChar('-', self.line, self.col))
            }
        } else if '0' <= c && c <= '9' {
            self.read_number()
        } else if c == 'ω' {
            self.advance();
            Ok(Token::MultiplicityOmega(self.line, self.col))
        } else if c == '&' {
            self.advance();
            Ok(Token::MultiplicityBorrow(self.line, self.col))
        } else if ('a' <= c && c <= 'z') || ('A' <= c && c <= 'Z') {
            let ident = self.read_identifier();
            let w = string_of(&ident);
            let t = self.keyword_or_ident(w.as_str());
            assert(step(s, st) == Ok::<(SpecToken, LexPos), SpecLexError>((t@, self.at())));
            Ok(t)
        } else if c == 'λ' || c == '\\' {
            self.advance();
            Ok(Token::KwLambda(self.line, self.col))
        } else if c == '"' {
            match self.read_string() {
                Ok(t) => Ok(Token::StringLit(t, self.line, self.col)),
                Err(e) => Err(e),
            }
        } else {
            Err(LexError::UnexpectedChar(c, self.line, self.col))
        }
    }

    /// Splits the rest of the text into tokens, ending with the end-of-input
    /// token.
    pub fn tokenize(&mut self) -> (r: Result<Vec<Token>, LexError>)
        requires
            old(self).wf(),
        ensures
            final(self).wf(),
            final(self).text() == old(self).text(),
            r matches Ok(ts) ==> lex_from(old(self).text(), old(self).at(), Seq::empty()) == Ok::<
                Seq<SpecToken>,
                SpecLexError,
            >(tokens_view(ts@)),
            r matches Err(e) ==> lex_from(old(self).text(), old(self).at(), Seq::empty()) == Err::<
                Seq<SpecToken>,
                SpecLexError,
            >(e@),
            r matches Ok(ts) ==> ts@.len() >= 1 && ts@.last() is EOF,
    {
        let ghost s = self.text();
        let ghost start = self.at();
        let mut tokens: Vec<Token> = Vec::new();
        proof {
            assert(tokens_view(tokens@) =~= Seq::<SpecToken>::empty());
        }
        while !self.is_at_end()
            invariant
                self.wf(),
                self.text() == s,
                s == old(self).text(),
                start == old(self).at(),
                lex_from(s, start, Seq::empty()) == lex_from(s, self.at(), tokens_view(tokens@)),
            ensures
                self.wf(),
                self.text() == s,
                lex_from(s, start, Seq::empty()) == lex_from(s, self.at(), tokens_view(tokens@)),
                lex_from(s, self.at(), tokens_view(tokens@)) == Ok::<Seq<SpecToken>, SpecLexError>(
                    tokens_view(tokens@).push(SpecToken::EOF(self.line as int, self.col as int)),
                ),
            decreases self.chars.len() - self.pos,
        {
            let ghost before = self.at();
            self.skip_whitespace();
            proof {
                lemma_skip_ws_advances(s, before);
            }
            if self.is_at_end() {
                break;
            }
            let ghost w = self.at();
            let ghost t0 = tokens_view(tokens@);
            match self.next_token() {
                Ok(t) => {
                    tokens.push(t);
                    proof {
                        assert(tokens_view(tokens@) =~= t0.push(t@));
                    }
                },
                Err(e) => {
                    return Err(e);
                },
            }
        }
        let eof = Token::EOF(self.line, self.col);
        let ghost t0 = tokens_view(tokens@);
        tokens.push(eof);
        proof {
            assert(tokens_view(tokens@) =~= t0.push(eof@));
        }
        Ok(tokens)
    }
}

/// Skipping a comment never moves the lexer back.
proof fn lemma_skip_comment_advances(s: Seq<char>, st: LexPos)
    requires
        0 <= st.pos,
    ensures
        skip_comment(s, st).pos >= st.pos,
    decreases s.len() - st.pos,
{
    if 0 <= st.pos < s.len() && s[st.pos] != '\n' {
        lemma_skip_comment_advances(s, adv(st, s[st.pos]));
    }
}

/// Skipping whitespace and comments never moves the lexer back.
proof fn lemma_skip_ws_advances(s: Seq<char>, st: LexPos)
    requires
        0 <= st.pos,
    ensures
        skip_ws(s, st).pos >= st.pos,
    decreases s.len() - st.pos,
{
    if 0 <= st.pos < s.len() {
        if is_space(s[st.pos]) {
            lemma_skip_ws_advances(s, adv(st, s[st.pos]));
        } else if s[st.pos] == '-' && st.pos + 1 < s.len() && s[st.pos + 1] == '-' {
            let n = skip_comment(s, st);
            lemma_skip_comment_advances(s, st);
            if st.pos < n.pos <= s.len() {
                lemma_skip_ws_advances(s, n);
            }
        }
    }
}

/// The value of a sequence of decimal digits, when it fits in an `i64`.
fn decimal_i64(ds: &Vec<char>) -> (r: Option<i64>)
    requires
        forall|i: int| 0 <= i < ds.len() ==> is_digit(#[trigger] ds@[i]),
    ensures
        r matches Some(n) ==> n == decimal_value(ds@),
        r is None ==> decimal_value(ds@) > i64::MAX,
{
    let mut v: i64 = 0;
    let mut i: usize = 0;
    while i < ds.len()
        invariant
            i <= ds.len(),
            forall|k: int| 0 <= k < ds.len() ==> is_digit(#[trigger] ds@[k]),
            v == decimal_value(ds@.take(i as int)),
            0 <= v,
        decreases ds.len() - i,
    {
        let d = ds[i];
        assert(ds@.take(i + 1).drop_last() =~= ds@.take(i as int));
        let dv: i64 = (d as u32 - '0' as u32) as i64;
        if v > (i64::MAX - dv) / 10 {
            proof {
                lemma_decimal_grows(ds@, i as int, v as int, dv as int);
            }
            return None;
        }
        v = v * 10 + dv;
        i += 1;
    }
    assert(ds@.take(ds.len() as int) =~= ds@);
    Some(v)
}

/// Once a prefix of digits overflows, the whole number does.
proof fn lemma_decimal_grows(ds: Seq<char>, i: int, v: int, dv: int)
    requires
        0 <= i < ds.len(),
        forall|k: int| 0 <= k < ds.len() ==> is_digit(#[trigger] ds[k]),
        v == decimal_value(ds.take(i)),
        dv == ds[i] as int - '0' as int,
        0 <= dv <= 9,
        0 <= v,
        v > (i64::MAX - dv) / 10,
    ensures
        decimal_value(ds) > i64::MAX,
{
    assert(ds.take(i + 1).drop_last() =~= ds.take(i));
    assert(decimal_value(ds.take(i + 1)) == v * 10 + dv);
    assert(v * 10 + dv > i64::MAX) by (nonlinear_arith)
        requires v > (i64::MAX - dv) / 10, 0 <= dv <= 9;
    lemma_decimal_monotone(ds, i + 1);
}

/// A longer prefix of digits has at least the value of a shorter one.
pub proof fn lemma_decimal_monotone(ds: Seq<char>, j: int)
    requires
        0 <= j <= ds.len(),
        forall|k: int| 0 <= k < ds.len() ==> is_digit(#[trigger] ds[k]),
    ensures
        decimal_value(ds) >= decimal_value(ds.take(j)),
    decreases ds.len() - j,
{
    if j < ds.len() {
        lemma_decimal_monotone(ds, j + 1);
        assert(ds.take(j + 1).drop_last() =~= ds.take(j));
        lemma_decimal_nonneg(ds.take(j));
        assert(decimal_value(ds.take(j + 1)) >= decimal_value(ds.take(j))) by (nonlinear_arith)
            requires
                decimal_value(ds.take(j + 1)) == decimal_value(ds.take(j)) * 10 + (ds[j] as int - '0' as int),
                decimal_value(ds.take(j)) >= 0,
                ds[j] as int - '0' as int >= 0;
    } else {
        assert(ds.take(j) =~= ds);
    }
}

pub proof fn lemma_decimal_nonneg(t: Seq<char>)
    requires
        forall|k: int| 0 <= k < t.len() ==> is_digit(#[trigger] t[k]),
    ensures
        decimal_value(t) >= 0,
    decreases t.len(),
{
    if t.len() > 0 {
        lemma_decimal_nonneg(t.drop_last());
        assert(is_digit(t[t.len() - 1]));
    }
}

} // verus!
