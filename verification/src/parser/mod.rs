//! Reading λ◦ source text: the lexer splits it into tokens, the grammar
//! builds terms and declarations from them.
use vstd::prelude::*;

pub mod lexer;
pub mod grammar;

use crate::ast::terms::{SpecTerm, Term};
use crate::parser::grammar::{g_parse, parse_error_text, Parser, SpecParseError};
use crate::parser::lexer::{lex_from, LexError, LexPos, Lexer, SpecLexError, SpecToken};
use crate::text::owned;

verus! {

/// Why source text could not be read as a term.
#[derive(Debug)]
pub enum ParseError {
    LexerError(LexError),
    SyntaxError(String),
    UnexpectedToken(String),
    ExpectedToken { expected: String, found: String },
    UnexpectedEndOfInput,
}

impl ParseError {
    /// The message shown for this error.
    pub fn message(&self) -> (r: String)
        ensures
            self matches ParseError::LexerError(e) ==> r@ == "Lexer error: "@ + crate::parser::lexer::lex_error_text(e@),
            self matches ParseError::SyntaxError(s) ==> r@ == "Parse error: "@ + s@,
            self matches ParseError::UnexpectedToken(s) ==> r@ == "Unexpected token: "@ + s@,
            self matches ParseError::ExpectedToken { expected, found } ==> r@ == "Expected "@ + expected@ + ", found "@
                + found@,
            self is UnexpectedEndOfInput ==> r@ == "Unexpected end of input"@,
    {
        match self {
            ParseError::LexerError(e) => crate::text::concat("Lexer error: ", e.message().as_str()),
            ParseError::SyntaxError(s) => crate::text::concat("Parse error: ", s.as_str()),
            ParseError::UnexpectedToken(s) => crate::text::concat("Unexpected token: ", s.as_str()),
            ParseError::ExpectedToken { expected, found } => {
                let a = crate::text::concat("Expected ", expected.as_str());
                let b = crate::text::concat(a.as_str(), ", found ");
                crate::text::concat(b.as_str(), found.as_str())
            },
            ParseError::UnexpectedEndOfInput => owned("Unexpected end of input"),
        }
    }
}

/// The tokens of a source text, from its start, or the first error.
pub open spec fn lex_source(s: Seq<char>) -> Result<Seq<SpecToken>, SpecLexError> {
    lex_from(s, LexPos { pos: 0, line: 1, col: 1 }, Seq::empty())
}

/// Reads source text as one term: its tokens must form a term followed by
/// the end of input. A lexer error is passed on; a grammar error becomes a
/// syntax error with its message.
pub fn parse(source: &str) -> (r: Result<Term, ParseError>)
    requires
        source@.len() + 2 < usize::MAX,
    ensures
        lex_source(source@) matches Err(e) ==> r matches Err(ParseError::LexerError(x)) && x@ == e,
        lex_source(source@) matches Ok(ts) ==> match g_parse(ts) {
            Ok(t) => r matches Ok(u) && u@ == t,
            Err(e) => r matches Err(ParseError::SyntaxError(m)) && m@ == parse_error_text(e),
        },
{
    let mut lexer = Lexer::new(source);
    let tokens = match lexer.tokenize() {
        Ok(ts) => ts,
        Err(e) => {
            return Err(ParseError::LexerError(e));
        },
    };
    let mut parser = Parser::new(tokens.as_slice());
    match parser.parse() {
        Ok(t) => Ok(t),
        Err(e) => Err(ParseError::SyntaxError(e.message())),
    }
}

} // verus!
