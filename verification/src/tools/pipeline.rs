//! The way from source text to a net: parse, check, translate.
use vstd::prelude::*;

use crate::ast::terms::{SpecTerm, Term};
use crate::ast::types::Type;
use crate::parser::grammar::{g_parse, parse_error_text};
use crate::parser::lex_source;
use crate::parser::{parse, ParseError};
use crate::runtime::evaluator::EvalError;
use crate::runtime::net::Net;
use crate::runtime::translation::{can_translate, float_literals, floats_of, texts_view, translatable, translation, NetBuilder};
use crate::typecheck::errors::TypeError;
use crate::typecheck::rules::{initial_context, tc, type_check_with_borrow_check};

verus! {

/// Why a tool could not compile or run a source text.
#[derive(Debug)]
pub enum ToolError {
    Parse(ParseError),
    Typecheck(TypeError),
    Eval(EvalError),
}

impl From<ParseError> for ToolError {
    fn from(e: ParseError) -> (r: ToolError) {
        ToolError::Parse(e)
    }
}

impl vstd::std_specs::convert::FromSpecImpl<ParseError> for ToolError {
    open spec fn obeys_from_spec() -> bool {
        true
    }

    open spec fn from_spec(e: ParseError) -> ToolError {
        ToolError::Parse(e)
    }
}

impl From<TypeError> for ToolError {
    fn from(e: TypeError) -> (r: ToolError) {
        ToolError::Typecheck(e)
    }
}

impl vstd::std_specs::convert::FromSpecImpl<TypeError> for ToolError {
    open spec fn obeys_from_spec() -> bool {
        true
    }

    open spec fn from_spec(e: TypeError) -> ToolError {
        ToolError::Typecheck(e)
    }
}

impl From<EvalError> for ToolError {
    fn from(e: EvalError) -> (r: ToolError) {
        ToolError::Eval(e)
    }
}

impl vstd::std_specs::convert::FromSpecImpl<EvalError> for ToolError {
    open spec fn obeys_from_spec() -> bool {
        true
    }

    open spec fn from_spec(e: EvalError) -> ToolError {
        ToolError::Eval(e)
    }
}

/// Why the pipeline from source text to a value stopped.
#[derive(Debug)]
pub enum PipelineError {
    Parse(ParseError),
    Typecheck(TypeError),
    Eval(EvalError),
}

/// The term a source text reads as, if it reads as one.
pub open spec fn source_term(src: Seq<char>) -> Option<SpecTerm> {
    match lex_source(src) {
        Ok(ts) => match g_parse(ts) {
            Ok(t) => Some(t),
            Err(_) => None,
        },
        Err(_) => None,
    }
}

/// `e` is the error that reading `src` as a term gives.
pub open spec fn parse_failure(src: Seq<char>, e: ParseError) -> bool {
    match lex_source(src) {
        Err(le) => e matches ParseError::LexerError(x) && x@ == le,
        Ok(ts) => match g_parse(ts) {
            Err(pe) => e matches ParseError::SyntaxError(m) && m@ == parse_error_text(pe),
            Ok(_) => false,
        },
    }
}

/// A checked term, its type, and the texts of its float literals, in
/// order, whose values translation needs.
#[derive(Debug)]
pub struct Compiled {
    pub term: Term,
    pub ty: Type,
    pub float_texts: Vec<String>,
}

/// Reads a source text as a term and type-checks it (borrows included).
/// The values of its float literals are read by the caller, and
/// [`compiled_net`] translates it.
pub fn compile_source(source: &str) -> (r: Result<Compiled, ToolError>)
    requires
        source@.len() + 2 < usize::MAX,
    ensures
        source_term(source@) is None ==> (r matches Err(ToolError::Parse(e)) && parse_failure(source@, e)),
        source_term(source@) matches Some(t) ==> match tc(t, initial_context()) {
            Ok(res) => r matches Ok(c) && c.term@ == t && c.ty@ == res.0 && texts_view(c.float_texts@) == floats_of(t),
            Err(te) => r matches Err(ToolError::Typecheck(e)) && e@ == te,
        },
{
    let term = match parse(source) {
        Ok(t) => t,
        Err(e) => {
            return Err(ToolError::Parse(e));
        },
    };
    let ty = match type_check_with_borrow_check(&term) {
        Ok(ty) => ty,
        Err(e) => {
            return Err(ToolError::Typecheck(e));
        },
    };
    let float_texts = float_literals(&term);
    Ok(Compiled { term, ty, float_texts })
}

/// A copy of a list of strings.
fn copy_strings(v: &Vec<String>) -> (r: Vec<String>)
    ensures
        texts_view(r@) == texts_view(v@),
{
    let mut r: Vec<String> = Vec::new();
    let mut i: usize = 0;
    while i < v.len()
        invariant
            i <= v.len(),
            r.len() == i,
            forall|j: int| 0 <= j < i ==> #[trigger] r@[j]@ == v@[j]@,
        decreases v.len() - i,
    {
        r.push(v[i].clone());
        i += 1;
    }
    assert(texts_view(r@) =~= texts_view(v@));
    r
}

/// Translates a compiled term, given the bits of its float literals' values
/// in order. A term that cannot be translated (an unknown primitive, or a
/// float literal whose value is missing) gives `None`.
pub fn compiled_net(c: &Compiled, bits: Vec<u64>) -> (r: Option<Net>)
    ensures
        translatable(c.term@, texts_view(c.float_texts@), bits@) ==> (r matches Some(n) && n.wf() && n@ == translation(
            c.term@,
            texts_view(c.float_texts@),
            bits@,
        )),
        !translatable(c.term@, texts_view(c.float_texts@), bits@) ==> r is None,
{
    if !can_translate(&c.term, &c.float_texts, &bits) {
        return None;
    }
    let texts = copy_strings(&c.float_texts);
    let b = NetBuilder::with_floats(texts, bits);
    Some(b.build(&c.term))
}

} // verus!
