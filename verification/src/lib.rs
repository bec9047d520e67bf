//! λ◦: a functional language with linear types, compiled to interaction nets.
//!
//! This crate holds the verified core of the language: the syntax trees,
//! the multiplicity semiring and contexts, the checks run on programs, the
//! module graph, the lexer, the primitive operations and the interaction net.
pub mod multiplicity;
pub mod text;
pub mod ast;
pub mod graph;
pub mod strmap;
pub mod runtime;
pub mod table;
pub mod name_resolver;
pub mod modules;
pub mod traits;
pub mod typecheck;
pub mod borrow;
pub mod exhaustiveness;
pub mod parser;
pub mod desugar;
pub mod tools;
