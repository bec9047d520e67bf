//! Tools around nets and the interactive loop.
pub mod dot;
pub mod repl;
pub mod trace;
pub mod pipeline;
