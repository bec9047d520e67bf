//! The type checker of λ◦.
pub mod context;
pub mod errors;
pub mod positivity;
pub mod rules;
