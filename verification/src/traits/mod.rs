//! Traits: their implementations and the rules that keep them coherent.
use vstd::prelude::*;

use crate::ast::types::{MethodName, TraitName, Type};

pub mod coherence;
pub mod registry;
pub mod resolution;

verus! {

/// Why a trait implementation is missing or not allowed.
#[derive(Debug, Clone)]
pub enum TraitError {
    TraitNotFound(TraitName, Type),
    DuplicateImpl(TraitName, Type),
    CoherenceViolation(String),
    MethodNotFound(TraitName, MethodName),
    OrphanImpl { impl_module: String, trait_name: TraitName, ty_name: String },
}

} // verus!
