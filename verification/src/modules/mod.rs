//! Modules: what they export, how they are loaded and how they are linked.
use vstd::prelude::*;

pub mod export;
pub mod loader;
pub mod linker;
pub mod serializer;

use crate::modules::export::Exports;
use crate::runtime::net::Net;
use crate::traits::registry::Implementation;

verus! {

/// An error met while loading, checking or linking a module.
#[derive(Debug, Clone)]
pub struct ModuleError {
    pub message: String,
}

/// A compiled module: its name, what it exports, its trait implementations
/// and its net.
#[derive(Debug)]
pub struct Module {
    pub name: String,
    pub exports: Exports,
    pub impls: Vec<Implementation>,
    pub net: Net,
}

impl ModuleError {
    /// The message shown for this error.
    pub fn display(&self) -> (r: String)
        ensures
            r@ == "Module error: "@ + self.message@,
    {
        crate::text::concat("Module error: ", self.message.as_str())
    }
}

} // verus!
