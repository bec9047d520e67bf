pub mod primitives;
pub mod primitive_laws;
pub mod net;
pub mod agents;
pub mod evaluator;
pub mod translation;
pub mod result;
