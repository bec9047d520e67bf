pub mod semiring;
pub mod context;
