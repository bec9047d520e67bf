pub mod types;
pub mod patterns;
pub mod terms;
pub mod arena;
pub mod display;
pub mod debug_text;
