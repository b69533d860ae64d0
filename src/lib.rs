//! Code generation for discriminated unions ("sum types") described declaratively,
//! together with per-variant specialisation of method templates written against them.
//!
//! The engine works on a plain token-tree model ([`tokens::Tok`]); the host turns its
//! own token streams into that model and back.
pub mod casing;
pub mod directives;
pub mod emit;
pub mod expr_map;
pub mod generate;
pub mod grammar;
pub mod laws;
pub mod model;
pub mod parse;
pub mod records;
pub mod specialize;
pub mod substitute;
pub mod text;
pub mod tokens;

pub use expr_map::ExprMap;
pub use generate::{summum, Emitted};
pub use tokens::{Delim, Tok};
