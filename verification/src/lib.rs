//! Discovery core of a mutation-testing tool.
//!
//! Given a tree of parsed source files, the library walks the tree,
//! follows `mod` references between files, and produces for every
//! eligible function a list of candidate mutants: replacement
//! expressions synthesized from the function's return type, rendered
//! as source text.

pub mod ast;
pub mod attrs;
pub mod classify;
pub mod controlled;
pub mod replace;
pub mod resolve;
pub mod source;
pub mod text;
pub mod token;
pub mod types;
pub mod visit;
pub mod walk;
