//! The statement checker of the Raptor language.

pub mod ast;
pub mod checker;
pub mod errors;
pub mod semantics;
pub mod stack;
pub mod types;
pub mod statements;
pub mod flow;
pub mod laws;
pub mod typing;
