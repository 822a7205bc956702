//! Drake, a configuration language. A source text is read into tokens, the
//! tokens into statements, and the statements are evaluated into a tree of
//! tables, with a list of diagnostics that never stops the evaluation.
//!
//! - [`lexer`]: characters to tokens, against the grammar in [`lexer::grammar`]
//! - [`parser`]: tokens to statements, against the grammar in [`parser::grammar`]
//! - [`runtime`]: statements to a [`snapshot::Snapshot`], against the model
//!   in [`model`]; what holds of every evaluation is proved in [`laws`]
//! - [`module`]: one source file on its way through these stages
//! - [`render`]: tokens and statements written back as text

pub mod ast;
pub mod error;
pub mod files;
mod index;
pub mod laws;
pub mod lexer;
pub mod model;
pub mod module;
pub mod parser;
pub mod render;
pub mod runtime;
pub mod scan;
pub mod snapshot;
pub mod token;
pub mod value;
