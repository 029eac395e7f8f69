//! A small embeddable language runtime: a tree of statements and expressions,
//! a compact byte encoding of that tree, a front end that reads the tree from
//! source text, and a tree-walking machine that runs it.
//!
//! - `tokens` holds the nodes and their byte encoding. Every reader is held to
//!   a model of the format, and reading what was written gives the node back.
//! - `aml3` reads source text into the same nodes.
//! - `runtime` is the machine: scopes and bindings, the evaluation of
//!   expressions, the execution of statements, and the builtins. Every step is
//!   held to a model of what the language means.
//! - `parser`, `error` and `render` are the cursor over the input and the
//!   errors that readers and machine report.
//!
//! The library neither reads nor writes: the machine collects what a program
//! writes, and takes the lines that it may read before it runs or between two
//! of its statements.

pub use error::ParserError;
pub use utils::Compilable;

pub mod aml3;
pub mod error;
pub mod parser;
pub mod render;
pub mod runtime;
pub mod tokens;
pub mod utils;
