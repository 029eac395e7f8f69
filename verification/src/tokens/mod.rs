//! The nodes of a program and their byte encoding.
//!
//! For every kind of node there is a model (`TypeModel`, `ValueModel`,
//! `ExprModel`, `CommandModel`), the bytes that the model is written as
//! (`wire_*`), and what reading bytes gives (`read_*`). A reader that reads
//! several nodes in turn checks in its model that each node moved the cursor
//! on; every node does, so the check never fails, and it lets the model end.

pub mod command;
pub mod expr;
pub mod header;
pub mod kind;
pub mod program;
pub mod round_trip;
pub mod scope;
pub mod types;
pub mod value;
