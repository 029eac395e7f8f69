//! The types that every machine knows.

pub mod iterator;
