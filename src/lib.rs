//! Generates the source of an abstract syntax tree's node types and of its visitor
//! interface from a small declaration language, one family of nodes at a time.

pub mod emit;
pub mod generator;
pub mod grammar;
pub mod laws;
pub mod text;
