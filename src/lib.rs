//! A control-flow-graph intermediate representation with explicit reference
//! counting, its canonical text rendering, and the front-end syntax tree that
//! feeds it.
pub mod ast;
pub mod cfg;
pub mod text;
pub mod types;
