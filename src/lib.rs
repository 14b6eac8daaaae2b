//! Turns a KCL syntax tree back into source text, keeping comments, blank
//! lines, indentation and quoting style where the tree records them.
pub mod ast;
pub mod text;
pub mod recast;
pub mod laws;
