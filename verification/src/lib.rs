//! The syntax tree of a small statically typed language and the lookup of its
//! primitive type names.

pub mod ast;
