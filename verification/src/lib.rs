//! A small-language front end: a lexer, a precedence-climbing parser, an
//! abstract syntax tree with a visitor-based traversal protocol, a symbol
//! checker, a tree-walking evaluator, and span-aware diagnostics.

pub mod code;
pub mod compilation_unit;
pub mod diagnostics;
pub mod syntax_tree;
