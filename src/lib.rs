//! A stack-based bytecode virtual machine with verified instruction semantics,
//! and the syntax tree and visitor that a lowering pass builds on.
pub mod ast;
pub mod bytecode;
pub mod lemmas;
pub mod visitor;
pub mod vm;
