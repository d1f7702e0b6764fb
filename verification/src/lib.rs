//! Compiler for the snek language: s-expression reader, parser,
//! static type checker, code generator and assembly printer.
pub mod ast;
pub mod text;
pub mod snek;
pub mod numparse;
pub mod runtime;
pub mod maps;
pub mod sexpr;
pub mod parser;
pub mod typecheck;
pub mod codegen;
pub mod driver;
pub mod repl;
