//! The Hella compiler: lexer, parser, formatter, module resolution and code generation.
pub mod ast;
pub mod codegen;
pub mod driver;
pub mod error;
pub mod formatter;
pub mod import_laws;
pub mod laws;
pub mod lexer;
pub mod modules;
pub mod parse;
pub mod paths;
pub mod project;
pub mod source;
pub mod text;
pub mod token;
pub mod tree;
