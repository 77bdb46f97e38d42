//! The parser.
pub mod grammar_exprs;
pub mod grammar_items;
pub mod grammar_stmts;
pub mod grammar_types;
pub mod input;
pub mod program;
pub mod results;
pub mod rules;
pub mod syntax_exprs;
pub mod syntax_items;
pub mod syntax_stmts;
pub mod syntax_types;
