pub mod address_taken;
pub mod ast;
pub mod checker;
pub mod codegen;
pub mod compile;
pub mod diag;
pub mod lexer;
pub mod lock_graph;
pub mod names;
pub mod text;
pub mod token;
