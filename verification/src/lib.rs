pub mod locations;
pub mod type_display;
pub mod type_store;
pub mod types;
pub mod symbols;
pub mod scope;
pub mod analysis_context;
pub mod text;
pub mod tokens;
mod wrappers;
pub mod lexer;
pub mod diagnostics;
pub mod ast;
pub mod parser;
pub mod operators;
pub mod type_definitions;
pub mod members;
pub mod calls;
pub mod constructors;
pub mod methods;
pub mod round_trip;
