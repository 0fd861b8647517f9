//! Schema-driven binary parsing: a Kaitai Struct schema model, its loader,
//! an expression language, and an interpreter that turns bytes into an AST.
pub mod ast;
pub mod attribute;
pub mod chars;
pub mod config;
pub mod errors;
pub mod expression;
pub mod identifier;
pub mod interpreter;
pub mod kaitai_struct;
pub mod kaitai_type;
pub mod laws;
pub mod loader;
pub mod loader_fields;
pub mod meta;
pub mod model;
pub mod lexical;
pub mod utils;
pub mod yaml;
