//! A front end for Haskell source text: lexical rules for identifiers and
//! module names, and a grammar that assembles pragmas, the module header,
//! imports and top-level declarations into a `Module` value.

pub mod assembler;
pub mod declaration;
pub mod error;
pub mod import;
pub mod laws;
pub mod lexer;
pub mod parser;
pub mod pragma;
pub mod rules;
pub mod source;
pub mod syntax;
pub mod whole;

pub use assembler::parse_module;
pub use parser::{parse_identifier, parse_module_name};
