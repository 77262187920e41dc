//! Parser, canonical signatures and struct generation for a compact
//! smart-contract interface notation.
//!
//! - `lexer` splits text into tokens; `grammar` states the notation as spec
//!   functions and `parser` parses exactly that.
//! - `types` holds the type tree and its canonical signatures; `signature`
//!   derives function identifiers from them.
//! - `properties`, `codegen` and `builders` turn type trees into struct
//!   definitions and accessor source text.
//! - `laws` and `round_trip` prove properties that hold for all inputs.
pub mod builders;
pub mod codegen;
pub mod grammar;
pub mod laws;
pub mod lexer;
pub mod parser;
pub mod properties;
pub mod round_trip;
pub mod signature;
pub mod text;
pub mod types;

pub use parser::{parse, Entity, Function, ParserError};
pub use types::{Param, ParamType};
