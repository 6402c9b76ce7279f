//! Parser combinators: small parsers over an in-memory character buffer and the
//! operations that compose them into recursive-descent parsers.
pub mod chars;
pub mod text;
pub mod state;
pub mod parser;
pub mod primitives;
pub mod messages;
pub mod combinators;
pub mod repetition;
pub mod chains;
pub mod alternatives;
pub mod sequences;
pub mod forward;
pub mod driver;
pub mod numbers;
pub mod progress;
pub mod c99;
pub mod laws;
