//! A hand-written lexical analyser that turns source text into a stream of
//! positioned tokens, with contracts stated over a model of the scan.
pub mod classify;
pub mod token;
pub mod model;
pub mod tokenizer;
pub mod laws;

pub use token::{Token, TokenAt};
pub use tokenizer::Tokenizer;
