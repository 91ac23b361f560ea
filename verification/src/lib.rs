//! A markup front end: a tokenizer turns source text into a sequence of
//! typed lexical tokens, and a recursive-descent parser turns that sequence
//! into an ordered forest of syntax nodes (elements, attributes, text,
//! comments and a doctype declaration), or a structured parse failure.
//!
//! Every exported operation is specified against a mathematical model of the
//! same grammar: `tokenizer::spec_tokenize` says exactly which tokens a piece
//! of source text yields, and `parser::spec_parse` says exactly which forest
//! (or which error) a token sequence yields.

pub mod errors;
pub mod fold;
pub mod laws;
pub mod node;
pub mod parser;
pub mod position;
pub mod serialize;
pub mod tokenizer;
