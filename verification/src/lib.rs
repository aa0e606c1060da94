//! A small scripting language: source text is cut into tokens, the tokens are
//! parsed into syntax trees, and the trees are executed.
//!
//! The crate holds no floating point and does no output. Reading a text as a
//! number, computing with numbers and printing a line are asked of the host,
//! one request at a time; see [`interpreter::Interpreter::interpret`].
pub mod interpreter;
pub mod lexer;
pub mod parser;
pub mod text;
