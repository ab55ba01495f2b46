//! A verified arithmetic-expression front end.
//!
//! The crate turns a source string into tokens, and tokens into an abstract
//! syntax tree, by single-pass scanning and precedence-climbing recursive
//! descent.  Both phases carry full functional contracts: the token vector
//! equals a mathematical lexing function of the input characters, and the
//! parser's result equals a mathematical parsing function of the token
//! sequence, on success and on every error alike.  Numeric literals are kept
//! as their digit text, so that a host program may interpret them in whatever
//! numeric domain it evaluates in.

pub mod constants;
pub mod functions;
pub mod lexer;
pub mod parser;
