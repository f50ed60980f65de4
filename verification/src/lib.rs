//! A calculator core for single-character arithmetic expressions.
//!
//! A line of text is split into tokens (`token`, `lexer`), the tokens are
//! parsed by precedence climbing into an expression tree (`parser`,
//! `expression`), and the tree is evaluated against the variables of a
//! session (`eval`, `environment`, `session`) over a number type (`number`,
//! `integer`). The modules `infix` and `laws` hold what is proved of these
//! together. Every function carries a contract that Verus proves.

pub mod token;
pub mod lexer;
pub mod expression;
pub mod parser;
pub mod number;
pub mod integer;
pub mod environment;
pub mod eval;
pub mod session;
pub mod infix;
pub mod laws;
