//! A lexical scanner for a small scripting language, together with its token
//! vocabulary and a minimal expression tree that prints itself in a fully
//! parenthesized prefix form.

pub mod expr;
pub mod lox;
pub mod scanner;
pub mod token;
