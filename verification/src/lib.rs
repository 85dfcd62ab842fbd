//! Lexical analysis for a small statically-typed language with tuple types,
//! multi-base numeric literals and C-like operators.
//!
//! The [`lexer::Lexer`] turns a source buffer into a stream of positioned
//! [`token::Token`] values, one per call to `next`. Every token the lexer can
//! produce, including every error token, is pinned down by the specification
//! function [`lexer::spec_next`], so scanning is a verified function of the
//! source text and the cursor state alone.

pub mod laws;
pub mod lexer;
pub mod number;
pub mod token;

pub use lexer::Lexer;
pub use token::Number;
pub use token::NumberParseError;
pub use token::Token;
pub use token::TokenKind;
