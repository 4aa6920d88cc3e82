//! A scanner for the source text of a small scripting language, one line at
//! a time, and the rendering of what it finds.
//!
//! [`scanner::interpret_tokens`] turns a line into [`token::Token`]s. It joins
//! two-character operators, reads numbers, names and string literals, tells
//! reserved words from identifiers, drops comments, and records lexical
//! errors as tokens without stopping. What it returns is stated by
//! [`scanner::scan`], a function of the line number and the text; the module
//! [`scan_lemmas`] proves what holds of every scan.
//!
//! [`printer::print_tokens`] renders the tokens of a line as lines of output
//! and of diagnostics, and a [`session::Session`] does both for the lines of a
//! file and keeps the exit status. [`primary::Primary`] and
//! [`expression::Expression`] build a literal expression from tokens.
//!
//! Rendered text comes as [`piece::Piece`]s, since the value of a number is
//! written by way of a 64-bit binary number, which is left to the caller.

pub mod expression;
pub mod parser;
pub mod piece;
pub mod primary;
pub mod printer;
pub mod reserved_words;
pub mod scan_lemmas;
pub mod scanner;
pub mod session;
pub mod text;
pub mod token;
pub mod tokenizer;
