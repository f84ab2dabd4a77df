//! A verified lexical scanner.
//!
//! Raw source text, given as a sequence of lines, becomes a flat stream of
//! tokens, each annotated with the line it came from and its position among
//! the tokens of that line. Scanning works in three phases, each applied to
//! every line independently:
//!
//! - splitting ([`scan`]): a line is cut at white space and at the fixed
//!   separator characters, except inside a string literal, whose content
//!   stays one token with the quotes discarded;
//! - comment stripping ([`comments`]): the first pair of adjacent `/`
//!   tokens on a line and everything after it is dropped;
//! - flattening ([`tokenizer`]): the per-line token lists are walked in
//!   line order and each token is tagged with its line and position, both
//!   zero-based.
//!
//! The scanner is total: malformed input, such as an unterminated string
//! literal, still yields a token sequence and never an error. The laws the
//! scanner obeys — ordering of the output, whitespace idempotence,
//! separator isolation and comment truncation — are stated and proved in
//! [`laws`].

pub mod comments;
pub mod laws;
pub mod scan;
pub mod token;
pub mod tokenizer;

pub use token::Token;
pub use tokenizer::tokenize;
