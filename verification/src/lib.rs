//! Extraction of instrument ("emitent") records from the script-embedded
//! data of a market data provider's pages.
//!
//! The library turns page text into typed records: it normalises the text,
//! locates the embedded literals with regular expressions, parses them as
//! structured literals, and joins the resulting collections into a catalog.
//! Every function carries a contract over the mathematical views of its
//! arguments. What is assumed rather than proved is kept small and says so:
//! the wrappers around the regular expression engine, the literal parser,
//! the character decoder and the status classifier, and the effect of
//! pushing a character onto a string.
//!
//! The literal parser and the regular expression engine work by recursion
//! on what they are given, so the library hands them only what is bounded:
//! a text whose nesting stays within [`nesting::MAX_NESTING`] and a pattern
//! no longer than [`pattern::MAX_PATTERN_LENGTH`]. What is beyond is
//! refused like a text that is not well formed or a pattern that the engine
//! rejects.
//!
//! Fetching pages, waiting between requests, logging and printing are left
//! to the caller; the modules [`transport`] and [`driver`] hold what is
//! decided about them, and what the assembly skips, drops or leaves empty
//! is handed out as [`error::Warning`] values.

pub mod assemble;
pub mod catalog;
pub mod detail;
pub mod driver;
pub mod emitent;
pub mod error;
pub mod extract;
pub mod index;
pub mod laws;
pub mod literal;
pub mod nesting;
pub mod pattern;
pub mod text;
pub mod transport;
pub mod value;
pub mod warnings;
