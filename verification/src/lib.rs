//! Glob patterns compiled into regular expressions, without a look at the
//! file system.
//!
//! `scan` splits a pattern into its static and its dynamic part and tells
//! which glob features it uses. `parse` holds the fast paths for the most
//! common patterns and the parser for all others; both write the source of a
//! regular expression. `picomatch` anchors that source, compiles it with the
//! `regex` crate and hands out a matcher. A source that `regex` does not
//! compile gives a matcher that accepts nothing; `regex` takes no
//! look-ahead, so this is what becomes of a pattern whose source holds one.
//!
//! The scanner and the parser are verified against models of their own
//! (`scan_model`, `parse_model`); `scan_laws` holds what is proved of every
//! scan. What is taken on trust from `regex` stands in `matcher`.

pub mod constants;
pub mod matcher;
pub mod parse;
pub mod parse_model;
pub mod parse_state;
pub mod picomatch;
pub mod scan;
pub mod scan_laws;
pub mod scan_model;
pub mod text;
pub mod types;
pub mod utils;
