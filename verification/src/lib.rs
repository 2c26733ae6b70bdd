//! A parser and validator for human-written clock-time literals.
//!
//! A caller supplies a cursor over lexical tokens (numbers, punctuation,
//! identifiers) positioned at the start of a time expression such as
//! `12:30:45.5pm`. The parser consumes the tokens of the expression in
//! grammar order and returns either a normalized time-of-day value with
//! nanosecond precision or a typed error naming the invalid field, its
//! textual value, and the source span of the offending tokens.

pub mod digits;
pub mod error;
pub mod helpers;
pub mod laws;
pub mod time;
pub mod token;
