//! Errors produced while parsing a time literal.
use vstd::prelude::*;

use crate::token::{Span, SpecToken, Token};

verus! {

/// A parse failure.
///
/// `InvalidComponent` is the semantic error of the time parser itself: a
/// structurally valid component whose value is out of range, carrying the
/// field name, the textual value observed, and the source span of the
/// offending tokens. The other variants are the token-consumption failures
/// of the lower-level primitives (a missing or unparseable number, an
/// unexpected token, exhausted input), propagated to the caller unchanged.
#[derive(Debug)]
pub enum Error {
    InvalidComponent { name: &'static str, value: String, span_start: Span, span_end: Span },
    MissingComponent { name: &'static str },
    UnexpectedToken { token: Token },
    UnexpectedEndOfInput,
}

/// The mathematical image of an [`Error`], with texts as character
/// sequences.
#[verifier::ext_equal]
pub enum SpecErr {
    InvalidComponent { name: Seq<char>, value: Seq<char>, span_start: Span, span_end: Span },
    MissingComponent { name: Seq<char> },
    UnexpectedToken { token: SpecToken },
    UnexpectedEndOfInput,
}

impl View for Error {
    type V = SpecErr;

    open spec fn view(&self) -> SpecErr {
        match self {
            Error::InvalidComponent { name, value, span_start, span_end } => {
                SpecErr::InvalidComponent {
                    name: name@,
                    value: value@,
                    span_start: *span_start,
                    span_end: *span_end,
                }
            },
            Error::MissingComponent { name } => SpecErr::MissingComponent { name: name@ },
            Error::UnexpectedToken { token } => SpecErr::UnexpectedToken { token: token@ },
            Error::UnexpectedEndOfInput => SpecErr::UnexpectedEndOfInput,
        }
    }
}

} // verus!
