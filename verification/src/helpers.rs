//! The three generic token-consumption primitives the time parser builds
//! on: a number of a given shape, a specific punctuation character, and one
//! of a set of identifier spellings. Each consumes its token exactly when it
//! succeeds and leaves the cursor untouched when it fails.
use vstd::prelude::*;
use vstd::string::StrSliceExecFns;

use crate::digits::{
    dec_val, scan_seconds, scan_u8, sec_nanos, sec_text_wf, sec_whole, u8_text_ok,
};
use crate::error::{Error, SpecErr};
use crate::token::{Cursor, Span, SpecToken, Token};

verus! {

/// What consuming a `u8` number at position `p` yields: the token's span,
/// its value, and the next position, or the error, with the cursor left at
/// `p`.
pub open spec fn spec_consume_number(name: Seq<char>, ts: Seq<SpecToken>, p: int) -> Result<
    (Span, u8, int),
    SpecErr,
> {
    if !(0 <= p < ts.len()) {
        Err(SpecErr::MissingComponent { name })
    } else {
        match ts[p] {
            SpecToken::Number { text, span } => {
                if u8_text_ok(text) {
                    Ok((span, dec_val(text) as u8, p + 1))
                } else {
                    Err(
                        SpecErr::InvalidComponent {
                            name,
                            value: text,
                            span_start: span,
                            span_end: span,
                        },
                    )
                }
            },
            _ => Err(SpecErr::MissingComponent { name }),
        }
    }
}

/// What consuming the punctuation character `ch` at position `p` yields:
/// the next position, or the error, with the cursor left at `p`.
pub open spec fn spec_consume_punct(ch: char, ts: Seq<SpecToken>, p: int) -> Result<int, SpecErr> {
    if !(0 <= p < ts.len()) {
        Err(SpecErr::UnexpectedEndOfInput)
    } else {
        match ts[p] {
            SpecToken::Punct { ch: c, span } => {
                if c == ch {
                    Ok(p + 1)
                } else {
                    Err(SpecErr::UnexpectedToken { token: ts[p] })
                }
            },
            _ => Err(SpecErr::UnexpectedToken { token: ts[p] }),
        }
    }
}

/// Membership of a text among the accepted identifier spellings.
pub open spec fn ident_in(options: Seq<Seq<char>>, text: Seq<char>) -> bool {
    exists|i: int| 0 <= i < options.len() && options[i] == text
}

/// What consuming one of the identifier spellings `options` at position `p`
/// yields: the token's span and the next position, or the error, with the
/// cursor left at `p`.
pub open spec fn spec_consume_any_ident(
    options: Seq<Seq<char>>,
    ts: Seq<SpecToken>,
    p: int,
) -> Result<(Span, int), SpecErr> {
    if !(0 <= p < ts.len()) {
        Err(SpecErr::UnexpectedEndOfInput)
    } else {
        match ts[p] {
            SpecToken::Ident { text, span } => {
                if ident_in(options, text) {
                    Ok((span, p + 1))
                } else {
                    Err(SpecErr::UnexpectedToken { token: ts[p] })
                }
            },
            _ => Err(SpecErr::UnexpectedToken { token: ts[p] }),
        }
    }
}

/// What consuming a seconds literal at position `p` yields: the token's
/// span, its text, and the next position, or the error, with the cursor
/// left at `p`.
pub open spec fn spec_consume_seconds(name: Seq<char>, ts: Seq<SpecToken>, p: int) -> Result<
    (Span, Seq<char>, int),
    SpecErr,
> {
    if !(0 <= p < ts.len()) {
        Err(SpecErr::MissingComponent { name })
    } else {
        match ts[p] {
            SpecToken::Number { text, span } => {
                if sec_text_wf(text) {
                    Ok((span, text, p + 1))
                } else {
                    Err(
                        SpecErr::InvalidComponent {
                            name,
                            value: text,
                            span_start: span,
                            span_end: span,
                        },
                    )
                }
            },
            _ => Err(SpecErr::MissingComponent { name }),
        }
    }
}

/// Character-by-character string equality.
pub fn str_eq(a: &str, b: &str) -> (r: bool)
    ensures
        r == (a@ == b@),
{
    let n = a.unicode_len();
    let m = b.unicode_len();
    if n != m {
        return false;
    }
    let mut i: usize = 0;
    while i < n
        invariant
            0 <= i <= n,
            n as int == a@.len(),
            n as int == b@.len(),
            forall|j: int| 0 <= j < i ==> a@[j] == b@[j],
        decreases n - i,
    {
        if a.get_char(i) != b.get_char(i) {
            return false;
        }
        i = i + 1;
    }
    proof {
        assert(a@ =~= b@);
    }
    true
}

/// Whether `text` equals one of the given spellings.
fn contains_text(options: &[&str], text: &str) -> (r: bool)
    ensures
        r == ident_in(options@.map_values(|s: &str| s@), text@),
{
    let n = options.len();
    let mut i: usize = 0;
    while i < n
        invariant
            0 <= i <= n,
            n as int == options@.len(),
            forall|j: int| 0 <= j < i ==> options@[j]@ != text@,
        decreases n - i,
    {
        if str_eq(options[i], text) {
            proof {
                let opts = options@.map_values(|s: &str| s@);
                assert(opts[i as int] == text@);
            }
            return true;
        }
        i = i + 1;
    }
    proof {
        let opts = options@.map_values(|s: &str| s@);
        if ident_in(opts, text@) {
            let i = choose|i: int| 0 <= i < opts.len() && opts[i] == text@;
            assert(options@[i]@ != text@);
        }
    }
    false
}

/// Consumes the next token as a `u8` number for the field `name`, else
/// fails without consuming: with `InvalidComponent` when a number token is
/// present but does not read as a `u8`, and with `MissingComponent` when no
/// number token is next.
pub fn consume_number(name: &'static str, cursor: &mut Cursor) -> (r: Result<(Span, u8), Error>)
    requires
        old(cursor).wf(),
    ensures
        final(cursor).wf(),
        final(cursor).toks() == old(cursor).toks(),
        (match spec_consume_number(name@, old(cursor).toks(), old(cursor).pos()) {
            Ok((sp, v, np)) => r matches Ok(x) && x.0 == sp && x.1 == v && final(cursor).pos()
                == np,
            Err(e) => r matches Err(x) && x@ == e && final(cursor).pos() == old(cursor).pos(),
        }),
{
    match cursor.peek_cloned() {
        Some(t) => {
            match t {
                Token::Number { text, span } => {
                    match scan_u8(text.as_str()) {
                        Some(v) => {
                            cursor.advance();
                            Ok((span, v))
                        },
                        None => {
                            Err(
                                Error::InvalidComponent {
                                    name,
                                    value: text,
                                    span_start: span,
                                    span_end: span,
                                },
                            )
                        },
                    }
                },
                _ => Err(Error::MissingComponent { name }),
            }
        },
        None => Err(Error::MissingComponent { name }),
    }
}

/// Consumes the next token when it is the punctuation character `expected`,
/// else fails without consuming.
pub fn consume_punct(expected: char, cursor: &mut Cursor) -> (r: Result<(), Error>)
    requires
        old(cursor).wf(),
    ensures
        final(cursor).wf(),
        final(cursor).toks() == old(cursor).toks(),
        (match spec_consume_punct(expected, old(cursor).toks(), old(cursor).pos()) {
            Ok(np) => r matches Ok(x) && final(cursor).pos() == np,
            Err(e) => r matches Err(x) && x@ == e && final(cursor).pos() == old(cursor).pos(),
        }),
{
    match cursor.peek_cloned() {
        Some(t) => {
            let matched = match &t {
                Token::Punct { ch, span: _ } => *ch == expected,
                _ => false,
            };
            if matched {
                cursor.advance();
                Ok(())
            } else {
                Err(Error::UnexpectedToken { token: t })
            }
        },
        None => Err(Error::UnexpectedEndOfInput),
    }
}

/// Consumes the next token when it is an identifier spelled as one of
/// `options` (compared exactly, case included), else fails without
/// consuming; on success returns the identifier's span.
pub fn consume_any_ident(options: &[&str], cursor: &mut Cursor) -> (r: Result<Span, Error>)
    requires
        old(cursor).wf(),
    ensures
        final(cursor).wf(),
        final(cursor).toks() == old(cursor).toks(),
        (match spec_consume_any_ident(
            options@.map_values(|s: &str| s@),
            old(cursor).toks(),
            old(cursor).pos(),
        ) {
            Ok((sp, np)) => r matches Ok(x) && x == sp && final(cursor).pos() == np,
            Err(e) => r matches Err(x) && x@ == e && final(cursor).pos() == old(cursor).pos(),
        }),
{
    match cursor.peek_cloned() {
        Some(t) => {
            let found = match &t {
                Token::Ident { text, span } => {
                    if contains_text(options, text.as_str()) {
                        Some(*span)
                    } else {
                        None
                    }
                },
                _ => None,
            };
            match found {
                Some(sp) => {
                    cursor.advance();
                    Ok(sp)
                },
                None => Err(Error::UnexpectedToken { token: t }),
            }
        },
        None => Err(Error::UnexpectedEndOfInput),
    }
}

/// A consumed seconds value: the token's span and text, whether the value
/// reaches sixty seconds, and otherwise its whole seconds and rounded
/// nanoseconds.
pub struct Seconds {
    pub span: Span,
    pub text: String,
    pub overflow: bool,
    pub whole: u8,
    pub nanos: u32,
}

/// Consumes the next token as a seconds literal (`digits[.digits]`) for the
/// field `name`, else fails without consuming, as [`consume_number`] does.
pub fn consume_seconds(name: &'static str, cursor: &mut Cursor) -> (r: Result<Seconds, Error>)
    requires
        old(cursor).wf(),
    ensures
        final(cursor).wf(),
        final(cursor).toks() == old(cursor).toks(),
        (match spec_consume_seconds(name@, old(cursor).toks(), old(cursor).pos()) {
            Ok((sp, stext, np)) => r matches Ok(s) && s.span == sp && s.text@ == stext
                && s.overflow == (sec_whole(stext) >= 60) && (!s.overflow ==> s.whole as int
                == sec_whole(stext) && s.nanos as int == sec_nanos(stext)) && final(cursor).pos()
                == np,
            Err(e) => r matches Err(x) && x@ == e && final(cursor).pos() == old(cursor).pos(),
        }),
{
    match cursor.peek_cloned() {
        Some(t) => {
            match t {
                Token::Number { text, span } => {
                    match scan_seconds(text.as_str()) {
                        Some(sc) => {
                            cursor.advance();
                            Ok(
                                Seconds {
                                    span,
                                    text,
                                    overflow: sc.overflow,
                                    whole: sc.whole,
                                    nanos: sc.nanos,
                                },
                            )
                        },
                        None => {
                            Err(
                                Error::InvalidComponent {
                                    name,
                                    value: text,
                                    span_start: span,
                                    span_end: span,
                                },
                            )
                        },
                    }
                },
                _ => Err(Error::MissingComponent { name }),
            }
        },
        None => Err(Error::MissingComponent { name }),
    }
}

} // verus!
