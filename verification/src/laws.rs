//! The general properties of the parser, stated and proved against
//! [`parse_spec`](crate::time::parse_spec): exact results for every valid
//! literal, the accepted meridiem spellings, and the discipline of token
//! consumption.
use vstd::prelude::*;

use crate::digits::{
    all_digits, dec_val, frac_nanos_exact, frac_part, int_part, lemma_dec_val_bounds,
    lemma_zero_text, pad_frac, sec_text_wf, sec_whole,
};
use crate::error::SpecErr;
use crate::time::{is_am_text, is_pm_text, parse_spec, Time};
use crate::token::{Span, SpecToken};

verus! {

/// Every valid hour-and-minute literal `H:M`, with `H` and `M` digit texts
/// whose values lie in `0..=23` and `0..=59`, parses to exactly
/// `(H, M, 0, 0)`: the absent seconds field defaults to zero, and the
/// absent meridiem means 24-hour form. All three tokens are consumed.
pub proof fn lemma_parse_hour_minute(
    ts: Seq<SpecToken>,
    p: int,
    ht: Seq<char>,
    mt: Seq<char>,
    hs: Span,
    cs: Span,
    ms: Span,
)
    requires
        0 <= p,
        ts.len() == p + 3,
        ts[p] == (SpecToken::Number { text: ht, span: hs }),
        ts[p + 1] == (SpecToken::Punct { ch: ':', span: cs }),
        ts[p + 2] == (SpecToken::Number { text: mt, span: ms }),
        all_digits(ht),
        0 < ht.len(),
        dec_val(ht) <= 23,
        all_digits(mt),
        0 < mt.len(),
        dec_val(mt) <= 59,
    ensures
        parse_spec(ts, p).out == Ok::<Time, SpecErr>(
            Time {
                hour: dec_val(ht) as u8,
                minute: dec_val(mt) as u8,
                second: 0,
                nanosecond: 0,
            },
        ),
        parse_spec(ts, p).end == ts.len(),
{
    lemma_dec_val_bounds(ht);
    lemma_dec_val_bounds(mt);
    lemma_zero_text();
}

/// Every valid hour-minute-second literal `H:M:S`, with `H∈0..=23`,
/// `M∈0..=59` and `S` a seconds text whose whole part is below sixty and
/// whose fraction does not round up to a full second, parses to exactly
/// `(H, M, ⌊S⌋, round(frac(S)·10⁹))`, rounding to the nearest nanosecond
/// with ties away from zero. All five tokens are consumed.
pub proof fn lemma_parse_hour_minute_second(
    ts: Seq<SpecToken>,
    p: int,
    ht: Seq<char>,
    mt: Seq<char>,
    st: Seq<char>,
    hs: Span,
    c1: Span,
    ms: Span,
    c2: Span,
    ss: Span,
)
    requires
        0 <= p,
        ts.len() == p + 5,
        ts[p] == (SpecToken::Number { text: ht, span: hs }),
        ts[p + 1] == (SpecToken::Punct { ch: ':', span: c1 }),
        ts[p + 2] == (SpecToken::Number { text: mt, span: ms }),
        ts[p + 3] == (SpecToken::Punct { ch: ':', span: c2 }),
        ts[p + 4] == (SpecToken::Number { text: st, span: ss }),
        all_digits(ht),
        0 < ht.len(),
        dec_val(ht) <= 23,
        all_digits(mt),
        0 < mt.len(),
        dec_val(mt) <= 59,
        sec_text_wf(st),
        sec_whole(st) <= 59,
        frac_nanos_exact(frac_part(st)) <= 999_999_999,
    ensures
        parse_spec(ts, p).out == Ok::<Time, SpecErr>(
            Time {
                hour: dec_val(ht) as u8,
                minute: dec_val(mt) as u8,
                second: sec_whole(st) as u8,
                nanosecond: frac_nanos_exact(frac_part(st)) as u32,
            },
        ),
        parse_spec(ts, p).end == ts.len(),
{
    lemma_dec_val_bounds(ht);
    lemma_dec_val_bounds(mt);
    lemma_dec_val_bounds(int_part(st));
    let f = frac_part(st);
    assert(all_digits(pad_frac(f))) by {
        if f.len() >= 9 {
            assert(forall|i: int|
                0 <= i < pad_frac(f).len() ==> pad_frac(f)[i] == #[trigger] f[i]);
        } else {
            assert(forall|i: int|
                0 <= i < f.len() ==> pad_frac(f)[i] == #[trigger] f[i]);
        }
    }
    lemma_dec_val_bounds(pad_frac(f));
}

/// The meridiem marker is recognized case-sensitively over exactly the four
/// spellings `am`, `AM`, `pm`, `PM`. On a valid 12-hour literal `H:M` with
/// `H∈1..=12` and `M∈0..=59` followed by one identifier: an `am` spelling
/// converts hour 12 to 0 and keeps the rest; a `pm` spelling converts hour
/// 12 to 12 and adds twelve to the rest; any other identifier is not
/// consumed and the literal is read in 24-hour form.
pub proof fn lemma_meridiem_spellings(
    ts: Seq<SpecToken>,
    p: int,
    ht: Seq<char>,
    mt: Seq<char>,
    w: Seq<char>,
    hs: Span,
    cs: Span,
    ms: Span,
    ws: Span,
)
    requires
        0 <= p,
        ts.len() == p + 4,
        ts[p] == (SpecToken::Number { text: ht, span: hs }),
        ts[p + 1] == (SpecToken::Punct { ch: ':', span: cs }),
        ts[p + 2] == (SpecToken::Number { text: mt, span: ms }),
        ts[p + 3] == (SpecToken::Ident { text: w, span: ws }),
        all_digits(ht),
        0 < ht.len(),
        1 <= dec_val(ht) <= 12,
        all_digits(mt),
        0 < mt.len(),
        dec_val(mt) <= 59,
    ensures
        is_am_text(w) ==> parse_spec(ts, p).out == Ok::<Time, SpecErr>(
            Time {
                hour: (if dec_val(ht) == 12 {
                    0
                } else {
                    dec_val(ht)
                }) as u8,
                minute: dec_val(mt) as u8,
                second: 0,
                nanosecond: 0,
            },
        ) && parse_spec(ts, p).end == p + 4,
        is_pm_text(w) ==> parse_spec(ts, p).out == Ok::<Time, SpecErr>(
            Time {
                hour: (if dec_val(ht) == 12 {
                    12
                } else {
                    dec_val(ht) + 12
                }) as u8,
                minute: dec_val(mt) as u8,
                second: 0,
                nanosecond: 0,
            },
        ) && parse_spec(ts, p).end == p + 4,
        !is_am_text(w) && !is_pm_text(w) ==> parse_spec(ts, p).out == Ok::<Time, SpecErr>(
            Time {
                hour: dec_val(ht) as u8,
                minute: dec_val(mt) as u8,
                second: 0,
                nanosecond: 0,
            },
        ) && parse_spec(ts, p).end == p + 3,
{
    lemma_dec_val_bounds(ht);
    lemma_dec_val_bounds(mt);
    lemma_zero_text();
}

/// The parser only moves forward, and never past the end of the tokens:
/// each consumed token is consumed exactly once, in order.
pub proof fn lemma_parse_consumes_in_order(ts: Seq<SpecToken>, p: int)
    requires
        0 <= p <= ts.len(),
    ensures
        p <= parse_spec(ts, p).end <= ts.len(),
        parse_spec(ts, p).end <= p + 6,
{
}

} // verus!
