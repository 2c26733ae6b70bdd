//! The time-literal parser and validator: grammar-ordered token
//! consumption, 12-hour to 24-hour conversion, range validation, and
//! sub-second normalization.
use vstd::prelude::*;

use crate::digits::{
    dec_str, dec_string, lemma_zero_text, sec_nanos, sec_whole,
};
use crate::error::{Error, SpecErr};
use crate::helpers::{
    consume_any_ident, consume_number, consume_punct, consume_seconds, ident_in, Seconds,
    spec_consume_any_ident, spec_consume_number, spec_consume_punct, spec_consume_seconds,
};
use crate::token::{Cursor, Span, SpecToken};

verus! {

/// The meridiem designator of a time literal: `am`, `pm`, or absent, the
/// latter denoting 24-hour form.
pub enum Period {
    Am,
    Pm,
    _24,
}

/// A normalized time of day with nanosecond precision.
#[derive(Clone, Copy, PartialEq, Eq, Structural, Debug)]
pub struct Time {
    pub hour: u8,
    pub minute: u8,
    pub second: u8,
    pub nanosecond: u32,
}

impl Time {
    /// The fields jointly form a valid 24-hour clock time.
    pub open spec fn is_valid(self) -> bool {
        self.hour < 24 && self.minute < 60 && self.second < 60 && self.nanosecond <= 999_999_999
    }
}

/// The 12-hour to 24-hour conversion: `12am` is midnight, `12pm` is noon,
/// other `pm` hours gain twelve, and `am` or 24-hour hours pass through.
pub open spec fn spec_adjust(hour: u8, period: Period) -> int {
    match period {
        Period::Am => if hour == 12 {
            0
        } else {
            hour as int
        },
        Period::Pm => if hour == 12 {
            12
        } else {
            hour as int + 12
        },
        Period::_24 => hour as int,
    }
}

/// The accepted spellings for the ante-meridiem marker: exactly `am` and
/// `AM`.
pub open spec fn is_am_text(s: Seq<char>) -> bool {
    s.len() == 2 && (s[0] == 'a' && s[1] == 'm' || s[0] == 'A' && s[1] == 'M')
}

/// The accepted spellings for the post-meridiem marker: exactly `pm` and
/// `PM`.
pub open spec fn is_pm_text(s: Seq<char>) -> bool {
    s.len() == 2 && (s[0] == 'p' && s[1] == 'm' || s[0] == 'P' && s[1] == 'M')
}

/// What the optional meridiem match at position `p` yields: the marker's
/// span if one matched, the period, and the next position. An identifier
/// spelled any other way, any other token, or exhausted input all denote
/// 24-hour form and consume nothing.
pub open spec fn spec_meridiem(ts: Seq<SpecToken>, p: int) -> (Option<Span>, Period, int) {
    if 0 <= p < ts.len() {
        match ts[p] {
            SpecToken::Ident { text, span } => {
                if is_am_text(text) {
                    (Some(span), Period::Am, p + 1)
                } else if is_pm_text(text) {
                    (Some(span), Period::Pm, p + 1)
                } else {
                    (None, Period::_24, p)
                }
            },
            _ => (None, Period::_24, p),
        }
    } else {
        (None, Period::_24, p)
    }
}

/// The outcome of a parse: the result and the cursor position after it.
#[verifier::ext_equal]
pub struct ParseOut {
    pub out: Result<Time, SpecErr>,
    pub end: int,
}

/// Conversion and validation once all tokens of the literal are consumed,
/// in the fixed order hour, minute, second; the first failing check is the
/// one reported. The hour diagnostic spans from the hour token through the
/// meridiem token if present; minute and second diagnostics cover their own
/// token only.
pub open spec fn parse_tail(
    ts: Seq<SpecToken>,
    p: int,
    hspan: Span,
    hour: u8,
    mspan: Span,
    minute: u8,
    sspan: Span,
    stext: Seq<char>,
) -> ParseOut {
    let (pspan, period, p2) = spec_meridiem(ts, p);
    let h24 = spec_adjust(hour, period);
    if h24 >= 24 {
        ParseOut {
            out: Err(
                SpecErr::InvalidComponent {
                    name: "hour"@,
                    value: dec_str(h24 as nat),
                    span_start: hspan,
                    span_end: (match pspan {
                        Some(s) => s,
                        None => hspan,
                    }),
                },
            ),
            end: p2,
        }
    } else if minute >= 60 {
        ParseOut {
            out: Err(
                SpecErr::InvalidComponent {
                    name: "minute"@,
                    value: dec_str(minute as nat),
                    span_start: mspan,
                    span_end: mspan,
                },
            ),
            end: p2,
        }
    } else if sec_whole(stext) >= 60 {
        ParseOut {
            out: Err(
                SpecErr::InvalidComponent {
                    name: "second"@,
                    value: stext,
                    span_start: sspan,
                    span_end: sspan,
                },
            ),
            end: p2,
        }
    } else {
        ParseOut {
            out: Ok(
                Time {
                    hour: h24 as u8,
                    minute,
                    second: sec_whole(stext) as u8,
                    nanosecond: sec_nanos(stext) as u32,
                },
            ),
            end: p2,
        }
    }
}

/// The whole parse of a time literal from position `p`: hour, mandatory
/// colon, minute, optional colon-and-seconds (defaulting to zero seconds
/// anchored at the hour token), optional meridiem, then conversion and
/// validation. The `end` field is where the cursor stands afterwards:
/// tokens are consumed up to and including the last one belonging to the
/// literal, on success and on a validation failure alike, while a failed
/// consumption leaves its token unconsumed.
pub open spec fn parse_spec(ts: Seq<SpecToken>, p: int) -> ParseOut {
    match spec_consume_number("hour"@, ts, p) {
        Err(e) => ParseOut { out: Err(e), end: p },
        Ok((hspan, hour, p1)) => match spec_consume_punct(':', ts, p1) {
            Err(e) => ParseOut { out: Err(e), end: p1 },
            Ok(p2) => match spec_consume_number("minute"@, ts, p2) {
                Err(e) => ParseOut { out: Err(e), end: p2 },
                Ok((mspan, minute, p3)) => match spec_consume_punct(':', ts, p3) {
                    Ok(p4) => match spec_consume_seconds("second"@, ts, p4) {
                        Err(e) => ParseOut { out: Err(e), end: p4 },
                        Ok((sspan, stext, p5)) => parse_tail(
                            ts,
                            p5,
                            hspan,
                            hour,
                            mspan,
                            minute,
                            sspan,
                            stext,
                        ),
                    },
                    Err(_) => parse_tail(ts, p3, hspan, hour, mspan, minute, hspan, seq!['0']),
                },
            },
        },
    }
}

/// The spellings the parser accepts for the ante-meridiem marker.
pub open spec fn am_spellings() -> Seq<Seq<char>> {
    seq!["am"@, "AM"@]
}

/// The spellings the parser accepts for the post-meridiem marker.
pub open spec fn pm_spellings() -> Seq<Seq<char>> {
    seq!["pm"@, "PM"@]
}

/// A text is among the ante-meridiem spellings exactly when it is `am` or
/// `AM`, and among the post-meridiem spellings exactly when it is `pm` or
/// `PM`.
pub proof fn lemma_spellings()
    ensures
        forall|t: Seq<char>| #[trigger] ident_in(am_spellings(), t) <==> is_am_text(t),
        forall|t: Seq<char>| #[trigger] ident_in(pm_spellings(), t) <==> is_pm_text(t),
{
    reveal_strlit("am");
    reveal_strlit("AM");
    reveal_strlit("pm");
    reveal_strlit("PM");
    assert forall|t: Seq<char>| #[trigger] ident_in(am_spellings(), t) <==> is_am_text(t) by {
        if ident_in(am_spellings(), t) {
            let i = choose|i: int| 0 <= i < am_spellings().len() && am_spellings()[i] == t;
            assert(i == 0 || i == 1);
        }
        if is_am_text(t) {
            if t[0] == 'a' {
                assert(t =~= "am"@);
                assert(am_spellings()[0] == t);
            } else {
                assert(t =~= "AM"@);
                assert(am_spellings()[1] == t);
            }
        }
    }
    assert forall|t: Seq<char>| #[trigger] ident_in(pm_spellings(), t) <==> is_pm_text(t) by {
        if ident_in(pm_spellings(), t) {
            let i = choose|i: int| 0 <= i < pm_spellings().len() && pm_spellings()[i] == t;
            assert(i == 0 || i == 1);
        }
        if is_pm_text(t) {
            if t[0] == 'p' {
                assert(t =~= "pm"@);
                assert(pm_spellings()[0] == t);
            } else {
                assert(t =~= "PM"@);
                assert(pm_spellings()[1] == t);
            }
        }
    }
}

/// The default seconds value used when the literal has no seconds field:
/// zero seconds, anchored at the given fallback span.
fn default_seconds(span: Span) -> (s: Seconds)
    ensures
        s.span == span,
        s.text@ == seq!['0'],
        s.overflow == false,
        s.whole == 0,
        s.nanos == 0,
{
    let text = "0".to_owned();
    proof {
        reveal_strlit("0");
        assert(text@ =~= seq!['0']);
    }
    Seconds { span, text, overflow: false, whole: 0, nanos: 0 }
}

/// Matches the optional meridiem marker: `am`/`AM`, then `pm`/`PM`, each
/// compared exactly; anything else consumes nothing and means 24-hour form.
fn consume_period(cursor: &mut Cursor) -> (r: (Option<Span>, Period))
    requires
        old(cursor).wf(),
    ensures
        final(cursor).wf(),
        final(cursor).toks() == old(cursor).toks(),
        ({
            let (sp, per, np) = spec_meridiem(old(cursor).toks(), old(cursor).pos());
            r.0 == sp && r.1 == per && final(cursor).pos() == np
        }),
{
    proof {
        lemma_spellings();
    }
    let mut am_options: Vec<&str> = Vec::new();
    am_options.push("am");
    am_options.push("AM");
    let mut pm_options: Vec<&str> = Vec::new();
    pm_options.push("pm");
    pm_options.push("PM");
    proof {
        assert(am_options@.map_values(|s: &str| s@) =~= am_spellings());
        assert(pm_options@.map_values(|s: &str| s@) =~= pm_spellings());
    }
    match consume_any_ident(am_options.as_slice(), cursor) {
        Ok(span) => (Some(span), Period::Am),
        Err(_) => {
            match consume_any_ident(pm_options.as_slice(), cursor) {
                Ok(span) => (Some(span), Period::Pm),
                Err(_) => (None, Period::_24),
            }
        },
    }
}

impl Time {
    /// Parses one complete time literal from the cursor.
    ///
    /// The tokens of the literal are consumed in grammar order; the cursor
    /// is left immediately after the last token belonging to the literal on
    /// success and on a range failure, and at the failed token on a
    /// consumption failure, exactly as [`parse_spec`] lays down. The result
    /// is the normalized value or the error of that specification, and a
    /// returned value is always a valid clock time.
    pub fn parse(cursor: &mut Cursor) -> (r: Result<Time, Error>)
        requires
            old(cursor).wf(),
        ensures
            final(cursor).wf(),
            final(cursor).toks() == old(cursor).toks(),
            final(cursor).pos() == parse_spec(old(cursor).toks(), old(cursor).pos()).end,
            old(cursor).pos() <= final(cursor).pos() <= old(cursor).toks().len(),
            (match (r, parse_spec(old(cursor).toks(), old(cursor).pos()).out) {
                (Ok(t), Ok(st)) => t == st && t.is_valid(),
                (Err(e), Err(se)) => e@ == se,
                _ => false,
            }),
    {
        let ghost ts = cursor.toks();
        let ghost p0 = cursor.pos();
        let (hour_span, hour) = match consume_number("hour", cursor) {
            Ok(v) => v,
            Err(e) => {
                return Err(e);
            },
        };
        match consume_punct(':', cursor) {
            Ok(_) => (),
            Err(e) => {
                return Err(e);
            },
        }
        let (minute_span, minute) = match consume_number("minute", cursor) {
            Ok(v) => v,
            Err(e) => {
                return Err(e);
            },
        };
        let sec: Seconds = match consume_punct(':', cursor) {
            Ok(_) => {
                match consume_seconds("second", cursor) {
                    Ok(s) => s,
                    Err(e) => {
                        return Err(e);
                    },
                }
            },
            Err(_) => {
                proof {
                    lemma_zero_text();
                }
                default_seconds(hour_span)
            },
        };
        let (period_span, period) = consume_period(cursor);
        let hour24: u16 = match period {
            Period::Am => if hour == 12 {
                0
            } else {
                hour as u16
            },
            Period::Pm => if hour == 12 {
                12
            } else {
                hour as u16 + 12
            },
            Period::_24 => hour as u16,
        };
        if hour24 >= 24 {
            let value = dec_string(hour24 as u32);
            let span_end = match period_span {
                Some(s) => s,
                None => hour_span,
            };
            return Err(
                Error::InvalidComponent { name: "hour", value, span_start: hour_span, span_end },
            );
        } else if minute >= 60 {
            let value = dec_string(minute as u32);
            return Err(
                Error::InvalidComponent {
                    name: "minute",
                    value,
                    span_start: minute_span,
                    span_end: minute_span,
                },
            );
        } else if sec.overflow {
            return Err(
                Error::InvalidComponent {
                    name: "second",
                    value: sec.text,
                    span_start: sec.span,
                    span_end: sec.span,
                },
            );
        }
        Ok(Time { hour: hour24 as u8, minute, second: sec.whole, nanosecond: sec.nanos })
    }
}

} // verus!
