use time_literal::error::Error;
use time_literal::time::Time;
use time_literal::token::{Cursor, Span, Token};

fn num(text: &str, start: usize, end: usize) -> Token {
    Token::Number { text: String::from(text), span: Span { start, end } }
}

fn punct(ch: char, at: usize) -> Token {
    Token::Punct { ch, span: Span { start: at, end: at + 1 } }
}

fn ident(text: &str, start: usize, end: usize) -> Token {
    Token::Ident { text: String::from(text), span: Span { start, end } }
}

/// Tokens of `H:M`, spanned as if written from offset zero.
fn hm(h: &str, m: &str) -> Vec<Token> {
    vec![
        num(h, 0, h.len()),
        punct(':', h.len()),
        num(m, h.len() + 1, h.len() + 1 + m.len()),
    ]
}

/// Tokens of `H:M:S`, spanned as if written from offset zero.
fn hms(h: &str, m: &str, s: &str) -> Vec<Token> {
    let mut v = hm(h, m);
    let off = h.len() + 1 + m.len();
    v.push(punct(':', off));
    v.push(num(s, off + 1, off + 1 + s.len()));
    v
}

fn parse_all(tokens: Vec<Token>) -> (Result<Time, Error>, usize) {
    let mut cursor = Cursor::new(tokens);
    let r = Time::parse(&mut cursor);
    (r, cursor.position())
}

fn expect_time(tokens: Vec<Token>, hour: u8, minute: u8, second: u8, nanosecond: u32) {
    let (r, _) = parse_all(tokens);
    match r {
        Ok(t) => {
            assert_eq!((t.hour, t.minute, t.second, t.nanosecond), (
                hour,
                minute,
                second,
                nanosecond,
            ));
        }
        Err(e) => panic!("expected a time, got {:?}", e),
    }
}

fn expect_invalid(tokens: Vec<Token>, name: &str, value: &str) -> (Span, Span) {
    let (r, _) = parse_all(tokens);
    match r {
        Err(Error::InvalidComponent { name: n, value: v, span_start, span_end }) => {
            assert_eq!(n, name);
            assert_eq!(v, value);
            (span_start, span_end)
        }
        other => panic!("expected an invalid {} component, got {:?}", name, other),
    }
}

#[test]
fn parses_24_hour_without_seconds() {
    expect_time(hm("5", "30"), 5, 30, 0, 0);
}

#[test]
fn parses_leading_zeros() {
    expect_time(hm("09", "05"), 9, 5, 0, 0);
}

#[test]
fn parses_midnight_24_hour() {
    expect_time(hm("0", "00"), 0, 0, 0, 0);
}

#[test]
fn parses_12am_as_midnight() {
    let mut v = hm("12", "00");
    v.push(ident("am", 5, 7));
    expect_time(v, 0, 0, 0, 0);
}

#[test]
fn parses_12pm_as_noon() {
    let mut v = hm("12", "00");
    v.push(ident("pm", 5, 7));
    expect_time(v, 12, 0, 0, 0);
}

#[test]
fn parses_1159pm() {
    let mut v = hm("11", "59");
    v.push(ident("pm", 5, 7));
    expect_time(v, 23, 59, 0, 0);
}

#[test]
fn parses_1am() {
    let mut v = hm("1", "00");
    v.push(ident("am", 4, 6));
    expect_time(v, 1, 0, 0, 0);
}

#[test]
fn parses_fractional_seconds() {
    expect_time(hms("12", "30", "45.5"), 12, 30, 45, 500_000_000);
}

#[test]
fn parses_uppercase_am() {
    let mut v = hm("12", "00");
    v.push(ident("AM", 5, 7));
    expect_time(v, 0, 0, 0, 0);
}

#[test]
fn parses_uppercase_pm() {
    let mut v = hm("1", "00");
    v.push(ident("PM", 4, 6));
    expect_time(v, 13, 0, 0, 0);
}

#[test]
fn mixed_case_meridiem_is_not_consumed() {
    let mut v = hm("12", "00");
    v.push(ident("Am", 5, 7));
    let (r, pos) = parse_all(v);
    // `Am` is none of the accepted spellings: the literal is read in
    // 24-hour form and the identifier stays unconsumed.
    let t = r.unwrap();
    assert_eq!((t.hour, t.minute, t.second, t.nanosecond), (12, 0, 0, 0));
    assert_eq!(pos, 3);
}

#[test]
fn rejects_hour_24() {
    let (start, end) = expect_invalid(hm("24", "00"), "hour", "24");
    // Without a meridiem the diagnostic covers the hour token alone.
    assert_eq!((start, end), (Span { start: 0, end: 2 }, Span { start: 0, end: 2 }));
}

#[test]
fn rejects_minute_60() {
    let (start, end) = expect_invalid(hm("1", "60"), "minute", "60");
    assert_eq!((start, end), (Span { start: 2, end: 4 }, Span { start: 2, end: 4 }));
}

#[test]
fn rejects_second_60() {
    let (start, end) = expect_invalid(hms("1", "00", "60"), "second", "60");
    assert_eq!((start, end), (Span { start: 5, end: 7 }, Span { start: 5, end: 7 }));
}

#[test]
fn rejects_fractional_second_at_60() {
    // The comparison happens before truncation: 60.5 names the whole text.
    expect_invalid(hms("1", "00", "60.5"), "second", "60.5");
}

#[test]
fn accepts_second_just_below_60() {
    expect_time(hms("1", "02", "59.999999999"), 1, 2, 59, 999_999_999);
}

#[test]
fn rejects_13pm_after_conversion() {
    let mut v = hm("13", "00");
    v.push(ident("pm", 5, 7));
    let (start, end) = expect_invalid(v, "hour", "25");
    // With a meridiem the diagnostic runs from the hour token to the marker.
    assert_eq!((start, end), (Span { start: 0, end: 2 }, Span { start: 5, end: 7 }));
}

#[test]
fn rejects_hour_before_minute() {
    // Validation order is fixed: the hour failure masks the minute failure.
    expect_invalid(hm("24", "60"), "hour", "24");
}

#[test]
fn rejects_minute_before_second() {
    expect_invalid(hms("1", "60", "60"), "minute", "60");
}

#[test]
fn nanosecond_tie_rounds_away_from_zero() {
    expect_time(hms("0", "00", "0.0000000005"), 0, 0, 0, 1);
}

#[test]
fn nanosecond_below_tie_rounds_down() {
    expect_time(hms("0", "00", "0.00000000049"), 0, 0, 0, 0);
}

#[test]
fn nanosecond_rounding_saturates() {
    // A fraction that would round up to a full second stays at the largest
    // valid nanosecond count.
    expect_time(hms("0", "00", "59.9999999995"), 0, 0, 59, 999_999_999);
}

#[test]
fn seconds_with_trailing_dot() {
    expect_time(hms("1", "02", "3."), 1, 2, 3, 0);
}

#[test]
fn hour_too_large_for_a_byte() {
    // The number consumption itself rejects a value that does not fit.
    let (r, pos) = parse_all(hm("300", "00"));
    match r {
        Err(Error::InvalidComponent { name, value, .. }) => {
            assert_eq!(name, "hour");
            assert_eq!(value, "300");
        }
        other => panic!("expected an invalid hour, got {:?}", other),
    }
    // The unparseable number token is not consumed.
    assert_eq!(pos, 0);
}

#[test]
fn empty_input_reports_missing_hour() {
    let (r, pos) = parse_all(vec![]);
    match r {
        Err(Error::MissingComponent { name }) => assert_eq!(name, "hour"),
        other => panic!("expected a missing hour, got {:?}", other),
    }
    assert_eq!(pos, 0);
}

#[test]
fn missing_colon_stops_before_second_number() {
    let (r, pos) = parse_all(vec![num("1", 0, 1), num("2", 2, 3)]);
    assert!(matches!(r, Err(Error::UnexpectedToken { .. })));
    // Only the hour was consumed; the failed token stays where it was.
    assert_eq!(pos, 1);
}

#[test]
fn exhausted_input_after_hour() {
    let (r, pos) = parse_all(vec![num("5", 0, 1)]);
    assert!(matches!(r, Err(Error::UnexpectedEndOfInput)));
    assert_eq!(pos, 1);
}

#[test]
fn rejects_non_decimal_seconds_text() {
    let (r, pos) = parse_all(hms("1", "02", "3.5.7"));
    match r {
        Err(Error::InvalidComponent { name, value, .. }) => {
            assert_eq!(name, "second");
            assert_eq!(value, "3.5.7");
        }
        other => panic!("expected an invalid second, got {:?}", other),
    }
    assert_eq!(pos, 4);
}

#[test]
fn parses_two_literals_in_sequence() {
    // Each parse consumes exactly its own tokens, so a second call picks up
    // right after the first literal.
    let mut v = hm("1", "02");
    v.push(num("3", 5, 6));
    v.push(punct(':', 6));
    v.push(num("04", 7, 9));
    let mut cursor = Cursor::new(v);
    assert_eq!(cursor.token_count(), 6);
    let first = Time::parse(&mut cursor).unwrap();
    assert_eq!((first.hour, first.minute), (1, 2));
    assert_eq!(cursor.position(), 3);
    let second = Time::parse(&mut cursor).unwrap();
    assert_eq!((second.hour, second.minute), (3, 4));
    assert_eq!(cursor.position(), 6);
}

#[test]
fn valid_range_sweep_without_seconds() {
    // Every valid 24-hour H:M pair parses to exactly (H, M, 0, 0).
    for h in 0u8..24 {
        for m in 0u8..60 {
            let toks = hm(&h.to_string(), &m.to_string());
            let (r, _) = parse_all(toks);
            let t = r.unwrap();
            assert_eq!((t.hour, t.minute, t.second, t.nanosecond), (h, m, 0, 0));
        }
    }
}

#[test]
fn valid_range_sweep_with_seconds() {
    // Spot the whole-second grid of H:M:S literals.
    for h in [0u8, 1, 11, 12, 13, 23] {
        for m in [0u8, 1, 59] {
            for s in [0u8, 1, 59] {
                let toks = hms(&h.to_string(), &m.to_string(), &s.to_string());
                let (r, _) = parse_all(toks);
                let t = r.unwrap();
                assert_eq!((t.hour, t.minute, t.second, t.nanosecond), (h, m, s, 0));
            }
        }
    }
}
