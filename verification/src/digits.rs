//! Decimal-digit arithmetic for the time parser: the value of a digit
//! string, rendering an integer back into digits, and splitting a seconds
//! literal such as `45.5` into its whole part and a nanosecond count.
use vstd::prelude::*;

verus! {

/// Holds when `c` is one of the ten ASCII decimal digits.
pub open spec fn is_digit(c: char) -> bool {
    48 <= c as int <= 57
}

/// The numeric value of a decimal digit character.
pub open spec fn digit_val(c: char) -> int {
    c as int - 48
}

/// Holds when every character of `s` is a decimal digit.
pub open spec fn all_digits(s: Seq<char>) -> bool {
    forall|i: int| 0 <= i < s.len() ==> is_digit(#[trigger] s[i])
}

/// The value of a digit string read in base ten; most significant digit first.
pub open spec fn dec_val(s: Seq<char>) -> int
    decreases s.len(),
{
    if s.len() == 0 {
        0
    } else {
        dec_val(s.drop_last()) * 10 + digit_val(s.last())
    }
}

/// Ten to the power `n`.
pub open spec fn pow10(n: nat) -> int
    decreases n,
{
    if n == 0 {
        1
    } else {
        10 * pow10((n - 1) as nat)
    }
}

/// The character for a single decimal digit value.
pub open spec fn digit_char(d: int) -> char {
    if d == 0 {
        '0'
    } else if d == 1 {
        '1'
    } else if d == 2 {
        '2'
    } else if d == 3 {
        '3'
    } else if d == 4 {
        '4'
    } else if d == 5 {
        '5'
    } else if d == 6 {
        '6'
    } else if d == 7 {
        '7'
    } else if d == 8 {
        '8'
    } else {
        '9'
    }
}

/// The usual base-ten rendering of `n`, without a sign and without leading
/// zeros (a single zero for `n == 0`).
pub open spec fn dec_str(n: nat) -> Seq<char>
    decreases n,
{
    if n < 10 {
        seq![digit_char(n as int)]
    } else {
        dec_str(n / 10).push(digit_char((n % 10) as int))
    }
}

/// A digit string fits the `u8` parser when it is nonempty, all digits,
/// and its value fits in a byte.
pub open spec fn u8_text_ok(s: Seq<char>) -> bool {
    s.len() > 0 && all_digits(s) && dec_val(s) <= 255
}

/// The index of the first `.` in `s`, or `s.len()` when there is none.
pub open spec fn dot_index(s: Seq<char>) -> int {
    match s.index_of_first('.') {
        Option::Some(i) => i,
        Option::None => s.len() as int,
    }
}

/// The digits before the first `.` of a seconds literal (all of `s` when
/// there is no dot).
pub open spec fn int_part(s: Seq<char>) -> Seq<char> {
    s.take(dot_index(s))
}

/// The digits after the first `.` of a seconds literal (empty when there is
/// no dot).
pub open spec fn frac_part(s: Seq<char>) -> Seq<char> {
    if dot_index(s) == s.len() {
        Seq::empty()
    } else {
        s.skip(dot_index(s) + 1)
    }
}

/// A well-formed seconds literal: one or more digits, optionally followed by
/// a dot and further digits.
pub open spec fn sec_text_wf(s: Seq<char>) -> bool {
    0 < dot_index(s) && all_digits(int_part(s)) && all_digits(frac_part(s))
}

/// The whole-second value of a seconds literal.
pub open spec fn sec_whole(s: Seq<char>) -> int {
    dec_val(int_part(s))
}

/// The fractional digits padded or cut to exactly nine places.
pub open spec fn pad_frac(f: Seq<char>) -> Seq<char> {
    if f.len() >= 9 {
        f.take(9)
    } else {
        f + Seq::new((9 - f.len()) as nat, |i: int| '0')
    }
}

/// One when the tenth fractional digit rounds the ninth up, zero otherwise.
/// Rounding is to the nearest nanosecond, with ties away from zero.
pub open spec fn frac_carry(f: Seq<char>) -> int {
    if f.len() > 9 && digit_val(f[9]) >= 5 {
        1
    } else {
        0
    }
}

/// The fractional digits as nanoseconds, rounded to the nearest whole
/// nanosecond with ties away from zero.
pub open spec fn frac_nanos_exact(f: Seq<char>) -> int {
    dec_val(pad_frac(f)) + frac_carry(f)
}

/// As [`frac_nanos_exact`], saturated at 999 999 999 so that a fraction that
/// would round up to a full second still yields a valid nanosecond field.
pub open spec fn frac_nanos(f: Seq<char>) -> int {
    if frac_nanos_exact(f) > 999_999_999 {
        999_999_999
    } else {
        frac_nanos_exact(f)
    }
}

/// The nanosecond value of a whole seconds literal.
pub open spec fn sec_nanos(s: Seq<char>) -> int {
    frac_nanos(frac_part(s))
}

/// A digit string's value is nonnegative and below ten to its length.
pub proof fn lemma_dec_val_bounds(s: Seq<char>)
    requires
        all_digits(s),
    ensures
        0 <= dec_val(s) < pow10(s.len()),
    decreases s.len(),
{
    if s.len() > 0 {
        assert(all_digits(s.drop_last()));
        lemma_dec_val_bounds(s.drop_last());
    }
}

/// Extending a digit prefix by one digit multiplies its value by ten and
/// adds the new digit.
pub proof fn lemma_dec_val_take_succ(s: Seq<char>, i: int)
    requires
        0 <= i < s.len(),
    ensures
        dec_val(s.take(i + 1)) == dec_val(s.take(i)) * 10 + digit_val(s[i]),
{
    assert(s.take(i + 1).drop_last() =~= s.take(i));
    assert(s.take(i + 1).last() == s[i]);
}

/// The value of a prefix of a digit string never exceeds the whole value.
pub proof fn lemma_dec_val_take_le(s: Seq<char>, i: int)
    requires
        all_digits(s),
        0 <= i <= s.len(),
    ensures
        dec_val(s.take(i)) <= dec_val(s),
    decreases s.len() - i,
{
    if i == s.len() {
        assert(s.take(i) =~= s);
    } else {
        lemma_dec_val_take_succ(s, i);
        assert(all_digits(s.take(i)));
        lemma_dec_val_bounds(s.take(i));
        lemma_dec_val_take_le(s, i + 1);
    }
}

/// A run of zero characters has value zero.
pub proof fn lemma_dec_val_zeros(n: nat)
    ensures
        dec_val(Seq::new(n, |i: int| '0')) == 0,
    decreases n,
{
    if n > 0 {
        lemma_dec_val_zeros((n - 1) as nat);
        assert(Seq::new(n, |i: int| '0').drop_last() =~= Seq::new((n - 1) as nat, |i: int| '0'));
    }
}

/// A single digit character has its digit value.
pub proof fn lemma_dec_val_single(c: char)
    ensures
        dec_val(seq![c]) == digit_val(c),
{
    assert(seq![c].len() == 1);
    assert(seq![c].last() == c);
    assert(seq![c].drop_last() =~= Seq::<char>::empty());
    assert(dec_val(seq![c]) == dec_val(Seq::<char>::empty()) * 10 + digit_val(c));
}

/// Ten to the ninth and below, spelled out.
pub proof fn lemma_pow10_9()
    ensures
        pow10(8) == 100_000_000,
        pow10(9) == 1_000_000_000,
{
    reveal_with_fuel(pow10, 10);
}

/// `pow10` grows with its argument.
pub proof fn lemma_pow10_mono(a: nat, b: nat)
    requires
        a <= b,
    ensures
        pow10(a) <= pow10(b),
    decreases b,
{
    if a < b {
        lemma_pow10_mono(a, (b - 1) as nat);
        lemma_pow10_pos((b - 1) as nat);
    }
}

/// `pow10` is positive.
pub proof fn lemma_pow10_pos(n: nat)
    ensures
        pow10(n) >= 1,
    decreases n,
{
    if n > 0 {
        lemma_pow10_pos((n - 1) as nat);
    }
}

/// The seconds literal `0`, the default when no seconds are written, is
/// well formed and stands for zero seconds and zero nanoseconds.
pub proof fn lemma_zero_text()
    ensures
        sec_text_wf(seq!['0']),
        sec_whole(seq!['0']) == 0,
        sec_nanos(seq!['0']) == 0,
{
    let s = seq!['0'];
    s.index_of_first_ensures('.');
    match s.index_of_first('.') {
        Option::Some(i) => {
            assert(s[i] == '.');
            assert(s[0] == '0');
            assert(false);
        },
        Option::None => {},
    }
    assert(dot_index(s) == 1);
    assert(int_part(s) =~= s);
    lemma_dec_val_single('0');
    assert(frac_part(s) =~= Seq::<char>::empty());
    assert(pad_frac(Seq::<char>::empty()) =~= Seq::new(9, |i: int| '0'));
    lemma_dec_val_zeros(9);
}

/// The numeric value of a digit character, if it is one.
pub fn digit_of(c: char) -> (r: Option<u8>)
    ensures
        match r {
            Option::Some(d) => is_digit(c) && d < 10 && d as int == digit_val(c),
            Option::None => !is_digit(c),
        },
{
    let v = c as u32;
    if 48 <= v && v <= 57 {
        Some((v - 48) as u8)
    } else {
        None
    }
}

/// The string of a single decimal digit value.
pub fn digit_str(d: u8) -> (r: &'static str)
    requires
        d < 10,
    ensures
        r@ == seq![digit_char(d as int)],
{
    if d == 0 {
        proof {
            reveal_strlit("0");
            assert("0"@ =~= seq![digit_char(d as int)]);
        }
        "0"
    } else if d == 1 {
        proof {
            reveal_strlit("1");
            assert("1"@ =~= seq![digit_char(d as int)]);
        }
        "1"
    } else if d == 2 {
        proof {
            reveal_strlit("2");
            assert("2"@ =~= seq![digit_char(d as int)]);
        }
        "2"
    } else if d == 3 {
        proof {
            reveal_strlit("3");
            assert("3"@ =~= seq![digit_char(d as int)]);
        }
        "3"
    } else if d == 4 {
        proof {
            reveal_strlit("4");
            assert("4"@ =~= seq![digit_char(d as int)]);
        }
        "4"
    } else if d == 5 {
        proof {
            reveal_strlit("5");
            assert("5"@ =~= seq![digit_char(d as int)]);
        }
        "5"
    } else if d == 6 {
        proof {
            reveal_strlit("6");
            assert("6"@ =~= seq![digit_char(d as int)]);
        }
        "6"
    } else if d == 7 {
        proof {
            reveal_strlit("7");
            assert("7"@ =~= seq![digit_char(d as int)]);
        }
        "7"
    } else if d == 8 {
        proof {
            reveal_strlit("8");
            assert("8"@ =~= seq![digit_char(d as int)]);
        }
        "8"
    } else {
        proof {
            reveal_strlit("9");
            assert("9"@ =~= seq![digit_char(d as int)]);
        }
        "9"
    }
}

/// Renders `n` in base ten, matching [`dec_str`].
pub fn dec_string(n: u32) -> (r: String)
    ensures
        r@ == dec_str(n as nat),
    decreases n,
{
    if n < 10 {
        let s = digit_str(n as u8).to_owned();
        s
    } else {
        let mut s = dec_string(n / 10);
        let d = digit_str((n % 10) as u8);
        s.append(d);
        proof {
            assert(s@ =~= dec_str((n / 10) as nat).push(digit_char((n % 10) as int)));
        }
        s
    }
}

/// Reads a digit string as a `u8`: the number consumption for the hour and
/// minute fields. Fails on an empty string, a non-digit character, or a
/// value above 255; nothing else is accepted.
pub fn scan_u8(text: &str) -> (r: Option<u8>)
    ensures
        match r {
            Option::Some(v) => u8_text_ok(text@) && v as int == dec_val(text@),
            Option::None => !u8_text_ok(text@),
        },
{
    let n = text.unicode_len();
    if n == 0 {
        return None;
    }
    let mut i: usize = 0;
    let mut acc: u32 = 0;
    while i < n
        invariant
            0 <= i <= n,
            n as int == text@.len(),
            all_digits(text@.take(i as int)),
            acc as int == dec_val(text@.take(i as int)),
            acc <= 255,
        decreases n - i,
    {
        let c = text.get_char(i);
        match digit_of(c) {
            None => {
                proof {
                    assert(!is_digit(text@[i as int]));
                }
                return None;
            },
            Some(d) => {
                proof {
                    lemma_dec_val_take_succ(text@, i as int);
                    assert(all_digits(text@.take(i as int + 1)));
                }
                acc = acc * 10 + d as u32;
                if acc > 255 {
                    proof {
                        if all_digits(text@) {
                            lemma_dec_val_take_le(text@, i as int + 1);
                        }
                    }
                    return None;
                }
                i = i + 1;
            },
        }
    }
    proof {
        assert(text@.take(n as int) =~= text@);
    }
    Some(acc as u8)
}

/// The index of the first `.` in `text`, or its length when there is none;
/// the executable face of [`dot_index`].
pub fn find_dot(text: &str) -> (d: usize)
    ensures
        d as int == dot_index(text@),
        d as int <= text@.len(),
{
    let n = text.unicode_len();
    let mut j: usize = 0;
    while j < n
        invariant
            0 <= j <= n,
            n as int == text@.len(),
            forall|k: int| 0 <= k < j ==> text@[k] != '.',
        decreases n - j,
    {
        if text.get_char(j) == '.' {
            proof {
                text@.index_of_first_ensures('.');
            }
            return j;
        }
        j = j + 1;
    }
    proof {
        text@.index_of_first_ensures('.');
        if text@.contains('.') {
            let i = choose|i: int| 0 <= i < text@.len() && text@[i] == '.';
            assert(text@[i] != '.');
        }
    }
    n
}

/// The digested form of a seconds literal: whether its whole part reaches
/// sixty, and if not, the whole seconds and the rounded nanoseconds.
pub struct SecondScan {
    pub overflow: bool,
    pub whole: u8,
    pub nanos: u32,
}

/// Reads a seconds literal `digits[.digits]`: the number consumption for the
/// seconds field. On a well-formed literal it reports whether the value
/// reaches sixty seconds and, when it does not, the whole seconds together
/// with the fractional part rounded to the nearest nanosecond (ties away
/// from zero, saturating at 999 999 999).
pub fn scan_seconds(text: &str) -> (r: Option<SecondScan>)
    ensures
        match r {
            Option::Some(sc) => {
                &&& sec_text_wf(text@)
                &&& sc.overflow == (sec_whole(text@) >= 60)
                &&& !sc.overflow ==> sc.whole as int == sec_whole(text@) && sc.nanos as int
                    == sec_nanos(text@)
            },
            Option::None => !sec_text_wf(text@),
        },
{
    let n = text.unicode_len();
    let d = find_dot(text);
    if d == 0 {
        return None;
    }
    let ghost ip = int_part(text@);
    proof {
        assert(ip.len() == d as int);
    }
    // The whole part: all digits, value capped once it reaches sixty.
    let mut whole: u32 = 0;
    let mut big = false;
    let mut i: usize = 0;
    while i < d
        invariant
            0 <= i <= d,
            0 < d as int <= n,
            n as int == text@.len(),
            d as int == dot_index(text@),
            ip == int_part(text@),
            ip.len() == d as int,
            forall|k: int| 0 <= k < i ==> ip[k] == text@[k],
            all_digits(ip.take(i as int)),
            !big ==> whole as int == dec_val(ip.take(i as int)) && whole < 60,
            big ==> dec_val(ip.take(i as int)) >= 60,
        decreases d - i,
    {
        let c = text.get_char(i);
        proof {
            assert(ip[i as int] == text@[i as int]);
        }
        match digit_of(c) {
            None => {
                proof {
                    assert(!is_digit(ip[i as int]));
                }
                return None;
            },
            Some(dg) => {
                proof {
                    lemma_dec_val_take_succ(ip, i as int);
                    assert(all_digits(ip.take(i as int + 1)));
                }
                if !big {
                    whole = whole * 10 + dg as u32;
                    if whole >= 60 {
                        big = true;
                    }
                }
                i = i + 1;
            },
        }
    }
    proof {
        assert(ip.take(d as int) =~= ip);
    }
    // The fractional part: all digits.
    let fstart = if d < n {
        d + 1
    } else {
        n
    };
    let flen = n - fstart;
    let ghost fp = frac_part(text@);
    proof {
        assert(fp =~= text@.skip(fstart as int));
        assert(fp.len() == flen as int);
    }
    let mut k: usize = 0;
    while k < flen
        invariant
            0 <= k <= flen,
            n as int == text@.len(),
            fstart + flen == n,
            fp == frac_part(text@),
            fp =~= text@.skip(fstart as int),
            fp.len() == flen as int,
            all_digits(fp.take(k as int)),
        decreases flen - k,
    {
        let c = text.get_char(fstart + k);
        proof {
            assert(fp[k as int] == text@[fstart as int + k as int]);
        }
        match digit_of(c) {
            None => {
                proof {
                    assert(!is_digit(fp[k as int]));
                }
                return None;
            },
            Some(_) => {
                proof {
                    assert(all_digits(fp.take(k as int + 1)));
                }
                k = k + 1;
            },
        }
    }
    proof {
        assert(fp.take(flen as int) =~= fp);
    }
    // First nine fractional digits, padded with zeros.
    let ghost padded = pad_frac(fp);
    proof {
        assert(padded.len() == 9);
    }
    let mut nanos: u32 = 0;
    let mut p: usize = 0;
    while p < 9
        invariant
            0 <= p <= 9,
            n as int == text@.len(),
            fstart + flen == n,
            fp == frac_part(text@),
            fp == text@.skip(fstart as int),
            fp.len() == flen as int,
            all_digits(fp),
            padded == pad_frac(fp),
            padded.len() == 9,
            all_digits(padded),
            nanos as int == dec_val(padded.take(p as int)),
            (nanos as int) < pow10(p as nat),
        decreases 9 - p,
    {
        let dg: u8 = if p < flen {
            let c = text.get_char(fstart + p);
            proof {
                assert(padded[p as int] == fp[p as int]);
                assert(fp[p as int] == text@[fstart as int + p as int]);
            }
            match digit_of(c) {
                Some(x) => x,
                None => {
                    proof {
                        assert(false);
                    }
                    0
                },
            }
        } else {
            proof {
                assert(padded[p as int] == '0');
            }
            0
        };
        proof {
            assert(dg as int == digit_val(padded[p as int]));
            lemma_dec_val_take_succ(padded, p as int);
            lemma_pow10_mono(p as nat + 1, 9);
            lemma_pow10_9();
        }
        nanos = nanos * 10 + dg as u32;
        p = p + 1;
    }
    proof {
        assert(padded.take(9) =~= padded);
        lemma_dec_val_bounds(padded);
        lemma_pow10_9();
    }
    // The tenth fractional digit, if any, rounds the ninth up; a carry out of
    // the top is saturated.
    if flen > 9 {
        let c10 = text.get_char(fstart + 9);
        proof {
            assert(fp[9] == text@[fstart as int + 9]);
            assert(is_digit(fp[9]));
        }
        match digit_of(c10) {
            Some(x) => {
                if x >= 5 && nanos < 999_999_999 {
                    nanos = nanos + 1;
                }
            },
            None => {
                proof {
                    assert(false);
                }
            },
        }
    }
    let whole_u8: u8 = if big {
        0
    } else {
        whole as u8
    };
    Some(SecondScan { overflow: big, whole: whole_u8, nanos })
}

} // verus!
