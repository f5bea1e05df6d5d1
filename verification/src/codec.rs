//! Decimal text for fixed-point values.
//!
//! A scaled value prints as an optional minus sign, the integer part in
//! decimal, a point, and exactly nine fraction digits; parsing accepts an
//! optional minus sign, an integer part, and an optional fraction of any
//! length, of which the first nine digits are kept (the rest truncate
//! toward zero).  Printing then parsing gives the value back exactly.

use vstd::prelude::*;

verus! {

use crate::fixed::SCALE;

/// The decimal digit character for a value below ten.
pub open spec fn digit_char(d: int) -> char {
    if d == 0 { '0' }
    else if d == 1 { '1' }
    else if d == 2 { '2' }
    else if d == 3 { '3' }
    else if d == 4 { '4' }
    else if d == 5 { '5' }
    else if d == 6 { '6' }
    else if d == 7 { '7' }
    else if d == 8 { '8' }
    else { '9' }
}

/// The value of a decimal digit character; ten stands for "not a digit".
pub open spec fn digit_val(c: char) -> int {
    if c == '0' { 0 }
    else if c == '1' { 1 }
    else if c == '2' { 2 }
    else if c == '3' { 3 }
    else if c == '4' { 4 }
    else if c == '5' { 5 }
    else if c == '6' { 6 }
    else if c == '7' { 7 }
    else if c == '8' { 8 }
    else if c == '9' { 9 }
    else { 10 }
}

/// Whether a character is a decimal digit.
pub open spec fn is_digit(c: char) -> bool {
    digit_val(c) < 10
}

/// Powers of ten.
pub open spec fn pow10(w: nat) -> int
    decreases w,
{
    if w == 0 { 1 } else { 10 * pow10((w - 1) as nat) }
}

/// The decimal digits of `n`, most significant first, no leading zeros
/// (a single zero digit for zero itself).
pub open spec fn spec_digits(n: nat) -> Seq<char>
    decreases n,
{
    if n < 10 {
        seq![digit_char(n as int)]
    } else {
        spec_digits(n / 10) + seq![digit_char((n % 10) as int)]
    }
}

/// The last `w` decimal digits of `n`, zero-padded to exactly `w` places.
pub open spec fn spec_digits_fixed(n: nat, w: nat) -> Seq<char>
    decreases w,
{
    if w == 0 {
        Seq::empty()
    } else {
        spec_digits_fixed(n / 10, (w - 1) as nat) + seq![digit_char((n % 10) as int)]
    }
}

/// The magnitude of an integer.
pub open spec fn spec_abs(v: int) -> int {
    if v >= 0 { v } else { -v }
}

/// The canonical decimal text of a scaled value: sign, integer part,
/// point, nine fraction digits.
pub open spec fn spec_format_scaled(v: int) -> Seq<char> {
    let sign: Seq<char> = if v < 0 { seq!['-'] } else { Seq::empty() };
    sign + spec_digits((spec_abs(v) / (SCALE as int)) as nat) + seq!['.']
        + spec_digits_fixed((spec_abs(v) % (SCALE as int)) as nat, 9)
}

/// Append one decimal digit character.
fn push_digit(out: &mut String, d: u64)
    requires
        d < 10,
    ensures
        final(out)@ == old(out)@ + seq![digit_char(d as int)],
{
    proof {
        reveal_strlit("0");
        reveal_strlit("1");
        reveal_strlit("2");
        reveal_strlit("3");
        reveal_strlit("4");
        reveal_strlit("5");
        reveal_strlit("6");
        reveal_strlit("7");
        reveal_strlit("8");
        reveal_strlit("9");
    }
    match d {
        0 => out.append("0"),
        1 => out.append("1"),
        2 => out.append("2"),
        3 => out.append("3"),
        4 => out.append("4"),
        5 => out.append("5"),
        6 => out.append("6"),
        7 => out.append("7"),
        8 => out.append("8"),
        _ => out.append("9"),
    }
    proof {
        assert(out@ =~= old(out)@ + seq![digit_char(d as int)]);
    }
}

/// Append the decimal digits of `n`, most significant first.
fn push_digits(out: &mut String, n: u128)
    ensures
        final(out)@ == old(out)@ + spec_digits(n as nat),
    decreases n,
{
    if n < 10 {
        push_digit(out, n as u64);
    } else {
        push_digits(out, n / 10);
        push_digit(out, (n % 10) as u64);
        proof {
            assert(out@ =~= old(out)@ + spec_digits(n as nat));
        }
    }
}

/// Append the last `w` decimal digits of `n`, zero-padded.
fn push_digits_fixed(out: &mut String, n: u128, w: u64)
    ensures
        final(out)@ == old(out)@ + spec_digits_fixed(n as nat, w as nat),
    decreases w,
{
    if w == 0 {
        proof {
            assert(out@ =~= old(out)@ + spec_digits_fixed(n as nat, 0));
        }
    } else {
        push_digits_fixed(out, n / 10, w - 1);
        push_digit(out, (n % 10) as u64);
        proof {
            assert(out@ =~= old(out)@ + spec_digits_fixed(n as nat, w as nat));
        }
    }
}

/// Append the canonical decimal text of a scaled value.
pub fn push_scaled(out: &mut String, v: i128)
    requires
        -(i128::MAX as int) <= v,
    ensures
        final(out)@ == old(out)@ + spec_format_scaled(v as int),
{
    proof {
        reveal_strlit("-");
        reveal_strlit(".");
    }
    let mag: u128 = if v < 0 {
        out.append("-");
        (-v) as u128
    } else {
        v as u128
    };
    let s128: u128 = SCALE as u128;
    push_digits(out, mag / s128);
    out.append(".");
    push_digits_fixed(out, mag % s128, 9);
    proof {
        assert(out@ =~= old(out)@ + spec_format_scaled(v as int));
    }
}

/// Why a request payload was rejected.
#[derive(Clone, Copy, Debug, PartialEq, Eq, Structural)]
pub enum DecodeReason {
    Syntax,
    NumberTooLarge,
    LoanTermNotInteger,
    UnknownField,
    DuplicateField,
    MissingField,
}

/// Whether a character is JSON whitespace.
pub open spec fn is_ws(c: char) -> bool {
    c == ' ' || c == '\t' || c == '\n' || c == '\r'
}

/// The first index at or after `i` that holds no whitespace.
pub open spec fn spec_skip_ws(s: Seq<char>, i: int) -> int
    decreases s.len() - i,
{
    if i < s.len() && is_ws(s[i]) {
        spec_skip_ws(s, i + 1)
    } else {
        i
    }
}

/// The first index at or after `i` that holds no digit.
pub open spec fn spec_digits_end(s: Seq<char>, i: int) -> int
    decreases s.len() - i,
{
    if i < s.len() && is_digit(s[i]) {
        spec_digits_end(s, i + 1)
    } else {
        i
    }
}

/// The decimal value of the digit run `s[i..j)`.
pub open spec fn spec_digits_val(s: Seq<char>, i: int, j: int) -> int
    decreases j - i,
{
    if j <= i {
        0
    } else {
        spec_digits_val(s, i, j - 1) * 10 + digit_val(s[j - 1])
    }
}

proof fn lemma_digits_end_props(s: Seq<char>, i: int)
    requires
        0 <= i <= s.len(),
    ensures
        i <= spec_digits_end(s, i) <= s.len(),
        forall|k: int| i <= k < spec_digits_end(s, i) ==> is_digit(s[k]),
        spec_digits_end(s, i) < s.len() ==> !is_digit(s[spec_digits_end(s, i)]),
    decreases s.len() - i,
{
    if i < s.len() && is_digit(s[i]) {
        lemma_digits_end_props(s, i + 1);
    }
}

proof fn lemma_pow10_pos(w: nat)
    ensures
        pow10(w) >= 1,
    decreases w,
{
    if w > 0 {
        lemma_pow10_pos((w - 1) as nat);
    }
}

proof fn lemma_pow10_mono(a: nat, b: nat)
    requires
        a <= b,
    ensures
        pow10(a) <= pow10(b),
    decreases b,
{
    if a < b {
        lemma_pow10_mono(a, (b - 1) as nat);
        lemma_pow10_pos((b - 1) as nat);
    }
}

proof fn lemma_pow10_concrete()
    ensures
        pow10(9) == 1_000_000_000,
        pow10(18) == 1_000_000_000_000_000_000,
        pow10(19) == 10_000_000_000_000_000_000,
{
    reveal_with_fuel(pow10, 21);
}

proof fn lemma_pow10_add(a: nat, b: nat)
    ensures
        pow10(a + b) == pow10(a) * pow10(b),
    decreases a,
{
    if a == 0 {
    } else {
        lemma_pow10_add((a - 1) as nat, b);
        assert(pow10(a + b) == 10 * pow10((a + b - 1) as nat));
        assert(pow10(a) * pow10(b) == 10 * (pow10((a - 1) as nat) * pow10(b)))
            by (nonlinear_arith)
            requires pow10(a) == 10 * pow10((a - 1) as nat);
    }
}

/// A digit run of width `w` has a value below the `w`-th power of ten.
proof fn lemma_digits_val_bound(s: Seq<char>, i: int, j: int)
    requires
        0 <= i <= j <= s.len(),
        forall|k: int| i <= k < j ==> is_digit(s[k]),
    ensures
        0 <= spec_digits_val(s, i, j) < pow10((j - i) as nat),
    decreases j - i,
{
    if j <= i {
    } else {
        lemma_digits_val_bound(s, i, j - 1);
        assert(pow10((j - i) as nat) == 10 * pow10((j - 1 - i) as nat));
        assert(is_digit(s[j - 1]));
    }
}

/// The outcome of a number parse once the magnitude is known: too large a
/// magnitude is rejected, otherwise the signed scaled value and the index
/// after the number are returned.
pub open spec fn spec_finish_number(neg: bool, mag: int, next: int) -> Result<(int, int), DecodeReason> {
    if mag > i64::MAX {
        Err(DecodeReason::NumberTooLarge)
    } else {
        Ok(((if neg { -mag } else { mag }), next))
    }
}

/// Parse a decimal number at index `i` into a scaled value: an optional
/// minus sign, an integer part of at most nineteen digits, and an optional
/// fraction, of which the first nine digits are kept.
pub open spec fn spec_parse_number(s: Seq<char>, i: int) -> Result<(int, int), DecodeReason> {
    let neg = i < s.len() && s[i] == '-';
    let d0 = if neg { i + 1 } else { i };
    let e1 = spec_digits_end(s, d0);
    if e1 == d0 {
        Err(DecodeReason::Syntax)
    } else if e1 - d0 > 19 {
        Err(DecodeReason::NumberTooLarge)
    } else {
        let ip = spec_digits_val(s, d0, e1);
        if e1 < s.len() && s[e1] == '.' {
            let f0 = e1 + 1;
            let e2 = spec_digits_end(s, f0);
            if e2 == f0 {
                Err(DecodeReason::Syntax)
            } else {
                let fend = if e2 - f0 > 9 { f0 + 9 } else { e2 };
                let fr = spec_digits_val(s, f0, fend) * pow10((9 - (fend - f0)) as nat);
                spec_finish_number(neg, ip * (SCALE as int) + fr, e2)
            }
        } else {
            spec_finish_number(neg, ip * (SCALE as int), e1)
        }
    }
}

/// The decimal value of a digit character, with ten for anything else.
fn char_digit(c: char) -> (d: u64)
    ensures
        d == digit_val(c),
{
    match c {
        '0' => 0,
        '1' => 1,
        '2' => 2,
        '3' => 3,
        '4' => 4,
        '5' => 5,
        '6' => 6,
        '7' => 7,
        '8' => 8,
        '9' => 9,
        _ => 10,
    }
}

/// Skip whitespace from index `i`.
pub fn skip_ws(s: &str, i: usize) -> (r: usize)
    requires
        i <= s@.len(),
    ensures
        r == spec_skip_ws(s@, i as int),
        i <= r <= s@.len(),
{
    let n = s.unicode_len();
    let mut j = i;
    loop
        invariant
            i <= j <= n,
            n == s@.len(),
            spec_skip_ws(s@, i as int) == spec_skip_ws(s@, j as int),
        ensures
            i <= j <= n,
            spec_skip_ws(s@, i as int) == j,
        decreases n - j,
    {
        if j < n {
            let c = s.get_char(j);
            if c == ' ' || c == '\t' || c == '\n' || c == '\r' {
                j += 1;
            } else {
                break;
            }
        } else {
            break;
        }
    }
    j
}

/// Find the end of the digit run starting at index `i`.
pub fn digits_end(s: &str, i: usize) -> (r: usize)
    requires
        i <= s@.len(),
    ensures
        r == spec_digits_end(s@, i as int),
        i <= r <= s@.len(),
{
    let n = s.unicode_len();
    let mut j = i;
    loop
        invariant
            i <= j <= n,
            n == s@.len(),
            spec_digits_end(s@, i as int) == spec_digits_end(s@, j as int),
        ensures
            i <= j <= n,
            spec_digits_end(s@, i as int) == j,
        decreases n - j,
    {
        if j < n {
            let c = s.get_char(j);
            if char_digit(c) < 10 {
                j += 1;
            } else {
                break;
            }
        } else {
            break;
        }
    }
    j
}

/// The value of the digit run `s[i..j)`, at most nineteen digits wide.
fn digits_value(s: &str, i: usize, j: usize) -> (r: u128)
    requires
        i <= j <= s@.len(),
        j - i <= 19,
        forall|k: int| i <= k < j ==> is_digit(s@[k]),
    ensures
        r as int == spec_digits_val(s@, i as int, j as int),
{
    let mut idx = i;
    let mut val: u128 = 0;
    while idx < j
        invariant
            i <= idx <= j <= s@.len(),
            j - i <= 19,
            forall|k: int| i <= k < j ==> is_digit(s@[k]),
            val as int == spec_digits_val(s@, i as int, idx as int),
            (val as int) < pow10((idx - i) as nat),
        decreases j - idx,
    {
        let c = s.get_char(idx);
        let d = char_digit(c);
        proof {
            lemma_pow10_mono((idx - i) as nat, 18);
            lemma_pow10_concrete();
            assert(pow10((idx + 1 - i) as nat) == 10 * pow10((idx - i) as nat));
        }
        val = val * 10 + (d as u128);
        idx += 1;
    }
    val
}

/// One of the first ten powers of ten.
fn pow10_exec(w: u64) -> (r: u64)
    requires
        w <= 9,
    ensures
        r as int == pow10(w as nat),
{
    proof {
        reveal_with_fuel(pow10, 11);
    }
    match w {
        0 => 1,
        1 => 10,
        2 => 100,
        3 => 1_000,
        4 => 10_000,
        5 => 100_000,
        6 => 1_000_000,
        7 => 10_000_000,
        8 => 100_000_000,
        _ => 1_000_000_000,
    }
}

/// Parse a decimal number at index `i` into a scaled value and the index
/// just past its digits.
pub fn parse_number(s: &str, i: usize) -> (r: Result<(i64, usize), DecodeReason>)
    requires
        i <= s@.len(),
    ensures
        spec_parse_number(s@, i as int) matches Ok(p) ==> r matches Ok(q) && q.0 as int == p.0
            && q.1 as int == p.1 && i <= p.1 <= s@.len() && -(i64::MAX as int) <= p.0
            <= i64::MAX as int,
        spec_parse_number(s@, i as int) matches Err(e) ==> r matches Err(e2) && e2 == e,
{
    let n = s.unicode_len();
    let neg = if i < n { s.get_char(i) == '-' } else { false };
    let d0 = if neg { i + 1 } else { i };
    let e1 = digits_end(s, d0);
    proof {
        lemma_digits_end_props(s@, d0 as int);
    }
    if e1 == d0 {
        return Err(DecodeReason::Syntax);
    }
    if e1 - d0 > 19 {
        return Err(DecodeReason::NumberTooLarge);
    }
    proof {
        lemma_digits_val_bound(s@, d0 as int, e1 as int);
        lemma_pow10_mono((e1 - d0) as nat, 19);
        lemma_pow10_concrete();
    }
    let ip = digits_value(s, d0, e1);
    let dot = if e1 < n { s.get_char(e1) == '.' } else { false };
    if dot {
        let f0 = e1 + 1;
        let e2 = digits_end(s, f0);
        proof {
            lemma_digits_end_props(s@, f0 as int);
        }
        if e2 == f0 {
            return Err(DecodeReason::Syntax);
        }
        let fend = if e2 - f0 > 9 { f0 + 9 } else { e2 };
        proof {
            lemma_digits_val_bound(s@, f0 as int, fend as int);
            lemma_pow10_add((fend - f0) as nat, (9 - (fend - f0)) as nat);
            lemma_pow10_pos((9 - (fend - f0)) as nat);
            lemma_pow10_mono((fend - f0) as nat, 9);
            assert(spec_digits_val(s@, f0 as int, fend as int) * pow10((9 - (fend - f0)) as nat)
                <= (pow10((fend - f0) as nat) - 1) * pow10((9 - (fend - f0)) as nat))
                by (nonlinear_arith)
                requires
                    spec_digits_val(s@, f0 as int, fend as int) <= pow10((fend - f0) as nat) - 1,
                    pow10((9 - (fend - f0)) as nat) >= 1;
            assert((pow10((fend - f0) as nat) - 1) * pow10((9 - (fend - f0)) as nat)
                == pow10(9) - pow10((9 - (fend - f0)) as nat))
                by (nonlinear_arith)
                requires
                    pow10((fend - f0) as nat) * pow10((9 - (fend - f0)) as nat) == pow10(9);
            assert(spec_digits_val(s@, f0 as int, fend as int) * pow10((9 - (fend - f0)) as nat) >= 0)
                by (nonlinear_arith)
                requires
                    spec_digits_val(s@, f0 as int, fend as int) >= 0,
                    pow10((9 - (fend - f0)) as nat) >= 1;
        }
        let frv = digits_value(s, f0, fend);
        let fr: u128 = frv * (pow10_exec(9 - (fend as u64 - f0 as u64)) as u128);
        let mag: u128 = ip * (SCALE as u128) + fr;
        finish_number(neg, mag, e2)
    } else {
        let mag: u128 = ip * (SCALE as u128);
        finish_number(neg, mag, e1)
    }
}

/// Turn a parsed magnitude into the signed scaled value, rejecting
/// magnitudes beyond the representable range.
fn finish_number(neg: bool, mag: u128, next: usize) -> (r: Result<(i64, usize), DecodeReason>)
    ensures
        spec_finish_number(neg, mag as int, next as int) matches Ok(p) ==> r matches Ok(q)
            && q.0 as int == p.0 && q.1 as int == p.1,
        spec_finish_number(neg, mag as int, next as int) matches Err(e) ==> r matches Err(e2)
            && e2 == e,
{
    if mag > i64::MAX as u128 {
        Err(DecodeReason::NumberTooLarge)
    } else {
        let m = mag as i64;
        Ok((if neg { -m } else { m }, next))
    }
}

proof fn lemma_digit_char_val(d: int)
    requires
        0 <= d < 10,
    ensures
        digit_val(digit_char(d)) == d,
        is_digit(digit_char(d)),
{
}

/// Every character of a printed digit run is a digit, and the run is
/// never empty.
proof fn lemma_digits_all(n: nat)
    ensures
        spec_digits(n).len() >= 1,
        forall|k: int| 0 <= k < spec_digits(n).len() ==> is_digit(#[trigger] spec_digits(n)[k]),
    decreases n,
{
    if n < 10 {
        lemma_digit_char_val(n as int);
    } else {
        lemma_digits_all(n / 10);
        lemma_digit_char_val((n % 10) as int);
    }
}

/// A zero-padded digit run has exactly its width of characters, all digits.
proof fn lemma_digits_fixed_all(n: nat, w: nat)
    ensures
        spec_digits_fixed(n, w).len() == w,
        forall|k: int| 0 <= k < w ==> is_digit(#[trigger] spec_digits_fixed(n, w)[k]),
    decreases w,
{
    if w > 0 {
        lemma_digits_fixed_all(n / 10, (w - 1) as nat);
        lemma_digit_char_val((n % 10) as int);
    }
}

/// The digit scan stops exactly at the end of a known digit run.
proof fn lemma_digits_end_of_run(s: Seq<char>, i: int, j: int)
    requires
        0 <= i <= j <= s.len(),
        forall|k: int| i <= k < j ==> is_digit(s[k]),
        j == s.len() || !is_digit(s[j]),
    ensures
        spec_digits_end(s, i) == j,
    decreases j - i,
{
    if i < j {
        lemma_digits_end_of_run(s, i + 1, j);
    }
}

/// The value of a digit run depends only on the characters it covers.
proof fn lemma_digits_val_congruent(s1: Seq<char>, i1: int, s2: Seq<char>, i2: int, w: int)
    requires
        w >= 0,
        forall|k: int| 0 <= k < w ==> s1[i1 + k] == #[trigger] s2[i2 + k],
    ensures
        spec_digits_val(s1, i1, i1 + w) == spec_digits_val(s2, i2, i2 + w),
    decreases w,
{
    if w > 0 {
        lemma_digits_val_congruent(s1, i1, s2, i2, w - 1);
        assert(s1[i1 + (w - 1)] == s2[i2 + (w - 1)]);
    }
}

/// Reading back the printed digits of `n` yields `n`.
proof fn lemma_digits_roundtrip(n: nat)
    ensures
        spec_digits_val(spec_digits(n), 0, spec_digits(n).len() as int) == n,
    decreases n,
{
    let d = spec_digits(n);
    if n < 10 {
        lemma_digit_char_val(n as int);
        assert(spec_digits_val(d, 0, 0) == 0);
        assert(spec_digits_val(d, 0, 1) == spec_digits_val(d, 0, 0) * 10 + digit_val(d[0]));
    } else {
        let dq = spec_digits(n / 10);
        lemma_digits_roundtrip(n / 10);
        lemma_digit_char_val((n % 10) as int);
        assert(forall|k: int| 0 <= k < dq.len() ==> #[trigger] dq[0 + k] == d[0 + k]);
        lemma_digits_val_congruent(dq, 0, d, 0, dq.len() as int);
        assert(d[d.len() - 1] == digit_char((n % 10) as int));
        assert(d.len() == dq.len() + 1);
        assert(spec_digits_val(d, 0, d.len() as int) == spec_digits_val(d, 0, dq.len() as int)
            * 10 + digit_val(d[dq.len() as int]));
        assert(spec_digits_val(d, 0, dq.len() as int) == n / 10);
        assert(digit_val(d[dq.len() as int]) == n % 10);
        vstd::arithmetic::div_mod::lemma_fundamental_div_mod(n as int, 10);
    }
}

/// Reading back a zero-padded digit run of `n` yields `n`, provided `n`
/// fits the width.
proof fn lemma_digits_fixed_roundtrip(n: nat, w: nat)
    requires
        n < pow10(w),
    ensures
        spec_digits_val(spec_digits_fixed(n, w), 0, w as int) == n,
    decreases w,
{
    let d = spec_digits_fixed(n, w);
    if w == 0 {
    } else {
        let dq = spec_digits_fixed(n / 10, (w - 1) as nat);
        lemma_digits_fixed_all(n / 10, (w - 1) as nat);
        vstd::arithmetic::div_mod::lemma_fundamental_div_mod(n as int, 10);
        assert(pow10(w) == 10 * pow10((w - 1) as nat));
        assert(n / 10 < pow10((w - 1) as nat));
        lemma_digits_fixed_roundtrip(n / 10, (w - 1) as nat);
        lemma_digit_char_val((n % 10) as int);
        assert(forall|k: int| 0 <= k < dq.len() ==> #[trigger] dq[0 + k] == d[0 + k]);
        lemma_digits_val_congruent(dq, 0, d, 0, dq.len() as int);
        assert(d[d.len() - 1] == digit_char((n % 10) as int));
    }
}

/// A number below the `w`-th power of ten prints in at most `w` digits.
proof fn lemma_digits_len_le(n: nat, w: nat)
    requires
        n < pow10(w),
        w >= 1,
    ensures
        spec_digits(n).len() <= w,
    decreases n,
{
    if n < 10 {
    } else {
        if w < 2 {
            reveal_with_fuel(pow10, 2);
            assert(false);
        }
        vstd::arithmetic::div_mod::lemma_fundamental_div_mod(n as int, 10);
        assert(pow10(w) == 10 * pow10((w - 1) as nat));
        assert(n / 10 < pow10((w - 1) as nat));
        lemma_digits_len_le(n / 10, (w - 1) as nat);
    }
}

/// Printing a scaled value and parsing the text back yields exactly the
/// value, and consumes the whole text: the codec round-trips every
/// representable value without loss.
pub proof fn lemma_format_parse_round_trip(v: int)
    requires
        -(i64::MAX as int) <= v <= i64::MAX as int,
    ensures
        spec_parse_number(spec_format_scaled(v), 0) == Ok::<(int, int), DecodeReason>(
            (v, spec_format_scaled(v).len() as int),
        ),
{
    let s = spec_format_scaled(v);
    let sc = SCALE as int;
    let mag = spec_abs(v);
    let q = mag / sc;
    let rem = mag % sc;
    vstd::arithmetic::div_mod::lemma_fundamental_div_mod(mag, sc);
    vstd::arithmetic::div_mod::lemma_mod_division_less_than_divisor(mag, sc);
    vstd::arithmetic::div_mod::lemma_div_pos_is_pos(mag, sc);
    let dd = spec_digits(q as nat);
    let ff = spec_digits_fixed(rem as nat, 9);
    let b: int = if v < 0 { 1 } else { 0 };
    lemma_digits_all(q as nat);
    lemma_digits_fixed_all(rem as nat, 9);
    assert(s.len() == b + dd.len() + 1 + 9);
    // the character layout of the printed text
    assert(forall|k: int| 0 <= k < dd.len() ==> s[b + k] == dd[k]);
    assert(s[b + dd.len()] == '.');
    assert(forall|k: int| 0 <= k < 9 ==> s[b + dd.len() + 1 + k] == ff[k]);
    if v < 0 {
        assert(s[0] == '-');
    } else {
        assert(s[0] == dd[0]);
        assert(is_digit(s[0]));
    }
    let neg = v < 0;
    let d0 = b;
    // the integer-part scan covers exactly the printed digits
    assert(forall|k: int| d0 <= k < d0 + dd.len() ==> is_digit(s[k]));
    lemma_digits_end_of_run(s, d0, d0 + dd.len());
    let e1 = d0 + dd.len();
    // at most nineteen digits: the magnitude fits well below ten to the 19th
    lemma_pow10_concrete();
    lemma_digits_len_le(q as nat, 19);
    // the integer part reads back as the quotient
    lemma_digits_val_congruent(dd, 0, s, d0, dd.len() as int);
    lemma_digits_roundtrip(q as nat);
    assert(spec_digits_val(s, d0, e1) == q);
    // the fraction scan covers exactly the nine padded digits
    let f0 = e1 + 1;
    assert(forall|k: int| f0 <= k < f0 + 9 ==> is_digit(s[k]));
    lemma_digits_end_of_run(s, f0, f0 + 9);
    let e2 = f0 + 9;
    assert(e2 == s.len());
    lemma_digits_val_congruent(ff, 0, s, f0, 9);
    lemma_digits_fixed_roundtrip(rem as nat, 9);
    assert(spec_digits_val(s, f0, e2) == rem);
    reveal_with_fuel(pow10, 1);
    assert(spec_digits_val(s, f0, e2) * pow10(0) == rem);
    assert(q * sc + rem == mag);
}

} // verus!
