//! Decimal rendering of integers and exact fractions.
use vstd::prelude::*;
use vstd::string::*;
use crate::chars::{bare_text, lemma_bare_text_concat, bracket_free, is_bracket, lemma_bracket_free_chars, lemma_bracket_free_concat, lemma_bracket_free_last, lemma_bracket_free_push};

verus! {

/// Appends one character to a string by calling `String::push`.
/// The contract (taken on trust, as `String::push` documents it) is that the
/// character is added at the end and nothing else changes.
#[verifier::external_body]
pub(crate) fn push_char(out: &mut String, c: char)
    ensures
        final(out)@ == old(out)@.push(c),
{
    out.push(c);
}

/// The ASCII digit for a value below ten.
pub open spec fn digit_char(d: nat) -> char {
    (48 + d) as char
}

/// Decimal digits of a natural number, most significant first, without leading zeros.
pub open spec fn dec(n: nat) -> Seq<char>
    decreases n,
{
    if n < 10 {
        seq![digit_char(n)]
    } else {
        dec(n / 10).push(digit_char(n % 10))
    }
}

fn digit(d: u128) -> (c: char)
    requires
        d < 10,
    ensures
        c == digit_char(d as nat),
{
    ((48u8 + d as u8) as char)
}

/// Appends the decimal form of `n`.
pub fn push_u128(out: &mut String, n: u128)
    ensures
        final(out)@ == old(out)@ + dec(n as nat),
    decreases n,
{
    if n >= 10 {
        push_u128(out, n / 10);
        push_char(out, digit(n % 10));
        assert(dec(n as nat) == dec((n / 10) as nat).push(digit_char((n % 10) as nat)));
        assert(out@ =~= old(out)@ + dec(n as nat));
    } else {
        push_char(out, digit(n));
        assert(old(out)@.push(digit_char(n as nat)) =~= old(out)@ + dec(n as nat));
    }
}

/// Appends the decimal form of `n`.
pub fn push_u64(out: &mut String, n: u64)
    ensures
        final(out)@ == old(out)@ + dec(n as nat),
{
    push_u128(out, n as u128);
}

/// Decimal form of an integer, with a leading minus sign when negative.
pub open spec fn int_text(i: int) -> Seq<char> {
    if i < 0 {
        seq!['-'] + dec((-i) as nat)
    } else {
        dec(i as nat)
    }
}

/// Appends the decimal form of `n`.
pub fn push_i64(out: &mut String, n: i64)
    ensures
        final(out)@ == old(out)@ + int_text(n as int),
{
    if n < 0 {
        push_char(out, '-');
        let m: u64 = ((-(n + 1)) as u64) + 1;
        push_u64(out, m);
        assert(out@ =~= old(out)@ + int_text(n as int));
    } else {
        push_u64(out, n as u64);
    }
}

/// Ten to the power `k`.
pub open spec fn pow10(k: nat) -> nat
    decreases k,
{
    if k == 0 {
        1
    } else {
        10 * pow10((k - 1) as nat)
    }
}

/// `a / b` rounded to the nearest integer, ties to the even neighbour.
pub open spec fn round_half_even(a: nat, b: nat) -> nat {
    let q = a / b;
    let r = a % b;
    if 2 * r > b || (2 * r == b && q % 2 == 1) {
        (q + 1) as nat
    } else {
        q
    }
}

/// `n` copies of the character `c`.
pub open spec fn repeat(c: char, n: nat) -> Seq<char> {
    Seq::new(n, |_i: int| c)
}

/// `s` preceded by enough copies of `c` to reach `width` characters.
pub open spec fn left_fill(s: Seq<char>, width: nat, c: char) -> Seq<char> {
    if s.len() < width {
        repeat(c, (width - s.len()) as nat) + s
    } else {
        s
    }
}

/// `s` right-aligned in a field of `width` characters.
pub open spec fn pad_left(s: Seq<char>, width: nat) -> Seq<char> {
    left_fill(s, width, ' ')
}

/// `s` left-aligned in a field of `width` characters.
pub open spec fn pad_right(s: Seq<char>, width: nat) -> Seq<char> {
    if s.len() < width {
        s + repeat(' ', (width - s.len()) as nat)
    } else {
        s
    }
}

/// `num / den` written with `places` fractional digits, rounded half to even;
/// a zero denominator gives `NaN` (for `0/0`) or `inf`.
pub open spec fn fixed_text(num: nat, den: nat, places: nat) -> Seq<char> {
    if den == 0 {
        if num == 0 {
            seq!['N', 'a', 'N']
        } else {
            seq!['i', 'n', 'f']
        }
    } else {
        let m = round_half_even(num * pow10(places), den);
        if places == 0 {
            dec(m)
        } else {
            dec(m / pow10(places)) + seq!['.'] + left_fill(dec(m % pow10(places)), places, '0')
        }
    }
}

fn pow10_exec(k: u32) -> (p: u128)
    requires
        k <= 6,
    ensures
        p == pow10(k as nat),
        1 <= p <= 1_000_000,
{
    proof {
        reveal_with_fuel(pow10, 7);
    }
    if k == 0 {
        1
    } else if k == 1 {
        10
    } else if k == 2 {
        100
    } else if k == 3 {
        1000
    } else if k == 4 {
        10000
    } else if k == 5 {
        100000
    } else {
        1000000
    }
}

/// Appends `n` copies of `c`.
pub fn push_repeat(out: &mut String, c: char, n: usize)
    ensures
        final(out)@ == old(out)@ + repeat(c, n as nat),
{
    let mut i: usize = 0;
    while i < n
        invariant
            i <= n,
            out@ == old(out)@ + repeat(c, i as nat),
        decreases n - i,
    {
        push_char(out, c);
        i = i + 1;
        assert(out@ =~= old(out)@ + repeat(c, i as nat));
    }
}

/// Appends `s` preceded by enough copies of `c` to fill `width` characters.
pub fn push_left_fill(out: &mut String, s: &str, width: usize, c: char)
    ensures
        final(out)@ == old(out)@ + left_fill(s@, width as nat, c),
{
    let len = s.unicode_len();
    if len < width {
        push_repeat(out, c, width - len);
    }
    out.append(s);
    assert(out@ =~= old(out)@ + left_fill(s@, width as nat, c));
}

/// Appends `s` right-aligned in a field of `width` characters.
pub fn push_pad_left(out: &mut String, s: &str, width: usize)
    ensures
        final(out)@ == old(out)@ + pad_left(s@, width as nat),
{
    push_left_fill(out, s, width, ' ');
}

/// Appends `s` left-aligned in a field of `width` characters.
pub fn push_pad_right(out: &mut String, s: &str, width: usize)
    ensures
        final(out)@ == old(out)@ + pad_right(s@, width as nat),
{
    let len = s.unicode_len();
    out.append(s);
    if len < width {
        push_repeat(out, ' ', width - len);
    }
    assert(out@ =~= old(out)@ + pad_right(s@, width as nat));
}

/// The rounded quotient `round_half_even(n, d)` computed on machine integers.
fn round_quotient(n: u128, d: u128) -> (m: u128)
    requires
        d > 0,
        n < u128::MAX,
    ensures
        m == round_half_even(n as nat, d as nat),
{
    let q = n / d;
    let r = n % d;
    assert(q <= n) by (nonlinear_arith)
        requires
            d > 0,
            q == n / d,
    ;
    if r > d - r || (r == d - r && q % 2 == 1) {
        q + 1
    } else {
        q
    }
}

/// Appends `num / den` with `places` fractional digits, rounded half to even.
pub fn push_fixed(out: &mut String, num: u128, den: u64, places: u32)
    requires
        places <= 6,
        num <= 100 * (u64::MAX as int),
    ensures
        final(out)@ == old(out)@ + fixed_text(num as nat, den as nat, places as nat),
{
    if den == 0 {
        if num == 0 {
            push_char(out, 'N');
            push_char(out, 'a');
            push_char(out, 'N');
        } else {
            push_char(out, 'i');
            push_char(out, 'n');
            push_char(out, 'f');
        }
        assert(out@ =~= old(out)@ + fixed_text(num as nat, den as nat, places as nat));
        return;
    }
    let p = pow10_exec(places);
    assert(num * p <= 100 * (u64::MAX as int) * 1_000_000) by (nonlinear_arith)
        requires
            num <= 100 * (u64::MAX as int),
            1 <= p <= 1_000_000,
    ;
    let n = num * p;
    let m = round_quotient(n, den as u128);
    if places == 0 {
        push_u128(out, m);
    } else {
        push_u128(out, m / p);
        push_char(out, '.');
        let mut t = String::new();
        push_u128(&mut t, m % p);
        push_left_fill(out, t.as_str(), places as usize, '0');
    }
    assert(out@ =~= old(out)@ + fixed_text(num as nat, den as nat, places as nat));
}

/// An exact non-negative fraction `num / den`. A zero denominator stands
/// for a value that is not a finite number (`0/0` is not a number, `n/0` is infinite).
#[derive(Clone, Copy, Debug, PartialEq, Eq)]
pub struct Fraction {
    pub num: u64,
    pub den: u64,
}

/// `s` without trailing `'0'` characters, keeping at least one character.
pub open spec fn trim_zeros(s: Seq<char>) -> Seq<char>
    decreases s.len(),
{
    if s.len() > 1 && s.last() == '0' {
        trim_zeros(s.drop_last())
    } else {
        s
    }
}

/// JSON form of `num / den`: rounded half to even to six fractional digits,
/// trailing zeros dropped (at least one fractional digit kept);
/// `null` where the value is not finite.
pub open spec fn json_number_text(num: nat, den: nat) -> Seq<char> {
    if den == 0 {
        "null"@
    } else {
        let m = round_half_even(num * pow10(6), den);
        dec(m / pow10(6)) + seq!['.'] + trim_zeros(left_fill(dec(m % pow10(6)), 6, '0'))
    }
}

/// Appends the JSON form of a fraction.
pub fn push_json_number(out: &mut String, f: Fraction)
    ensures
        final(out)@ == old(out)@ + json_number_text(f.num as nat, f.den as nat),
{
    if f.den == 0 {
        out.append("null");
        return;
    }
    let p = pow10_exec(6);
    assert((f.num as u128) * p <= (u64::MAX as int) * 1_000_000) by (nonlinear_arith)
        requires
            f.num <= u64::MAX,
            1 <= p <= 1_000_000,
    ;
    let m = round_quotient((f.num as u128) * p, f.den as u128);
    push_u128(out, m / p);
    push_char(out, '.');
    let mut t = String::new();
    push_u128(&mut t, m % p);
    let mut padded = String::new();
    push_left_fill(&mut padded, t.as_str(), 6, '0');
    let ghost full = padded@;
    let len = padded.as_str().unicode_len();
    let mut keep = len;
    assert(full.subrange(0, len as int) =~= full);
    while keep > 1 && padded.as_str().get_char(keep - 1) == '0'
        invariant
            1 <= len,
            keep <= len == full.len(),
            padded@ == full,
            keep >= 1,
            trim_zeros(full) == trim_zeros(full.subrange(0, keep as int)),
        decreases keep,
    {
        assert(full.subrange(0, keep as int).drop_last() =~= full.subrange(0, keep - 1));
        keep = keep - 1;
    }
    assert(trim_zeros(full.subrange(0, keep as int)) == full.subrange(0, keep as int));
    let kept = padded.as_str().substring_char(0, keep);
    out.append(kept);
    assert(out@ =~= old(out)@ + json_number_text(f.num as nat, f.den as nat));
}

// ----- numbers never hold JSON structure characters -----

pub proof fn lemma_dec_bracket_free(n: nat)
    ensures
        bracket_free(dec(n)),
    decreases n,
{
    if n >= 10 {
        lemma_dec_bracket_free(n / 10);
        lemma_bracket_free_push(dec(n / 10), digit_char(n % 10));
    } else {
        lemma_bracket_free_chars(seq![]);
        lemma_bracket_free_push(seq![], digit_char(n));
        assert(seq![digit_char(n)] =~= Seq::<char>::empty().push(digit_char(n)));
    }
}

pub proof fn lemma_int_text_bracket_free(i: int)
    ensures
        bracket_free(int_text(i)),
{
    if i < 0 {
        lemma_dec_bracket_free((-i) as nat);
        lemma_bracket_free_chars(seq!['-']);
        lemma_bracket_free_concat(seq!['-'], dec((-i) as nat));
    } else {
        lemma_dec_bracket_free(i as nat);
    }
}

proof fn lemma_trim_zeros_bracket_free(s: Seq<char>)
    requires
        bracket_free(s),
    ensures
        bracket_free(trim_zeros(s)),
    decreases s.len(),
{
    if s.len() > 1 && s.last() == '0' {
        lemma_bracket_free_last(s);
        lemma_trim_zeros_bracket_free(s.drop_last());
    }
}

proof fn lemma_left_fill_bracket_free(s: Seq<char>, width: nat, c: char)
    requires
        bracket_free(s),
        !is_bracket(c),
    ensures
        bracket_free(left_fill(s, width, c)),
{
    if s.len() < width {
        let r = repeat(c, (width - s.len()) as nat);
        lemma_bracket_free_chars(r);
        lemma_bracket_free_concat(r, s);
    }
}

pub proof fn lemma_json_number_bracket_free(num: nat, den: nat)
    ensures
        bracket_free(json_number_text(num, den)),
{
    if den == 0 {
        reveal_strlit("null");
        lemma_bracket_free_chars("null"@);
    } else {
        let m = round_half_even(num * pow10(6), den);
        lemma_dec_bracket_free(m / pow10(6));
        lemma_dec_bracket_free(m % pow10(6));
        lemma_left_fill_bracket_free(dec(m % pow10(6)), 6, '0');
        lemma_trim_zeros_bracket_free(left_fill(dec(m % pow10(6)), 6, '0'));
        lemma_bracket_free_chars(seq!['.']);
        lemma_bracket_free_concat(dec(m / pow10(6)), seq!['.']);
        lemma_bracket_free_concat(
            dec(m / pow10(6)) + seq!['.'],
            trim_zeros(left_fill(dec(m % pow10(6)), 6, '0')),
        );
    }
}

// ----- numbers hold no whitespace and no quotes -----

pub proof fn lemma_dec_bare(n: nat)
    ensures
        bare_text(dec(n)),
    decreases n,
{
    if n >= 10 {
        lemma_dec_bare(n / 10);
        lemma_bare_text_concat(dec(n / 10), seq![digit_char(n % 10)]);
        assert(dec(n / 10) + seq![digit_char(n % 10)] =~= dec(n));
    }
}

pub proof fn lemma_int_text_bare(i: int)
    ensures
        bare_text(int_text(i)),
{
    if i < 0 {
        lemma_dec_bare((-i) as nat);
        lemma_bare_text_concat(seq!['-'], dec((-i) as nat));
    } else {
        lemma_dec_bare(i as nat);
    }
}

proof fn lemma_trim_zeros_bare(s: Seq<char>)
    requires
        bare_text(s),
    ensures
        bare_text(trim_zeros(s)),
    decreases s.len(),
{
    if s.len() > 1 && s.last() == '0' {
        lemma_trim_zeros_bare(s.drop_last());
    }
}

pub proof fn lemma_json_number_bare(num: nat, den: nat)
    ensures
        bare_text(json_number_text(num, den)),
{
    if den == 0 {
        reveal_strlit("null");
    } else {
        let m = round_half_even(num * pow10(6), den);
        let frac = dec(m % pow10(6));
        lemma_dec_bare(m / pow10(6));
        lemma_dec_bare(m % pow10(6));
        if frac.len() < 6 {
            lemma_bare_text_concat(repeat('0', (6 - frac.len()) as nat), frac);
        }
        lemma_trim_zeros_bare(left_fill(frac, 6, '0'));
        lemma_bare_text_concat(dec(m / pow10(6)), seq!['.']);
        lemma_bare_text_concat(dec(m / pow10(6)) + seq!['.'], trim_zeros(left_fill(frac, 6, '0')));
    }
}

pub proof fn lemma_fixed_bare(num: nat, den: nat, places: nat)
    ensures
        bare_text(fixed_text(num, den, places)),
{
    if den != 0 {
        let m = round_half_even(num * pow10(places), den);
        if places == 0 {
            lemma_dec_bare(m);
        } else {
            let frac = dec(m % pow10(places));
            lemma_dec_bare(m / pow10(places));
            lemma_dec_bare(m % pow10(places));
            if frac.len() < places {
                lemma_bare_text_concat(repeat('0', (places - frac.len()) as nat), frac);
            }
            lemma_bare_text_concat(dec(m / pow10(places)), seq!['.']);
            lemma_bare_text_concat(dec(m / pow10(places)) + seq!['.'], left_fill(frac, places, '0'));
        }
    }
}

// ----- fixed-point text reads back as the rounded value -----

/// Whether every character of `s` is a decimal digit.
pub open spec fn all_digits(s: Seq<char>) -> bool {
    forall|i: int| 0 <= i < s.len() ==> '0' <= #[trigger] s[i] && s[i] <= '9'
}

/// The number that a string of decimal digits denotes, most significant first.
pub open spec fn digits_value(s: Seq<char>) -> nat
    decreases s.len(),
{
    if s.len() == 0 {
        0
    } else {
        digits_value(s.drop_last()) * 10 + ((s.last() as int) - 48) as nat
    }
}

proof fn lemma_digits_value_concat(a: Seq<char>, b: Seq<char>)
    ensures
        digits_value(a + b) == digits_value(a) * pow10(b.len()) + digits_value(b),
    decreases b.len(),
{
    if b.len() == 0 {
        assert(a + b =~= a);
        assert(digits_value(a) * pow10(0) == digits_value(a)) by (nonlinear_arith)
            requires
                pow10(0) == 1,
        ;
    } else {
        lemma_digits_value_concat(a, b.drop_last());
        assert((a + b).drop_last() =~= a + b.drop_last());
        let x = digits_value(a);
        let y = digits_value(b.drop_last());
        let p = pow10(b.drop_last().len());
        let dl = ((b.last() as int) - 48) as nat;
        assert((a + b).last() == b.last());
        assert(digits_value(a + b) == digits_value(a + b.drop_last()) * 10 + dl);
        assert(digits_value(b) == y * 10 + dl);
        assert(pow10(b.len()) == 10 * p);
        assert((x * p + y) * 10 == x * (10 * p) + y * 10) by (nonlinear_arith);
        assert(digits_value(a + b) == (x * p + y) * 10 + dl);
    }
}

proof fn lemma_digit_char_value(d: nat)
    requires
        d < 10,
    ensures
        digit_char(d) as int == 48 + d,
        '0' <= digit_char(d) <= '9',
{
}

proof fn lemma_dec_digits(n: nat)
    ensures
        all_digits(dec(n)),
        digits_value(dec(n)) == n,
        dec(n).len() >= 1,
        dec(n).len() == 1 || dec(n)[0] != '0',
        n >= 1 ==> dec(n)[0] != '0',
    decreases n,
{
    if n >= 10 {
        lemma_dec_digits(n / 10);
        assert(dec(n)[0] == dec(n / 10)[0]);
        assert(dec(n).drop_last() =~= dec(n / 10));
        lemma_digit_char_value((n % 10) as nat);
        assert(dec(n).last() == digit_char((n % 10) as nat));
        assert(digits_value(dec(n)) == digits_value(dec(n / 10)) * 10 + (n % 10));
        assert(n == (n / 10) * 10 + n % 10) by (nonlinear_arith);
    } else {
        lemma_digit_char_value(n);
        assert(seq![digit_char(n)].drop_last() =~= Seq::<char>::empty());
        assert(digits_value(Seq::<char>::empty()) == 0);
        assert(digits_value(dec(n)) == 0 * 10 + n);
    }
}

proof fn lemma_dec_len_bound(n: nat, p: nat)
    requires
        p >= 1,
        n < pow10(p),
    ensures
        dec(n).len() <= p,
    decreases n,
{
    if n >= 10 {
        assert(p >= 2) by {
            if p == 1 {
                assert(pow10(1) == 10) by {
                    reveal_with_fuel(pow10, 2);
                }
            }
        }
        let q = pow10((p - 1) as nat);
        assert(pow10(p) == 10 * q);
        assert(n / 10 < q) by (nonlinear_arith)
            requires
                n < 10 * q,
        ;
        lemma_dec_len_bound(n / 10, (p - 1) as nat);
    }
}

proof fn lemma_zero_fill_digits(s: Seq<char>, width: nat)
    requires
        all_digits(s),
    ensures
        all_digits(left_fill(s, width, '0')),
        digits_value(left_fill(s, width, '0')) == digits_value(s),
{
    if s.len() < width {
        let z = repeat('0', (width - s.len()) as nat);
        lemma_zeros_value(z.len());
        assert(repeat('0', z.len()) =~= z);
        lemma_digits_value_concat(z, s);
        assert(digits_value(z) * pow10(s.len()) == 0) by (nonlinear_arith)
            requires
                digits_value(z) == 0,
        ;
        assert(left_fill(s, width, '0') == z + s);
        assert forall|i: int| 0 <= i < (z + s).len() implies '0' <= #[trigger] (z + s)[i] && (z + s)[i] <= '9' by {
            if i >= z.len() {
                assert((z + s)[i] == s[i - z.len()]);
            }
        }
    }
}

proof fn lemma_zeros_value(k: nat)
    ensures
        digits_value(repeat('0', k)) == 0,
    decreases k,
{
    if k > 0 {
        lemma_zeros_value((k - 1) as nat);
        assert(repeat('0', k).drop_last() =~= repeat('0', (k - 1) as nat));
    }
}

proof fn lemma_pow10_positive(k: nat)
    ensures
        pow10(k) >= 1,
    decreases k,
{
    if k > 0 {
        lemma_pow10_positive((k - 1) as nat);
    }
}

/// A value rounded half to even is one of the two integers nearest to the
/// quotient: it differs from `a / b` by at most one half.
pub proof fn rounding_is_nearest(a: nat, b: nat)
    requires
        b > 0,
    ensures
        2 * (round_half_even(a, b) * b - a) <= b,
        2 * (a - round_half_even(a, b) * b) <= b,
{
    vstd::arithmetic::div_mod::lemma_fundamental_div_mod(a as int, b as int);
    let q = a / b;
    let r = a % b;
    assert(q * b == b * q) by (nonlinear_arith);
    assert((q + 1) * b == q * b + b) by (nonlinear_arith);
}

/// Fixed-point text with `places > 0` fractional digits is a run of integer
/// digits, a point and exactly `places` fractional digits; read back as a
/// decimal it is `num / den` rounded half to even to `places` places, so it
/// lies within half a unit of the last place of `num / den`.
pub proof fn fixed_text_reads_back(num: nat, den: nat, places: nat)
    requires
        den > 0,
        places > 0,
    ensures
        ({
            let t = fixed_text(num, den, places);
            let d = t.len() - places - 1;
            let whole = t.subrange(0, d);
            let frac = t.subrange(d + 1, t.len() as int);
            let value = digits_value(whole) * pow10(places) + digits_value(frac);
            &&& d >= 1
            &&& t[d] == '.'
            &&& all_digits(whole)
            &&& (whole.len() == 1 || whole[0] != '0')
            &&& all_digits(frac)
            &&& value == round_half_even(num * pow10(places), den)
            &&& 2 * (value * den - num * pow10(places)) <= den
            &&& 2 * (num * pow10(places) - value * den) <= den
        }),
{
    let p = pow10(places);
    lemma_pow10_positive(places);
    let m = round_half_even(num * p, den);
    let w = dec(m / p);
    let f = dec(m % p);
    lemma_dec_digits(m / p);
    lemma_dec_digits(m % p);
    assert(m % p < p) by (nonlinear_arith)
        requires
            p >= 1,
    ;
    lemma_dec_len_bound(m % p, places);
    lemma_zero_fill_digits(f, places);
    let padded = left_fill(f, places, '0');
    assert(padded.len() == places);
    let t = fixed_text(num, den, places);
    assert(t == w + seq!['.'] + padded);
    assert(t.subrange(0, w.len() as int) =~= w);
    assert(t.subrange((w.len() + 1) as int, t.len() as int) =~= padded);
    vstd::arithmetic::div_mod::lemma_fundamental_div_mod(m as int, p as int);
    assert((m / p) * p == p * (m / p)) by (nonlinear_arith);
    rounding_is_nearest(num * p, den);
}

/// With no fractional places, the text is all digits and reads back as
/// `num / den` rounded half to even.
pub proof fn fixed_text_reads_back_whole(num: nat, den: nat)
    requires
        den > 0,
    ensures
        all_digits(fixed_text(num, den, 0)),
        digits_value(fixed_text(num, den, 0)) == round_half_even(num, den),
{
    assert(pow10(0) == 1);
    lemma_dec_digits(round_half_even(num * pow10(0), den));
}

// ----- the JSON number form reads back as the rounded value -----

/// The number of decimal digits at the start of `s`.
pub open spec fn leading_digits(s: Seq<char>) -> nat
    decreases s.len(),
{
    if s.len() > 0 && '0' <= s[0] && s[0] <= '9' {
        1 + leading_digits(s.drop_first())
    } else {
        0
    }
}

proof fn lemma_leading_digits(w: Seq<char>, rest: Seq<char>)
    requires
        all_digits(w),
        rest.len() > 0,
        !('0' <= rest[0] && rest[0] <= '9'),
    ensures
        leading_digits(w + rest) == w.len(),
    decreases w.len(),
{
    if w.len() == 0 {
        assert(w + rest =~= rest);
    } else {
        lemma_leading_digits(w.drop_first(), rest);
        assert((w + rest).drop_first() =~= w.drop_first() + rest);
        assert((w + rest)[0] == w[0]);
    }
}

proof fn lemma_pow10_add(a: nat, b: nat)
    ensures
        pow10(a + b) == pow10(a) * pow10(b),
    decreases b,
{
    if b == 0 {
        assert(pow10(a) * pow10(0) == pow10(a)) by (nonlinear_arith)
            requires
                pow10(0) == 1,
        ;
    } else {
        lemma_pow10_add(a, (b - 1) as nat);
        assert(pow10(a + b) == 10 * pow10((a + b - 1) as nat));
        assert(pow10(b) == 10 * pow10((b - 1) as nat));
        assert(10 * (pow10(a) * pow10((b - 1) as nat)) == pow10(a) * (10 * pow10((b - 1) as nat))) by (nonlinear_arith);
    }
}

proof fn lemma_trim_zeros(s: Seq<char>)
    requires
        all_digits(s),
        s.len() >= 1,
    ensures
        1 <= trim_zeros(s).len() <= s.len(),
        all_digits(trim_zeros(s)),
        trim_zeros(s).len() == 1 || trim_zeros(s).last() != '0',
        s =~= trim_zeros(s) + repeat('0', (s.len() - trim_zeros(s).len()) as nat),
    decreases s.len(),
{
    if s.len() > 1 && s.last() == '0' {
        lemma_trim_zeros(s.drop_last());
        let t = trim_zeros(s.drop_last());
        let k = (s.drop_last().len() - t.len()) as nat;
        assert(repeat('0', k + 1) =~= repeat('0', k).push('0'));
        assert(s =~= s.drop_last().push('0'));
    }
}

/// The JSON number form of a finite `num / den` is a run of integer digits, a
/// point and one to six fractional digits, the last of them not a zero unless
/// it is the only one; read back as a decimal it is `num / den` rounded half
/// to even to six places.
pub proof fn json_number_reads_back(num: nat, den: nat)
    requires
        den > 0,
    ensures
        ({
            let t = json_number_text(num, den);
            let d = leading_digits(t) as int;
            let whole = t.subrange(0, d);
            let frac = t.subrange(d + 1, t.len() as int);
            let value = digits_value(whole) * pow10(frac.len()) + digits_value(frac);
            &&& 1 <= d < t.len()
            &&& t[d] == '.'
            &&& all_digits(whole)
            &&& (whole.len() == 1 || whole[0] != '0')
            &&& all_digits(frac)
            &&& 1 <= frac.len() <= 6
            &&& (frac.len() == 1 || frac.last() != '0')
            &&& value * pow10((6 - frac.len()) as nat) == round_half_even(num * pow10(6), den)
        }),
{
    let p = pow10(6);
    lemma_pow10_positive(6);
    let m = round_half_even(num * p, den);
    let w = dec(m / p);
    let f = dec(m % p);
    lemma_dec_digits(m / p);
    lemma_dec_digits(m % p);
    assert(m % p < p) by (nonlinear_arith)
        requires
            p >= 1,
    ;
    lemma_dec_len_bound(m % p, 6);
    lemma_zero_fill_digits(f, 6);
    let padded = left_fill(f, 6, '0');
    assert(padded.len() == 6);
    lemma_trim_zeros(padded);
    let kept = trim_zeros(padded);
    let z = (6 - kept.len()) as nat;
    let t = json_number_text(num, den);
    assert(t == w + seq!['.'] + kept);
    assert(w + seq!['.'] + kept =~= w + (seq!['.'] + kept));
    lemma_leading_digits(w, seq!['.'] + kept);
    assert(t.subrange(0, w.len() as int) =~= w);
    assert(t.subrange((w.len() + 1) as int, t.len() as int) =~= kept);
    lemma_zeros_value(z);
    lemma_digits_value_concat(kept, repeat('0', z));
    assert(digits_value(padded) == digits_value(kept) * pow10(z));
    lemma_pow10_add(kept.len(), z);
    assert(kept.len() + z == 6);
    let x = digits_value(w);
    let y = digits_value(kept);
    assert((x * pow10(kept.len()) + y) * pow10(z) == x * (pow10(kept.len()) * pow10(z)) + y * pow10(z)) by (nonlinear_arith);
    vstd::arithmetic::div_mod::lemma_fundamental_div_mod(m as int, p as int);
    assert((m / p) * p == p * (m / p)) by (nonlinear_arith);
}

// ----- decimal text and aligned cells -----

/// The decimal form of a natural number is a run of digits, with no leading
/// zero unless it is the single digit of zero, that reads back as the number.
pub proof fn decimal_text_reads_back(n: nat)
    ensures
        dec(n).len() >= 1,
        all_digits(dec(n)),
        dec(n).len() == 1 || dec(n)[0] != '0',
        digits_value(dec(n)) == n,
{
    lemma_dec_digits(n);
}

/// The decimal form of an integer is its magnitude's decimal form, behind a
/// minus sign exactly when it is negative.
pub proof fn integer_text_reads_back(i: int)
    ensures
        i < 0 ==> int_text(i)[0] == '-' && int_text(i).drop_first() == dec((-i) as nat),
        i >= 0 ==> int_text(i) == dec(i as nat),
        i >= 0 ==> all_digits(int_text(i)) && digits_value(int_text(i)) == i,
        i < 0 ==> all_digits(int_text(i).drop_first()) && digits_value(int_text(i).drop_first()) == -i,
{
    if i < 0 {
        lemma_dec_digits((-i) as nat);
        assert(int_text(i).drop_first() =~= dec((-i) as nat));
    } else {
        lemma_dec_digits(i as nat);
    }
}

/// A right-aligned cell is as wide as its column, or as its text where that
/// is wider; it ends with the text and is blank before it.
pub proof fn right_aligned_cell(s: Seq<char>, width: nat)
    ensures
        pad_left(s, width).len() == if s.len() < width {
            width
        } else {
            s.len()
        },
        pad_left(s, width).subrange(pad_left(s, width).len() - s.len(), pad_left(s, width).len() as int) == s,
        forall|k: int| 0 <= k < pad_left(s, width).len() - s.len() ==> #[trigger] pad_left(s, width)[k] == ' ',
{
    let t = pad_left(s, width);
    assert(t.subrange(t.len() - s.len(), t.len() as int) =~= s);
}

/// A left-aligned cell is as wide as its column, or as its text where that is
/// wider; it starts with the text and is blank after it.
pub proof fn left_aligned_cell(s: Seq<char>, width: nat)
    ensures
        pad_right(s, width).len() == if s.len() < width {
            width
        } else {
            s.len()
        },
        pad_right(s, width).subrange(0, s.len() as int) == s,
        forall|k: int| s.len() <= k < pad_right(s, width).len() ==> #[trigger] pad_right(s, width)[k] == ' ',
{
    let t = pad_right(s, width);
    assert(t.subrange(0, s.len() as int) =~= s);
}

} // verus!
