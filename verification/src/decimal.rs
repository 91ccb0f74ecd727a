//! Decimal notation: digit strings, day counts, and money amounts held as
//! whole hundredths of the currency unit.

use crate::text::{
    lemma_split_join, lemma_split_nonempty, lemma_split_without_separator, split, split_on,
    to_chars,
};
use vstd::prelude::*;
use vstd::slice::slice_subrange;

verus! {

/// The largest whole part whose hundredths can still be an `i64` amount.
pub const MAX_WHOLE: u64 = 92_233_720_368_547_759;

/// Whether `c` is one of the ten ASCII digits.
pub open spec fn is_digit(c: char) -> bool {
    '0' <= c <= '9'
}

/// The number a digit stands for; zero for any other character.
pub open spec fn digit_value(c: char) -> nat {
    if is_digit(c) {
        (c as int - '0' as int) as nat
    } else {
        0
    }
}

/// The digit that stands for `d`, for `d` below ten.
pub open spec fn digit_char(d: nat) -> char {
    ('0' as int + d) as char
}

/// Whether every character of `s` is a digit.
pub open spec fn all_digits(s: Seq<char>) -> bool {
    forall|i: int| 0 <= i < s.len() ==> is_digit(#[trigger] s[i])
}

/// The number written by the digit string `s`, most significant digit first.
pub open spec fn digits_value(s: Seq<char>) -> nat
    decreases s.len(),
{
    if s.len() == 0 {
        0
    } else {
        digits_value(s.drop_last()) * 10 + digit_value(s.last())
    }
}

/// The shortest digit string that writes `n`.
pub open spec fn decimal(n: nat) -> Seq<char>
    decreases n,
{
    if n < 10 {
        seq![digit_char(n)]
    } else {
        decimal(n / 10).push(digit_char(n % 10))
    }
}

/// `decimal(n)` with zeros put in front until it has at least `width` digits.
pub open spec fn zero_padded(n: nat, width: nat) -> Seq<char> {
    let digits = decimal(n);
    if digits.len() >= width {
        digits
    } else {
        Seq::new((width - digits.len()) as nat, |i: int| '0') + digits
    }
}

/// The day count that `text` writes: an optional plus sign, then one or more
/// digits whose value fits in a `u32`. Any other text writes none.
pub open spec fn count_of(text: Seq<char>) -> Option<u32> {
    let digits = if text.len() > 0 && text[0] == '+' {
        text.drop_first()
    } else {
        text
    };
    if digits.len() > 0 && all_digits(digits) && digits_value(digits) <= u32::MAX {
        Some(digits_value(digits) as u32)
    } else {
        None
    }
}

/// Whether `c` is a plus or a minus sign.
pub open spec fn is_sign(c: char) -> bool {
    c == '+' || c == '-'
}

/// `text` without the sign it may start with.
pub open spec fn unsigned_part(text: Seq<char>) -> Seq<char> {
    if text.len() > 0 && is_sign(text[0]) {
        text.drop_first()
    } else {
        text
    }
}

/// The digit at place `k` after the decimal point, zero where `frac` is too
/// short to have one.
pub open spec fn fraction_digit(frac: Seq<char>, k: int) -> nat {
    if 0 <= k < frac.len() {
        digit_value(frac[k])
    } else {
        0
    }
}

/// The hundredths nearest to the fraction written by the digits `frac`, a
/// half rounded up: the first two digits, plus one if the third is five or
/// more. The sum is 100 where the fraction rounds to a whole unit.
pub open spec fn rounded_hundredths(frac: Seq<char>) -> nat {
    fraction_digit(frac, 0) * 10 + fraction_digit(frac, 1) + if fraction_digit(frac, 2) >= 5 {
        1nat
    } else {
        0nat
    }
}

/// The hundredths written by an unsigned decimal: digits, optionally a point
/// and more digits, with at least one digit before or after the point.
pub open spec fn magnitude_of(body: Seq<char>) -> Option<nat> {
    let parts = split_on(body, '.');
    let whole = parts[0];
    let frac = if parts.len() == 2 {
        parts[1]
    } else {
        Seq::<char>::empty()
    };
    if parts.len() <= 2 && all_digits(whole) && all_digits(frac) && whole.len() + frac.len() > 0 {
        Some(digits_value(whole) * 100 + rounded_hundredths(frac))
    } else {
        None
    }
}

/// The amount, in hundredths, that `text` writes: an optional sign and an
/// unsigned decimal, rounded to the nearest hundredth with a half rounded
/// away from zero. Text of another form, or an amount outside `i64`, gives
/// none.
pub open spec fn amount_of(text: Seq<char>) -> Option<i64> {
    match magnitude_of(unsigned_part(text)) {
        Some(m) => {
            let v = if text.len() > 0 && text[0] == '-' {
                -(m as int)
            } else {
                m as int
            };
            if i64::MIN <= v <= i64::MAX {
                Some(v as i64)
            } else {
                None
            }
        },
        None => None,
    }
}

/// The magnitude of an amount, in hundredths.
pub open spec fn magnitude(v: int) -> nat {
    (if v < 0 {
        -v
    } else {
        v
    }) as nat
}

/// The two digits that write `n`, for `n` below one hundred.
pub open spec fn two_digits(n: nat) -> Seq<char> {
    seq![digit_char(n / 10), digit_char(n % 10)]
}

/// How a magnitude of `m` hundredths is written: the whole units, a point,
/// and the hundredths left over with two digits.
pub open spec fn unsigned_amount_text(m: nat) -> Seq<char> {
    decimal(m / 100) + seq!['.'] + two_digits(m % 100)
}

/// How an amount of `v` hundredths is written: a minus sign if it is
/// negative, then its magnitude with exactly two digits after the point.
pub open spec fn amount_text(v: int) -> Seq<char> {
    if v < 0 {
        seq!['-'] + unsigned_amount_text(magnitude(v))
    } else {
        unsigned_amount_text(magnitude(v))
    }
}

/// The amount that `text` writes, zero where it writes none.
pub open spec fn amount_or_zero(text: Seq<char>) -> i64 {
    match amount_of(text) {
        Some(v) => v,
        None => 0,
    }
}

/// The day count that `text` writes, zero where it writes none.
pub open spec fn count_or_zero(text: Seq<char>) -> u32 {
    match count_of(text) {
        Some(n) => n,
        None => 0,
    }
}

/// Whether `c` can occur in the text of a number: a digit, a sign or a point.
pub open spec fn is_numeric_char(c: char) -> bool {
    is_digit(c) || is_sign(c) || c == '.'
}

/// `decimal(n)` is a non-empty digit string that writes `n`.
pub proof fn lemma_decimal(n: nat)
    ensures
        decimal(n).len() >= 1,
        all_digits(decimal(n)),
        digits_value(decimal(n)) == n,
    decreases n,
{
    if n < 10 {
        let s = decimal(n);
        assert(s.drop_last() == Seq::<char>::empty());
        assert(digits_value(s.drop_last()) == 0);
    } else {
        lemma_decimal(n / 10);
        let s = decimal(n);
        assert(s.drop_last() == decimal(n / 10));
        assert(s.last() == digit_char(n % 10));
    }
}

/// A digit string holds no character that is not a digit.
pub proof fn lemma_digits_exclude(s: Seq<char>, c: char)
    requires
        all_digits(s),
        !is_digit(c),
    ensures
        !s.contains(c),
{
}

/// A digit string writes at least as much as any of its prefixes.
pub proof fn lemma_digits_value_prefix(s: Seq<char>, k: int)
    requires
        0 <= k <= s.len(),
    ensures
        digits_value(s.take(k)) <= digits_value(s),
    decreases s.len(),
{
    if k == s.len() {
        assert(s.take(k) == s);
    } else {
        lemma_digits_value_prefix(s.drop_last(), k);
        assert(s.drop_last().take(k) == s.take(k));
    }
}

/// A padded number is a digit string of at least the asked width.
pub proof fn lemma_zero_padded(n: nat, width: nat)
    ensures
        all_digits(zero_padded(n, width)),
        zero_padded(n, width).len() >= width,
        zero_padded(n, width).len() >= 1,
{
    lemma_decimal(n);
}

/// A day count is read back from its decimal text.
pub proof fn lemma_count_read_back(n: u32)
    ensures
        count_of(decimal(n as nat)) == Some(n),
{
    lemma_decimal(n as nat);
}

/// The text of a magnitude is digits around one point: at least one digit
/// before it and two after it.
pub proof fn lemma_unsigned_amount_text(m: nat)
    ensures
        unsigned_amount_text(m).len() == decimal(m / 100).len() + 3,
        is_digit(unsigned_amount_text(m)[0]),
        is_digit(unsigned_amount_text(m).last()),
        forall|i: int|
            0 <= i < unsigned_amount_text(m).len() ==> is_numeric_char(
                #[trigger] unsigned_amount_text(m)[i],
            ),
{
    lemma_decimal(m / 100);
    let whole = decimal(m / 100);
    let text = unsigned_amount_text(m);
    assert(text[0] == whole[0]);
    assert forall|i: int| 0 <= i < text.len() implies is_numeric_char(#[trigger] text[i]) by {
        if i < whole.len() {
            assert(text[i] == whole[i]);
        }
    }
}

/// The text of an amount holds only digits, a minus sign and a point; it
/// starts with a minus sign exactly if the amount is negative, and it ends
/// with a digit.
pub proof fn lemma_amount_text_chars(v: int)
    ensures
        amount_text(v).len() >= 4,
        forall|i: int| 0 <= i < amount_text(v).len() ==> is_numeric_char(#[trigger] amount_text(v)[i]),
        (amount_text(v)[0] == '-') == (v < 0),
        is_digit(amount_text(v)[0]) == (v >= 0),
        is_digit(amount_text(v).last()),
        unsigned_part(amount_text(v)) == unsigned_amount_text(magnitude(v)),
{
    let body = unsigned_amount_text(magnitude(v));
    lemma_unsigned_amount_text(magnitude(v));
    if v < 0 {
        let text = seq!['-'] + body;
        assert(text.drop_first() == body);
        assert(text.last() == body.last());
        assert forall|i: int| 0 <= i < text.len() implies is_numeric_char(#[trigger] text[i]) by {
            if i > 0 {
                assert(text[i] == body[i - 1]);
            }
        }
    }
}

/// An unsigned decimal with a whole part and two fraction digits writes the
/// whole part in units and the two digits in hundredths.
pub proof fn lemma_magnitude_of_two_places(whole: Seq<char>, hundredths: nat)
    requires
        all_digits(whole),
        hundredths < 100,
    ensures
        magnitude_of(whole + seq!['.'] + two_digits(hundredths)) == Some(
            digits_value(whole) * 100 + hundredths,
        ),
{
    let frac = two_digits(hundredths);
    let body = whole + seq!['.'] + frac;
    assert(all_digits(frac));
    lemma_digits_exclude(whole, '.');
    lemma_digits_exclude(frac, '.');
    lemma_split_join(whole, frac, '.');
    lemma_split_without_separator(whole, '.');
    lemma_split_without_separator(frac, '.');
    let parts = split_on(body, '.');
    assert(parts == seq![whole] + seq![frac]);
    assert(parts.len() == 2);
    assert(parts[0] == whole);
    assert(parts[1] == frac);
    assert(fraction_digit(frac, 0) == hundredths / 10);
    assert(fraction_digit(frac, 1) == hundredths % 10);
    assert(fraction_digit(frac, 2) == 0);
    assert(rounded_hundredths(frac) == hundredths);
}

/// The text of a magnitude writes that magnitude.
pub proof fn lemma_magnitude_read_back(m: nat)
    ensures
        magnitude_of(unsigned_amount_text(m)) == Some(m),
{
    lemma_decimal(m / 100);
    lemma_magnitude_of_two_places(decimal(m / 100), m % 100);
}

/// An amount is read back from its text.
pub proof fn lemma_amount_read_back(v: i64)
    ensures
        amount_of(amount_text(v as int)) == Some(v),
{
    lemma_amount_text_chars(v as int);
    lemma_magnitude_read_back(magnitude(v as int));
}

/// Tells whether `c` is a digit.
fn is_digit_char(c: char) -> (r: bool)
    ensures
        r == is_digit(c),
{
    '0' <= c && c <= '9'
}

/// The digit for a number below ten.
fn digit_to_char(d: u8) -> (c: char)
    requires
        d < 10,
    ensures
        c == digit_char(d as nat),
        is_digit(c),
        digit_value(c) == d,
{
    (48u8 + d) as char
}

/// The number a digit stands for.
fn char_to_digit(c: char) -> (d: u8)
    requires
        is_digit(c),
    ensures
        d == digit_value(c),
        d < 10,
{
    (c as u32 - 48) as u8
}

/// Tells whether `s` holds digits only.
fn is_all_digits(s: &[char]) -> (r: bool)
    ensures
        r == all_digits(s@),
{
    let mut i: usize = 0;
    while i < s.len()
        invariant
            i <= s@.len(),
            forall|k: int| 0 <= k < i ==> is_digit(#[trigger] s@[k]),
        decreases s@.len() - i,
    {
        if !is_digit_char(s[i]) {
            return false;
        }
        i += 1;
    }
    true
}

/// The value of the digit string `s`, unless it is more than `limit`.
fn bounded_value(s: &[char], limit: u64) -> (r: Option<u64>)
    requires
        all_digits(s@),
    ensures
        r == if digits_value(s@) <= limit {
            Some(digits_value(s@) as u64)
        } else {
            None
        },
{
    let mut value: u64 = 0;
    let mut i: usize = 0;
    while i < s.len()
        invariant
            i <= s@.len(),
            all_digits(s@),
            value == digits_value(s@.take(i as int)),
            value <= limit,
        decreases s@.len() - i,
    {
        let d = char_to_digit(s[i]);
        proof {
            let t = s@.take(i + 1);
            assert(t.drop_last() == s@.take(i as int));
            assert(t.last() == s@[i as int]);
            lemma_digits_value_prefix(s@, i + 1);
        }
        let next: u128 = value as u128 * 10 + d as u128;
        if next > limit as u128 {
            return None;
        }
        value = next as u64;
        i += 1;
    }
    proof {
        assert(s@.take(i as int) == s@);
    }
    Some(value)
}

/// Reads a day count from `text`.
pub fn read_count(text: &[char]) -> (r: Option<u32>)
    ensures
        r == count_of(text@),
{
    let n = text.len();
    let from: usize = if n > 0 && text[0] == '+' {
        1
    } else {
        0
    };
    let digits = slice_subrange(text, from, n);
    proof {
        if from == 1 {
            assert(digits@ == text@.drop_first());
        } else {
            assert(digits@ == text@);
        }
    }
    if digits.len() == 0 || !is_all_digits(digits) {
        return None;
    }
    match bounded_value(digits, 0xffff_ffff) {
        Some(v) => Some(v as u32),
        None => None,
    }
}

/// Reads the hundredths that the fraction digits `frac` round to.
fn read_hundredths(frac: &[char]) -> (h: u64)
    requires
        all_digits(frac@),
    ensures
        h == rounded_hundredths(frac@),
        h <= 100,
{
    let n = frac.len();
    let tens: u64 = if n > 0 {
        char_to_digit(frac[0]) as u64
    } else {
        0
    };
    let ones: u64 = if n > 1 {
        char_to_digit(frac[1]) as u64
    } else {
        0
    };
    let carry: u64 = if n > 2 && char_to_digit(frac[2]) >= 5 {
        1
    } else {
        0
    };
    tens * 10 + ones + carry
}

/// Reads an amount, in hundredths, from `text`.
pub fn read_amount(text: &[char]) -> (r: Option<i64>)
    ensures
        r == amount_of(text@),
{
    let n = text.len();
    let negative = n > 0 && text[0] == '-';
    let from: usize = if n > 0 && (text[0] == '+' || text[0] == '-') {
        1
    } else {
        0
    };
    let body = slice_subrange(text, from, n);
    proof {
        if from == 1 {
            assert(body@ == text@.drop_first());
        } else {
            assert(body@ == text@);
        }
        lemma_split_nonempty(body@, '.');
    }
    let parts = split(body, '.');
    if parts.len() > 2 {
        return None;
    }
    let whole = parts[0].as_slice();
    if !is_all_digits(whole) {
        return None;
    }
    let mut frac_len: usize = 0;
    let mut hundredths: u64 = 0;
    if parts.len() == 2 {
        let frac = parts[1].as_slice();
        if !is_all_digits(frac) {
            return None;
        }
        frac_len = frac.len();
        hundredths = read_hundredths(frac);
    }
    if whole.len() == 0 && frac_len == 0 {
        return None;
    }
    match bounded_value(whole, MAX_WHOLE) {
        None => None,
        Some(units) => {
            let magnitude: u64 = units * 100 + hundredths;
            if negative {
                if magnitude > 0x8000_0000_0000_0000 {
                    None
                } else if magnitude == 0x8000_0000_0000_0000 {
                    Some(i64::MIN)
                } else {
                    Some(-(magnitude as i64))
                }
            } else if magnitude > 0x7fff_ffff_ffff_ffff {
                None
            } else {
                Some(magnitude as i64)
            }
        },
    }
}

/// Reads a day count from a string.
pub fn parse_count(text: &str) -> (r: Option<u32>)
    ensures
        r == count_of(text@),
{
    let chars = to_chars(text);
    read_count(chars.as_slice())
}

/// Reads an amount, in hundredths, from a string.
pub fn parse_amount(text: &str) -> (r: Option<i64>)
    ensures
        r == amount_of(text@),
{
    let chars = to_chars(text);
    read_amount(chars.as_slice())
}

/// Appends the decimal digits of `n` to `out`.
pub fn push_decimal(out: &mut String, n: u128)
    ensures
        final(out)@ == old(out)@ + decimal(n as nat),
    decreases n,
{
    if n >= 10 {
        push_decimal(out, n / 10);
    }
    out.push(digit_to_char((n % 10) as u8));
    proof {
        if n >= 10 {
            assert(out@ == old(out)@ + decimal((n / 10) as nat).push(digit_char((n % 10) as nat)));
        } else {
            assert(out@ == old(out)@ + seq![digit_char(n as nat)]);
        }
    }
}

/// Appends the text of a magnitude of `m` hundredths to `out`.
fn push_magnitude(out: &mut String, m: u128)
    ensures
        final(out)@ == old(out)@ + unsigned_amount_text(m as nat),
{
    push_decimal(out, m / 100);
    out.push('.');
    let hundredths: u8 = (m % 100) as u8;
    out.push(digit_to_char(hundredths / 10));
    out.push(digit_to_char(hundredths % 10));
    proof {
        assert(out@ == old(out)@ + (decimal((m / 100) as nat) + seq!['.'] + two_digits(
            (m % 100) as nat,
        )));
    }
}

/// Appends the text of an amount of `v` hundredths to `out`.
pub fn push_amount(out: &mut String, v: i128)
    ensures
        final(out)@ == old(out)@ + amount_text(v as int),
{
    if v < 0 {
        out.push('-');
        push_magnitude(out, ((-(v + 1)) as u128) + 1);
        proof {
            assert(out@ == old(out)@ + (seq!['-'] + unsigned_amount_text(magnitude(v as int))));
        }
    } else {
        push_magnitude(out, v as u128);
    }
}

/// The text of an amount of `v` hundredths.
pub fn format_amount(v: i128) -> (text: String)
    ensures
        text@ == amount_text(v as int),
{
    let mut text = String::new();
    push_amount(&mut text, v);
    text
}

/// The decimal text of a day count.
pub fn format_count(n: u32) -> (text: String)
    ensures
        text@ == decimal(n as nat),
{
    let mut text = String::new();
    push_decimal(&mut text, n as u128);
    text
}

} // verus!
