//! Decimal numbers as text: printing, padding and parsing.

use vstd::prelude::*;
use vstd::string::*;

use crate::text::{ascii_lower, ascii_lower_text, chars_of, is_word, lower_char};

verus! {

/// The character of a decimal digit.
pub open spec fn digit(d: int) -> char {
    (('0' as u32) + d) as char
}

/// A character is a decimal digit.
pub open spec fn is_digit(c: char) -> bool {
    '0' <= c <= '9'
}

/// The number that a digit stands for.
pub open spec fn digit_value(c: char) -> int {
    (c as int) - ('0' as int)
}

/// A natural number in decimal, without leading zeros.
pub open spec fn nat_text(n: nat) -> Seq<char>
    decreases n,
{
    if n < 10 {
        seq![digit(n as int)]
    } else {
        nat_text(n / 10).push(digit((n % 10) as int))
    }
}

/// The value of a run of digits.
pub open spec fn digits_value(s: Seq<char>) -> int
    decreases s.len(),
{
    if s.len() == 0 {
        0
    } else {
        digits_value(s.drop_last()) * 10 + digit_value(s.last())
    }
}

/// A text is made of digits alone, one at least.
pub open spec fn all_digits(s: Seq<char>) -> bool {
    s.len() > 0 && forall|i: int| 0 <= i < s.len() ==> is_digit(#[trigger] s[i])
}

fn digit_char(d: u8) -> (c: char)
    requires
        d < 10,
    ensures
        c == digit(d as int),
{
    match d {
        0 => '0',
        1 => '1',
        2 => '2',
        3 => '3',
        4 => '4',
        5 => '5',
        6 => '6',
        7 => '7',
        8 => '8',
        _ => '9',
    }
}

/// Prints an unsigned number in decimal.
pub fn u64_text(n: u64) -> (r: String)
    ensures
        r@ == nat_text(n as nat),
    decreases n,
{
    if n < 10 {
        let mut s = String::new();
        s.push(digit_char(n as u8));
        assert(s@ =~= seq![digit(n as int)]);
        s
    } else {
        let mut s = u64_text(n / 10);
        s.push(digit_char((n % 10) as u8));
        s
    }
}

/// Prints an unsigned number of 128 bits in decimal.
pub fn u128_text(n: u128) -> (r: String)
    ensures
        r@ == nat_text(n as nat),
    decreases n,
{
    if n < 10 {
        u64_text(n as u64)
    } else {
        let mut s = u128_text(n / 10);
        s.push(digit_char((n % 10) as u8));
        s
    }
}

/// `k` zeros.
pub open spec fn zeros(k: nat) -> Seq<char> {
    Seq::new(k, |i: int| '0')
}

/// A natural number in decimal, with zeros in front up to `width` characters.
pub open spec fn padded_nat(n: nat, width: nat) -> Seq<char> {
    let t = nat_text(n);
    if t.len() < width {
        zeros((width - t.len()) as nat) + t
    } else {
        t
    }
}

/// Prints an unsigned number in decimal, with zeros in front up to `width`
/// characters.
pub fn padded_u64(n: u64, width: usize) -> (r: String)
    ensures
        r@ == padded_nat(n as nat, width as nat),
{
    let t = u64_text(n);
    let len = t.as_str().unicode_len();
    let mut s = String::new();
    let mut k: usize = len;
    while k < width
        invariant
            len == nat_text(n as nat).len(),
            len <= k,
            k <= width || k == len,
            s@ == zeros((k - len) as nat),
        decreases width - k,
    {
        s.push('0');
        k += 1;
        assert(s@ =~= zeros((k - len) as nat));
    }
    s.append(t.as_str());
    if width <= len {
        assert(s@ =~= t@);
    }
    s
}

pub proof fn lemma_digit(d: int)
    requires
        0 <= d < 10,
    ensures
        is_digit(digit(d)),
        digit_value(digit(d)) == d,
{
}

/// Decimal text is made of digits, starts with no superfluous zero, and reads
/// back as the number printed.
pub proof fn lemma_nat_text(n: nat)
    ensures
        all_digits(nat_text(n)),
        digits_value(nat_text(n)) == n,
        n > 0 ==> nat_text(n)[0] != '0',
    decreases n,
{
    if n < 10 {
        lemma_digit(n as int);
        reveal_with_fuel(digits_value, 2);
        assert(nat_text(n).drop_last() =~= Seq::<char>::empty());
    } else {
        lemma_nat_text(n / 10);
        lemma_digit((n % 10) as int);
        let t = nat_text(n);
        assert(t.drop_last() =~= nat_text(n / 10));
        assert forall|i: int| 0 <= i < t.len() implies is_digit(#[trigger] t[i]) by {
            if i < t.len() - 1 {
                assert(t[i] == nat_text(n / 10)[i]);
            }
        }
    }
}

pub open spec fn pow10(k: nat) -> nat
    decreases k,
{
    if k == 0 {
        1
    } else {
        10 * pow10((k - 1) as nat)
    }
}

/// A number below ten to the power of `k` has at most `k` digits.
pub proof fn lemma_nat_text_len(n: nat, k: nat)
    requires
        k > 0,
        n < pow10(k),
    ensures
        1 <= nat_text(n).len() <= k,
    decreases n,
{
    reveal_with_fuel(pow10, 2);
    if n >= 10 {
        assert(k > 1);
        assert(n / 10 < pow10((k - 1) as nat));
        lemma_nat_text_len(n / 10, (k - 1) as nat);
    }
}

/// The value of a run of digits behind zeros is that of the digits.
pub proof fn lemma_zeros_value(k: nat, t: Seq<char>)
    ensures
        digits_value(zeros(k) + t) == digits_value(t),
    decreases k + t.len(),
{
    if t.len() > 0 {
        lemma_zeros_value(k, t.drop_last());
        assert((zeros(k) + t).drop_last() =~= zeros(k) + t.drop_last());
    } else if k > 0 {
        lemma_zeros_value((k - 1) as nat, t);
        assert((zeros(k) + t).drop_last() =~= zeros((k - 1) as nat) + t);
        assert((zeros(k) + t).last() == '0');
    } else {
        assert(zeros(k) + t =~= t);
    }
}

/// The text after an optional sign.
pub open spec fn unsigned_part(s: Seq<char>) -> Seq<char> {
    if s.len() > 0 && (s[0] == '+' || s[0] == '-') {
        s.skip(1)
    } else {
        s
    }
}

/// The number that `str::parse::<i64>` reads: an optional sign, then one or
/// more digits, in the range of 64 bits. Anything else is no number.
pub open spec fn i64_of_text(s: Seq<char>) -> Option<i64> {
    let u = unsigned_part(s);
    let v = if s.len() > 0 && s[0] == '-' {
        -digits_value(u)
    } else {
        digits_value(u)
    };
    if all_digits(u) && i64::MIN <= v <= i64::MAX {
        Some(v as i64)
    } else {
        None
    }
}

proof fn lemma_digits_value_grows(s: Seq<char>, k: int)
    requires
        0 <= k <= s.len(),
        forall|i: int| 0 <= i < s.len() ==> is_digit(#[trigger] s[i]),
    ensures
        0 <= digits_value(s.take(k)) <= digits_value(s),
    decreases s.len(),
{
    if k == s.len() {
        assert(s.take(k) =~= s);
        if k > 0 {
            lemma_digits_value_grows(s.drop_last(), k - 1);
            assert(s.drop_last().take(k - 1) =~= s.drop_last());
            assert(is_digit(s.last()));
        }
    } else {
        lemma_digits_value_grows(s.drop_last(), k);
        assert(s.drop_last().take(k) =~= s.take(k));
        assert(is_digit(s.last()));
    }
}

/// Reads a signed 64-bit number.
pub fn parse_i64(s: &str) -> (r: Option<i64>)
    ensures
        r == i64_of_text(s@),
{
    let v = chars_of(s);
    let negative = v.len() > 0 && v[0] == '-';
    let start: usize = if v.len() > 0 && (v[0] == '+' || v[0] == '-') {
        1
    } else {
        0
    };
    let ghost u = unsigned_part(s@);
    assert(u =~= v@.skip(start as int));
    if start == v.len() {
        assert(!all_digits(u));
        return None;
    }
    let mut i: usize = start;
    let mut acc: i128 = 0;
    while i < v.len()
        invariant
            start <= i <= v.len(),
            v@ == s@,
            u == v@.skip(start as int),
            u == unsigned_part(s@),
            negative == (s@.len() > 0 && s@[0] == '-'),
            u.len() > 0,
            forall|j: int| 0 <= j < i - start ==> is_digit(#[trigger] u[j]),
            acc == digits_value(u.take(i - start)),
            0 <= acc <= 9223372036854775808,
        decreases v.len() - i,
    {
        let c = v[i];
        assert(u[i - start] == c);
        if !('0' <= c && c <= '9') {
            assert(!all_digits(u));
            return None;
        }
        let d: i128 = (c as u32 - '0' as u32) as i128;
        assert(u.take(i - start + 1).drop_last() =~= u.take(i - start));
        assert(u.take(i - start + 1).last() == c);
        acc = acc * 10 + d;
        i += 1;
        if acc > 9223372036854775808 {
            proof {
                if all_digits(u) {
                    lemma_digits_value_grows(u, i - start);
                }
            }
            return None;
        }
    }
    assert(u.take(i - start) =~= u);
    if negative {
        Some((-acc) as i64)
    } else if acc <= 9223372036854775807 {
        Some(acc as i64)
    } else {
        None
    }
}

/// The first position at or after `i` that holds no digit.
pub open spec fn digits_end(s: Seq<char>, i: int) -> int
    decreases s.len() - i,
{
    if 0 <= i < s.len() && is_digit(s[i]) {
        digits_end(s, i + 1)
    } else {
        i
    }
}

/// What may follow the mantissa of a number: nothing, or `e`, an optional
/// sign and digits up to the end.
pub open spec fn is_exponent(s: Seq<char>) -> bool {
    s.len() == 0 || (ascii_lower(s[0]) == 'e' && all_digits(unsigned_part(s.skip(1))))
}

/// A mantissa (digits with at most one point, at least one digit) and an
/// optional exponent.
pub open spec fn is_plain_float(s: Seq<char>) -> bool {
    let a = digits_end(s, 0);
    if a < s.len() && s[a] == '.' {
        let b = digits_end(s, a + 1);
        a + (b - a - 1) > 0 && is_exponent(s.skip(b))
    } else {
        a > 0 && is_exponent(s.skip(a))
    }
}

/// The texts that `str::parse::<f64>` accepts, by the grammar in std's
/// documentation: an optional sign, then `inf`, `infinity`, `nan` or a number,
/// letters in either case.
pub open spec fn is_float_text(s: Seq<char>) -> bool {
    let u = unsigned_part(s);
    let l = ascii_lower_text(u);
    l == "inf"@ || l == "infinity"@ || l == "nan"@ || is_plain_float(u)
}

fn find_digits_end(v: &Vec<char>, start: usize) -> (r: usize)
    requires
        start <= v.len(),
    ensures
        r == digits_end(v@, start as int),
        start <= r <= v.len(),
{
    let mut i = start;
    while i < v.len() && '0' <= v[i] && v[i] <= '9'
        invariant
            start <= i <= v.len(),
            digits_end(v@, start as int) == digits_end(v@, i as int),
        decreases v.len() - i,
    {
        i += 1;
    }
    i
}

fn tail_of(v: &Vec<char>, start: usize) -> (r: Vec<char>)
    requires
        start <= v.len(),
    ensures
        r@ == v@.skip(start as int),
{
    let mut r: Vec<char> = Vec::new();
    let mut i = start;
    while i < v.len()
        invariant
            start <= i <= v.len(),
            r@ == v@.subrange(start as int, i as int),
        decreases v.len() - i,
    {
        r.push(v[i]);
        i += 1;
        assert(r@ =~= v@.subrange(start as int, i as int));
    }
    assert(v@.subrange(start as int, v@.len() as int) =~= v@.skip(start as int));
    r
}

fn skip_sign(v: &Vec<char>) -> (r: Vec<char>)
    ensures
        r@ == unsigned_part(v@),
{
    if v.len() > 0 && (v[0] == '+' || v[0] == '-') {
        tail_of(v, 1)
    } else {
        let r = tail_of(v, 0);
        assert(r@ =~= v@);
        r
    }
}

fn are_digits(v: &Vec<char>) -> (r: bool)
    ensures
        r == all_digits(v@),
{
    if v.len() == 0 {
        return false;
    }
    let mut i: usize = 0;
    while i < v.len()
        invariant
            i <= v.len(),
            forall|j: int| 0 <= j < i ==> is_digit(#[trigger] v@[j]),
        decreases v.len() - i,
    {
        if !('0' <= v[i] && v[i] <= '9') {
            assert(!is_digit(v@[i as int]));
            return false;
        }
        i += 1;
    }
    true
}

fn exponent_ok(v: &Vec<char>) -> (r: bool)
    ensures
        r == is_exponent(v@),
{
    if v.len() == 0 {
        true
    } else if lower_char(v[0]) == 'e' {
        let rest = tail_of(v, 1);
        let digits = skip_sign(&rest);
        are_digits(&digits)
    } else {
        false
    }
}

/// Whether a text is one that reads as a floating-point number.
pub fn reads_as_float(s: &str) -> (r: bool)
    ensures
        r == is_float_text(s@),
{
    let v = chars_of(s);
    let u = skip_sign(&v);
    if is_word(&u, "inf") || is_word(&u, "infinity") || is_word(&u, "nan") {
        return true;
    }
    let a = find_digits_end(&u, 0);
    if a < u.len() && u[a] == '.' {
        let b = find_digits_end(&u, a + 1);
        let rest = tail_of(&u, b);
        a + (b - a - 1) > 0 && exponent_ok(&rest)
    } else {
        let rest = tail_of(&u, a);
        a > 0 && exponent_ok(&rest)
    }
}

} // verus!
