//! Numbers in text: decimal and hexadecimal digits, and reading them back.
use vstd::prelude::*;

use crate::scan::all_within;
use crate::text::{chars_of, is_digit, push_char, within, CharClass};

verus! {

// ---------------------------------------------------------------------------
// Counting
// ---------------------------------------------------------------------------

/// One more, as long as it can be counted.
pub open spec fn succ(n: usize) -> usize {
    if n < usize::MAX {
        (n + 1) as usize
    } else {
        n
    }
}

/// Computes [`succ`].
pub fn next(n: usize) -> (r: usize)
    ensures
        r == succ(n),
{
    if n < usize::MAX {
        n + 1
    } else {
        n
    }
}

/// A sum, as long as it can be counted.
pub open spec fn total(a: usize, b: usize) -> usize {
    if a + b <= usize::MAX {
        (a + b) as usize
    } else {
        usize::MAX
    }
}

/// Computes [`total`].
pub fn sum(a: usize, b: usize) -> (r: usize)
    ensures
        r == total(a, b),
{
    if b <= usize::MAX - a {
        a + b
    } else {
        usize::MAX
    }
}

// ---------------------------------------------------------------------------
// Writing
// ---------------------------------------------------------------------------

pub open spec fn digit_char(d: nat) -> char {
    ('0' as u8 + d) as u8 as char
}

/// A number in decimal, without leading zeros.
pub open spec fn decimal(n: nat) -> Seq<char>
    decreases n,
{
    if n < 10 {
        seq![digit_char(n)]
    } else {
        decimal(n / 10).push(digit_char(n % 10))
    }
}

/// A number in decimal, with zeros in front up to a width.
pub open spec fn padded_decimal(n: nat, width: nat) -> Seq<char> {
    let d = decimal(n);
    if d.len() < width {
        Seq::new((width - d.len()) as nat, |i: int| '0') + d
    } else {
        d
    }
}

/// Appends [`decimal`] to a string.
pub fn push_decimal(s: &mut String, n: u64)
    ensures
        final(s)@ == old(s)@ + decimal(n as nat),
    decreases n,
{
    if n < 10 {
        push_char(s, ('0' as u8 + n as u8) as char);
        assert(s@ =~= old(s)@ + decimal(n as nat));
    } else {
        push_decimal(s, n / 10);
        let ghost before = s@;
        push_char(s, ('0' as u8 + (n % 10) as u8) as char);
        assert(s@ =~= old(s)@ + decimal(n as nat));
    }
}

/// Computes [`decimal`].
pub fn decimal_string(n: u64) -> (r: String)
    ensures
        r@ == decimal(n as nat),
{
    let mut s = String::new();
    push_decimal(&mut s, n);
    assert(s@ =~= decimal(n as nat));
    s
}

/// Appends [`padded_decimal`] to a string.
pub fn push_padded(s: &mut String, n: u64, width: usize)
    ensures
        final(s)@ == old(s)@ + padded_decimal(n as nat, width as nat),
{
    let d = decimal_string(n);
    let len = d.unicode_len();
    let ghost before = s@;
    if len < width {
        for i in 0..width - len
            invariant
                s@ == before + Seq::new(i as nat, |j: int| '0'),
        {
            push_char(s, '0');
            assert(s@ =~= before + Seq::new((i + 1) as nat, |j: int| '0'));
        }
    }
    s.append(d.as_str());
    assert(s@ =~= before + padded_decimal(n as nat, width as nat));
}

pub open spec fn hex_char(d: int) -> char {
    if d < 10 {
        ('0' as u8 + d) as u8 as char
    } else {
        ('a' as u8 + (d - 10)) as u8 as char
    }
}

/// Bytes as pairs of lower case hexadecimal digits.
pub open spec fn hex(bytes: Seq<u8>) -> Seq<char> {
    hex_first(bytes, bytes.len() as int)
}

/// The first `n` bytes as pairs of lower case hexadecimal digits.
pub open spec fn hex_first(bytes: Seq<u8>, n: int) -> Seq<char>
    decreases n,
{
    if n <= 0 {
        seq![]
    } else {
        hex_first(bytes, n - 1).push(hex_char(bytes[n - 1] as int / 16)).push(
            hex_char(bytes[n - 1] as int % 16),
        )
    }
}

fn push_hex_digit(s: &mut String, d: u8)
    requires
        d < 16,
    ensures
        final(s)@ == old(s)@.push(hex_char(d as int)),
{
    if d < 10 {
        push_char(s, ('0' as u8 + d) as char);
    } else {
        push_char(s, ('a' as u8 + (d - 10)) as char);
    }
}

/// Computes [`hex`].
pub fn hex_string(bytes: &[u8]) -> (r: String)
    ensures
        r@ == hex(bytes@),
{
    let mut s = String::new();
    for i in 0..bytes.len()
        invariant
            s@ == hex_first(bytes@, i as int),
    {
        push_hex_digit(&mut s, bytes[i] / 16);
        push_hex_digit(&mut s, bytes[i] % 16);
    }
    s
}

// ---------------------------------------------------------------------------
// Reading
// ---------------------------------------------------------------------------

/// The number that a run of decimal digits denotes.
pub open spec fn digits_value(s: Seq<char>) -> nat
    decreases s.len(),
{
    if s.len() == 0 {
        0
    } else {
        digits_value(s.drop_last()) * 10 + (s.last() as u8 - '0' as u8) as nat
    }
}

/// The digits of a numeral: what follows an optional plus sign.
pub open spec fn unsigned_part(s: Seq<char>) -> Seq<char> {
    if s.len() > 0 && s[0] == '+' {
        s.subrange(1, s.len() as int)
    } else {
        s
    }
}

/// The number that a text denotes, if it is a numeral for one of at most `max`:
/// an optional plus sign followed by one or more decimal digits and nothing else.
pub open spec fn parsed(s: Seq<char>, max: nat) -> Option<nat> {
    let d = unsigned_part(s);
    if d.len() > 0 && all_within(d, CharClass::Digit) && digits_value(d) <= max {
        Some(digits_value(d))
    } else {
        None
    }
}

fn parse_digits(v: &Vec<char>, from: usize, max: u64) -> (r: Option<u64>)
    requires
        from <= v@.len(),
        max <= 0xffff_ffff,
    ensures
        ({
            let d = v@.subrange(from as int, v@.len() as int);
            let good = d.len() > 0 && all_within(d, CharClass::Digit) && digits_value(d) <= max;
            match r {
                Some(n) => good && n == digits_value(d),
                None => !good,
            }
        }),
{
    let ghost d = v@.subrange(from as int, v@.len() as int);
    let mut n: u64 = 0;
    let mut i: usize = from;
    let mut fits = true;
    while i < v.len()
        invariant
            from <= i <= v@.len(),
            max <= 0xffff_ffff,
            d == v@.subrange(from as int, v@.len() as int),
            forall|k: int| 0 <= k < i - from ==> is_digit(#[trigger] d[k]),
            fits ==> n <= max && n == digits_value(d.take(i - from)),
            !fits ==> digits_value(d.take(i - from)) > max,
        decreases v@.len() - i,
    {
        let c = v[i];
        assert(c == d[i - from]);
        if c < '0' || c > '9' {
            assert(!is_digit(d[i - from]));
            return None;
        }
        assert(d.take(i - from + 1).drop_last() =~= d.take(i - from));
        if fits {
            n = n * 10 + (c as u8 - '0' as u8) as u64;
            fits = n <= max;
        }
        i += 1;
    }
    assert(d.take(d.len() as int) =~= d);
    if i == from || !fits {
        None
    } else {
        Some(n)
    }
}

/// Reads a numeral for a number of at most `max`.
fn parse_bounded(s: &str, max: u64) -> (r: Option<u64>)
    requires
        max <= 0xffff_ffff,
    ensures
        match r {
            Some(n) => n <= max && parsed(s@, max as nat) == Some(n as nat),
            None => parsed(s@, max as nat) is None,
        },
{
    let v = chars_of(s);
    assert(v@.subrange(0, v@.len() as int) =~= v@);
    if v.len() > 0 && v[0] == '+' {
        parse_digits(&v, 1, max)
    } else {
        parse_digits(&v, 0, max)
    }
}

/// Reads a text as a 16-bit number, as `str::parse` does.
pub open spec fn parsed_u16(s: Seq<char>) -> Option<u16> {
    match parsed(s, 0xffff) {
        Some(n) => Some(n as u16),
        None => None,
    }
}

/// Reads a text as a 32-bit number, as `str::parse` does.
pub open spec fn parsed_u32(s: Seq<char>) -> Option<u32> {
    match parsed(s, 0xffff_ffff) {
        Some(n) => Some(n as u32),
        None => None,
    }
}

/// Computes [`parsed_u16`].
pub fn parse_u16(s: &str) -> (r: Option<u16>)
    ensures
        r == parsed_u16(s@),
{
    match parse_bounded(s, 0xffff) {
        Some(n) => Some(n as u16),
        None => None,
    }
}

/// Computes [`parsed_u32`].
pub fn parse_u32(s: &str) -> (r: Option<u32>)
    ensures
        r == parsed_u32(s@),
{
    match parse_bounded(s, 0xffff_ffff) {
        Some(n) => Some(n as u32),
        None => None,
    }
}

/// Computes [`parsed_u32`] of an optional text.
pub fn parse_u32_option(s: &Option<String>) -> (r: Option<u32>)
    ensures
        r == match s.deep_view() {
            Some(t) => parsed_u32(t),
            None => None,
        },
{
    match s {
        Some(t) => parse_u32(t.as_str()),
        None => None,
    }
}

// ---------------------------------------------------------------------------
// Laws
// ---------------------------------------------------------------------------

/// Decimal digits are digits, and there is at least one.
pub proof fn lemma_decimal_is_digits(n: nat)
    ensures
        decimal(n).len() > 0,
        all_within(decimal(n), CharClass::Digit),
    decreases n,
{
    if n >= 10 {
        lemma_decimal_is_digits(n / 10);
    }
}

/// What is written in decimal is read back.
pub proof fn lemma_decimal_value(n: nat)
    ensures
        digits_value(decimal(n)) == n,
    decreases n,
{
    if n >= 10 {
        lemma_decimal_value(n / 10);
        assert(decimal(n).drop_last() =~= decimal(n / 10));
        assert(decimal(n).last() == digit_char(n % 10));
    } else {
        assert(decimal(n).drop_last() =~= Seq::<char>::empty());
        assert(digits_value(decimal(n).drop_last()) == 0);
    }
}

/// A number that fits is read back from its decimal digits.
pub proof fn lemma_decimal_parsed(n: nat, max: nat)
    requires
        n <= max,
    ensures
        parsed(decimal(n), max) == Some(n),
{
    lemma_decimal_is_digits(n);
    lemma_decimal_value(n);
    assert(is_digit(decimal(n)[0]));
    assert(unsigned_part(decimal(n)) == decimal(n));
}

/// Different numbers are written differently.
pub proof fn lemma_decimal_injective(m: nat, n: nat)
    requires
        decimal(m) == decimal(n),
    ensures
        m == n,
{
    lemma_decimal_value(m);
    lemma_decimal_value(n);
}

// ---------------------------------------------------------------------------
// Laws
// ---------------------------------------------------------------------------

/// Counting goes up by one and sums add up, as far as numbers go; beyond that both stay at the
/// largest.
pub proof fn law_counting_stays_within_numbers(a: usize, b: usize)
    ensures
        a < usize::MAX ==> succ(a) == a + 1,
        succ(usize::MAX) == usize::MAX,
        a + b <= usize::MAX ==> total(a, b) == a + b,
        a + b > usize::MAX ==> total(a, b) == usize::MAX,
{
}

/// A numeral is read as the number that it was written for, with or without a plus sign, if it is
/// not too large; no text without digits, or with anything else, is one.
pub proof fn law_numerals_are_read(n: nat, s: Seq<char>, max: nat)
    ensures
        n <= max ==> parsed(decimal(n), max) == Some(n),
        n > max ==> parsed(decimal(n), max) is None,
        parsed(s, max) matches Some(k) ==> k <= max,
        s.len() == 0 ==> parsed(s, max) is None,
        (exists|i: int| 0 < i < s.len() && !('0' <= #[trigger] s[i] && s[i] <= '9'))
            ==> parsed(s, max) is None,
{
    lemma_decimal_is_digits(n);
    lemma_decimal_value(n);
    let d = decimal(n);
    assert(d.len() > 0);
    assert(within(CharClass::Digit, d[0]));
    assert(unsigned_part(d) == d);
    if exists|i: int| 0 < i < s.len() && !('0' <= #[trigger] s[i] && s[i] <= '9') {
        let i = choose|i: int| 0 < i < s.len() && !('0' <= #[trigger] s[i] && s[i] <= '9');
        let u = unsigned_part(s);
        if s[0] == '+' {
            assert(u[i - 1] == s[i]);
            assert(!within(CharClass::Digit, u[i - 1]));
        } else {
            assert(!within(CharClass::Digit, u[i]));
        }
    }
}

/// A digit behind a numeral adds itself to ten times the number.
pub proof fn law_digits_have_places(s: Seq<char>, c: char)
    requires
        '0' <= c <= '9',
    ensures
        digits_value(seq![]) == 0,
        digits_value(s.push(c)) == 10 * digits_value(s) + (c as int - '0' as int),
{
    assert(s.push(c).drop_last() =~= s);
}

/// Padding puts zeros in front up to the width and changes nothing else.
pub proof fn law_padding_adds_zeros(n: nat, width: nat, i: int)
    ensures
        ({
            let d = decimal(n);
            let p = padded_decimal(n, width);
            &&& p.len() == if d.len() < width {
                width
            } else {
                d.len()
            }
            &&& p.skip(p.len() - d.len()) == d
            &&& 0 <= i < p.len() - d.len() ==> p[i] == '0'
        }),
{
    let d = decimal(n);
    let p = padded_decimal(n, width);
    assert(p.skip(p.len() - d.len()) =~= d);
}

/// The value of a hexadecimal digit.
pub open spec fn hex_value(c: char) -> int {
    if '0' <= c <= '9' {
        c as int - '0' as int
    } else {
        c as int - 'a' as int + 10
    }
}

/// Each byte is written as two digits, the more significant first, from which it can be read back.
pub proof fn law_hex_digits_give_bytes(bytes: Seq<u8>, i: int)
    requires
        0 <= i < bytes.len(),
    ensures
        hex(bytes).len() == 2 * bytes.len(),
        bytes[i] == 16 * hex_value(hex(bytes)[2 * i]) + hex_value(hex(bytes)[2 * i + 1]),
{
    lemma_hex_digits(bytes, bytes.len() as int, i);
}

proof fn lemma_hex_digits(bytes: Seq<u8>, n: int, i: int)
    requires
        0 <= i < n <= bytes.len(),
    ensures
        hex_first(bytes, n).len() == 2 * n,
        bytes[i] == 16 * hex_value(hex_first(bytes, n)[2 * i]) + hex_value(
            hex_first(bytes, n)[2 * i + 1],
        ),
    decreases n,
{
    let before = hex_first(bytes, n - 1);
    let high = bytes[n - 1] as int / 16;
    let low = bytes[n - 1] as int % 16;
    if n > 1 {
        lemma_hex_digits(bytes, n - 1, if i < n - 1 {
            i
        } else {
            0
        });
    }
    assert(before.len() == 2 * (n - 1));
    assert(0 <= high < 16 && 0 <= low < 16);
    lemma_hex_char(high);
    lemma_hex_char(low);
    if i < n - 1 {
        assert(hex_first(bytes, n)[2 * i] == before[2 * i]);
        assert(hex_first(bytes, n)[2 * i + 1] == before[2 * i + 1]);
    }
}

proof fn lemma_hex_char(d: int)
    requires
        0 <= d < 16,
    ensures
        hex_value(hex_char(d)) == d,
{
}

} // verus!
