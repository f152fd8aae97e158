//! Decimal and hexadecimal rendering of integers, and `u64` parsing with the
//! rules of `str::parse::<u64>`.
use vstd::prelude::*;

verus! {

/// The character for digit `d` (`0-9`, then lowercase `a-f`).
pub open spec fn digit_char(d: nat) -> char {
    if d < 10 {
        (d + 48) as char
    } else {
        (d + 87) as char
    }
}

/// Decimal rendering of `n` (`format!("{n}")`).
pub open spec fn decimal(n: nat) -> Seq<char>
    decreases n,
{
    if n < 10 {
        seq![digit_char(n)]
    } else {
        decimal(n / 10) + seq![digit_char(n % 10)]
    }
}

/// Lowercase hexadecimal rendering of `n` (`format!("{n:x}")`).
pub open spec fn hex_lower(n: nat) -> Seq<char>
    decreases n,
{
    if n < 16 {
        seq![digit_char(n)]
    } else {
        hex_lower(n / 16) + seq![digit_char(n % 16)]
    }
}

/// Uppercase hexadecimal digit for a nibble.
pub open spec fn hex_upper_digit(d: nat) -> char {
    if d < 10 {
        (d + 48) as char
    } else {
        (d + 55) as char
    }
}

/// `format!("%{b:02X}")`.
pub open spec fn percent_byte(b: u8) -> Seq<char> {
    seq!['%', hex_upper_digit((b / 16) as nat), hex_upper_digit((b % 16) as nat)]
}

pub fn digit_char_exec(d: u32) -> (c: char)
    requires
        d < 16,
    ensures
        c == digit_char(d as nat),
{
    if d < 10 {
        crate::text::char_from_ascii_u32(d + 48)
    } else {
        crate::text::char_from_ascii_u32(d + 87)
    }
}

pub fn hex_upper_digit_exec(d: u8) -> (c: char)
    requires
        d < 16,
    ensures
        c == hex_upper_digit(d as nat),
{
    if d < 10 {
        crate::text::char_from_ascii_u32((d + 48) as u32)
    } else {
        crate::text::char_from_ascii_u32((d + 55) as u32)
    }
}

/// Appends `format!("%{b:02X}")` to `out`.
pub fn push_percent_byte(out: &mut String, b: u8)
    ensures
        final(out)@ == old(out)@ + percent_byte(b),
{
    out.push('%');
    out.push(hex_upper_digit_exec(b / 16));
    out.push(hex_upper_digit_exec(b % 16));
    assert(out@ =~= old(out)@ + percent_byte(b));
}

/// Appends the decimal rendering of `n` to `out`.
pub fn push_decimal(out: &mut String, n: u64)
    ensures
        final(out)@ == old(out)@ + decimal(n as nat),
    decreases n,
{
    if n >= 10 {
        push_decimal(out, n / 10);
    }
    out.push(digit_char_exec((n % 10) as u32));
    assert(out@ =~= old(out)@ + decimal(n as nat));
}

/// Appends the lowercase hexadecimal rendering of `n` to `out`.
pub fn push_hex_lower(out: &mut String, n: u128)
    ensures
        final(out)@ == old(out)@ + hex_lower(n as nat),
    decreases n,
{
    if n >= 16 {
        push_hex_lower(out, n / 16);
    }
    out.push(digit_char_exec((n % 16) as u32));
    assert(out@ =~= old(out)@ + hex_lower(n as nat));
}

/// ASCII decimal digit.
pub open spec fn is_digit(c: char) -> bool {
    0x30 <= (c as u32) && (c as u32) <= 0x39
}

/// Value of a run of decimal digits.
pub open spec fn digits_value(s: Seq<char>) -> nat
    decreases s.len(),
{
    if s.len() == 0 {
        0
    } else {
        digits_value(s.drop_last()) * 10 + ((s.last() as u32) - 48) as nat
    }
}

/// The digits that `str::parse::<u64>` reads: a single leading `+` is skipped.
pub open spec fn u64_digits(s: Seq<char>) -> Seq<char> {
    if s.len() > 0 && s[0] == '+' {
        s.drop_first()
    } else {
        s
    }
}

/// `str::parse::<u64>()`, with `None` for every error.
pub open spec fn parse_u64(s: Seq<char>) -> Option<u64> {
    let d = u64_digits(s);
    if d.len() > 0 && (forall|i: int| 0 <= i < d.len() ==> is_digit(#[trigger] d[i]))
        && digits_value(d) <= u64::MAX {
        Some(digits_value(d) as u64)
    } else {
        None
    }
}

pub proof fn lemma_digits_value_prefix_mono(s: Seq<char>, i: int, j: int)
    requires
        0 <= i <= j <= s.len(),
        forall|k: int| 0 <= k < s.len() ==> is_digit(#[trigger] s[k]),
    ensures
        digits_value(s.take(i)) <= digits_value(s.take(j)),
    decreases j - i,
{
    if i < j {
        lemma_digits_value_prefix_mono(s, i, j - 1);
        assert(s.take(j).drop_last() =~= s.take(j - 1));
    }
}

/// `str::parse::<u64>()` on characters, `None` on any error.
pub fn parse_u64_chars(v: &Vec<char>) -> (r: Option<u64>)
    ensures
        r == parse_u64(v@),
{
    let start: usize = if v.len() > 0 && v[0] == '+' {
        1
    } else {
        0
    };
    let ghost d = u64_digits(v@);
    assert(d =~= v@.skip(start as int));
    if start >= v.len() {
        return None;
    }
    let mut acc: u64 = 0;
    let mut i: usize = start;
    assert(d.take(0) =~= Seq::<char>::empty());
    while i < v.len()
        invariant
            start <= i <= v@.len(),
            d == v@.skip(start as int),
            d == u64_digits(v@),
            start == 0 || (start == 1 && v@[0] == '+'),
            start == 0 ==> !(v@.len() > 0 && v@[0] == '+'),
            acc as nat == digits_value(d.take(i - start)),
            forall|k: int| 0 <= k < i - start ==> is_digit(#[trigger] d[k]),
        decreases v.len() - i,
    {
        let c = v[i];
        let u = c as u32;
        if !(0x30 <= u && u <= 0x39) {
            assert(!is_digit(d[i - start]));
            return None;
        }
        assert(d.take(i - start + 1).drop_last() =~= d.take(i - start));
        let next = acc.checked_mul(10);
        match next {
            None => {
                return parse_none_after_overflow(v, start, i, acc);
            },
            Some(m) => {
                let next2 = m.checked_add((u - 48) as u64);
                match next2 {
                    None => {
                        return parse_none_after_overflow(v, start, i, acc);
                    },
                    Some(a) => {
                        acc = a;
                    },
                }
            },
        }
        i = i + 1;
    }
    assert(d.take(d.len() as int) =~= d);
    Some(acc)
}

/// Finishes a parse whose value passed `u64::MAX` at digit `i`: the
/// result is `None` whether or not a non-digit follows.
fn parse_none_after_overflow(v: &Vec<char>, start: usize, i: usize, acc: u64) -> (r: Option<u64>)
    requires
        start <= i < v@.len(),
        u64_digits(v@) == v@.skip(start as int),
        start == 0 || (start == 1 && v@[0] == '+'),
        start == 0 ==> !(v@.len() > 0 && v@[0] == '+'),
        acc as nat == digits_value(u64_digits(v@).take(i - start)),
        is_digit(v@[i as int]),
        forall|k: int| 0 <= k < i - start ==> is_digit(#[trigger] u64_digits(v@)[k]),
        acc * 10 + ((v@[i as int] as u32) - 48) > u64::MAX,
    ensures
        r == parse_u64(v@),
        r is None,
{
    let ghost d = u64_digits(v@);
    proof {
        if d.len() > 0 && (forall|k: int| 0 <= k < d.len() ==> is_digit(#[trigger] d[k])) {
            assert(d.take(i - start + 1).drop_last() =~= d.take(i - start));
            assert(d.take(i - start + 1).last() == v@[i as int]);
            lemma_digits_value_prefix_mono(d, i - start + 1, d.len() as int);
            assert(d.take(d.len() as int) =~= d);
        }
    }
    None
}

} // verus!
