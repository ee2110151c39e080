//! Text building blocks: decimal numerals and appending to strings.

use vstd::prelude::*;

verus! {

/// `String::push` appends one character at the end of the string.
pub assume_specification[ String::push ](s: &mut String, ch: char)
    ensures
        final(s)@ == old(s)@.push(ch),
;

/// The ASCII digit for `d` (0 to 9).
pub open spec fn digit_char(d: nat) -> char {
    ((d + 48) as u8) as char
}

/// The decimal numeral of a natural number, without leading zeros.
pub open spec fn decimal_nat(n: nat) -> Seq<char>
    decreases n,
{
    if n < 10 {
        seq![digit_char(n)]
    } else {
        decimal_nat(n / 10).push(digit_char(n % 10))
    }
}

/// The decimal numeral of an integer, as `Display` writes it: a `-` before
/// the digits of a negative number.
pub open spec fn decimal(n: int) -> Seq<char> {
    if n < 0 {
        seq!['-'] + decimal_nat((-n) as nat)
    } else {
        decimal_nat(n as nat)
    }
}

/// Appends the decimal numeral of `n` to `s`.
pub fn push_nat(s: &mut String, n: u64)
    ensures
        final(s)@ == old(s)@ + decimal_nat(n as nat),
    decreases n,
{
    if n >= 10 {
        push_nat(s, n / 10);
    }
    let d: u8 = (n % 10) as u8;
    s.push((d + 48) as char);
    assert(final(s)@ =~= old(s)@ + decimal_nat(n as nat));
}

/// Appends the decimal numeral of `n` to `s`.
pub fn push_decimal(s: &mut String, n: i64)
    ensures
        final(s)@ == old(s)@ + decimal(n as int),
{
    if n < 0 {
        s.push('-');
        let m: u64 = (0i128 - (n as i128)) as u64;
        push_nat(s, m);
        assert(final(s)@ =~= old(s)@ + decimal(n as int));
    } else {
        push_nat(s, n as u64);
    }
}

/// Appends the decimal numeral of `n` to a character vector.
pub fn push_nat_chars(v: &mut Vec<char>, n: u64)
    ensures
        final(v)@ == old(v)@ + decimal_nat(n as nat),
    decreases n,
{
    if n >= 10 {
        push_nat_chars(v, n / 10);
    }
    let d: u8 = (n % 10) as u8;
    v.push((d + 48) as char);
    assert(final(v)@ =~= old(v)@ + decimal_nat(n as nat));
}

/// Appends the characters of `t` to a character vector.
pub fn push_chars(v: &mut Vec<char>, t: &Vec<char>)
    ensures
        final(v)@ == old(v)@ + t@,
{
    let mut i: usize = 0;
    while i < t.len()
        invariant
            i <= t@.len(),
            v@ == old(v)@ + t@.take(i as int),
        decreases t.len() - i,
    {
        v.push(t[i]);
        i += 1;
        assert(v@ =~= old(v)@ + t@.take(i as int));
    }
    assert(t@.take(t@.len() as int) =~= t@);
}

} // verus!
