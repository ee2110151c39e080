//! Byte-level building blocks of the input parsers: fields separated by `;`,
//! decimal integers as `str::parse` reads them, and UTF-8.

use vstd::prelude::*;
use vstd::utf8::*;

verus! {

/// `char::from_u32` gives the character of a Unicode scalar value, and
/// `None` for any other value.
pub assume_specification[ core::char::from_u32 ](i: u32) -> (res: Option<char>)
    ensures
        is_scalar(i) ==> res == Some(i as char),
        !is_scalar(i) ==> res is None,
;

/// The fields of `s` between `;` separators, as `str::split(';')` yields
/// them: one field more than there are separators.
pub open spec fn split_fields(s: Seq<u8>) -> Seq<Seq<u8>>
    decreases s.len(),
{
    if s.len() == 0 {
        seq![Seq::<u8>::empty()]
    } else {
        let prev = split_fields(s.drop_last());
        if s.last() == 59u8 {
            prev.push(Seq::<u8>::empty())
        } else {
            prev.update(prev.len() - 1, prev.last().push(s.last()))
        }
    }
}

pub proof fn lemma_split_fields_nonempty(s: Seq<u8>)
    ensures
        split_fields(s).len() >= 1,
    decreases s.len(),
{
    if s.len() > 0 {
        lemma_split_fields_nonempty(s.drop_last());
    }
}

/// Splits `s` into its `;`-separated fields.
pub fn split_fields_exec(s: &[u8]) -> (res: Vec<Vec<u8>>)
    ensures
        res@.len() == split_fields(s@).len(),
        forall|i: int| 0 <= i < res@.len() ==> #[trigger] res@[i]@ == split_fields(s@)[i],
{
    let mut fields: Vec<Vec<u8>> = Vec::new();
    fields.push(Vec::new());
    let mut i: usize = 0;
    assert(s@.take(0) =~= Seq::<u8>::empty());
    while i < s.len()
        invariant
            i <= s.len(),
            fields@.len() == split_fields(s@.take(i as int)).len(),
            fields@.len() >= 1,
            forall|k: int| 0 <= k < fields@.len() ==> #[trigger] fields@[k]@ == split_fields(s@.take(i as int))[k],
        decreases s.len() - i,
    {
        let b = s[i];
        proof {
            lemma_split_fields_nonempty(s@.take(i as int));
            assert(s@.take(i as int + 1).drop_last() =~= s@.take(i as int));
        }
        if b == 59u8 {
            fields.push(Vec::new());
        } else {
            let last = fields.len() - 1;
            let mut f = fields.pop().unwrap();
            f.push(b);
            fields.push(f);
            proof {
                let prev = split_fields(s@.take(i as int));
                assert(last as int == prev.len() - 1);
            }
        }
        i += 1;
        proof {
            let prev = split_fields(s@.take(i as int - 1));
            let now = split_fields(s@.take(i as int));
            assert forall|k: int| 0 <= k < fields@.len() implies #[trigger] fields@[k]@ == now[k] by {
                if b == 59u8 {
                    if k < fields@.len() - 1 {
                        assert(fields@[k]@ == prev[k]);
                    } else {
                        assert(fields@[k]@ =~= Seq::<u8>::empty());
                    }
                } else {
                    if k < fields@.len() - 1 {
                        assert(fields@[k]@ == prev[k]);
                    }
                }
            }
        }
    }
    assert(s@.take(s.len() as int) =~= s@);
    fields
}

/// True when every byte of `s` is an ASCII digit.
pub open spec fn all_digits(s: Seq<u8>) -> bool {
    forall|i: int| 0 <= i < s.len() ==> 48 <= #[trigger] s[i] <= 57
}

/// The value of a string of decimal digits.
pub open spec fn digits_value(s: Seq<u8>) -> nat
    decreases s.len(),
{
    if s.len() == 0 {
        0
    } else {
        digits_value(s.drop_last()) * 10 + (s.last() - 48) as nat
    }
}

/// What `str::parse` gives for an integer type whose values are
/// `lo..=hi`: an optional `+` (or `-`, for a signed type) followed by at
/// least one ASCII digit, whose value lies in the range; `None` otherwise.
pub open spec fn parse_int(s: Seq<u8>, signed: bool, lo: int, hi: int) -> Option<int> {
    let has_sign = s.len() > 0 && (s[0] == 43u8 || (signed && s[0] == 45u8));
    let negative = s.len() > 0 && s[0] == 45u8 && signed;
    let digits = if has_sign { s.drop_first() } else { s };
    if digits.len() == 0 || !all_digits(digits) {
        None
    } else {
        let v: int = if negative { -(digits_value(digits) as int) } else { digits_value(digits) as int };
        if lo <= v && v <= hi { Some(v) } else { None }
    }
}

proof fn lemma_digits_value_grows(s: Seq<u8>, i: int, j: int)
    requires
        all_digits(s),
        0 <= i <= j <= s.len(),
    ensures
        digits_value(s.take(i)) <= digits_value(s.take(j)),
    decreases j - i,
{
    if i < j {
        lemma_digits_value_grows(s, i, j - 1);
        assert(s.take(j).drop_last() =~= s.take(j - 1));
    }
}

/// Reads a decimal integer of at most `bound` in absolute value from `s`,
/// with an optional sign.
fn parse_bounded(s: &[u8], signed: bool, lo: i32, hi: i32) -> (res: Option<i32>)
    requires
        -40000 <= lo <= 0 <= hi <= 40000,
    ensures
        match res {
            Some(v) => parse_int(s@, signed, lo as int, hi as int) == Some(v as int),
            None => parse_int(s@, signed, lo as int, hi as int) is None,
        },
{
    let has_sign = s.len() > 0 && (s[0] == 43u8 || (signed && s[0] == 45u8));
    let negative = s.len() > 0 && s[0] == 45u8 && signed;
    let start: usize = if has_sign { 1 } else { 0 };
    let ghost digits = if has_sign { s@.drop_first() } else { s@ };
    if start >= s.len() {
        return None;
    }
    let mut v: i32 = 0;
    let mut i: usize = start;
    assert(digits.take(0) =~= Seq::<u8>::empty());
    while i < s.len()
        invariant
            start <= i <= s.len(),
            has_sign == (s@.len() > 0 && (s@[0] == 43u8 || (signed && s@[0] == 45u8))),
            negative == (s@.len() > 0 && s@[0] == 45u8 && signed),
            -40000 <= lo <= 0 <= hi <= 40000,
            start == (if has_sign { 1usize } else { 0usize }),
            digits == (if has_sign { s@.drop_first() } else { s@ }),
            all_digits(digits.take(i - start)),
            v == digits_value(digits.take(i - start)),
            0 <= v <= 40000,
        decreases s.len() - i,
    {
        let b = s[i];
        assert(digits[i - start] == b);
        if b < 48u8 || b > 57u8 {
            assert(!all_digits(digits));
            assert(parse_int(s@, signed, lo as int, hi as int) is None);
            return None;
        }
        let ghost k = i - start;
        assert(digits.take(k + 1).drop_last() =~= digits.take(k));
        v = v * 10 + (b - 48u8) as i32;
        i += 1;
        if v > 40000 {
            proof {
                assert(digits.take(k + 1).len() == k + 1);
                if all_digits(digits) {
                    lemma_digits_value_grows(digits, k + 1, digits.len() as int);
                    assert(digits.take(digits.len() as int) =~= digits);
                }
                assert(parse_int(s@, signed, lo as int, hi as int) is None);
            }
            return None;
        }
    }
    assert(digits.take(i - start) =~= digits);
    let r: i32 = if negative { -v } else { v };
    if lo <= r && r <= hi {
        Some(r)
    } else {
        None
    }
}

/// `str::parse::<i16>` on the bytes of a field.
pub fn parse_i16(s: &[u8]) -> (res: Option<i16>)
    ensures
        match res {
            Some(v) => parse_int(s@, true, i16::MIN as int, i16::MAX as int) == Some(v as int),
            None => parse_int(s@, true, i16::MIN as int, i16::MAX as int) is None,
        },
{
    match parse_bounded(s, true, -32768, 32767) {
        Some(v) => Some(v as i16),
        None => None,
    }
}

/// `str::parse::<u8>` on the bytes of a field.
pub fn parse_u8(s: &[u8]) -> (res: Option<u8>)
    ensures
        match res {
            Some(v) => parse_int(s@, false, 0, 255) == Some(v as int),
            None => parse_int(s@, false, 0, 255) is None,
        },
{
    match parse_bounded(s, false, 0, 255) {
        Some(v) => Some(v as u8),
        None => None,
    }
}


/// Reads the first UTF-8 scalar of `t`: its value and its length in bytes,
/// or `None` when `t` does not start with a well-formed encoding.
pub fn first_scalar(s: &[u8], i: usize) -> (res: Option<(u32, usize)>)
    requires
        i <= s.len(),
    ensures
        res is Some <==> valid_first_scalar(s@.skip(i as int)),
        res matches Some((cp, n)) ==> cp == decode_first_scalar(s@.skip(i as int)) && n
            == length_of_first_scalar(s@.skip(i as int)) && 1 <= n <= 4 && is_scalar(cp),
{
    let ghost t = s@.skip(i as int);
    if i >= s.len() {
        return None;
    }
    let n = s.len() - i;
    let b0 = s[i];
    assert(t[0] == b0);
    if b0 <= 0x7f {
        let cp = (b0 & 0x7F) as u32;
        assert(cp <= 0x7F) by (bit_vector)
            requires
                cp == (b0 & 0x7F) as u32,
        ;
        return Some((cp, 1));
    }
    if 0xc0 <= b0 && b0 <= 0xdf {
        if n < 2 {
            return None;
        }
        let b1 = s[i + 1];
        assert(t[1] == b1);
        if !(0x80 <= b1 && b1 <= 0xbf) {
            return None;
        }
        let cp = (((b0 & 0x1F) as u32) << 6) | ((b1 & 0x3f) as u32);
        assert(cp <= 0x7FF) by (bit_vector)
            requires
                cp == (((b0 & 0x1F) as u32) << 6) | ((b1 & 0x3f) as u32),
        ;
        if !(0x80 <= cp) {
            return None;
        }
        return Some((cp, 2));
    }
    if 0xe0 <= b0 && b0 <= 0xef {
        if n < 3 {
            return None;
        }
        let b1 = s[i + 1];
        let b2 = s[i + 2];
        assert(t[1] == b1 && t[2] == b2);
        if !(0x80 <= b1 && b1 <= 0xbf && 0x80 <= b2 && b2 <= 0xbf) {
            return None;
        }
        let cp = (((b0 & 0x0F) as u32) << 12) | (((b1 & 0x3f) as u32) << 6) | ((b2 & 0x3f) as u32);
        assert(cp <= 0xFFFF) by (bit_vector)
            requires
                cp == (((b0 & 0x0F) as u32) << 12) | (((b1 & 0x3f) as u32) << 6) | ((b2 & 0x3f) as u32),
        ;
        if !(0x800 <= cp) || (0xD800 <= cp && cp <= 0xDFFF) {
            return None;
        }
        return Some((cp, 3));
    }
    if 0xf0 <= b0 && b0 <= 0xf7 {
        if n < 4 {
            return None;
        }
        let b1 = s[i + 1];
        let b2 = s[i + 2];
        let b3 = s[i + 3];
        assert(t[1] == b1 && t[2] == b2 && t[3] == b3);
        if !(0x80 <= b1 && b1 <= 0xbf && 0x80 <= b2 && b2 <= 0xbf && 0x80 <= b3 && b3 <= 0xbf) {
            return None;
        }
        let cp = (((b0 & 0x07) as u32) << 18) | (((b1 & 0x3f) as u32) << 12) | (((b2 & 0x3f) as u32)
            << 6) | ((b3 & 0x3f) as u32);
        if !(0x10000 <= cp && cp <= 0x10ffff) || (0xD800 <= cp && cp <= 0xDFFF) {
            return None;
        }
        return Some((cp, 4));
    }
    None
}

/// Whether `s` is well-formed UTF-8 (what `String::from_utf8` accepts).
pub fn is_valid_utf8(s: &[u8]) -> (res: bool)
    ensures
        res == valid_utf8(s@),
{
    let mut i: usize = 0;
    assert(s@.skip(0) =~= s@);
    while i < s.len()
        invariant
            i <= s.len(),
            valid_utf8(s@) == valid_utf8(s@.skip(i as int)),
        decreases s.len() - i,
    {
        match first_scalar(s, i) {
            None => {
                return false;
            },
            Some((_, n)) => {
                assert(pop_first_scalar(s@.skip(i as int)) =~= s@.skip(i + n));
                i = i + n;
            },
        }
    }
    assert(s@.skip(i as int).len() == 0);
    true
}

/// The character that a key press sends as the byte `c` followed by the
/// bytes `rest`: `c` itself when it is ASCII, else the scalar whose UTF-8
/// encoding starts with `c` and continues in `rest`, if that encoding is
/// well-formed and complete.
pub open spec fn utf8_char(c: u8, rest: Seq<u8>) -> Option<char> {
    if c <= 0x7f {
        Some(c as char)
    } else if valid_first_scalar(seq![c] + rest) {
        Some(decode_first_scalar(seq![c] + rest) as char)
    } else {
        None
    }
}

/// How many of the bytes `rest` after `c` reading the character takes:
/// none for ASCII, the rest of a well-formed encoding, else the bytes
/// looked at (up to three) before giving up.
pub open spec fn utf8_taken(c: u8, rest: Seq<u8>) -> int {
    if c <= 0x7f {
        0
    } else if valid_first_scalar(seq![c] + rest) {
        length_of_first_scalar(seq![c] + rest) - 1
    } else if rest.len() < 3 {
        rest.len() as int
    } else {
        3
    }
}

/// Reads the character that starts with the byte `c` and continues in
/// `rest[from..]`, and how many bytes of `rest[from..]` it took.
pub fn parse_utf8_char(c: u8, rest: &[u8], from: usize) -> (res: (Option<char>, usize))
    requires
        from <= rest.len(),
    ensures
        res.0 == utf8_char(c, rest@.skip(from as int)),
        res.1 as int == utf8_taken(c, rest@.skip(from as int)),
        res.1 <= rest.len() - from,
{
    if c <= 0x7f {
        return (Some(c as char), 0);
    }
    let mut bytes: Vec<u8> = Vec::new();
    bytes.push(c);
    let mut k: usize = from;
    while k < rest.len() && bytes.len() < 4
        invariant
            from <= k <= rest.len(),
            bytes@.len() == k - from + 1,
            bytes@.len() <= 4,
            bytes@ == seq![c] + rest@.skip(from as int).take(k - from),
        decreases rest.len() - k,
    {
        bytes.push(rest[k]);
        k += 1;
        assert(bytes@ =~= seq![c] + rest@.skip(from as int).take(k - from));
    }
    let ghost whole = seq![c] + rest@.skip(from as int);
    assert(bytes@.skip(0) =~= bytes@);
    proof {
        // The first scalar of `whole` is read from its first four bytes.
        assert(forall|j: int| 0 <= j < bytes@.len() ==> bytes@[j] == whole[j]);
        assert(bytes@.len() == whole.len() || bytes@.len() == 4);
    }
    match first_scalar(bytes.as_slice(), 0) {
        Some((cp, n)) => {
            assert(valid_first_scalar(whole));
            assert(decode_first_scalar(whole) == cp);
            assert(length_of_first_scalar(whole) == n);
            (core::char::from_u32(cp), n - 1)
        },
        None => {
            assert(!valid_first_scalar(whole));
            (None, k - from)
        },
    }
}

} // verus!
