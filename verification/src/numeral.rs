//! Numerals: what number a text denotes, and how to read it.
//!
//! A decimal numeral is an optional sign and one or more decimal digits,
//! with nothing before, between or behind them. An unsigned numeral may
//! carry `+` only. A hexadecimal numeral is one or more hexadecimal digits
//! and nothing else. A numeral denotes no number where its value does not
//! fit the type it is read as.

use vstd::prelude::*;
use vstd::string::is_ascii_spec_bytes;

verus! {

/// True if every character of `s` is a decimal digit.
pub open spec fn is_digits(s: Seq<char>) -> bool {
    forall|i: int| 0 <= i < s.len() ==> '0' <= #[trigger] s[i] <= '9'
}

/// The number that the digits `s` denote in base ten.
pub open spec fn decimal_value(s: Seq<char>) -> nat
    decreases s.len(),
{
    if s.len() == 0 {
        0
    } else {
        (10 * decimal_value(s.drop_last()) + (s.last() as int - '0' as int)) as nat
    }
}

/// The number that the digits `s` denote, if there are digits, there is
/// nothing else, and the number is not above `limit`.
pub open spec fn magnitude(s: Seq<char>, limit: int) -> Option<int> {
    if s.len() > 0 && is_digits(s) && decimal_value(s) <= limit {
        Some(decimal_value(s) as int)
    } else {
        None
    }
}

/// The `usize` that `s` denotes: digits, with or without a `+` before them.
pub open spec fn usize_of(s: Seq<char>) -> Option<usize> {
    let digits = if s.len() > 0 && s[0] == '+' {
        s.subrange(1, s.len() as int)
    } else {
        s
    };
    match magnitude(digits, usize::MAX as int) {
        Some(n) => Some(n as usize),
        None => None,
    }
}

/// The `i64` that `s` denotes: digits, with or without a sign before them.
pub open spec fn i64_of(s: Seq<char>) -> Option<i64> {
    if s.len() > 0 && s[0] == '-' {
        match magnitude(s.subrange(1, s.len() as int), i64::MAX + 1) {
            Some(n) => Some((-n) as i64),
            None => None,
        }
    } else {
        let digits = if s.len() > 0 && s[0] == '+' {
            s.subrange(1, s.len() as int)
        } else {
            s
        };
        match magnitude(digits, i64::MAX as int) {
            Some(n) => Some(n as i64),
            None => None,
        }
    }
}

/// The digits read so far never denote more than all of them do.
pub proof fn lemma_decimal_value_grows(s: Seq<char>, i: int)
    requires
        is_digits(s),
        0 <= i <= s.len(),
    ensures
        decimal_value(s.subrange(0, i)) <= decimal_value(s),
    decreases s.len() - i,
{
    if i < s.len() {
        lemma_decimal_value_grows(s, i + 1);
        assert(s.subrange(0, i + 1).drop_last() =~= s.subrange(0, i));
        assert('0' <= s[i] <= '9');
    } else {
        assert(s.subrange(0, i) =~= s);
    }
}

/// Reads the characters of `s` from `from` on as digits.
fn parse_digits(s: &str, from: usize, limit: u64) -> (r: Option<u64>)
    requires
        s.is_ascii(),
        from <= s@.len(),
        limit >= 9,
    ensures
        match magnitude(s@.subrange(from as int, s@.len() as int), limit as int) {
            Some(n) => r == Some(n as u64),
            None => r is None,
        },
{
    let bytes = s.as_bytes();
    proof {
        is_ascii_spec_bytes(s);
    }
    let ghost digits = s@.subrange(from as int, s@.len() as int);
    if from == bytes.len() {
        return None;
    }
    let mut value: u64 = 0;
    let mut i: usize = from;
    assert(digits.subrange(0, 0) =~= Seq::<char>::empty());
    while i < bytes.len()
        invariant
            bytes@ =~= Seq::new(s@.len(), |k: int| s@[k] as u8),
            s.is_ascii(),
            digits == s@.subrange(from as int, s@.len() as int),
            from <= i <= bytes.len(),
            is_digits(digits.subrange(0, i - from)),
            value == decimal_value(digits.subrange(0, i - from)),
            value <= limit,
            limit >= 9,
        decreases bytes.len() - i,
    {
        let b = bytes[i];
        assert(b == s@[i as int] as u8);
        assert('\0' <= s@[i as int] <= '\u{7f}');
        assert(digits[i - from] == s@[i as int]);
        if b < '0' as u8 || b > '9' as u8 {
            assert(!is_digits(digits)) by {
                assert(!('0' <= digits[i - from] <= '9'));
            }
            return None;
        }
        let d = (b - '0' as u8) as u64;
        let ghost longer = digits.subrange(0, i - from + 1);
        proof {
            assert(longer.drop_last() =~= digits.subrange(0, i - from));
            assert(longer.last() == digits[i - from]);
            assert(decimal_value(longer) == 10 * value + d);
            assert(is_digits(longer)) by {
                assert forall|k: int| 0 <= k < longer.len() implies '0' <= #[trigger] longer[k]
                    <= '9' by {
                    if k < i - from {
                        assert(digits.subrange(0, i - from)[k] == longer[k]);
                    }
                }
            }
        }
        if value > (limit - d) / 10 {
            proof {
                if is_digits(digits) {
                    lemma_decimal_value_grows(digits, i - from + 1);
                }
            }
            return None;
        }
        value = value * 10 + d;
        i += 1;
    }
    assert(digits.subrange(0, i - from) =~= digits);
    Some(value)
}

/// The first character of an ASCII string.
fn first_byte(s: &str) -> (r: Option<u8>)
    requires
        s.is_ascii(),
    ensures
        match r {
            Some(b) => s@.len() > 0 && s@[0] as u8 == b && s@[0] == b as char,
            None => s@.len() == 0,
        },
{
    let bytes = s.as_bytes();
    proof {
        is_ascii_spec_bytes(s);
    }
    if bytes.len() == 0 {
        None
    } else {
        assert('\0' <= s@[0] <= '\u{7f}');
        Some(bytes[0])
    }
}

/// Reads `s` as a `usize` numeral.
pub fn parse_usize(s: &str) -> (r: Option<usize>)
    ensures
        r == usize_of(s@),
{
    if !s.is_ascii() {
        proof {
            lemma_not_ascii(s@);
        }
        return None;
    }
    let from: usize = match first_byte(s) {
        Some(b) => if b == '+' as u8 {
            1
        } else {
            0
        },
        None => 0,
    };
    assert(s@.subrange(0, s@.len() as int) =~= s@);
    match parse_digits(s, from, usize::MAX as u64) {
        Some(n) => Some(n as usize),
        None => None,
    }
}

/// Reads `s` as an `i64` numeral.
pub fn parse_i64(s: &str) -> (r: Option<i64>)
    ensures
        r == i64_of(s@),
{
    if !s.is_ascii() {
        proof {
            lemma_not_ascii(s@);
        }
        return None;
    }
    assert(s@.subrange(0, s@.len() as int) =~= s@);
    let first = first_byte(s);
    if first == Some('-' as u8) {
        match parse_digits(s, 1, 0x8000_0000_0000_0000u64) {
            Some(n) => {
                if n == 0x8000_0000_0000_0000u64 {
                    Some(i64::MIN)
                } else {
                    Some(-(n as i64))
                }
            },
            None => None,
        }
    } else {
        let from: usize = if first == Some('+' as u8) {
            1
        } else {
            0
        };
        match parse_digits(s, from, 0x7fff_ffff_ffff_ffffu64) {
            Some(n) => Some(n as i64),
            None => None,
        }
    }
}

/// A text with a character outside ASCII is no numeral.
proof fn lemma_not_ascii(s: Seq<char>)
    requires
        !vstd::utf8::is_ascii_chars(s),
    ensures
        usize_of(s) is None,
        i64_of(s) is None,
{
    let i = choose|i: int| 0 <= i < s.len() && !('\0' <= #[trigger] s[i] <= '\u{7f}');
    let rest = s.subrange(1, s.len() as int);
    if i == 0 {
        assert(!is_digits(s));
    } else {
        assert(rest[i - 1] == s[i]);
        assert(!is_digits(rest));
        assert(!is_digits(s));
    }
}

/// True if `c` is a hexadecimal digit, in either case.
pub open spec fn is_hex_digit(c: char) -> bool {
    ('0' <= c <= '9') || ('a' <= c <= 'f') || ('A' <= c <= 'F')
}

/// The number that the hexadecimal digit `c` denotes.
pub open spec fn hex_digit_value(c: char) -> int {
    if '0' <= c <= '9' {
        c as int - '0' as int
    } else if 'a' <= c <= 'f' {
        c as int - 'a' as int + 10
    } else {
        c as int - 'A' as int + 10
    }
}

/// True if every character of `s` is a hexadecimal digit.
pub open spec fn is_hex_digits(s: Seq<char>) -> bool {
    forall|i: int| 0 <= i < s.len() ==> is_hex_digit(#[trigger] s[i])
}

/// The number that the hexadecimal digits `s` denote.
pub open spec fn hex_value(s: Seq<char>) -> nat
    decreases s.len(),
{
    if s.len() == 0 {
        0
    } else {
        (16 * hex_value(s.drop_last()) + hex_digit_value(s.last())) as nat
    }
}

/// The `usize` that the hexadecimal digits `s` denote: one or more digits,
/// without a prefix and without a sign.
pub open spec fn usize_of_hex(s: Seq<char>) -> Option<usize> {
    if s.len() > 0 && is_hex_digits(s) && hex_value(s) <= usize::MAX {
        Some(hex_value(s) as usize)
    } else {
        None
    }
}

/// The hexadecimal digits read so far never denote more than all of them
/// do.
pub proof fn lemma_hex_value_grows(s: Seq<char>, i: int)
    requires
        is_hex_digits(s),
        0 <= i <= s.len(),
    ensures
        hex_value(s.subrange(0, i)) <= hex_value(s),
    decreases s.len() - i,
{
    if i < s.len() {
        lemma_hex_value_grows(s, i + 1);
        assert(s.subrange(0, i + 1).drop_last() =~= s.subrange(0, i));
        assert(is_hex_digit(s[i]));
    } else {
        assert(s.subrange(0, i) =~= s);
    }
}

/// The number that the byte `b` denotes as a hexadecimal digit.
fn hex_digit(b: u8) -> (r: Option<u64>)
    ensures
        match r {
            Some(d) => is_hex_digit(b as char) && d == hex_digit_value(b as char) && d < 16,
            None => !is_hex_digit(b as char),
        },
{
    if b >= '0' as u8 && b <= '9' as u8 {
        Some((b - '0' as u8) as u64)
    } else if b >= 'a' as u8 && b <= 'f' as u8 {
        Some((b - 'a' as u8) as u64 + 10)
    } else if b >= 'A' as u8 && b <= 'F' as u8 {
        Some((b - 'A' as u8) as u64 + 10)
    } else {
        None
    }
}

/// Reads `s` as the digits of a hexadecimal `usize` numeral.
pub fn parse_usize_hex(s: &str) -> (r: Option<usize>)
    ensures
        r == usize_of_hex(s@),
{
    if !s.is_ascii() {
        proof {
            let i = choose|i: int| 0 <= i < s@.len() && !('\0' <= #[trigger] s@[i] <= '\u{7f}');
            assert(!is_hex_digit(s@[i]));
        }
        return None;
    }
    let bytes = s.as_bytes();
    proof {
        is_ascii_spec_bytes(s);
    }
    if bytes.len() == 0 {
        return None;
    }
    let limit: u64 = usize::MAX as u64;
    let mut value: u64 = 0;
    let mut i: usize = 0;
    assert(s@.subrange(0, 0) =~= Seq::<char>::empty());
    while i < bytes.len()
        invariant
            bytes@ =~= Seq::new(s@.len(), |k: int| s@[k] as u8),
            s.is_ascii(),
            limit == usize::MAX,
            i <= bytes.len(),
            is_hex_digits(s@.subrange(0, i as int)),
            value == hex_value(s@.subrange(0, i as int)),
            value <= limit,
        decreases bytes.len() - i,
    {
        let b = bytes[i];
        assert(b == s@[i as int] as u8);
        assert('\0' <= s@[i as int] <= '\u{7f}');
        assert(b as char == s@[i as int]);
        let d = match hex_digit(b) {
            Some(d) => d,
            None => {
                return None;
            },
        };
        let ghost longer = s@.subrange(0, i + 1);
        proof {
            assert(longer.drop_last() =~= s@.subrange(0, i as int));
            assert(longer.last() == s@[i as int]);
            assert(hex_value(longer) == 16 * value + d);
            assert(is_hex_digits(longer)) by {
                assert forall|k: int| 0 <= k < longer.len() implies is_hex_digit(
                    #[trigger] longer[k],
                ) by {
                    if k < i {
                        assert(s@.subrange(0, i as int)[k] == longer[k]);
                    }
                }
            }
        }
        if value > (limit - d) / 16 {
            proof {
                if is_hex_digits(s@) {
                    lemma_hex_value_grows(s@, i + 1);
                }
            }
            return None;
        }
        value = value * 16 + d;
        i += 1;
    }
    assert(s@.subrange(0, i as int) =~= s@);
    Some(value as usize)
}

} // verus!
