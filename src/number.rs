//! Decimal numbers: reading a signed 32-bit integer and writing an unsigned one.
use vstd::prelude::*;
use crate::text::{chars_of, push_char};

verus! {

/// Whether `c` is an ASCII decimal digit.
pub open spec fn is_digit(c: char) -> bool {
    '0' <= c && c <= '9'
}

/// The value of a decimal digit.
pub open spec fn digit_value(c: char) -> int {
    c as int - '0' as int
}

/// The value of a run of decimal digits, most significant first.
pub open spec fn digits_value(d: Seq<char>) -> int
    decreases d.len(),
{
    if d.len() == 0 {
        0
    } else {
        digits_value(d.drop_last()) * 10 + digit_value(d.last())
    }
}

/// Whether the text starts with a minus sign.
pub open spec fn negative(s: Seq<char>) -> bool {
    s.len() > 0 && s[0] == '-'
}

/// The digits of a signed decimal: the text after an optional sign.
pub open spec fn magnitude(s: Seq<char>) -> Seq<char> {
    if s.len() > 0 && (s[0] == '-' || s[0] == '+') {
        s.drop_first()
    } else {
        s
    }
}

/// The value that a signed decimal denotes.
pub open spec fn decimal_value(s: Seq<char>) -> int {
    if negative(s) {
        -digits_value(magnitude(s))
    } else {
        digits_value(magnitude(s))
    }
}

/// Whether a value of digits read so far lies beyond `i32` for the sign.
pub open spec fn out_of_range(value: int, neg: bool) -> bool {
    if neg {
        value > 2147483648
    } else {
        value > 2147483647
    }
}

/// The first failure met reading the digits `d` one by one, most significant
/// first: a character that is no digit, or a value past the range of `i32`.
pub open spec fn digits_failure(d: Seq<char>, neg: bool) -> Option<Seq<char>>
    decreases d.len(),
{
    if d.len() == 0 {
        None
    } else {
        match digits_failure(d.drop_last(), neg) {
            Some(e) => Some(e),
            None => if !is_digit(d.last()) {
                Some("invalid digit found in string"@)
            } else if out_of_range(digits_value(d), neg) {
                Some(if neg {
                    "number too small to fit in target type"@
                } else {
                    "number too large to fit in target type"@
                })
            } else {
                None
            },
        }
    }
}

/// Why the text is no `i32`, if it is none: it is empty, is a sign alone,
/// or its digits fail.
pub open spec fn decimal_failure(s: Seq<char>) -> Option<Seq<char>> {
    if s.len() == 0 {
        Some("cannot parse integer from empty string"@)
    } else if magnitude(s).len() == 0 {
        Some("invalid digit found in string"@)
    } else {
        digits_failure(magnitude(s), negative(s))
    }
}

/// The `i32` that the text denotes, if it is a decimal in range.
pub open spec fn decimal_i32(s: Seq<char>) -> Option<i32> {
    if decimal_failure(s) is None {
        Some(decimal_value(s) as i32)
    } else {
        None
    }
}

/// The decimal digits of `n`, most significant first, without leading zeros.
pub open spec fn decimal_text(n: nat) -> Seq<char>
    decreases n,
{
    if n < 10 {
        seq![('0' as u8 + n as u8) as char]
    } else {
        decimal_text(n / 10).push(('0' as u8 + (n % 10) as u8) as char)
    }
}

/// Reads a signed decimal `i32`: an optional `+` or `-`, then digits.
pub fn parse_i32(s: &str) -> (r: Result<i32, String>)
    ensures
        r matches Ok(v) ==> decimal_i32(s@) == Some(v) && decimal_failure(s@) is None
            && v == decimal_value(s@),
        r matches Err(e) ==> decimal_i32(s@) is None && decimal_failure(s@) == Some(e@),
{
    let cs = chars_of(s);
    let n = cs.len();
    if n == 0 {
        return Err(String::from_str("cannot parse integer from empty string"));
    }
    let neg = cs[0] == '-';
    let start: usize = if cs[0] == '-' || cs[0] == '+' { 1 } else { 0 };
    if start == n {
        return Err(String::from_str("invalid digit found in string"));
    }
    let ghost d = magnitude(s@);
    assert(d =~= cs@.subrange(start as int, n as int));
    let mut acc: i64 = 0;
    let mut fail: Option<String> = None;
    let mut i = start;
    while i < n
        invariant
            start <= i <= n,
            n == cs@.len(),
            d == cs@.subrange(start as int, n as int),
            neg == negative(s@),
            match fail {
                Some(e) => digits_failure(d.take(i - start), neg) == Some(e@),
                None => digits_failure(d.take(i - start), neg) is None
                    && acc == digits_value(d.take(i - start))
                    && 0 <= acc <= 2147483648,
            },
        decreases n - i,
    {
        let c = cs[i];
        let ghost k = i - start;
        assert(d.take(k + 1).drop_last() =~= d.take(k));
        assert(d.take(k + 1).last() == c);
        if fail.is_none() {
            if c < '0' || c > '9' {
                fail = Some(String::from_str("invalid digit found in string"));
            } else {
                let dv = (c as u32 - '0' as u32) as i64;
                acc = acc * 10 + dv;
                if (neg && acc > 2147483648) || (!neg && acc > 2147483647) {
                    fail = Some(if neg {
                        String::from_str("number too small to fit in target type")
                    } else {
                        String::from_str("number too large to fit in target type")
                    });
                    acc = 0;
                }
            }
        }
        i = i + 1;
    }
    assert(d.take(n - start) =~= d);
    match fail {
        Some(e) => Err(e),
        None => {
            if neg {
                Ok((-acc) as i32)
            } else {
                Ok(acc as i32)
            }
        },
    }
}

/// Appends the decimal digits of `n` to `out`.
pub fn push_decimal(out: &mut String, n: u64)
    ensures
        final(out)@ == old(out)@ + decimal_text(n as nat),
    decreases n,
{
    if n >= 10 {
        push_decimal(out, n / 10);
    }
    let d = (n % 10) as u8;
    push_char(out, (48u8 + d) as char);
    assert(('0' as u8 + (n % 10) as u8) == 48u8 + d);
    if n >= 10 {
        assert(decimal_text(n as nat) == decimal_text((n / 10) as nat).push(((48u8 + d) as char)));
    }
    assert(out@ =~= old(out)@ + decimal_text(n as nat));
}

} // verus!
