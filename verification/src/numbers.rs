//! Which texts are numbers, as `i64` and floating-point literals are read.

use crate::text::{char_is_ascii_digit, is_ascii_digit};
use vstd::prelude::*;

verus! {

/// The value of `c` as a digit: 0 to 9, then the letters of either case from 10
/// on; -1 where it is none.
pub open spec fn digit_value(c: char) -> int {
    if '0' <= c && c <= '9' {
        c as int - '0' as int
    } else if 'a' <= c && c <= 'z' {
        c as int - 'a' as int + 10
    } else if 'A' <= c && c <= 'Z' {
        c as int - 'A' as int + 10
    } else {
        -1
    }
}

/// Every character of `s` is a digit in base `radix`.
pub open spec fn all_digits(s: Seq<char>, radix: int) -> bool {
    forall|i: int| 0 <= i < s.len() ==> 0 <= digit_value(#[trigger] s[i]) < radix
}

/// The number that the digits `s` write in base `radix`.
pub open spec fn digits_value(s: Seq<char>, radix: int) -> int
    decreases s.len(),
{
    if s.len() == 0 {
        0
    } else {
        digits_value(s.drop_last(), radix) * radix + digit_value(s.last())
    }
}

/// `s` begins with `+` or `-`.
pub open spec fn has_sign(s: Seq<char>) -> bool {
    s.len() > 0 && (s[0] == '+' || s[0] == '-')
}

/// `s` without the sign it may begin with.
pub open spec fn unsigned_part(s: Seq<char>) -> Seq<char> {
    if has_sign(s) {
        s.drop_first()
    } else {
        s
    }
}

/// `s` writes a 64-bit signed integer in base `radix`: an optional sign, then
/// digits and nothing else, and the number is in the type's range.
pub open spec fn is_i64_text(s: Seq<char>, radix: int) -> bool {
    let digits = unsigned_part(s);
    &&& digits.len() > 0
    &&& all_digits(digits, radix)
    &&& if s[0] == '-' {
        digits_value(digits, radix) <= 0x8000_0000_0000_0000
    } else {
        digits_value(digits, radix) <= 0x7fff_ffff_ffff_ffff
    }
}

fn digit_of(c: char) -> (d: Option<u8>)
    ensures
        match d {
            Some(v) => v == digit_value(c) && v < 36,
            None => digit_value(c) == -1,
        },
{
    if '0' <= c && c <= '9' {
        Some(((c as u32) - ('0' as u32)) as u8)
    } else if 'a' <= c && c <= 'z' {
        Some(((c as u32) - ('a' as u32) + 10) as u8)
    } else if 'A' <= c && c <= 'Z' {
        Some(((c as u32) - ('A' as u32) + 10) as u8)
    } else {
        None
    }
}

proof fn lemma_digits_value_grows(s: Seq<char>, radix: int)
    requires
        radix >= 2,
        s.len() > 0,
        all_digits(s, radix),
    ensures
        digits_value(s, radix) >= digits_value(s.drop_last(), radix) >= 0,
    decreases s.len(),
{
    let rest = s.drop_last();
    assert forall|i: int| 0 <= i < rest.len() implies 0 <= digit_value(#[trigger] rest[i])
        < radix by {
        assert(rest[i] == s[i]);
    }
    if rest.len() > 0 {
        lemma_digits_value_grows(rest, radix);
    }
    let v = digits_value(rest, radix);
    assert(v * radix >= v) by (nonlinear_arith)
        requires
            v >= 0,
            radix >= 2,
    ;
}

/// Whether `chars` writes a 64-bit signed integer in base 10 (`hex` false) or
/// base 16 (`hex` true).
pub fn is_i64(chars: &Vec<char>, hex: bool) -> (b: bool)
    ensures
        b == is_i64_text(chars@, if hex { 16 } else { 10 }),
{
    let ghost radix: int = if hex { 16 } else { 10 };
    let n = chars.len();
    if n == 0 {
        return false;
    }
    let negative = chars[0] == '-';
    let start: usize = if chars[0] == '+' || chars[0] == '-' {
        1
    } else {
        0
    };
    let ghost digits = unsigned_part(chars@);
    assert(digits =~= chars@.subrange(start as int, n as int));
    if start == n {
        return false;
    }
    let limit: u128 = if negative {
        0x8000_0000_0000_0000
    } else {
        0x7fff_ffff_ffff_ffff
    };
    let mut value: u128 = 0;
    let mut fits = true;
    let mut i: usize = start;
    assert(digits.subrange(0, 0) =~= Seq::<char>::empty());
    while i < n
        invariant
            start <= i <= n,
            n == chars@.len(),
            radix == (if hex { 16int } else { 10int }),
            digits == chars@.subrange(start as int, n as int),
            digits == unsigned_part(chars@),
            limit == (if chars@[0] == '-' {
                0x8000_0000_0000_0000u128
            } else {
                0x7fff_ffff_ffff_ffffu128
            }),
            all_digits(digits.subrange(0, i - start), radix),
            fits ==> value == digits_value(digits.subrange(0, i - start), radix) && value <= limit,
            !fits ==> digits_value(digits.subrange(0, i - start), radix) > limit,
        decreases n - i,
    {
        let ghost before = digits.subrange(0, i - start);
        let ghost next = digits.subrange(0, i - start + 1);
        let d = match digit_of(chars[i]) {
            Some(d) => d,
            None => {
                assert(digits[i - start] == chars@[i as int]);
                return false;
            },
        };
        if hex && d >= 16 || !hex && d >= 10 {
            assert(digits[i - start] == chars@[i as int]);
            return false;
        }
        proof {
            assert(next.drop_last() =~= before);
            assert(next.last() == chars@[i as int]);
            assert forall|k: int| 0 <= k < next.len() implies 0 <= digit_value(#[trigger] next[k])
                < radix by {
                if k < before.len() {
                    assert(next[k] == before[k]);
                }
            }
            lemma_digits_value_grows(next, radix);
        }
        if fits {
            let grown: u128 = if hex {
                value * 16 + d as u128
            } else {
                value * 10 + d as u128
            };
            if grown > limit {
                fits = false;
            } else {
                value = grown;
            }
        } else {
            proof {
                let v = digits_value(before, radix);
                assert(v * radix >= v) by (nonlinear_arith)
                    requires
                        v >= 0,
                        radix >= 2,
                ;
            }
        }
        i += 1;
    }
    assert(digits.subrange(0, n - start) =~= digits);
    fits
}

/// The number of digits that `s` holds in a row from index `from` on.
pub open spec fn digit_run(s: Seq<char>, from: int) -> int
    decreases s.len() - from,
{
    if from < 0 || from >= s.len() || !is_ascii_digit(s[from]) {
        0
    } else {
        1 + digit_run(s, from + 1)
    }
}

/// `s` holds `+` or `-` at index `at`.
pub open spec fn is_sign_at(s: Seq<char>, at: int) -> bool {
    0 <= at < s.len() && (s[at] == '+' || s[at] == '-')
}

/// `s` writes a number in decimal notation: an optional sign; digits, with a `.`
/// before, among or after them; and an optional exponent, which is `e` or `E`,
/// an optional sign, and digits.
pub open spec fn is_decimal_number(s: Seq<char>) -> bool {
    let a: int = if is_sign_at(s, 0) {
        1
    } else {
        0
    };
    let whole = digit_run(s, a);
    let dot = a + whole;
    let has_dot = dot < s.len() && s[dot] == '.';
    let b = if has_dot {
        dot + 1
    } else {
        dot
    };
    let fraction = if has_dot {
        digit_run(s, b)
    } else {
        0
    };
    let e = b + fraction;
    &&& whole + fraction > 0
    &&& e == s.len() || {
        let x = if is_sign_at(s, e + 1) {
            e + 2
        } else {
            e + 1
        };
        &&& e < s.len()
        &&& s[e] == 'e' || s[e] == 'E'
        &&& digit_run(s, x) > 0
        &&& x + digit_run(s, x) == s.len()
    }
}

fn skip_digits(chars: &Vec<char>, from: usize) -> (end: usize)
    requires
        from <= chars@.len(),
    ensures
        from <= end <= chars@.len(),
        end - from == digit_run(chars@, from as int),
{
    let n = chars.len();
    let mut end: usize = from;
    while end < n && char_is_ascii_digit(chars[end])
        invariant
            from <= end <= n,
            n == chars@.len(),
            digit_run(chars@, from as int) == (end - from) + digit_run(chars@, end as int),
        decreases n - end,
    {
        end += 1;
    }
    end
}

/// Whether `chars` writes a number in decimal notation.
pub fn is_decimal(chars: &Vec<char>) -> (b: bool)
    ensures
        b == is_decimal_number(chars@),
{
    let n = chars.len();
    let a: usize = if n > 0 && (chars[0] == '+' || chars[0] == '-') {
        1
    } else {
        0
    };
    let dot = skip_digits(chars, a);
    let has_dot = dot < n && chars[dot] == '.';
    let b: usize = if has_dot {
        dot + 1
    } else {
        dot
    };
    let e = if has_dot {
        skip_digits(chars, b)
    } else {
        b
    };
    if (dot - a) + (e - b) == 0 {
        return false;
    }
    if e == n {
        return true;
    }
    if !(chars[e] == 'e' || chars[e] == 'E') {
        return false;
    }
    let x: usize = if e + 1 < n && (chars[e + 1] == '+' || chars[e + 1] == '-') {
        e + 2
    } else {
        e + 1
    };
    let end = skip_digits(chars, x);
    end > x && end == n
}

} // verus!
