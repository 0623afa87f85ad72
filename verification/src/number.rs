//! Decimal numbers: writing them and reading them.

use crate::text::chars_of;
use vstd::prelude::*;

verus! {

/// The character of a decimal digit.
pub open spec fn digit_char(d: nat) -> char
    recommends
        d < 10,
{
    (d + '0' as nat) as char
}

/// Whether `c` is one of `0` to `9`.
pub open spec fn is_digit(c: char) -> bool {
    '0' <= c <= '9'
}

/// `n` in decimal, without leading zeros.
pub open spec fn decimal(n: nat) -> Seq<char>
    decreases n,
{
    if n < 10 {
        seq![digit_char(n)]
    } else {
        decimal(n / 10).push(digit_char(n % 10))
    }
}

/// `n` in decimal, with a minus sign where it is negative.
pub open spec fn signed_decimal(n: int) -> Seq<char> {
    if n < 0 {
        seq!['-'] + decimal((-n) as nat)
    } else {
        decimal(n as nat)
    }
}

/// Whether `s` is a non-empty row of digits.
pub open spec fn all_digits(s: Seq<char>) -> bool {
    s.len() > 0 && forall|i: int| 0 <= i < s.len() ==> is_digit(#[trigger] s[i])
}

/// The number that a row of digits stands for.
pub open spec fn value(s: Seq<char>) -> nat
    decreases s.len(),
{
    if s.len() == 0 {
        0
    } else {
        value(s.drop_last()) * 10 + (s.last() as nat - '0' as nat) as nat
    }
}

/// The number that `s` stands for: digits, after an optional plus sign.
pub open spec fn parse_unsigned(s: Seq<char>, max: nat) -> Option<nat> {
    let digits = if s.len() > 0 && s[0] == '+' {
        s.skip(1)
    } else {
        s
    };
    if all_digits(digits) && value(digits) <= max {
        Some(value(digits))
    } else {
        None
    }
}

/// The number that `s` stands for: digits, after an optional plus or minus sign, within the
/// range of an `i64`.
pub open spec fn parse_signed(s: Seq<char>) -> Option<int> {
    let negative = s.len() > 0 && s[0] == '-';
    let digits = if s.len() > 0 && (s[0] == '-' || s[0] == '+') {
        s.skip(1)
    } else {
        s
    };
    let number = if negative {
        -(value(digits) as int)
    } else {
        value(digits) as int
    };
    if all_digits(digits) && i64::MIN <= number <= i64::MAX {
        Some(number)
    } else {
        None
    }
}

/// Longer rows of digits stand for numbers that are not smaller.
proof fn lemma_value_grows(s: Seq<char>, n: int)
    requires
        all_digits(s),
        0 <= n <= s.len(),
    ensures
        value(s.take(n)) <= value(s),
    decreases s.len() - n,
{
    if n < s.len() {
        assert(s.take(n + 1).drop_last() =~= s.take(n));
        lemma_value_grows(s, n + 1);
    } else {
        assert(s.take(n) =~= s);
    }
}

/// Reads back the number that `decimal` wrote.
pub proof fn lemma_decimal_value(n: nat)
    ensures
        all_digits(decimal(n)),
        value(decimal(n)) == n,
    decreases n,
{
    let d = decimal(n);
    if n < 10 {
        assert(d.drop_last() =~= Seq::empty());
        assert(value(d.drop_last()) == 0);
    } else {
        lemma_decimal_value(n / 10);
        assert(d.drop_last() =~= decimal(n / 10));
        assert forall|i: int| 0 <= i < d.len() implies is_digit(#[trigger] d[i]) by {
            if i < d.len() - 1 {
                assert(d[i] == decimal(n / 10)[i]);
            }
        }
    }
}

/// Reading a number that was written with `signed_decimal` gives the number back.
pub proof fn lemma_signed_round_trip(n: int)
    requires
        i64::MIN <= n <= i64::MAX,
    ensures
        parse_signed(signed_decimal(n)) == Some(n),
{
    let s = signed_decimal(n);
    if n < 0 {
        lemma_decimal_value((-n) as nat);
        assert(s.skip(1) =~= decimal((-n) as nat));
    } else {
        lemma_decimal_value(n as nat);
        assert(is_digit(s[0]));
    }
}

/// Appends `n` in decimal.
pub fn push_decimal(out: &mut String, n: u64)
    ensures
        final(out)@ == old(out)@ + decimal(n as nat),
    decreases n,
{
    let ghost start = out@;
    if n >= 10 {
        push_decimal(out, n / 10);
    }
    let digit = (48u8 + (n % 10) as u8) as char;
    out.push(digit);
    assert(out@ =~= start + decimal(n as nat));
}

/// `n` in decimal.
pub fn decimal_text(n: u64) -> (text: String)
    ensures
        text@ == decimal(n as nat),
{
    let mut text = String::new();
    push_decimal(&mut text, n);
    assert(text@ =~= decimal(n as nat));
    text
}

/// `n` in decimal, with a minus sign where it is negative.
pub fn signed_decimal_text(n: i64) -> (text: String)
    ensures
        text@ == signed_decimal(n as int),
{
    let mut text = String::new();
    if n < 0 {
        text.push('-');
        let size: u64 = if n == i64::MIN {
            0x8000_0000_0000_0000
        } else {
            (-n) as u64
        };
        push_decimal(&mut text, size);
    } else {
        push_decimal(&mut text, n as u64);
    }
    assert(text@ =~= signed_decimal(n as int));
    text
}

/// Reads the digits from `from` on; `None` where they are no row of digits or stand for more
/// than `max`.
fn read_digits(chars: &Vec<char>, from: usize, max: u64) -> (number: Option<u64>)
    requires
        from <= chars@.len(),
        9 <= max <= 0x8000_0000_0000_0000,
    ensures
        number == (if all_digits(chars@.skip(from as int)) && value(chars@.skip(from as int))
            <= max {
            Some(value(chars@.skip(from as int)) as u64)
        } else {
            None
        }),
{
    let ghost digits = chars@.skip(from as int);
    if from == chars.len() {
        return None;
    }
    let mut total: u64 = 0;
    for i in from..chars.len()
        invariant
            from < chars@.len(),
            digits == chars@.skip(from as int),
            9 <= max <= 0x8000_0000_0000_0000,
            total <= max,
            total == value(digits.take(i - from)),
            forall|j: int| 0 <= j < i - from ==> is_digit(#[trigger] digits[j]),
    {
        let c = chars[i];
        assert(digits[i - from] == c);
        if c < '0' || c > '9' {
            return None;
        }
        let digit = (c as u32 - '0' as u32) as u64;
        let ghost taken = digits.take(i + 1 - from);
        assert(taken.drop_last() =~= digits.take(i - from));
        assert(value(taken) == total * 10 + digit);
        if total > (max - digit) / 10 {
            proof {
                if all_digits(digits) {
                    lemma_value_grows(digits, i + 1 - from);
                }
            }
            return None;
        }
        total = total * 10 + digit;
    }
    assert(digits.take(chars@.len() - from) =~= digits);
    Some(total)
}

/// Reads a `u32`: digits, after an optional plus sign.
pub fn parse_u32(text: &str) -> (number: Option<u32>)
    ensures
        number == (match parse_unsigned(text@, u32::MAX as nat) {
            Some(n) => Some(n as u32),
            None => None,
        }),
{
    let chars = chars_of(text);
    assert(chars@.skip(0) =~= text@);
    let from: usize = if chars.len() > 0 && chars[0] == '+' {
        1
    } else {
        0
    };
    match read_digits(&chars, from, u32::MAX as u64) {
        Some(n) => Some(n as u32),
        None => None,
    }
}

/// Reads an `i64`: digits, after an optional sign.
pub fn parse_i64(text: &str) -> (number: Option<i64>)
    ensures
        number == (match parse_signed(text@) {
            Some(n) => Some(n as i64),
            None => None,
        }),
{
    let chars = chars_of(text);
    assert(chars@.skip(0) =~= text@);
    let negative = chars.len() > 0 && chars[0] == '-';
    let from: usize = if negative || (chars.len() > 0 && chars[0] == '+') {
        1
    } else {
        0
    };
    let max: u64 = if negative {
        0x8000_0000_0000_0000
    } else {
        i64::MAX as u64
    };
    match read_digits(&chars, from, max) {
        Some(n) => if negative {
            if n == 0x8000_0000_0000_0000 {
                Some(i64::MIN)
            } else {
                Some(-(n as i64))
            }
        } else {
            Some(n as i64)
        },
        None => None,
    }
}

} // verus!
