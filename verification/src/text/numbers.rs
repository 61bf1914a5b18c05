//! Numbers written in decimal.

use vstd::prelude::*;
use crate::text::{chars_of, string_of};

verus! {

pub open spec fn is_digit(c: char) -> bool {
    '0' <= c <= '9'
}

/// The value of a digit.
pub open spec fn digit_value(c: char) -> nat {
    (c as u32 - '0' as u32) as nat
}

/// The number that the digits of `s` write.
pub open spec fn decimal_value(s: Seq<char>) -> nat
    decreases s.len(),
{
    if s.len() == 0 {
        0
    } else {
        decimal_value(s.drop_last()) * 10 + digit_value(s.last())
    }
}

/// One digit at least, and digits only.
pub open spec fn is_number(s: Seq<char>) -> bool {
    s.len() > 0 && forall|i: int| 0 <= i < s.len() ==> is_digit(#[trigger] s[i])
}

/// The number that `s` writes, as `str::parse::<u64>` reads it: digits
/// after at most one `+`, and a value that fits.
pub open spec fn parsed_u64(s: Seq<char>) -> Option<u64> {
    let digits = if s.len() > 0 && s[0] == '+' {
        s.drop_first()
    } else {
        s
    };
    if is_number(digits) && decimal_value(digits) <= u64::MAX {
        Some(decimal_value(digits) as u64)
    } else {
        None
    }
}

/// A longer number is no smaller than the number it begins with.
pub proof fn lemma_value_grows(s: Seq<char>, n: int)
    requires
        0 <= n <= s.len(),
    ensures
        decimal_value(s.take(n)) <= decimal_value(s),
    decreases s.len() - n,
{
    if n == s.len() {
        assert(s.take(n) =~= s);
    } else {
        assert(s.take(n + 1).drop_last() =~= s.take(n));
        lemma_value_grows(s, n + 1);
    }
}

pub fn parse_u64(text: &str) -> (value: Option<u64>)
    ensures
        value == parsed_u64(text@),
{
    let chars = chars_of(text);
    let n = chars.len();
    let from: usize = if n > 0 && chars[0] == '+' {
        1
    } else {
        0
    };
    let ghost digits = chars@.skip(from as int);
    proof {
        if from == 1 {
            assert(digits =~= text@.drop_first());
        } else {
            assert(digits =~= text@);
        }
    }
    if from == n {
        return None;
    }
    let mut total: u64 = 0;
    let mut i: usize = from;
    assert(digits.take(0) =~= Seq::<char>::empty());
    while i < n
        invariant
            n == chars@.len(),
            from <= i <= n,
            digits == chars@.skip(from as int),
            digits == if text@.len() > 0 && text@[0] == '+' {
                text@.drop_first()
            } else {
                text@
            },
            forall|j: int| 0 <= j < i - from ==> is_digit(#[trigger] digits[j]),
            total == decimal_value(digits.take(i - from)),
        decreases n - i,
    {
        let c = chars[i];
        assert(digits[i - from] == c);
        if !('0' <= c && c <= '9') {
            return None;
        }
        let d = (c as u32 - '0' as u32) as u64;
        proof {
            assert(digits.take(i - from + 1).drop_last() =~= digits.take(i - from));
            assert(digits.take(i - from + 1).last() == c);
            lemma_value_grows(digits, i - from + 1);
        }
        assert(decimal_value(digits.take(i - from + 1)) == total * 10 + d);
        if total > (u64::MAX - d) / 10 {
            assert(total * 10 + d > u64::MAX);
            return None;
        }
        total = total * 10 + d;
        i += 1;
    }
    assert(digits.take(n - from) =~= digits);
    Some(total)
}

/// The character that writes a digit.
pub open spec fn digit_char(d: nat) -> char {
    if d == 0 {
        '0'
    } else if d == 1 {
        '1'
    } else if d == 2 {
        '2'
    } else if d == 3 {
        '3'
    } else if d == 4 {
        '4'
    } else if d == 5 {
        '5'
    } else if d == 6 {
        '6'
    } else if d == 7 {
        '7'
    } else if d == 8 {
        '8'
    } else {
        '9'
    }
}

fn digit(d: u64) -> (c: char)
    requires
        d < 10,
    ensures
        c == digit_char(d as nat),
{
    if d == 0 {
        '0'
    } else if d == 1 {
        '1'
    } else if d == 2 {
        '2'
    } else if d == 3 {
        '3'
    } else if d == 4 {
        '4'
    } else if d == 5 {
        '5'
    } else if d == 6 {
        '6'
    } else if d == 7 {
        '7'
    } else if d == 8 {
        '8'
    } else {
        '9'
    }
}

/// `n` written in decimal, without leading zeros.
pub open spec fn decimal(n: nat) -> Seq<char>
    decreases n,
{
    if n < 10 {
        seq![digit_char(n)]
    } else {
        decimal(n / 10).push(digit_char(n % 10))
    }
}

/// `n` written in decimal, the last digit first.
spec fn reversed_decimal(n: nat) -> Seq<char>
    decreases n,
{
    if n < 10 {
        seq![digit_char(n)]
    } else {
        seq![digit_char(n % 10)] + reversed_decimal(n / 10)
    }
}

proof fn lemma_reversed_decimal(n: nat)
    ensures
        reversed_decimal(n).reverse() == decimal(n),
    decreases n,
{
    if n < 10 {
        assert(seq![digit_char(n)].reverse() =~= seq![digit_char(n)]);
    } else {
        lemma_reversed_decimal(n / 10);
        let head = seq![digit_char(n % 10)];
        let tail = reversed_decimal(n / 10);
        assert((head + tail).reverse() =~= tail.reverse().push(digit_char(n % 10)));
    }
}

/// The digits of `n`.
pub fn decimal_digits(n: u64) -> (digits: Vec<char>)
    ensures
        digits@ == decimal(n as nat),
{
    let mut backwards: Vec<char> = Vec::new();
    let mut rest: u64 = n;
    while rest >= 10
        invariant
            backwards@ + reversed_decimal(rest as nat) == reversed_decimal(n as nat),
        decreases rest,
    {
        let ghost before = backwards@;
        backwards.push(digit(rest % 10));
        proof {
            assert(backwards@ + reversed_decimal((rest / 10) as nat) =~= before + reversed_decimal(
                rest as nat,
            ));
        }
        rest = rest / 10;
    }
    let ghost before = backwards@;
    backwards.push(digit(rest));
    assert(backwards@ =~= before + reversed_decimal(rest as nat));
    let mut digits: Vec<char> = Vec::new();
    let mut i: usize = backwards.len();
    while i > 0
        invariant
            i <= backwards@.len(),
            digits@ == backwards@.skip(i as int).reverse(),
        decreases i,
    {
        let ghost so_far = digits@;
        i -= 1;
        digits.push(backwards[i]);
        assert(backwards@.skip(i as int).reverse() =~= so_far.push(backwards@[i as int]));
    }
    proof {
        assert(backwards@.skip(0) =~= backwards@);
        lemma_reversed_decimal(n as nat);
    }
    digits
}

/// `n` written in decimal.
pub fn decimal_text(n: u64) -> (text: String)
    ensures
        text@ == decimal(n as nat),
{
    let digits = decimal_digits(n);
    assert(digits@.subrange(0, digits@.len() as int) =~= digits@);
    string_of(&digits, 0, digits.len())
}

} // verus!
