//! Decimal numerals: writing an integer out and reading one back.

use vstd::prelude::*;
use vstd::arithmetic::div_mod::lemma_fundamental_div_mod;

verus! {

/// The character that stands for a digit value.
pub open spec fn digit_char(d: int) -> char {
    if d == 0 {
        '0'
    } else if d == 1 {
        '1'
    } else if d == 2 {
        '2'
    } else if d == 3 {
        '3'
    } else if d == 4 {
        '4'
    } else if d == 5 {
        '5'
    } else if d == 6 {
        '6'
    } else if d == 7 {
        '7'
    } else if d == 8 {
        '8'
    } else {
        '9'
    }
}

/// The value of a decimal digit, or `None` for any other character.
pub open spec fn digit_value(c: char) -> Option<int> {
    if '0' <= c <= '9' {
        Some(c as u32 - '0' as u32)
    } else {
        None
    }
}

/// The decimal numeral of a natural number, without leading zeros.
pub open spec fn nat_decimal(n: nat) -> Seq<char>
    decreases n,
{
    if n < 10 {
        seq![digit_char(n as int)]
    } else {
        nat_decimal(n / 10).push(digit_char((n % 10) as int))
    }
}

/// The decimal numeral of an integer: a minus sign before the numeral of its
/// magnitude where it is negative.
pub open spec fn int_decimal(n: int) -> Seq<char> {
    if n < 0 {
        seq!['-'] + nat_decimal((-n) as nat)
    } else {
        nat_decimal(n as nat)
    }
}

/// Whether every character of `s` is a decimal digit.
pub open spec fn all_digits(s: Seq<char>) -> bool {
    forall|i: int| 0 <= i < s.len() ==> digit_value(#[trigger] s[i]) is Some
}

/// The number that a sequence of decimal digits denotes.
pub open spec fn digits_value(s: Seq<char>) -> int
    decreases s.len(),
{
    if s.len() == 0 {
        0
    } else {
        digits_value(s.drop_last()) * 10 + match digit_value(s.last()) {
            Some(d) => d,
            None => 0,
        }
    }
}

/// The integer that `s` denotes: an optional minus sign followed by one or
/// more decimal digits. `None` for anything else.
pub open spec fn parse_int_spec(s: Seq<char>) -> Option<int> {
    if s.len() > 0 && s[0] == '-' {
        if s.len() > 1 && all_digits(s.skip(1)) {
            Some(-digits_value(s.skip(1)))
        } else {
            None
        }
    } else if s.len() > 0 && all_digits(s) {
        Some(digits_value(s))
    } else {
        None
    }
}

fn digit_of(d: u64) -> (c: char)
    requires
        d < 10,
    ensures
        c == digit_char(d as int),
{
    if d == 0 {
        '0'
    } else if d == 1 {
        '1'
    } else if d == 2 {
        '2'
    } else if d == 3 {
        '3'
    } else if d == 4 {
        '4'
    } else if d == 5 {
        '5'
    } else if d == 6 {
        '6'
    } else if d == 7 {
        '7'
    } else if d == 8 {
        '8'
    } else {
        '9'
    }
}

/// Appends the decimal numeral of `n`.
pub fn push_nat_decimal(out: &mut Vec<char>, n: u64)
    ensures
        final(out)@ == old(out)@ + nat_decimal(n as nat),
    decreases n,
{
    if n >= 10 {
        push_nat_decimal(out, n / 10);
    }
    out.push(digit_of(n % 10));
    proof {
        if n >= 10 {
            assert(final(out)@ == old(out)@ + nat_decimal(n as nat / 10).push(
                digit_char((n % 10) as int),
            ));
        } else {
            assert(final(out)@ == old(out)@ + seq![digit_char(n as int)]);
        }
    }
}

/// Appends the decimal numeral of `n`.
pub fn push_int_decimal(out: &mut Vec<char>, n: i64)
    ensures
        final(out)@ == old(out)@ + int_decimal(n as int),
{
    if n < 0 {
        out.push('-');
        let magnitude: u64 = if n == i64::MIN {
            9223372036854775808u64
        } else {
            (-n) as u64
        };
        let ghost mid = out@;
        push_nat_decimal(out, magnitude);
        assert(mid == old(out)@ + seq!['-']);
        assert(final(out)@ == old(out)@ + (seq!['-'] + nat_decimal((-n) as nat)));
    } else {
        push_nat_decimal(out, n as u64);
    }
}

/// Reads a signed decimal integer that fits in 64 bits.
pub fn parse_int(s: &Vec<char>) -> (r: Option<i64>)
    ensures
        match r {
            Some(n) => parse_int_spec(s@) == Some(n as int),
            None => match parse_int_spec(s@) {
                Some(n) => n < i64::MIN || n > i64::MAX,
                None => true,
            },
        },
{
    let negative = s.len() > 0 && s[0] == '-';
    let first: usize = if negative {
        1
    } else {
        0
    };
    if s.len() == first {
        return None;
    }
    let ghost digits = s@.skip(first as int);
    // The magnitude is gathered as a negative number, whose range is the
    // wider one.
    let mut acc: i64 = 0;
    let mut i: usize = first;
    assert(digits.take(0) =~= Seq::<char>::empty());
    while i < s.len()
        invariant
            first <= i <= s.len(),
            negative == (s.len() > 0 && s@[0] == '-'),
            first == if negative { 1usize } else { 0usize },
            s.len() > first,
            digits == s@.skip(first as int),
            all_digits(digits.take(i - first)),
            acc == -digits_value(digits.take(i - first)),
            acc <= 0,
        decreases s.len() - i,
    {
        let c = s[i];
        let ghost before = digits.take(i - first);
        let ghost after = digits.take(i + 1 - first);
        proof {
            assert(after.drop_last() == before);
            assert(after.last() == c);
        }
        if !('0' <= c && c <= '9') {
            proof {
                assert(digits[i - first] == c);
                assert(!all_digits(digits));
                if !negative {
                    assert(digits == s@);
                }
            }
            return None;
        }
        let d: i64 = (c as u32 - '0' as u32) as i64;
        if acc < (i64::MIN + d) / 10 {
            proof {
                lemma_digits_value_grows(digits, i + 1 - first);
                // -value(after) = acc * 10 - d < i64::MIN, and the whole is no smaller in magnitude
                assert(acc * 10 - d < i64::MIN) by {
                    lemma_fundamental_div_mod(i64::MIN + d, 10);
                }
                assert(digits_value(after) > -(i64::MIN as int));
                assert(digits.take(digits.len() as int) == digits);
                assert(digits_value(digits) >= digits_value(after));
                if !negative {
                    assert(digits == s@);
                }
            }
            return None;
        }
        proof {
            assert(acc * 10 - d >= i64::MIN) by {
                lemma_fundamental_div_mod(i64::MIN + d, 10);
            }
            assert forall|k: int| 0 <= k < after.len() implies digit_value(
                #[trigger] after[k],
            ) is Some by {
                if k < before.len() {
                    assert(after[k] == before[k]);
                }
            }
        }
        acc = acc * 10 - d;
        i += 1;
    }
    proof {
        assert(digits.take(digits.len() as int) == digits);
        if !negative {
            assert(digits == s@);
        }
    }
    if negative {
        Some(acc)
    } else if acc == i64::MIN {
        None
    } else {
        Some(-acc)
    }
}

/// The value of a prefix of a digit sequence is no greater than that of the
/// whole.
pub proof fn lemma_digits_value_grows(s: Seq<char>, n: int)
    requires
        0 <= n <= s.len(),
    ensures
        0 <= digits_value(s.take(n)) <= digits_value(s),
    decreases s.len() - n,
{
    lemma_digits_value_nonneg(s.take(n));
    if n < s.len() {
        lemma_digits_value_grows(s, n + 1);
        let longer = s.take(n + 1);
        assert(longer.drop_last() == s.take(n));
        lemma_digits_value_nonneg(s.take(n));
        assert(digits_value(longer) >= digits_value(s.take(n)) * 10);
    } else {
        assert(s.take(n) == s);
    }
}

pub proof fn lemma_digits_value_nonneg(s: Seq<char>)
    ensures
        digits_value(s) >= 0,
    decreases s.len(),
{
    if s.len() > 0 {
        lemma_digits_value_nonneg(s.drop_last());
    }
}

} // verus!
