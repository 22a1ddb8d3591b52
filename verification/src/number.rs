//! Reading decimal numerals.

use vstd::prelude::*;

verus! {

/// An ASCII decimal digit.
pub open spec fn is_digit(c: char) -> bool {
    '0' <= c <= '9'
}

/// The value of an ASCII decimal digit.
pub open spec fn digit_value(c: char) -> nat {
    (c as u32 - '0' as u32) as nat
}

/// Every character is an ASCII decimal digit.
pub open spec fn all_digits(s: Seq<char>) -> bool {
    forall|i: int| 0 <= i < s.len() ==> is_digit(#[trigger] s[i])
}

/// The number that a text of digits writes.
pub open spec fn digits_value(s: Seq<char>) -> nat
    decreases s.len(),
{
    if s.len() == 0 {
        0
    } else {
        digits_value(s.drop_last()) * 10 + digit_value(s.last())
    }
}

/// The number that `s` writes, where it is a decimal numeral within `lo ..= hi`: an
/// optional sign, `+` or `-`, and at least one digit after it.
pub open spec fn parsed_int(s: Seq<char>, lo: int, hi: int) -> Option<int> {
    if s.len() == 0 {
        None
    } else {
        let negative = s[0] == '-';
        let digits = if s[0] == '-' || s[0] == '+' {
            s.skip(1)
        } else {
            s
        };
        if digits.len() == 0 || !all_digits(digits) {
            None
        } else {
            let n = if negative {
                -(digits_value(digits) as int)
            } else {
                digits_value(digits) as int
            };
            if lo <= n <= hi {
                Some(n)
            } else {
                None
            }
        }
    }
}

/// A longer text of digits writes no smaller number.
pub proof fn lemma_digits_value_grows(s: Seq<char>, n: int)
    requires
        0 <= n <= s.len(),
    ensures
        digits_value(s.take(n)) <= digits_value(s),
    decreases s.len() - n,
{
    if n < s.len() {
        lemma_digits_value_grows(s, n + 1);
        assert(s.take(n + 1).drop_last() =~= s.take(n));
    } else {
        assert(s.take(n) =~= s);
    }
}

/// Reads a decimal numeral of magnitude at most `limit_neg` where it is negative and at
/// most `limit_pos` where it is not. Returns the sign and the magnitude.
#[verifier::loop_isolation(false)]
pub fn parse_decimal(v: &Vec<char>, limit_neg: u64, limit_pos: u64) -> (r: Option<(bool, u64)>)
    ensures
        match r {
            Some((negative, magnitude)) => parsed_int(v@, -(limit_neg as int), limit_pos as int)
                == Some(
                if negative {
                    -(magnitude as int)
                } else {
                    magnitude as int
                },
            ) && (negative ==> v@[0] == '-') && magnitude <= (if negative {
                limit_neg
            } else {
                limit_pos
            }),
            None => parsed_int(v@, -(limit_neg as int), limit_pos as int) is None,
        },
{
    if v.len() == 0 {
        return None;
    }
    let negative = v[0] == '-';
    let start: usize = if v[0] == '-' || v[0] == '+' {
        1
    } else {
        0
    };
    if start >= v.len() {
        return None;
    }
    let limit: u64 = if negative {
        limit_neg
    } else {
        limit_pos
    };
    let ghost digits = v@.skip(start as int);
    proof {
        if start == 0 {
            assert(digits =~= v@);
        }
    }
    let mut acc: u128 = 0;
    let mut i: usize = start;
    while i < v.len()
        invariant
            start <= i <= v.len(),
            digits == v@.skip(start as int),
            acc == digits_value(digits.take(i - start)),
            acc <= limit,
            forall|j: int| 0 <= j < i - start ==> is_digit(#[trigger] digits[j]),
        decreases v.len() - i,
    {
        let c = v[i];
        proof {
            assert(digits[i - start] == c);
            assert(digits.take(i - start + 1).drop_last() =~= digits.take(i - start));
        }
        if !('0' <= c && c <= '9') {
            proof {
                assert(!is_digit(digits[i - start]));
            }
            return None;
        }
        let d: u128 = (c as u32 - '0' as u32) as u128;
        acc = acc * 10 + d;
        if acc > limit as u128 {
            proof {
                lemma_digits_value_grows(digits, i - start + 1);
            }
            return None;
        }
        i += 1;
    }
    proof {
        assert(digits.take(v.len() - start) =~= digits);
    }
    Some((negative, acc as u64))
}

/// The number that `s` writes, where it fits a signed 32-bit integer.
pub open spec fn parsed_i32(s: Seq<char>) -> Option<int> {
    parsed_int(s, -2147483648, 2147483647)
}

/// The number that `s` writes, where it fits a signed 64-bit integer.
pub open spec fn parsed_i64(s: Seq<char>) -> Option<int> {
    parsed_int(s, -9223372036854775808, 9223372036854775807)
}

/// Reads a signed 32-bit integer.
pub fn parse_i32(v: &Vec<char>) -> (r: Option<i32>)
    ensures
        match r {
            Some(n) => parsed_i32(v@) == Some(n as int),
            None => parsed_i32(v@) is None,
        },
{
    match parse_decimal(v, 2147483648, 2147483647) {
        Some((negative, magnitude)) => {
            if negative {
                if magnitude == 2147483648 {
                    Some(i32::MIN)
                } else {
                    Some(-(magnitude as i32))
                }
            } else {
                Some(magnitude as i32)
            }
        },
        None => None,
    }
}

/// Reads a signed 64-bit integer.
pub fn parse_i64(v: &Vec<char>) -> (r: Option<i64>)
    ensures
        match r {
            Some(n) => parsed_i64(v@) == Some(n as int),
            None => parsed_i64(v@) is None,
        },
{
    match parse_decimal(v, 9223372036854775808, 9223372036854775807) {
        Some((negative, magnitude)) => {
            if negative {
                if magnitude == 9223372036854775808 {
                    Some(i64::MIN)
                } else {
                    Some(-(magnitude as i64))
                }
            } else {
                Some(magnitude as i64)
            }
        },
        None => None,
    }
}

} // verus!
