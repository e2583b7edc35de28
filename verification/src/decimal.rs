//! Unsigned decimal numbers as byte text.

use vstd::prelude::*;

verus! {

/// The digit `0`.
pub const DIGIT_ZERO: u8 = 48;

/// The digit `9`.
pub const DIGIT_NINE: u8 = 57;

/// The sign that may stand before the digits.
pub const PLUS_SIGN: u8 = 43;

/// Tells whether `b` is one of the digits `0` to `9`.
pub open spec fn is_digit(b: u8) -> bool {
    DIGIT_ZERO <= b <= DIGIT_NINE
}

/// Every byte of `s` is a digit.
pub open spec fn all_digits(s: Seq<u8>) -> bool {
    forall|i: int| 0 <= i < s.len() ==> is_digit(#[trigger] s[i])
}

/// The number that the digits of `s` write in base ten; 0 for no digits.
pub open spec fn digits_value(s: Seq<u8>) -> nat
    decreases s.len(),
{
    if s.len() == 0 {
        0
    } else {
        10 * digits_value(s.drop_last()) + (s.last() - DIGIT_ZERO) as nat
    }
}

/// The digits of a token: the token itself, without the plus sign where it
/// begins with one.
pub open spec fn unsigned_part(s: Seq<u8>) -> Seq<u8> {
    if s.len() > 0 && s[0] == PLUS_SIGN {
        s.drop_first()
    } else {
        s
    }
}

/// The value of a token as an unsigned 64-bit number: an optional plus
/// sign, then one or more digits, leading zeros allowed. `None` for any
/// other token, and for a number that does not fit.
pub open spec fn number(s: Seq<u8>) -> Option<u64> {
    let digits = unsigned_part(s);
    if digits.len() > 0 && all_digits(digits) && digits_value(digits) <= u64::MAX {
        Some(digits_value(digits) as u64)
    } else {
        None
    }
}

/// The shortest way to write `n` in digits.
pub open spec fn decimal(n: nat) -> Seq<u8>
    decreases n,
{
    if n < 10 {
        seq![(DIGIT_ZERO + n) as u8]
    } else {
        decimal(n / 10).push((DIGIT_ZERO + n % 10) as u8)
    }
}

/// Digits that are read further never make a smaller number.
pub proof fn lemma_digits_value_grows(s: Seq<u8>, k: int)
    requires
        all_digits(s),
        0 <= k <= s.len(),
    ensures
        digits_value(s.take(k)) <= digits_value(s),
    decreases s.len(),
{
    if k == s.len() {
        assert(s.take(k) =~= s);
    } else {
        assert(s.drop_last().take(k) =~= s.take(k));
        lemma_digits_value_grows(s.drop_last(), k);
    }
}

/// Writing a number and reading it back gives the number again.
pub proof fn lemma_decimal_round_trip(n: nat)
    ensures
        decimal(n).len() > 0,
        all_digits(decimal(n)),
        digits_value(decimal(n)) == n,
        n <= u64::MAX ==> number(decimal(n)) == Some(n as u64),
    decreases n,
{
    if n < 10 {
        let s = decimal(n);
        assert(s.drop_last() =~= Seq::<u8>::empty());
        assert(digits_value(s.drop_last()) == 0);
    } else {
        lemma_decimal_round_trip(n / 10);
        let s = decimal(n);
        assert(s.drop_last() =~= decimal(n / 10));
        assert(s[0] == decimal(n / 10)[0]);
    }
    assert(unsigned_part(decimal(n)) == decimal(n));
}

/// Reads a token as an unsigned 64-bit decimal number.
pub fn parse_number(token: &[u8]) -> (r: Option<u64>)
    ensures
        r == number(token@),
{
    let n = token.len();
    let start: usize = if n > 0 && token[0] == PLUS_SIGN {
        1
    } else {
        0
    };
    let ghost digits = unsigned_part(token@);
    assert(digits =~= token@.subrange(start as int, n as int));
    if start == n {
        return None;
    }
    let mut value: u64 = 0;
    let mut i: usize = start;
    while i < n
        invariant
            n == token@.len(),
            start <= i <= n,
            digits == unsigned_part(token@),
            digits == token@.subrange(start as int, n as int),
            all_digits(digits.take(i - start)),
            value == digits_value(digits.take(i - start)),
        decreases n - i,
    {
        let b = token[i];
        if b < DIGIT_ZERO || b > DIGIT_NINE {
            assert(!is_digit(digits[i - start]));
            return None;
        }
        let ghost read = digits.take(i - start + 1);
        proof {
            assert(read.drop_last() =~= digits.take(i - start));
            assert(read.last() == b);
            assert(all_digits(read));
            if all_digits(digits) {
                lemma_digits_value_grows(digits, i - start + 1);
            }
        }
        let shifted = match value.checked_mul(10) {
            Some(v) => v,
            None => {
                return None;
            },
        };
        value = match shifted.checked_add((b - DIGIT_ZERO) as u64) {
            Some(v) => v,
            None => {
                return None;
            },
        };
        i += 1;
    }
    assert(digits.take(n - start) =~= digits);
    Some(value)
}

/// Writes `n` in digits, without sign or leading zeros.
pub fn format_number(n: u64) -> (r: Vec<u8>)
    ensures
        r@ == decimal(n as nat),
    decreases n,
{
    if n < 10 {
        let mut digits: Vec<u8> = Vec::new();
        digits.push(DIGIT_ZERO + n as u8);
        assert(digits@ =~= decimal(n as nat));
        digits
    } else {
        let mut digits = format_number(n / 10);
        digits.push(DIGIT_ZERO + (n % 10) as u8);
        digits
    }
}

} // verus!
