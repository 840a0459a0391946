//! Unsigned 32-bit numbers in ASCII decimal, as protocol numbers are written.
use crate::grammar::is_digit_byte;
use vstd::prelude::*;

verus! {

/// The byte `0`.
pub const ZERO: u8 = '0' as u8;

/// Whether every byte of `s` is an ASCII digit.
pub open spec fn all_digits(s: Seq<u8>) -> bool {
    forall|i: int| 0 <= i < s.len() ==> is_digit_byte(#[trigger] s[i])
}

/// The number that the digits `s` write in base ten; zero for no digits.
pub open spec fn digits_value(s: Seq<u8>) -> nat
    decreases s.len(),
{
    if s.len() == 0 {
        0
    } else {
        digits_value(s.drop_last()) * 10 + (s.last() - ZERO) as nat
    }
}

/// The digits of `n` in base ten, without leading zeros.
pub open spec fn decimal(n: nat) -> Seq<u8>
    decreases n,
{
    if n < 10 {
        seq![(ZERO + n) as u8]
    } else {
        decimal(n / 10).push((ZERO + n % 10) as u8)
    }
}

/// What a digit string means as an unsigned 32-bit number: its value, where
/// there is at least one byte, all bytes are digits and the value fits.
pub open spec fn decimal_u32(s: Seq<u8>) -> Option<u32> {
    if s.len() > 0 && all_digits(s) && digits_value(s) <= u32::MAX {
        Some(digits_value(s) as u32)
    } else {
        None
    }
}

/// The decimal form of a number is made of one digit or more.
pub proof fn lemma_decimal_digits(n: nat)
    ensures
        decimal(n).len() >= 1,
        all_digits(decimal(n)),
    decreases n,
{
    if n >= 10 {
        lemma_decimal_digits(n / 10);
        let front = decimal(n / 10);
        assert forall|i: int| 0 <= i < decimal(n).len() implies is_digit_byte(
            #[trigger] decimal(n)[i],
        ) by {
            if i < front.len() {
                assert(decimal(n)[i] == front[i]);
            }
        }
    }
}

/// Reading the decimal form of a number gives the number back.
pub proof fn lemma_decimal_value(n: nat)
    ensures
        digits_value(decimal(n)) == n,
    decreases n,
{
    if n < 10 {
        let s = decimal(n);
        assert(s.drop_last().len() == 0);
        assert(digits_value(s.drop_last()) == 0);
    } else {
        lemma_decimal_value(n / 10);
        let s = decimal(n);
        assert(s.drop_last() =~= decimal(n / 10));
    }
}

/// Every number below 2^32 round-trips through its decimal form.
pub proof fn lemma_decimal_u32(n: u32)
    ensures
        decimal_u32(decimal(n as nat)) == Some(n),
{
    lemma_decimal_digits(n as nat);
    lemma_decimal_value(n as nat);
}

/// A prefix of a digit string is worth no more than the whole string.
pub proof fn lemma_prefix_value(s: Seq<u8>, k: int)
    requires
        all_digits(s),
        0 <= k <= s.len(),
    ensures
        digits_value(s.take(k)) <= digits_value(s),
    decreases s.len(),
{
    if k < s.len() {
        let front = s.drop_last();
        lemma_prefix_value(front, k);
        assert(front.take(k) =~= s.take(k));
        assert(is_digit_byte(s.last()));
    } else {
        assert(s.take(k) =~= s);
    }
}

/// Reads `digits` as an unsigned 32-bit number in decimal. `None` for an
/// empty string, for a byte that is no digit and for a value of 2^32 or more.
pub fn parse_decimal(digits: &[u8]) -> (value: Option<u32>)
    ensures
        value == decimal_u32(digits@),
{
    if digits.len() == 0 {
        return None;
    }
    let mut acc: u64 = 0;
    let mut i: usize = 0;
    while i < digits.len()
        invariant
            0 <= i <= digits@.len(),
            acc == digits_value(digits@.take(i as int)),
            acc <= u32::MAX,
            all_digits(digits@.take(i as int)),
        decreases digits@.len() - i,
    {
        let byte = digits[i];
        proof {
            assert(digits@.take(i + 1).drop_last() =~= digits@.take(i as int));
            assert(digits@.take(i + 1).last() == byte);
        }
        if !nom::character::is_digit(byte) {
            assert(!is_digit_byte(digits@[i as int]));
            return None;
        }
        acc = acc * 10 + (byte - ZERO) as u64;
        proof {
            assert forall|j: int| 0 <= j < i + 1 implies is_digit_byte(
                #[trigger] digits@.take(i + 1)[j],
            ) by {
                if j < i {
                    assert(digits@.take(i + 1)[j] == digits@.take(i as int)[j]);
                }
            }
        }
        if acc > u32::MAX as u64 {
            proof {
                if all_digits(digits@) {
                    lemma_prefix_value(digits@, i + 1);
                }
            }
            return None;
        }
        i += 1;
    }
    assert(digits@.take(i as int) =~= digits@);
    Some(acc as u32)
}

/// Appends the decimal form of `n` to `out`.
pub fn write_decimal(n: u32, out: &mut Vec<u8>)
    ensures
        final(out)@ == old(out)@ + decimal(n as nat),
    decreases n,
{
    if n >= 10 {
        write_decimal(n / 10, out);
    }
    let digit = ZERO + (n % 10) as u8;
    out.push(digit);
    assert(final(out)@ =~= old(out)@ + decimal(n as nat));
}

} // verus!
