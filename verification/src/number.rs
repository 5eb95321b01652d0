//! Unsigned numbers written as ASCII digits, in binary for the samples and in
//! decimal for the image's size. A number is digits and nothing else: no sign,
//! no white space, no separator.

use vstd::prelude::*;

verus! {

/// `b` is an ASCII digit below `radix`.
pub open spec fn is_digit(b: u8, radix: int) -> bool {
    0x30 <= b && b - 0x30 < radix
}

/// Every byte of `s` is a digit below `radix`.
pub open spec fn all_digits(s: Seq<u8>, radix: int) -> bool {
    forall|i: int| 0 <= i < s.len() ==> is_digit(#[trigger] s[i], radix)
}

/// The number that the digits of `s` spell in base `radix`, most significant
/// first.
pub open spec fn digits_value(s: Seq<u8>, radix: int) -> int
    decreases s.len(),
{
    if s.len() == 0 {
        0
    } else {
        radix * digits_value(s.drop_last(), radix) + (s.last() - 0x30)
    }
}

/// The number that `s` spells in base `radix`: `s` is one digit or more, and
/// their number is at most `max`. Anything else spells no number.
pub open spec fn number_value(s: Seq<u8>, radix: int, max: int) -> Option<int> {
    if s.len() > 0 && all_digits(s, radix) && digits_value(s, radix) <= max {
        Some(digits_value(s, radix))
    } else {
        None
    }
}

/// A run of digits spells a number that is not negative.
pub proof fn lemma_digits_value_nonnegative(s: Seq<u8>, radix: int)
    requires
        radix >= 1,
        all_digits(s, radix),
    ensures
        0 <= digits_value(s, radix),
    decreases s.len(),
{
    if s.len() > 0 {
        assert(is_digit(s.last(), radix));
        lemma_digits_value_nonnegative(s.drop_last(), radix);
        assert(radix * digits_value(s.drop_last(), radix) >= 0) by (nonlinear_arith)
            requires
                radix >= 1,
                digits_value(s.drop_last(), radix) >= 0,
        ;
    }
}

/// A run of digits spells at least what any of its prefixes spells.
pub proof fn lemma_digits_value_grows(s: Seq<u8>, radix: int, k: int)
    requires
        radix >= 1,
        all_digits(s, radix),
        0 <= k <= s.len(),
    ensures
        0 <= digits_value(s.take(k), radix) <= digits_value(s, radix),
    decreases s.len() - k,
{
    if k == s.len() {
        assert(s.take(k) =~= s);
        lemma_digits_value_nonnegative(s, radix);
    } else {
        lemma_digits_value_grows(s, radix, k + 1);
        assert(s.take(k + 1).drop_last() =~= s.take(k));
        assert(is_digit(s[k], radix));
        lemma_digits_value_nonnegative(s.take(k), radix);
        let v = digits_value(s.take(k), radix);
        assert(radix * v >= v) by (nonlinear_arith)
            requires
                radix >= 1,
                v >= 0,
        ;
    }
}

/// The number that `s` spells in base `radix`, or `None` where `s` is empty,
/// holds anything but digits below `radix`, or spells more than `max`.
pub fn parse_number(s: &[u8], radix: u32, max: u32) -> (r: Option<u32>)
    requires
        2 <= radix <= 10,
    ensures
        match r {
            Some(v) => number_value(s@, radix as int, max as int) == Some(v as int),
            None => number_value(s@, radix as int, max as int).is_none(),
        },
{
    if s.len() == 0 {
        return None;
    }
    let mut value: u64 = 0;
    let mut k: usize = 0;
    while k < s.len()
        invariant
            2 <= radix <= 10,
            k <= s@.len(),
            all_digits(s@.take(k as int), radix as int),
            value == digits_value(s@.take(k as int), radix as int),
            value <= max,
        decreases s@.len() - k,
    {
        let b: u8 = s[k];
        if b < 0x30 || (b - 0x30) as u32 >= radix {
            assert(!is_digit(s@[k as int], radix as int));
            return None;
        }
        proof {
            assert(s@.take(k + 1).drop_last() =~= s@.take(k as int));
            assert(s@.take(k + 1).last() == b);
            assert(all_digits(s@.take(k + 1), radix as int)) by {
                assert forall|i: int| 0 <= i < k + 1 implies is_digit(
                    #[trigger] s@.take(k + 1)[i],
                    radix as int,
                ) by {
                    if i < k {
                        assert(s@.take(k as int)[i] == s@[i]);
                    }
                }
            }
        }
        assert(value * radix <= 0xFFFF_FFFF * 10) by (nonlinear_arith)
            requires
                value <= 0xFFFF_FFFF,
                radix <= 10,
        ;
        let next: u64 = value * (radix as u64) + ((b - 0x30) as u64);
        assert(next == digits_value(s@.take(k + 1), radix as int)) by (nonlinear_arith)
            requires
                next == value * radix + (b - 0x30),
                digits_value(s@.take(k + 1), radix as int) == radix * value + (b - 0x30),
        ;
        if next > max as u64 {
            proof {
                if all_digits(s@, radix as int) {
                    lemma_digits_value_grows(s@, radix as int, k + 1);
                }
            }
            return None;
        }
        value = next;
        k = k + 1;
    }
    assert(s@.take(k as int) =~= s@);
    Some(value as u32)
}

} // verus!
