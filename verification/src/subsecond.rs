//! The fraction of a second.

use crate::modifier;
use crate::modifier::{Padding, SubsecondDigits};
use crate::num_fmt;
use crate::output::Output;
use crate::ranged::Nanoseconds;
use crate::text::{all_digits, law_decimal_holds_digits, law_padded_width, padded, power_of_ten};
use vstd::prelude::*;
use vstd::slice::slice_subrange;
use vstd::std_specs::bits::{axiom_u64_leading_zeros, u64_leading_zeros};

verus! {

/// How many digits are left of a fraction when the zeros that it ends with are dropped, the first
/// digit excepted.
pub open spec fn significant_digits(digits: Seq<u8>) -> nat
    decreases digits.len(),
{
    if digits.len() > 1 && digits.last() == '0' as u8 {
        significant_digits(digits.drop_last())
    } else {
        digits.len()
    }
}

/// All nine digits of a number of nanoseconds.
pub open spec fn nine_digits(nanos: nat) -> Seq<u8> {
    padded(nanos, 9, Padding::Zero)
}

/// How many of the nine digits are written.
pub open spec fn subsecond_width(nanos: nat, digits: SubsecondDigits) -> nat {
    match digits {
        SubsecondDigits::One => 1,
        SubsecondDigits::Two => 2,
        SubsecondDigits::Three => 3,
        SubsecondDigits::Four => 4,
        SubsecondDigits::Five => 5,
        SubsecondDigits::Six => 6,
        SubsecondDigits::Seven => 7,
        SubsecondDigits::Eight => 8,
        SubsecondDigits::Nine => 9,
        SubsecondDigits::OneOrMore => significant_digits(nine_digits(nanos)),
    }
}

/// The fraction of a second as it is written.
pub open spec fn subsecond_text(nanos: nat, digits: SubsecondDigits) -> Seq<u8> {
    nine_digits(nanos).take(subsecond_width(nanos, digits) as int)
}

/// A number of nanoseconds below one second takes exactly nine digits.
pub proof fn lemma_nine_digits(nanos: nat)
    requires
        nanos <= 999_999_999,
    ensures
        nanos < power_of_ten(9),
        nine_digits(nanos).len() == 9,
        all_digits(nine_digits(nanos)),
{
    assert(power_of_ten(9) == 1_000_000_000) by {
        reveal_with_fuel(power_of_ten, 10);
    }
    law_padded_width(nanos, 9, Padding::Zero);
    law_decimal_holds_digits(nanos);
}

/// The digits that count end where only zeros follow.
proof fn lemma_significant_digits(digits: Seq<u8>, width: int)
    requires
        1 <= width <= digits.len(),
        width == 1 || digits[width - 1] != '0' as u8,
        forall|i: int| width <= i < digits.len() ==> digits[i] == '0' as u8,
    ensures
        significant_digits(digits) == width,
    decreases digits.len(),
{
    if width < digits.len() {
        lemma_significant_digits(digits.drop_last(), width);
    }
}

/// The eight digits behind the first, the earliest in the lowest byte.
spec fn packed(d: Seq<u8>) -> u64 {
    (d[1] as u64) | (d[2] as u64) << 8 | (d[3] as u64) << 16 | (d[4] as u64) << 24 | (d[5] as u64)
        << 32 | (d[6] as u64) << 40 | (d[7] as u64) << 48 | (d[8] as u64) << 56
}

/// A byte of the mask is zero exactly where the digit is.
proof fn lemma_mask_bytes(d: Seq<u8>, mask: u64)
    requires
        mask == packed(d) ^ 0x3030_3030_3030_3030,
    ensures
        (mask >> 56) & 0xff == 0 <==> d[8] == '0' as u8,
        (mask >> 48) & 0xff == 0 <==> d[7] == '0' as u8,
        (mask >> 40) & 0xff == 0 <==> d[6] == '0' as u8,
        (mask >> 32) & 0xff == 0 <==> d[5] == '0' as u8,
        (mask >> 24) & 0xff == 0 <==> d[4] == '0' as u8,
        (mask >> 16) & 0xff == 0 <==> d[3] == '0' as u8,
        (mask >> 8) & 0xff == 0 <==> d[2] == '0' as u8,
        mask & 0xff == 0 <==> d[1] == '0' as u8,
{
    let (b1, b2, b3, b4) = (d[1], d[2], d[3], d[4]);
    let (b5, b6, b7, b8) = (d[5], d[6], d[7], d[8]);
    assert({
        let word = ((b1 as u64) | (b2 as u64) << 8 | (b3 as u64) << 16 | (b4 as u64) << 24 | (
        b5 as u64) << 32 | (b6 as u64) << 40 | (b7 as u64) << 48 | (b8 as u64) << 56)
            ^ 0x3030_3030_3030_3030;
        &&& (word >> 56) & 0xff == 0 <==> b8 == 0x30
        &&& (word >> 48) & 0xff == 0 <==> b7 == 0x30
        &&& (word >> 40) & 0xff == 0 <==> b6 == 0x30
        &&& (word >> 32) & 0xff == 0 <==> b5 == 0x30
        &&& (word >> 24) & 0xff == 0 <==> b4 == 0x30
        &&& (word >> 16) & 0xff == 0 <==> b3 == 0x30
        &&& (word >> 8) & 0xff == 0 <==> b2 == 0x30
        &&& word & 0xff == 0 <==> b1 == 0x30
    }) by (bit_vector);
}

/// The highest byte that is not zero is the one that the leading zero bits end in.
proof fn lemma_leading_zero_bytes(mask: u64, zeros: u64)
    requires
        zeros == u64_leading_zeros(mask),
    ensures
        zeros <= 64,
        zeros >= 8 <==> (mask >> 56) & 0xff == 0,
        zeros >= 16 <==> zeros >= 8 && (mask >> 48) & 0xff == 0,
        zeros >= 24 <==> zeros >= 16 && (mask >> 40) & 0xff == 0,
        zeros >= 32 <==> zeros >= 24 && (mask >> 32) & 0xff == 0,
        zeros >= 40 <==> zeros >= 32 && (mask >> 24) & 0xff == 0,
        zeros >= 48 <==> zeros >= 40 && (mask >> 16) & 0xff == 0,
        zeros >= 56 <==> zeros >= 48 && (mask >> 8) & 0xff == 0,
        zeros >= 64 <==> zeros >= 56 && mask & 0xff == 0,
{
    axiom_u64_leading_zeros(mask);
    if zeros == 64 {
        assert(mask == 0);
        assert(mask == 0 ==> (mask >> 56) & 0xff == 0 && (mask >> 48) & 0xff == 0 && (mask >> 40)
            & 0xff == 0 && (mask >> 32) & 0xff == 0 && (mask >> 24) & 0xff == 0 && (mask >> 16)
            & 0xff == 0 && (mask >> 8) & 0xff == 0 && mask & 0xff == 0) by (bit_vector);
    } else {
        let top: u64 = (63 - zeros) as u64;
        assert((mask >> top) & 1 != 0);
        assert(zeros > 0 ==> mask >> ((64 - zeros) as u64) == 0);
        assert(({
            &&& zeros >= 8 <==> (mask >> 56) & 0xff == 0
            &&& zeros >= 16 <==> zeros >= 8 && (mask >> 48) & 0xff == 0
            &&& zeros >= 24 <==> zeros >= 16 && (mask >> 40) & 0xff == 0
            &&& zeros >= 32 <==> zeros >= 24 && (mask >> 32) & 0xff == 0
            &&& zeros >= 40 <==> zeros >= 32 && (mask >> 24) & 0xff == 0
            &&& zeros >= 48 <==> zeros >= 40 && (mask >> 16) & 0xff == 0
            &&& zeros >= 56 <==> zeros >= 48 && (mask >> 8) & 0xff == 0
            &&& zeros >= 64 <==> zeros >= 56 && mask & 0xff == 0
        })) by (bit_vector)
            requires
                zeros < 64,
                top == 63 - zeros,
                (mask >> top) & 1 != 0,
                zeros > 0 ==> mask >> ((64 - zeros) as u64) == 0,
        ;
    }
}

/// Counts the digits that are left when the zeros at the end are dropped.
///
/// All bytes are held against zero digits at once: in the exclusive or of the packed digits with
/// packed zeros, a zero digit leaves a zero byte.
fn count_significant(digits: &[u8]) -> (r: usize)
    requires
        digits@.len() == 9,
        all_digits(digits@),
    ensures
        1 <= r <= 9,
        r == significant_digits(digits@),
{
    let word: u64 = (digits[1] as u64) | (digits[2] as u64) << 8 | (digits[3] as u64) << 16 | (
    digits[4] as u64) << 24 | (digits[5] as u64) << 32 | (digits[6] as u64) << 40 | (
    digits[7] as u64) << 48 | (digits[8] as u64) << 56;
    let mask: u64 = word ^ 0x3030_3030_3030_3030;
    let zeros: u32 = mask.leading_zeros();
    proof {
        lemma_mask_bytes(digits@, mask);
        lemma_leading_zero_bytes(mask, zeros as u64);
        lemma_significant_digits(digits@, 9 - zeros / 8);
    }
    let digits_to_truncate: u32 = zeros / 8;
    9 - digits_to_truncate as usize
}

impl Output {
    /// Format the subsecond into the designated output.
    pub fn fmt_subsecond(&mut self, nanos: Nanoseconds, modifier: modifier::Subsecond)
        requires
            old(self).wf(),
        ensures
            final(self).appended(*old(self), subsecond_text(nanos@ as nat, modifier.digits)),
    {
        let nanos: u32 = nanos.get();
        proof {
            lemma_nine_digits(nanos as nat);
        }
        let buf: Vec<u8> = num_fmt::pad(nanos as u128, 9, Padding::Zero);
        let len: usize = match modifier.digits {
            SubsecondDigits::One => 1,
            SubsecondDigits::Two => 2,
            SubsecondDigits::Three => 3,
            SubsecondDigits::Four => 4,
            SubsecondDigits::Five => 5,
            SubsecondDigits::Six => 6,
            SubsecondDigits::Seven => 7,
            SubsecondDigits::Eight => 8,
            SubsecondDigits::Nine => 9,
            SubsecondDigits::OneOrMore => count_significant(buf.as_slice()),
        };
        self.write_bytes(slice_subrange(buf.as_slice(), 0, len));
    }
}

} // verus!
