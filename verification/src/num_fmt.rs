//! Writing numbers out as decimal digits.

use crate::modifier::Padding;
use crate::text::{decimal, digit, padded, repeat};
use vstd::prelude::*;

verus! {

/// Appends the decimal digits of a number to `out`.
fn push_decimal(out: &mut Vec<u8>, value: u128)
    ensures
        final(out)@ == old(out)@ + decimal(value as nat),
    decreases value,
{
    if value >= 10 {
        push_decimal(out, value / 10);
    }
    let last: u8 = (value % 10) as u8;
    out.push('0' as u8 + last);
    assert('0' as u8 + last == digit(last as int));
}

/// Returns the decimal digits of a number, without padding.
pub fn pad_none(value: u128) -> (r: Vec<u8>)
    ensures
        r@ == decimal(value as nat),
{
    let mut digits: Vec<u8> = Vec::new();
    push_decimal(&mut digits, value);
    digits
}

/// Returns the decimal digits of a number, padded to a width.
pub fn pad(value: u128, width: u8, padding: Padding) -> (r: Vec<u8>)
    ensures
        r@ == padded(value as nat, width as int, padding),
{
    let mut digits: Vec<u8> = pad_none(value);
    let fill: u8 = match padding {
        Padding::Space => ' ' as u8,
        Padding::Zero => '0' as u8,
        Padding::Unpadded => return digits,
    };
    let missing: usize = (width as usize).saturating_sub(digits.len());
    let mut out: Vec<u8> = Vec::new();
    while out.len() < missing
        invariant
            out@ == repeat(fill, out@.len() as int),
            out@.len() <= missing,
        decreases missing - out@.len(),
    {
        out.push(fill);
    }
    out.append(&mut digits);
    out
}

} // verus!
