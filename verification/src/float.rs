//! Numbers with a decimal fraction.
//!
//! The arithmetic on floating point numbers is done by the caller. What is decided here is what
//! the caller has to find out about a number, and what is then written.

use crate::modifier::Padding;
use crate::output::{law_writes_join, Output};
use crate::ranged::DecimalDigits;
use crate::text::{ascii, lemma_ascii_encoding, padded, power_of_ten, repeat};
use vstd::prelude::*;

verus! {

/// What has to be found out about a number before it can be written.
#[derive(Clone, Copy, Debug, PartialEq, Eq)]
pub enum FloatForm {
    /// The integer part.
    Whole,
    /// The integer part, and `digits` digits of the fraction as an integer, of the number truncated
    /// to as many digits.
    ///
    /// A precision of less than nine digits truncates: rounding up could exceed the greatest value
    /// that is permitted.
    Truncated { digits: u8 },
    /// The number written out, rounded to `digits` digits behind the decimal point.
    ///
    /// A precision of nine digits or more does not truncate: floating point numbers are imprecise
    /// with decimal values, and truncation would amplify a minuscule error.
    Rendered { digits: u8 },
}

/// What was found out about a number.
#[derive(Debug)]
pub enum FloatParts {
    /// The integer part.
    Whole { int_part: u64 },
    /// The integer part and the digits of the fraction.
    Truncated { int_part: u64, frac_part: u64 },
    /// The number, written out.
    Rendered { text: Vec<u8> },
}

/// The form in which a number is needed for a precision.
pub open spec fn form_for(digits_after: Option<int>) -> FloatForm {
    match digits_after {
        None => FloatForm::Whole,
        Some(digits) => if digits < 9 {
            FloatForm::Truncated { digits: digits as u8 }
        } else {
            FloatForm::Rendered { digits: digits as u8 }
        },
    }
}

/// The precision as an integer.
pub open spec fn precision(digits: Option<DecimalDigits>) -> Option<int> {
    match digits {
        Some(digits) => Some(digits@),
        None => None,
    }
}

impl FloatParts {
    /// The number is known in the form asked for.
    pub open spec fn suits(self, form: FloatForm) -> bool {
        match form {
            FloatForm::Whole => self is Whole,
            FloatForm::Truncated { .. } => self is Truncated,
            FloatForm::Rendered { .. } => self is Rendered,
        }
    }

    /// The number as it is written, padded with zeros on the left.
    pub open spec fn text(self, digits_before: int, digits_after: Option<int>) -> Seq<u8> {
        match self {
            FloatParts::Whole { int_part } => padded(
                int_part as nat,
                digits_before,
                Padding::Zero,
            ),
            FloatParts::Truncated { int_part, frac_part } => padded(
                int_part as nat,
                digits_before,
                Padding::Zero,
            ) + seq!['.' as u8] + padded(frac_part as nat, digits_after->0, Padding::Zero),
            FloatParts::Rendered { text } => repeat(
                '0' as u8,
                digits_before + 1 + digits_after->0 - text@.len(),
            ) + text@,
        }
    }
}

/// Returns the form in which a number is needed for a precision.
pub fn float_form(digits_after_decimal: Option<DecimalDigits>) -> (r: FloatForm)
    ensures
        r == form_for(precision(digits_after_decimal)),
{
    match digits_after_decimal {
        None => FloatForm::Whole,
        Some(digits_after_decimal) => {
            let digits: u8 = digits_after_decimal.get();
            if digits < 9 {
                FloatForm::Truncated { digits }
            } else {
                FloatForm::Rendered { digits }
            }
        },
    }
}

/// Returns ten to the power of `x`, for `x` up to nine.
pub fn ten_to_the(x: DecimalDigits) -> (r: Option<u64>)
    ensures
        r is Some <==> x@ <= 9,
        r matches Some(power) ==> power == power_of_ten(x@ as nat),
{
    proof {
        reveal_with_fuel(power_of_ten, 10);
    }
    match x.get() {
        1 => Some(10),
        2 => Some(100),
        3 => Some(1_000),
        4 => Some(10_000),
        5 => Some(100_000),
        6 => Some(1_000_000),
        7 => Some(10_000_000),
        8 => Some(100_000_000),
        9 => Some(1_000_000_000),
        _ => None,
    }
}

impl Output {
    /// Write the floating point number to the output.
    ///
    /// This method accepts the number of digits before and after the decimal. The value will be
    /// padded with zeroes to the left if necessary.
    pub fn format_float(
        &mut self,
        value: &FloatParts,
        digits_before_decimal: u8,
        digits_after_decimal: Option<DecimalDigits>,
    )
        requires
            old(self).wf(),
            value.suits(form_for(precision(digits_after_decimal))),
        ensures
            final(self).appended(
                *old(self),
                value.text(digits_before_decimal as int, precision(digits_after_decimal)),
            ),
    {
        let digits_after: u8 = match digits_after_decimal {
            Some(digits) => digits.get(),
            None => 0,
        };
        match value {
            FloatParts::Whole { int_part } => {
                self.write_zero_padded(*int_part, digits_before_decimal);
            },
            FloatParts::Truncated { int_part, frac_part } => {
                let ghost whole: Seq<u8> = padded(
                    *int_part as nat,
                    digits_before_decimal as int,
                    Padding::Zero,
                );
                let ghost fraction: Seq<u8> = padded(
                    *frac_part as nat,
                    digits_after as int,
                    Padding::Zero,
                );
                self.write_zero_padded(*int_part, digits_before_decimal);
                let ghost first: Output = *self;
                proof {
                    reveal_strlit(".");
                    lemma_ascii_encoding("."@);
                    assert(ascii("."@) =~= seq!['.' as u8]);
                }
                self.write(".");
                let ghost second: Output = *self;
                self.write_zero_padded(*frac_part, digits_after);
                proof {
                    law_writes_join(*old(self), first, second, whole, seq!['.' as u8]);
                    law_writes_join(*old(self), second, *self, whole + seq!['.' as u8], fraction);
                }
            },
            FloatParts::Rendered { text } => {
                let width: usize = digits_before_decimal as usize + 1 + digits_after as usize;
                let missing: usize = width.saturating_sub(text.len());
                self.write_zeros(missing);
                let ghost after_zeros: Output = *self;
                self.write_bytes(text.as_slice());
                proof {
                    let zeros = repeat('0' as u8, missing as int);
                    assert(zeros =~= repeat('0' as u8, width - text@.len()));
                    law_writes_join(*old(self), after_zeros, *self, zeros, text@);
                }
            },
        }
    }
}

} // verus!
