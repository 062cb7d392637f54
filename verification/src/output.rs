//! The output that bytes are written to.

use crate::modifier::Padding;
use crate::num_fmt;
use crate::ranged::{Digit, FiveDigits, FourDigits, SixDigits, ThreeDigits, TwoDigits};
use crate::text::{decimal, padded, repeat, trailing_padded};
use vstd::prelude::*;
use vstd::utf8::encode_utf8;

verus! {

/// An output that keeps track of the number of bytes written to it.
#[derive(Debug)]
pub struct Output {
    /// The number of bytes written to the output.
    bytes_written: usize,
    /// The output that bytes are written to.
    output: Vec<u8>,
}

/// The bytes of all strings, in order.
pub open spec fn joined(strings: Seq<&str>) -> Seq<u8>
    decreases strings.len(),
{
    if strings.len() == 0 {
        seq![]
    } else {
        joined(strings.drop_last()) + encode_utf8(strings.last()@)
    }
}

/// No strings make no bytes, and a string behind others adds its own bytes behind theirs.
pub proof fn law_strings_are_joined_in_order(strings: Seq<&str>, last: &str)
    ensures
        joined(Seq::<&str>::empty()).len() == 0,
        joined(strings.push(last)) == joined(strings) + encode_utf8(last@),
{
    assert(strings.push(last).drop_last() =~= strings);
}

/// What is appended stands behind all that the output held, and every byte of it is counted, once.
pub proof fn law_appended_bytes(before: Output, after: Output, text: Seq<u8>, i: int)
    requires
        after.appended(before, text),
    ensures
        after.contents().len() == before.contents().len() + text.len(),
        0 <= i < before.contents().len() ==> after.contents()[i] == before.contents()[i],
        0 <= i < text.len() ==> after.contents()[before.contents().len() + i] == text[i],
        after.written() == before.written() + text.len(),
        after.wf(),
{
}

/// An output that counts no more than it holds can be written to.
pub proof fn law_outputs_that_hold_what_they_count(output: Output)
    ensures
        output.wf() <==> output.written() <= output.contents().len(),
{
}

/// What is written in two steps, one after the other, is what is written at once.
pub proof fn law_writes_join(
    first: Output,
    second: Output,
    third: Output,
    head: Seq<u8>,
    tail: Seq<u8>,
)
    requires
        second.appended(first, head),
        third.appended(second, tail),
    ensures
        third.appended(first, head + tail),
{
    assert(first.contents() + head + tail == first.contents() + (head + tail));
}

impl Output {
    /// What the output holds.
    pub closed spec fn contents(self) -> Seq<u8> {
        self.output@
    }

    /// How many bytes were written since the output was made.
    pub closed spec fn written(self) -> nat {
        self.bytes_written as nat
    }

    /// No more bytes are counted than the output holds.
    pub open spec fn wf(self) -> bool {
        self.written() <= self.contents().len()
    }

    /// The output is what `before` was, followed by `text`, all of which is counted.
    pub open spec fn appended(self, before: Output, text: Seq<u8>) -> bool {
        &&& self.wf()
        &&& self.contents() == before.contents() + text
        &&& self.written() == before.written() + text.len()
    }

    /// Makes an output that goes on behind the bytes given.
    pub fn new(output: Vec<u8>) -> (r: Self)
        ensures
            r.wf(),
            r.contents() == output@,
            r.written() == 0,
    {
        Output { bytes_written: 0, output }
    }

    /// Returns the number of bytes written since the output was made.
    pub fn bytes_written(&self) -> (r: usize)
        ensures
            r == self.written(),
    {
        self.bytes_written
    }

    /// Returns what the output holds.
    pub fn as_slice(&self) -> (r: &[u8])
        ensures
            r@ == self.contents(),
    {
        self.output.as_slice()
    }

    /// Returns the bytes that the output holds.
    pub fn into_inner(self) -> (r: Vec<u8>)
        ensures
            r@ == self.contents(),
    {
        self.output
    }

    /// Write the string to the output.
    pub fn write(&mut self, s: &str)
        requires
            old(self).wf(),
        ensures
            final(self).appended(*old(self), encode_utf8(s@)),
    {
        self.write_bytes(s.as_bytes());
    }

    /// Write all bytes to the output.
    pub fn write_bytes(&mut self, bytes: &[u8])
        requires
            old(self).wf(),
        ensures
            final(self).appended(*old(self), bytes@),
    {
        self.output.extend_from_slice(bytes);
        assert(self.output@ == old(self).output@ + bytes@);
        assert(self.output.len() <= usize::MAX);
        self.bytes_written = self.bytes_written + bytes.len();
    }

    /// Write all strings to the output (in order).
    pub fn write_many<const N: usize>(&mut self, arr: [&str; N])
        requires
            old(self).wf(),
        ensures
            final(self).appended(*old(self), joined(arr@)),
    {
        let mut i: usize = 0;
        assert(arr@.take(0) == Seq::<&str>::empty());
        while i < N
            invariant
                i <= N,
                arr@.len() == N,
                self.appended(*old(self), joined(arr@.take(i as int))),
            decreases N - i,
        {
            let ghost before: Output = *self;
            self.write(arr[i]);
            i = i + 1;
            assert(arr@.take(i as int).drop_last() == arr@.take(i - 1));
            proof {
                law_writes_join(
                    *old(self),
                    before,
                    *self,
                    joined(arr@.take(i - 1)),
                    encode_utf8(arr@[i - 1]@),
                );
            }
        }
        assert(arr@.take(N as int) == arr@);
    }

    /// Write the string to the output if and only if `pred` is true.
    pub fn write_if(&mut self, pred: bool, s: &str)
        requires
            old(self).wf(),
        ensures
            final(self).appended(
                *old(self),
                if pred {
                    encode_utf8(s@)
                } else {
                    seq![]
                },
            ),
    {
        if pred {
            self.write(s);
        }
    }

    /// If and only if `pred` is true, write `true_str` to the output. Otherwise, write `false_str`.
    pub fn write_if_else(&mut self, pred: bool, true_str: &str, false_str: &str)
        requires
            old(self).wf(),
        ensures
            final(self).appended(
                *old(self),
                encode_utf8(
                    if pred {
                        true_str@
                    } else {
                        false_str@
                    },
                ),
            ),
    {
        self.write(
            if pred {
                true_str
            } else {
                false_str
            },
        );
    }

    /// Write an integer with zeros as trailing padding if necessary to reach the requested width.
    ///
    /// This function is intended to be used for formatting the fractional part of a value, as the
    /// trailing zeros would change the semantic meaning for non-fractional values.
    pub fn format_int_padded(&mut self, value: u64, width: u8)
        requires
            old(self).wf(),
        ensures
            final(self).appended(*old(self), trailing_padded(value as nat, width as int)),
    {
        let s: Vec<u8> = num_fmt::pad_none(value as u128);
        self.write_bytes(s.as_slice());
        let ghost after_digits: Output = *self;
        let missing: usize = (width as usize).saturating_sub(s.len());
        self.write_zeros(missing);
        proof {
            law_writes_join(
                *old(self),
                after_digits,
                *self,
                decimal(value as nat),
                repeat('0' as u8, missing as int),
            );
            assert(repeat('0' as u8, missing as int) =~= repeat('0' as u8, width - s@.len()));
        }
    }

    /// Write an integer with zeros before it if necessary to reach the requested width.
    pub(crate) fn write_zero_padded(&mut self, value: u64, width: u8)
        requires
            old(self).wf(),
        ensures
            final(self).appended(*old(self), padded(value as nat, width as int, Padding::Zero)),
    {
        let s: Vec<u8> = num_fmt::pad(value as u128, width, Padding::Zero);
        self.write_bytes(s.as_slice());
    }

    /// Write as many zeros as are asked for.
    pub(crate) fn write_zeros(&mut self, count: usize)
        requires
            old(self).wf(),
        ensures
            final(self).appended(*old(self), repeat('0' as u8, count as int)),
    {
        let mut zeros: Vec<u8> = Vec::new();
        while zeros.len() < count
            invariant
                zeros@ == repeat('0' as u8, zeros@.len() as int),
                zeros@.len() <= count,
            decreases count - zeros@.len(),
        {
            zeros.push('0' as u8);
        }
        self.write_bytes(zeros.as_slice());
    }

    /// Format a single digit.
    pub fn format_single_digit(&mut self, value: Digit)
        requires
            old(self).wf(),
        ensures
            final(self).appended(*old(self), decimal(value@ as nat)),
    {
        let s: Vec<u8> = num_fmt::pad_none(value.get() as u128);
        self.write_bytes(s.as_slice());
    }

    /// Format a two digit number with the specified padding.
    pub fn format_two_digits(&mut self, value: TwoDigits, padding: Padding)
        requires
            old(self).wf(),
        ensures
            final(self).appended(*old(self), padded(value@ as nat, 2, padding)),
    {
        let s: Vec<u8> = num_fmt::pad(value.get() as u128, 2, padding);
        self.write_bytes(s.as_slice());
    }

    /// Format a three digit number with the specified padding.
    pub fn format_three_digits(&mut self, value: ThreeDigits, padding: Padding)
        requires
            old(self).wf(),
        ensures
            final(self).appended(*old(self), padded(value@ as nat, 3, padding)),
    {
        let s: Vec<u8> = num_fmt::pad(value.get() as u128, 3, padding);
        self.write_bytes(s.as_slice());
    }

    /// Format a four digit number with the specified padding.
    pub fn format_four_digits(&mut self, value: FourDigits, padding: Padding)
        requires
            old(self).wf(),
        ensures
            final(self).appended(*old(self), padded(value@ as nat, 4, padding)),
    {
        let s: Vec<u8> = num_fmt::pad(value.get() as u128, 4, padding);
        self.write_bytes(s.as_slice());
    }

    /// Format a four digit number that is padded with zeroes.
    pub fn format_four_digits_pad_zero(&mut self, value: FourDigits)
        requires
            old(self).wf(),
        ensures
            final(self).appended(*old(self), padded(value@ as nat, 4, Padding::Zero)),
    {
        self.format_four_digits(value, Padding::Zero);
    }

    /// Format a five digit number that is padded with zeroes.
    pub fn format_five_digits_pad_zero(&mut self, value: FiveDigits)
        requires
            old(self).wf(),
        ensures
            final(self).appended(*old(self), padded(value@ as nat, 5, Padding::Zero)),
    {
        let s: Vec<u8> = num_fmt::pad(value.get() as u128, 5, Padding::Zero);
        self.write_bytes(s.as_slice());
    }

    /// Format a six digit number that is padded with zeroes.
    pub fn format_six_digits_pad_zero(&mut self, value: SixDigits)
        requires
            old(self).wf(),
        ensures
            final(self).appended(*old(self), padded(value@ as nat, 6, Padding::Zero)),
    {
        let s: Vec<u8> = num_fmt::pad(value.get() as u128, 6, Padding::Zero);
        self.write_bytes(s.as_slice());
    }

    /// Format a number with no padding.
    ///
    /// If the sign is mandatory, the sign must be written by the caller.
    pub fn format_u64_pad_none(&mut self, value: u64)
        requires
            old(self).wf(),
        ensures
            final(self).appended(*old(self), decimal(value as nat)),
    {
        let s: Vec<u8> = num_fmt::pad_none(value as u128);
        self.write_bytes(s.as_slice());
    }

    /// Format a number with no padding.
    ///
    /// If the sign is mandatory, the sign must be written by the caller.
    pub fn format_u128_pad_none(&mut self, value: u128)
        requires
            old(self).wf(),
        ensures
            final(self).appended(*old(self), decimal(value as nat)),
    {
        let s: Vec<u8> = num_fmt::pad_none(value);
        self.write_bytes(s.as_slice());
    }
}

} // verus!
