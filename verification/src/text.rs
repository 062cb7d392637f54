//! What numbers and names look like when they are written out.

use crate::modifier::Padding;
use vstd::prelude::*;

verus! {

/// The bytes of a text that holds ASCII characters only.
pub open spec fn ascii(text: Seq<char>) -> Seq<u8> {
    Seq::new(text.len(), |i: int| text[i] as u8)
}

/// The byte `byte`, `count` times over; nothing where `count` is negative.
pub open spec fn repeat(byte: u8, count: int) -> Seq<u8> {
    Seq::new(
        if count < 0 {
            0
        } else {
            count as nat
        },
        |i: int| byte,
    )
}

/// The digit of a number below ten.
pub open spec fn digit(n: int) -> u8 {
    ('0' as u8 + n) as u8
}

/// The decimal digits of a number, without leading zeros.
pub open spec fn decimal(n: nat) -> Seq<u8>
    decreases n,
{
    if n < 10 {
        seq![digit(n as int)]
    } else {
        decimal(n / 10).push(digit((n % 10) as int))
    }
}

/// A number, padded to a width.
pub open spec fn padded(n: nat, width: int, padding: Padding) -> Seq<u8> {
    let digits = decimal(n);
    match padding {
        Padding::Space => repeat(' ' as u8, width - digits.len()) + digits,
        Padding::Zero => repeat('0' as u8, width - digits.len()) + digits,
        Padding::Unpadded => digits,
    }
}

/// A number, followed by zeros where it falls short of a width.
pub open spec fn trailing_padded(n: nat, width: int) -> Seq<u8> {
    decimal(n) + repeat('0' as u8, width - decimal(n).len())
}

/// The sign that is written before a number.
pub open spec fn sign(is_negative: bool, sign_is_mandatory: bool) -> Seq<u8> {
    if is_negative {
        seq!['-' as u8]
    } else if sign_is_mandatory {
        seq!['+' as u8]
    } else {
        seq![]
    }
}

/// A number, padded to a width, behind its sign.
pub open spec fn signed(
    is_negative: bool,
    sign_is_mandatory: bool,
    n: nat,
    width: int,
    padding: Padding,
) -> Seq<u8> {
    sign(is_negative, sign_is_mandatory) + padded(n, width, padding)
}

/// The distance of an integer from zero.
pub open spec fn magnitude(n: int) -> nat {
    if n < 0 {
        (-n) as nat
    } else {
        n as nat
    }
}

/// Ten to the power of `exponent`.
pub open spec fn power_of_ten(exponent: nat) -> nat
    decreases exponent,
{
    if exponent == 0 {
        1
    } else {
        10 * power_of_ten((exponent - 1) as nat)
    }
}

/// The number that a sequence of decimal digits stands for.
pub open spec fn decimal_value(digits: Seq<u8>) -> nat
    decreases digits.len(),
{
    if digits.len() == 0 {
        0
    } else {
        decimal_value(digits.drop_last()) * 10 + (digits.last() - '0' as u8) as nat
    }
}

/// A text without the spaces that it begins with.
pub open spec fn without_leading_spaces(text: Seq<u8>) -> Seq<u8>
    decreases text.len(),
{
    if text.len() > 0 && text[0] == ' ' as u8 {
        without_leading_spaces(text.drop_first())
    } else {
        text
    }
}

/// The number that a text stands for, which may begin with a sign and be padded.
pub open spec fn signed_value(text: Seq<u8>) -> int {
    if text.len() > 0 && text[0] == '-' as u8 {
        -(decimal_value(without_leading_spaces(text.drop_first())) as int)
    } else if text.len() > 0 && text[0] == '+' as u8 {
        decimal_value(without_leading_spaces(text.drop_first())) as int
    } else {
        decimal_value(without_leading_spaces(text)) as int
    }
}

/// Every byte is a decimal digit.
pub open spec fn all_digits(text: Seq<u8>) -> bool {
    forall|i: int| 0 <= i < text.len() ==> '0' as u8 <= #[trigger] text[i] <= '9' as u8
}

/// The powers of ten that bound numbers of a few digits.
pub proof fn lemma_powers_of_ten()
    ensures
        power_of_ten(1) == 10,
        power_of_ten(2) == 100,
        power_of_ten(3) == 1_000,
        power_of_ten(4) == 10_000,
        power_of_ten(5) == 100_000,
        power_of_ten(6) == 1_000_000,
        power_of_ten(9) == 1_000_000_000,
{
    reveal_with_fuel(power_of_ten, 10);
}

/// An ASCII text is encoded by the code of each of its characters.
pub proof fn lemma_ascii_encoding(text: Seq<char>)
    requires
        vstd::utf8::is_ascii_chars(text),
    ensures
        vstd::utf8::encode_utf8(text) == ascii(text),
{
    vstd::utf8::is_ascii_chars_encode_utf8(text);
    assert(vstd::utf8::encode_utf8(text) =~= ascii(text));
}

/// A number written out has at least one digit, and nothing but digits.
pub proof fn law_decimal_holds_digits(n: nat)
    ensures
        decimal(n).len() >= 1,
        all_digits(decimal(n)),
    decreases n,
{
    if n >= 10 {
        law_decimal_holds_digits(n / 10);
    }
}

/// A number written out without padding begins with a zero only if it is zero.
pub proof fn law_decimal_has_no_leading_zero(n: nat)
    ensures
        decimal(n)[0] == '0' as u8 <==> n == 0,
    decreases n,
{
    if n >= 10 {
        law_decimal_holds_digits(n / 10);
        law_decimal_has_no_leading_zero(n / 10);
    }
}

/// A number written out reads back as the number.
pub proof fn law_decimal_reads_back(n: nat)
    ensures
        decimal_value(decimal(n)) == n,
    decreases n,
{
    if n < 10 {
        let digits = decimal(n);
        assert(digits.drop_last() == Seq::<u8>::empty());
        assert(decimal_value(digits.drop_last()) == 0);
    } else {
        law_decimal_reads_back(n / 10);
        assert(decimal(n).drop_last() == decimal(n / 10));
    }
}

/// A number fits in `width` digits exactly if it lies below ten to the power of `width`.
pub proof fn law_decimal_width(n: nat, width: nat)
    requires
        width >= 1,
    ensures
        decimal(n).len() <= width <==> n < power_of_ten(width),
    decreases width,
{
    if width == 1 {
        assert(power_of_ten(1) == 10) by {
            reveal_with_fuel(power_of_ten, 2);
        }
        if n >= 10 {
            law_decimal_holds_digits(n / 10);
        }
    } else {
        let less = power_of_ten((width - 1) as nat);
        assert(power_of_ten(width) == 10 * less);
        lemma_power_of_ten_positive((width - 1) as nat);
        if n >= 10 {
            law_decimal_width(n / 10, (width - 1) as nat);
            assert(n / 10 < less <==> n < 10 * less);
        }
    }
}

/// No power of ten is below one.
pub proof fn lemma_power_of_ten_positive(exponent: nat)
    ensures
        power_of_ten(exponent) >= 1,
    decreases exponent,
{
    if exponent > 0 {
        lemma_power_of_ten_positive((exponent - 1) as nat);
    }
}

/// A number that fits in its width takes exactly that width when it is padded.
pub proof fn law_padded_width(n: nat, width: nat, padding: Padding)
    requires
        width >= 1,
        n < power_of_ten(width),
        !(padding is Unpadded),
    ensures
        padded(n, width as int, padding).len() == width,
{
    law_decimal_width(n, width);
}

/// However a number is padded, what stands behind the leading spaces is made of digits and reads
/// back as the number.
pub proof fn law_padded_reads_back(n: nat, width: int, padding: Padding)
    ensures
        all_digits(without_leading_spaces(padded(n, width, padding))),
        decimal_value(without_leading_spaces(padded(n, width, padding))) == n,
{
    let digits = decimal(n);
    let count = width - digits.len();
    law_decimal_holds_digits(n);
    law_decimal_reads_back(n);
    match padding {
        Padding::Space => {
            lemma_leading_spaces(digits, count);
        },
        Padding::Zero => {
            lemma_leading_zeros(digits, count);
            assert(padded(n, width, padding)[0] != ' ' as u8);
        },
        Padding::Unpadded => {},
    }
}

/// Two numbers that are padded in the same way never look the same.
pub proof fn law_padded_is_unambiguous(m: nat, n: nat, width: int, padding: Padding)
    requires
        padded(m, width, padding) == padded(n, width, padding),
    ensures
        m == n,
{
    law_padded_reads_back(m, width, padding);
    law_padded_reads_back(n, width, padding);
}

/// A number that is padded with zeros reads back as the number.
pub proof fn law_zero_padded_reads_back(n: nat, width: int)
    ensures
        decimal_value(padded(n, width, Padding::Zero)) == n,
{
    law_decimal_reads_back(n);
    lemma_leading_zeros(decimal(n), width - decimal(n).len());
}

/// A number behind its sign reads back as the number, with that sign.
pub proof fn law_signed_reads_back(
    is_negative: bool,
    sign_is_mandatory: bool,
    n: nat,
    width: int,
    padding: Padding,
)
    ensures
        signed_value(signed(is_negative, sign_is_mandatory, n, width, padding)) == (
        if is_negative {
            -(n as int)
        } else {
            n as int
        }),
{
    let number = padded(n, width, padding);
    let text = signed(is_negative, sign_is_mandatory, n, width, padding);
    law_padded_reads_back(n, width, padding);
    law_decimal_holds_digits(n);
    if is_negative || sign_is_mandatory {
        assert(text.drop_first() =~= number);
    } else {
        assert(text =~= number);
        assert(number[0] == ' ' as u8 || '0' as u8 <= number[0] <= '9' as u8);
    }
}

/// Where two texts agree and their first parts are equally long, the parts agree.
pub proof fn lemma_split(head: Seq<u8>, tail: Seq<u8>, other_head: Seq<u8>, other_tail: Seq<u8>)
    requires
        head + tail == other_head + other_tail,
        head.len() == other_head.len(),
    ensures
        head == other_head,
        tail == other_tail,
{
    let text = head + tail;
    let other = other_head + other_tail;
    assert(head =~= text.take(head.len() as int));
    assert(other_head =~= other.take(head.len() as int));
    assert(tail =~= text.skip(head.len() as int));
    assert(other_tail =~= other.skip(head.len() as int));
}

/// Padding has no effect on a number that fills its width without it.
pub proof fn law_wide_numbers_are_not_padded(n: nat, width: nat, padding: Padding)
    requires
        width >= 1,
        n >= power_of_ten((width - 1) as nat),
    ensures
        padded(n, width as int, padding) == decimal(n),
{
    law_decimal_holds_digits(n);
    if width > 1 {
        law_decimal_width(n, (width - 1) as nat);
    }
    assert(padded(n, width as int, padding) =~= decimal(n));
}

/// A number without its last digit is the number divided by ten.
proof fn lemma_zero_padded_push(n: nat, width: int)
    requires
        width >= 2,
    ensures
        padded(n, width, Padding::Zero) == padded(n / 10, width - 1, Padding::Zero).push(
            digit((n % 10) as int),
        ),
{
    assert(padded(n, width, Padding::Zero) =~= padded(n / 10, width - 1, Padding::Zero).push(
        digit((n % 10) as int),
    ));
}

/// The first digits of a zero-padded number are those of the number divided by a power of ten.
pub proof fn law_division_truncates_digits(n: nat, width: nat, dropped: nat)
    requires
        dropped < width,
        n < power_of_ten(width),
    ensures
        padded(n / power_of_ten(dropped), width - dropped, Padding::Zero) == padded(
            n,
            width as int,
            Padding::Zero,
        ).take(width - dropped),
    decreases dropped,
{
    law_decimal_width(n, width);
    let all = padded(n, width as int, Padding::Zero);
    if dropped == 0 {
        assert(n / 1 == n);
        assert(all.take(width as int) =~= all);
    } else {
        let fewer = (dropped - 1) as nat;
        law_division_truncates_digits(n, width, fewer);
        lemma_power_of_ten_positive(fewer);
        let less = n / power_of_ten(fewer);
        assert(less / 10 == n / power_of_ten(dropped)) by {
            vstd::arithmetic::div_mod::lemma_div_denominator(
                n as int,
                power_of_ten(fewer) as int,
                10,
            );
            vstd::arithmetic::mul::lemma_mul_is_commutative(power_of_ten(fewer) as int, 10);
        }
        lemma_zero_padded_push(less, width - fewer);
        assert(all.take(width - fewer).drop_last() =~= all.take(width - dropped));
        assert(padded(less, width - fewer, Padding::Zero).drop_last() =~= padded(
            less / 10,
            width - dropped,
            Padding::Zero,
        ));
    }
}

proof fn lemma_leading_spaces(digits: Seq<u8>, count: int)
    requires
        digits.len() >= 1,
        all_digits(digits),
    ensures
        without_leading_spaces(repeat(' ' as u8, count) + digits) == digits,
    decreases count,
{
    let text = repeat(' ' as u8, count) + digits;
    if count <= 0 {
        assert(text == digits);
        assert(text[0] != ' ' as u8);
    } else {
        assert(text.drop_first() == repeat(' ' as u8, count - 1) + digits);
        lemma_leading_spaces(digits, count - 1);
    }
}

proof fn lemma_leading_zeros(digits: Seq<u8>, count: int)
    ensures
        decimal_value(repeat('0' as u8, count) + digits) == decimal_value(digits),
    decreases digits.len(), count,
{
    let text = repeat('0' as u8, count) + digits;
    if digits.len() > 0 {
        assert(text.drop_last() == repeat('0' as u8, count) + digits.drop_last());
        lemma_leading_zeros(digits.drop_last(), count);
    } else if count > 0 {
        assert(text.drop_last() == repeat('0' as u8, count - 1) + digits);
        lemma_leading_zeros(digits, count - 1);
    } else {
        assert(text == digits);
    }
}

} // verus!
