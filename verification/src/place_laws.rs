//! Laws that say of each byte of a number what it is.
//!
//! The digit of a number at place `k`, counted from the last, is the remainder by ten of the number
//! divided by ten to the power of `k`.

use crate::components::{century_text, timestamp_text, year_text};
use crate::modifier::Padding;
use crate::text::{
    decimal, decimal_value, digit, law_decimal_has_no_leading_zero, law_decimal_holds_digits,
    law_decimal_width, lemma_power_of_ten_positive, lemma_powers_of_ten, magnitude, padded,
    power_of_ten, repeat, sign, signed, trailing_padded,
};
use vstd::prelude::*;

verus! {

/// The powers of ten begin with one, and each is ten times the one before.
pub proof fn law_powers_of_ten_grow_tenfold(exponent: nat)
    ensures
        power_of_ten(0) == 1,
        power_of_ten(exponent + 1) == 10 * power_of_ten(exponent),
{
}

/// No digits stand for zero, and a digit behind others adds its own value to ten times theirs.
pub proof fn law_digits_are_read_from_the_left(digits: Seq<u8>, last: u8)
    requires
        '0' as u8 <= last <= '9' as u8,
    ensures
        decimal_value(Seq::<u8>::empty()) == 0,
        decimal_value(digits.push(last)) == 10 * decimal_value(digits) + (last - '0' as u8),
{
    assert(digits.push(last).drop_last() =~= digits);
}

/// A byte that is repeated stands as often as asked for, and nothing else does.
pub proof fn law_repeat_repeats(byte: u8, count: int, i: int)
    ensures
        repeat(byte, count).len() == if count < 0 {
            0
        } else {
            count
        },
        0 <= i < count ==> repeat(byte, count)[i] == byte,
{
}

/// The distance from zero is never negative, and is the number itself or its opposite.
pub proof fn law_magnitude(n: int)
    ensures
        n >= 0 ==> magnitude(n) == n,
        n < 0 ==> magnitude(n) == -n,
{
}

/// A minus sign is written before negative numbers and no others, and a plus sign before the others
/// exactly if a sign is mandatory.
pub proof fn law_sign_bytes(is_negative: bool, sign_is_mandatory: bool)
    ensures
        sign(is_negative, sign_is_mandatory).len() == if is_negative || sign_is_mandatory {
            1int
        } else {
            0
        },
        is_negative ==> sign(is_negative, sign_is_mandatory)[0] == '-' as u8,
        !is_negative && sign_is_mandatory ==> sign(is_negative, sign_is_mandatory)[0] == '+' as u8,
{
}

proof fn lemma_ones(n: nat)
    ensures
        n / power_of_ten(0) == n,
{
    let one = power_of_ten(0);
    assert(n / one == n) by (nonlinear_arith)
        requires
            one == 1,
    ;
}

proof fn lemma_decimal_place(n: nat, k: nat)
    requires
        k < decimal(n).len(),
    ensures
        decimal(n)[decimal(n).len() - 1 - k] == digit(((n / power_of_ten(k)) % 10) as int),
    decreases k,
{
    if k == 0 {
        lemma_ones(n);
    } else {
        let less = (k - 1) as nat;
        assert(n >= 10);
        lemma_decimal_place(n / 10, less);
        lemma_power_of_ten_positive(less);
        assert((n / 10) / power_of_ten(less) == n / power_of_ten(k)) by {
            vstd::arithmetic::div_mod::lemma_div_denominator(
                n as int,
                10,
                power_of_ten(less) as int,
            );
        }
        assert(decimal(n)[decimal(n).len() - 1 - k] == decimal(n / 10)[decimal(n / 10).len() - 1
            - less]);
    }
}

/// A number written out has a digit at place `k` exactly if it is not below ten to the power of
/// `k`, and one at the last place in any case.
pub proof fn law_decimal_places(n: nat, k: nat)
    ensures
        k < decimal(n).len() <==> k == 0 || n >= power_of_ten(k),
        k < decimal(n).len() ==> decimal(n)[decimal(n).len() - 1 - k] == '0' as u8 + (n
            / power_of_ten(k)) % 10,
{
    law_decimal_holds_digits(n);
    if k > 0 {
        law_decimal_width(n, k);
    }
    if k < decimal(n).len() {
        lemma_decimal_place(n, k);
    }
}

/// A padded number has its digits at its last places. At the places that it lacks, up to its width,
/// stand zeros or spaces, or nothing.
pub proof fn law_padded_places(n: nat, width: int, padding: Padding, k: nat)
    ensures
        ({
            let text = padded(n, width, padding);
            &&& k < text.len() <==> k == 0 || n >= power_of_ten(k) || (k < width && !(
            padding is Unpadded))
            &&& k < text.len() ==> text[text.len() - 1 - k] == if k == 0 || n >= power_of_ten(k) {
                '0' as u8 + (n / power_of_ten(k)) % 10
            } else if padding is Space {
                ' ' as int
            } else {
                '0' as int
            }
        }),
{
    law_decimal_places(n, k);
    law_decimal_holds_digits(n);
}

/// A number with trailing zeros begins with its digits, and has zeros behind them up to its width.
pub proof fn law_trailing_padded_places(n: nat, width: int, i: int)
    requires
        i >= 0,
    ensures
        ({
            let text = trailing_padded(n, width);
            let digits = decimal(n);
            &&& i < text.len() <==> i < digits.len() || i < width
            &&& i < digits.len() ==> text[i] == digits[i]
            &&& digits.len() <= i < width ==> text[i] == '0' as u8
        }),
{
    let text = trailing_padded(n, width);
    let digits = decimal(n);
    assert(text =~= digits + repeat('0' as u8, width - digits.len()));
}

/// A number behind its sign: the first byte is the sign, where there is one, and the last bytes are
/// the padded number.
pub proof fn law_signed_places(
    is_negative: bool,
    sign_is_mandatory: bool,
    n: nat,
    width: int,
    padding: Padding,
    k: nat,
)
    ensures
        ({
            let text = signed(is_negative, sign_is_mandatory, n, width, padding);
            let lead: int = if is_negative || sign_is_mandatory {
                1
            } else {
                0
            };
            &&& text.len() > lead
            &&& is_negative ==> text[0] == '-' as u8
            &&& !is_negative && sign_is_mandatory ==> text[0] == '+' as u8
            &&& k < text.len() - lead <==> k == 0 || n >= power_of_ten(k) || (k < width && !(
            padding is Unpadded))
            &&& k < text.len() - lead ==> text[text.len() - 1 - k] == if k == 0 || n
                >= power_of_ten(k) {
                '0' as u8 + (n / power_of_ten(k)) % 10
            } else if padding is Space {
                ' ' as int
            } else {
                '0' as int
            }
        }),
{
    law_padded_places(n, width, padding, k);
    law_padded_places(n, width, padding, 0);
    let text = signed(is_negative, sign_is_mandatory, n, width, padding);
    let number = padded(n, width, padding);
    if k < number.len() {
        assert(text[text.len() - 1 - k] == number[number.len() - 1 - k]);
    }
}

/// A year begins with a minus sign exactly if it is negative, and with a plus sign exactly if it is
/// not and has more than four digits or a sign is mandatory. Behind it stand the year's digits,
/// padded to four.
pub proof fn law_year_places(year: int, padding: Padding, sign_is_mandatory: bool, k: nat)
    ensures
        ({
            let text = year_text(year, padding, sign_is_mandatory);
            let n: nat = (if year < 0 {
                -year
            } else {
                year
            }) as nat;
            let lead: int = if year < 0 || year > 9_999 || sign_is_mandatory {
                1
            } else {
                0
            };
            &&& text.len() > lead
            &&& year < 0 ==> text[0] == '-' as u8
            &&& year >= 0 && lead == 1 ==> text[0] == '+' as u8
            &&& k < text.len() - lead <==> k == 0 || n >= power_of_ten(k) || (k < 4 && !(
            padding is Unpadded))
            &&& k < text.len() - lead ==> text[text.len() - 1 - k] == if k == 0 || n
                >= power_of_ten(k) {
                '0' as u8 + (n / power_of_ten(k)) % 10
            } else if padding is Space {
                ' ' as int
            } else {
                '0' as int
            }
        }),
{
    law_signed_places(
        year < 0,
        sign_is_mandatory || year >= 10_000,
        magnitude(year),
        4,
        padding,
        k,
    );
}

/// A century begins with a minus sign exactly if it is told to be negative, and with a plus sign
/// exactly if it is not and has more than two digits or a sign is mandatory. Behind it stand the
/// century's digits, padded to two.
pub proof fn law_century_places(
    century: int,
    is_negative: bool,
    padding: Padding,
    sign_is_mandatory: bool,
    k: nat,
)
    ensures
        ({
            let text = century_text(century, is_negative, padding, sign_is_mandatory);
            let n: nat = (if century < 0 {
                -century
            } else {
                century
            }) as nat;
            let lead: int = if is_negative || century > 99 || sign_is_mandatory {
                1
            } else {
                0
            };
            &&& text.len() > lead
            &&& is_negative ==> text[0] == '-' as u8
            &&& !is_negative && lead == 1 ==> text[0] == '+' as u8
            &&& k < text.len() - lead <==> k == 0 || n >= power_of_ten(k) || (k < 2 && !(
            padding is Unpadded))
            &&& k < text.len() - lead ==> text[text.len() - 1 - k] == if k == 0 || n
                >= power_of_ten(k) {
                '0' as u8 + (n / power_of_ten(k)) % 10
            } else if padding is Space {
                ' ' as int
            } else {
                '0' as int
            }
        }),
{
    law_signed_places(
        is_negative,
        sign_is_mandatory || century >= 100,
        magnitude(century),
        2,
        padding,
        k,
    );
}

/// A timestamp begins with a minus sign exactly if it is negative, and with a plus sign exactly if
/// it is not and a sign is mandatory. Behind it stand the timestamp's digits and no others: the
/// first of them is a zero only if the timestamp is zero, and then it is the only one.
pub proof fn law_timestamp_places(timestamp: int, sign_is_mandatory: bool, k: nat)
    ensures
        ({
            let text = timestamp_text(timestamp, sign_is_mandatory);
            let n: nat = (if timestamp < 0 {
                -timestamp
            } else {
                timestamp
            }) as nat;
            let lead: int = if timestamp < 0 || sign_is_mandatory {
                1
            } else {
                0
            };
            &&& text.len() > lead
            &&& timestamp < 0 ==> text[0] == '-' as u8
            &&& timestamp >= 0 && sign_is_mandatory ==> text[0] == '+' as u8
            &&& text[lead] == '0' as u8 <==> timestamp == 0
            &&& timestamp == 0 ==> text.len() == lead + 1
            &&& k < text.len() - lead <==> k == 0 || n >= power_of_ten(k)
            &&& k < text.len() - lead ==> text[text.len() - 1 - k] == '0' as u8 + (n
                / power_of_ten(k)) % 10
        }),
{
    let n = magnitude(timestamp);
    law_signed_places(timestamp < 0, sign_is_mandatory, n, 0, Padding::Unpadded, k);
    law_decimal_has_no_leading_zero(n);
    law_decimal_holds_digits(n);
    assert(timestamp_text(timestamp, sign_is_mandatory) =~= signed(
        timestamp < 0,
        sign_is_mandatory,
        n,
        0,
        Padding::Unpadded,
    ));
}

/// Both digits of a number below a hundred: tens before ones. A number below ten has a zero, a
/// space or nothing in place of the tens.
pub proof fn law_two_digits(n: nat, padding: Padding)
    requires
        n <= 99,
    ensures
        ({
            let text = padded(n, 2, padding);
            &&& text.len() == if n < 10 && padding is Unpadded {
                1int
            } else {
                2
            }
            &&& text.last() == '0' as u8 + n % 10
            &&& n >= 10 || padding is Zero ==> text[0] == '0' as u8 + n / 10
            &&& n < 10 && padding is Space ==> text[0] == ' ' as u8
        }),
{
    lemma_powers_of_ten();
    law_padded_places(n, 2, padding, 0);
    law_padded_places(n, 2, padding, 1);
    law_padded_places(n, 2, padding, 2);
    lemma_ones(n);
}

/// The three digits of a number below a thousand, where leading zeros are written: hundreds, tens
/// and ones.
pub proof fn law_three_digits(n: nat)
    requires
        n <= 999,
    ensures
        padded(n, 3, Padding::Zero).len() == 3,
        padded(n, 3, Padding::Zero)[0] == '0' as u8 + n / 100,
        padded(n, 3, Padding::Zero)[1] == '0' as u8 + (n / 10) % 10,
        padded(n, 3, Padding::Zero)[2] == '0' as u8 + n % 10,
{
    lemma_powers_of_ten();
    law_padded_places(n, 3, Padding::Zero, 0);
    law_padded_places(n, 3, Padding::Zero, 1);
    law_padded_places(n, 3, Padding::Zero, 2);
    law_padded_places(n, 3, Padding::Zero, 3);
    lemma_ones(n);
}

/// The four digits of a number below ten thousand, where leading zeros are written.
pub proof fn law_four_digits(n: nat)
    requires
        n <= 9_999,
    ensures
        padded(n, 4, Padding::Zero).len() == 4,
        padded(n, 4, Padding::Zero)[0] == '0' as u8 + n / 1_000,
        padded(n, 4, Padding::Zero)[1] == '0' as u8 + (n / 100) % 10,
        padded(n, 4, Padding::Zero)[2] == '0' as u8 + (n / 10) % 10,
        padded(n, 4, Padding::Zero)[3] == '0' as u8 + n % 10,
{
    lemma_powers_of_ten();
    law_padded_places(n, 4, Padding::Zero, 0);
    law_padded_places(n, 4, Padding::Zero, 1);
    law_padded_places(n, 4, Padding::Zero, 2);
    law_padded_places(n, 4, Padding::Zero, 3);
    law_padded_places(n, 4, Padding::Zero, 4);
    lemma_ones(n);
}

/// The six digits of a number below a million, where leading zeros are written.
pub proof fn law_six_digits(n: nat)
    requires
        n <= 999_999,
    ensures
        padded(n, 6, Padding::Zero).len() == 6,
        padded(n, 6, Padding::Zero)[0] == '0' as u8 + n / 100_000,
        padded(n, 6, Padding::Zero)[1] == '0' as u8 + (n / 10_000) % 10,
        padded(n, 6, Padding::Zero)[2] == '0' as u8 + (n / 1_000) % 10,
        padded(n, 6, Padding::Zero)[3] == '0' as u8 + (n / 100) % 10,
        padded(n, 6, Padding::Zero)[4] == '0' as u8 + (n / 10) % 10,
        padded(n, 6, Padding::Zero)[5] == '0' as u8 + n % 10,
{
    lemma_powers_of_ten();
    law_padded_places(n, 6, Padding::Zero, 0);
    law_padded_places(n, 6, Padding::Zero, 1);
    law_padded_places(n, 6, Padding::Zero, 2);
    law_padded_places(n, 6, Padding::Zero, 3);
    law_padded_places(n, 6, Padding::Zero, 4);
    law_padded_places(n, 6, Padding::Zero, 5);
    law_padded_places(n, 6, Padding::Zero, 6);
    lemma_ones(n);
}

} // verus!
