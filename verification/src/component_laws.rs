//! Laws that say of each byte of a component what it is.

use crate::calendar::{Period, Weekday};
use crate::components::{hour_on_12_hour_clock, period_letters, weekday_number};
use crate::float::{form_for, precision, FloatForm, FloatParts};
use crate::laws::lemma_significant_digits_bounds;
use crate::modifier::{Padding, SubsecondDigits};
use crate::place_laws::{law_padded_places, law_two_digits};
use crate::ranged::DecimalDigits;
use crate::subsecond::{lemma_nine_digits, nine_digits, subsecond_text};
use crate::text::{law_padded_width, padded, power_of_ten, repeat};
use vstd::prelude::*;

verus! {

/// Midnight and noon are written as 12 on the 12-hour clock. Any other hour of the morning is
/// written as it is, and any other hour of the afternoon as the hours since noon.
pub proof fn law_hours_since_noon(hour: int, padding: Padding)
    requires
        0 <= hour <= 23,
    ensures
        ({
            let text = padded(hour_on_12_hour_clock(hour) as nat, 2, padding);
            let shown: int = if hour == 0 || hour == 12 {
                12
            } else if hour < 12 {
                hour
            } else {
                hour - 12
            };
            &&& hour_on_12_hour_clock(hour) == shown
            &&& text.len() == if shown < 10 && padding is Unpadded {
                1int
            } else {
                2
            }
            &&& text.last() == '0' as u8 + shown % 10
            &&& shown >= 10 || padding is Zero ==> text[0] == '0' as u8 + shown / 10
            &&& shown < 10 && padding is Space ==> text[0] == ' ' as u8
        }),
{
    law_two_digits(hour_on_12_hour_clock(hour) as nat, padding);
}

/// The half of the day is written as two letters: an A before noon and a P from noon on, and then
/// an M, all in upper case or all in lower case.
pub proof fn law_period_letters(period: Period, is_uppercase: bool)
    ensures
        ({
            let text = period_letters(period, is_uppercase);
            &&& text.len() == 2
            &&& period is Am && is_uppercase ==> text[0] == 'A' as u8
            &&& period is Am && !is_uppercase ==> text[0] == 'a' as u8
            &&& period is Pm && is_uppercase ==> text[0] == 'P' as u8
            &&& period is Pm && !is_uppercase ==> text[0] == 'p' as u8
            &&& is_uppercase ==> text[1] == 'M' as u8
            &&& !is_uppercase ==> text[1] == 'm' as u8
        }),
{
}

/// A weekday is one digit: the days since the first day of the week, from 0 or from 1 on.
pub proof fn law_weekday_digit(weekday: Weekday, one_indexed: bool)
    ensures
        ({
            let from_sunday = weekday_number(weekday.days_from_sunday(), one_indexed);
            let from_monday = weekday_number(weekday.days_from_monday(), one_indexed);
            let first: int = if one_indexed {
                '1' as int
            } else {
                '0' as int
            };
            &&& from_sunday.len() == 1
            &&& from_monday.len() == 1
            &&& weekday is Sunday ==> from_sunday[0] == first && from_monday[0] == first + 6
            &&& weekday is Monday ==> from_sunday[0] == first + 1 && from_monday[0] == first
            &&& weekday is Tuesday ==> from_sunday[0] == first + 2 && from_monday[0] == first + 1
            &&& weekday is Wednesday ==> from_sunday[0] == first + 3 && from_monday[0] == first + 2
            &&& weekday is Thursday ==> from_sunday[0] == first + 4 && from_monday[0] == first + 3
            &&& weekday is Friday ==> from_sunday[0] == first + 5 && from_monday[0] == first + 4
            &&& weekday is Saturday ==> from_sunday[0] == first + 6 && from_monday[0] == first + 5
        }),
{
}

/// A fraction of a second has as many digits as its modifier names, whatever the nanoseconds. They
/// are the tenths of a second, the hundredths, and so on.
pub proof fn law_subsecond_digits(nanos: nat, digits: SubsecondDigits, i: int)
    requires
        nanos <= 999_999_999,
    ensures
        ({
            let text = subsecond_text(nanos, digits);
            &&& digits is One ==> text.len() == 1
            &&& digits is Two ==> text.len() == 2
            &&& digits is Three ==> text.len() == 3
            &&& digits is Four ==> text.len() == 4
            &&& digits is Five ==> text.len() == 5
            &&& digits is Six ==> text.len() == 6
            &&& digits is Seven ==> text.len() == 7
            &&& digits is Eight ==> text.len() == 8
            &&& digits is Nine ==> text.len() == 9
            &&& digits is OneOrMore ==> 1 <= text.len() <= 9
            &&& 0 <= i < text.len() ==> text[i] == '0' as u8 + (nanos / power_of_ten(
                (8 - i) as nat,
            )) % 10
        }),
{
    lemma_nine_digits(nanos);
    lemma_significant_digits_bounds(nine_digits(nanos));
    if 0 <= i < 9 {
        lemma_nanosecond_digit(nanos, i);
    }
}

/// A fraction of a second with as many digits as it needs: only zeros are left out, and of more
/// than one digit the last is not a zero.
pub proof fn law_subsecond_drops_only_zeros(nanos: nat, i: int)
    requires
        nanos <= 999_999_999,
    ensures
        ({
            let text = subsecond_text(nanos, SubsecondDigits::OneOrMore);
            &&& text.len() <= i <= 8 ==> (nanos / power_of_ten((8 - i) as nat)) % 10 == 0
            &&& text.len() > 1 ==> (nanos / power_of_ten((9 - text.len()) as nat)) % 10 != 0
        }),
{
    let all = nine_digits(nanos);
    let text = subsecond_text(nanos, SubsecondDigits::OneOrMore);
    lemma_nine_digits(nanos);
    lemma_significant_digits_bounds(all);
    if text.len() <= i <= 8 {
        lemma_nanosecond_digit(nanos, i);
    }
    lemma_nanosecond_digit(nanos, text.len() - 1);
}

/// The digits of a number of nanoseconds, from the tenths of a second on.
pub proof fn lemma_nanosecond_digit(nanos: nat, i: int)
    requires
        nanos <= 999_999_999,
        0 <= i < 9,
    ensures
        nine_digits(nanos)[i] == '0' as u8 + (nanos / power_of_ten((8 - i) as nat)) % 10,
{
    lemma_nine_digits(nanos);
    let k = (8 - i) as nat;
    law_padded_places(nanos, 9, Padding::Zero, k);
    if k > 0 && nanos < power_of_ten(k) {
        let power = power_of_ten(k) as int;
        vstd::arithmetic::div_mod::lemma_basic_div(nanos as int, power);
    }
}

/// Without a precision the integer part of a number is needed. With up to eight digits the number
/// is truncated, and with nine or more it is written out.
pub proof fn law_forms(digits: Option<DecimalDigits>)
    requires
        digits matches Some(digits) ==> 1 <= digits@ <= 255,
    ensures
        digits is None <==> form_for(precision(digits)) is Whole,
        digits is Some && digits->0@ <= 8 <==> form_for(precision(digits)) is Truncated,
        digits is Some && digits->0@ >= 9 <==> form_for(precision(digits)) is Rendered,
        form_for(precision(digits)) matches FloatForm::Truncated { digits: d } ==> d
            == digits->0@,
        form_for(precision(digits)) matches FloatForm::Rendered { digits: d } ==> d == digits->0@,
{
}

/// A number suits a form exactly if it was found out in that form.
pub proof fn law_parts_suit_their_form(parts: FloatParts, form: FloatForm)
    ensures
        form is Whole ==> parts.suits(form) == (parts is Whole),
        form is Truncated ==> parts.suits(form) == (parts is Truncated),
        form is Rendered ==> parts.suits(form) == (parts is Rendered),
{
}

/// An integer part alone is written with zeros before it up to the digits asked for.
pub proof fn law_whole_number_places(int_part: u64, before: int, after: Option<int>, k: nat)
    ensures
        ({
            let text = (FloatParts::Whole { int_part }).text(before, after);
            &&& k < text.len() <==> k == 0 || int_part >= power_of_ten(k) || k < before
            &&& k < text.len() ==> text[text.len() - 1 - k] == if k == 0 || int_part
                >= power_of_ten(k) {
                '0' as u8 + (int_part as nat / power_of_ten(k)) % 10
            } else {
                '0' as int
            }
        }),
{
    law_padded_places(int_part as nat, before, Padding::Zero, k);
}

/// A truncated number whose parts fit in their digits: the digits of the integer part, a decimal
/// point, and the digits of the fraction.
pub proof fn law_truncated_number_places(
    int_part: u64,
    frac_part: u64,
    before: nat,
    after: nat,
    k: nat,
)
    requires
        before >= 1,
        after >= 1,
        int_part < power_of_ten(before),
        frac_part < power_of_ten(after),
    ensures
        ({
            let text = (FloatParts::Truncated { int_part, frac_part }).text(
                before as int,
                Some(after as int),
            );
            &&& text.len() == before + 1 + after
            &&& text[before as int] == '.' as u8
            &&& k < before ==> text[before - 1 - k] == '0' as u8 + (int_part as nat
                / power_of_ten(k)) % 10
            &&& k < after ==> text[text.len() - 1 - k] == '0' as u8 + (frac_part as nat
                / power_of_ten(k)) % 10
        }),
{
    let parts = FloatParts::Truncated { int_part, frac_part };
    let text = parts.text(before as int, Some(after as int));
    let whole = padded(int_part as nat, before as int, Padding::Zero);
    let fraction = padded(frac_part as nat, after as int, Padding::Zero);
    law_padded_width(int_part as nat, before, Padding::Zero);
    law_padded_width(frac_part as nat, after, Padding::Zero);
    law_padded_places(int_part as nat, before as int, Padding::Zero, k);
    law_padded_places(frac_part as nat, after as int, Padding::Zero, k);
    if k < before {
        assert(text[before - 1 - k] == whole[before - 1 - k]);
        lemma_high_places_are_zero(int_part as nat, k);
    }
    if k < after {
        assert(text[text.len() - 1 - k] == fraction[after - 1 - k]);
        lemma_high_places_are_zero(frac_part as nat, k);
    }
}

proof fn lemma_high_places_are_zero(n: nat, k: nat)
    ensures
        n < power_of_ten(k) ==> (n / power_of_ten(k)) % 10 == 0,
{
    if n < power_of_ten(k) {
        vstd::arithmetic::div_mod::lemma_basic_div(n as int, power_of_ten(k) as int);
    }
}

/// A truncated number, whether or not its parts fit in their digits, is its integer part, a decimal
/// point and its fraction, each with leading zeros up to its digits.
pub proof fn law_truncated_number_parts(int_part: u64, frac_part: u64, before: int, after: int)
    ensures
        ({
            let text = (FloatParts::Truncated { int_part, frac_part }).text(before, Some(after));
            let point = padded(int_part as nat, before, Padding::Zero).len() as int;
            &&& text.len() == point + 1 + padded(frac_part as nat, after, Padding::Zero).len()
            &&& text.take(point) == padded(int_part as nat, before, Padding::Zero)
            &&& text[point] == '.' as u8
            &&& text.skip(point + 1) == padded(frac_part as nat, after, Padding::Zero)
        }),
{
    let text = (FloatParts::Truncated { int_part, frac_part }).text(before, Some(after));
    let whole = padded(int_part as nat, before, Padding::Zero);
    assert(text.take(whole.len() as int) =~= whole);
    assert(text.skip((whole.len() + 1) as int) =~= padded(frac_part as nat, after, Padding::Zero));
}

/// A number that was written out ends as it was written, and has zeros before it where it falls
/// short of its digits and its decimal point.
pub proof fn law_rendered_number_bytes(text: Vec<u8>, before: int, after: int, i: int)
    requires
        i >= 0,
    ensures
        ({
            let padded_text = (FloatParts::Rendered { text }).text(before, Some(after));
            let width = before + 1 + after;
            let missing: int = if text@.len() < width {
                width - text@.len()
            } else {
                0
            };
            &&& padded_text.len() == missing + text@.len()
            &&& i < missing ==> padded_text[i] == '0' as u8
            &&& missing <= i < padded_text.len() ==> padded_text[i] == text@[i - missing]
        }),
{
    let zeros = repeat('0' as u8, before + 1 + after - text@.len());
    assert((FloatParts::Rendered { text }).text(before, Some(after)) =~= zeros + text@);
}

} // verus!
