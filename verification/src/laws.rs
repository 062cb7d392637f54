//! Laws that hold of the components that are written.

use crate::calendar::{Period, Weekday};
use crate::components::{
    century_text, hour_on_12_hour_clock, period_letters, timestamp_text, weekday_number, year_text,
};
use crate::float::{form_for, FloatParts};
use crate::modifier::{Padding, SubsecondDigits};
use crate::subsecond::{
    lemma_nine_digits, nine_digits, significant_digits, subsecond_text, subsecond_width,
};
use crate::text::{
    all_digits, decimal, decimal_value, law_decimal_holds_digits, law_decimal_reads_back,
    law_division_truncates_digits, law_padded_is_unambiguous, law_padded_width,
    law_signed_reads_back, law_wide_numbers_are_not_padded, law_zero_padded_reads_back, magnitude,
    padded, power_of_ten, sign, signed, signed_value, trailing_padded,
};
use vstd::prelude::*;

verus! {

/// On the 12-hour clock the hours run from 1 to 12, and two hours that are written alike lie
/// exactly half a day apart, if they differ.
pub proof fn law_12_hour_clock(hour: int, other: int, padding: Padding)
    requires
        0 <= hour < 24,
        0 <= other < 24,
    ensures
        1 <= hour_on_12_hour_clock(hour) <= 12,
        padded(hour_on_12_hour_clock(hour) as nat, 2, padding) == padded(
            hour_on_12_hour_clock(other) as nat,
            2,
            padding,
        ) <==> hour == other || hour == other + 12 || other == hour + 12,
{
    if padded(hour_on_12_hour_clock(hour) as nat, 2, padding) == padded(
        hour_on_12_hour_clock(other) as nat,
        2,
        padding,
    ) {
        law_padded_is_unambiguous(
            hour_on_12_hour_clock(hour) as nat,
            hour_on_12_hour_clock(other) as nat,
            2,
            padding,
        );
    }
}

/// The letters tell the halves of the day apart, in either case.
pub proof fn law_periods_differ(period: Period, other: Period, is_uppercase: bool)
    requires
        period_letters(period, is_uppercase) == period_letters(other, is_uppercase),
    ensures
        period == other,
{
    assert(period_letters(period, is_uppercase)[0] == period_letters(other, is_uppercase)[0]);
}

/// Weekdays are numbered by one digit, from 0 to 6 or from 1 to 7. Sunday comes first in the one
/// count and Monday in the other, and no two weekdays have the same number.
pub proof fn law_weekday_numbers(weekday: Weekday, other: Weekday, one_indexed: bool)
    ensures
        0 <= weekday.days_from_sunday() <= 6,
        0 <= weekday.days_from_monday() <= 6,
        weekday.days_from_sunday() == 0 <==> weekday is Sunday,
        weekday.days_from_monday() == 0 <==> weekday is Monday,
        weekday_number(weekday.days_from_sunday(), one_indexed).len() == 1,
        weekday_number(weekday.days_from_monday(), one_indexed).len() == 1,
        weekday_number(weekday.days_from_sunday(), one_indexed) == weekday_number(
            other.days_from_sunday(),
            one_indexed,
        ) ==> weekday == other,
        weekday_number(weekday.days_from_monday(), one_indexed) == weekday_number(
            other.days_from_monday(),
            one_indexed,
        ) ==> weekday == other,
{
    let first: int = if one_indexed {
        1
    } else {
        0
    };
    law_decimal_reads_back((weekday.days_from_sunday() + first) as nat);
    law_decimal_reads_back((other.days_from_sunday() + first) as nat);
    law_decimal_reads_back((weekday.days_from_monday() + first) as nat);
    law_decimal_reads_back((other.days_from_monday() + first) as nat);
}

/// A year reads back as the year, however it is padded and whether or not a sign is mandatory.
pub proof fn law_year_reads_back(year: int, padding: Padding, sign_is_mandatory: bool)
    ensures
        signed_value(year_text(year, padding, sign_is_mandatory)) == year,
        signed_value(signed(year < 0, sign_is_mandatory, magnitude(year), 4, padding)) == year,
{
    law_signed_reads_back(
        year < 0,
        sign_is_mandatory || year >= 10_000,
        magnitude(year),
        4,
        padding,
    );
    law_signed_reads_back(year < 0, sign_is_mandatory, magnitude(year), 4, padding);
}

/// A year of at most four digits is written alike in the extended and in the standard range.
pub proof fn law_year_ranges_agree(year: int, padding: Padding, sign_is_mandatory: bool)
    requires
        -9_999 <= year <= 9_999,
    ensures
        year_text(year, padding, sign_is_mandatory) == signed(
            year < 0,
            sign_is_mandatory,
            magnitude(year),
            4,
            padding,
        ),
{
}

/// A century of at most two digits is written alike in the extended and in the standard range.
pub proof fn law_century_ranges_agree(
    century: int,
    is_negative: bool,
    padding: Padding,
    sign_is_mandatory: bool,
)
    requires
        -99 <= century <= 99,
    ensures
        century_text(century, is_negative, padding, sign_is_mandatory) == signed(
            is_negative,
            sign_is_mandatory,
            magnitude(century),
            2,
            padding,
        ),
{
}

/// A century reads back as its number, with the sign that was told.
pub proof fn law_century_reads_back(
    century: int,
    is_negative: bool,
    padding: Padding,
    sign_is_mandatory: bool,
)
    ensures
        signed_value(century_text(century, is_negative, padding, sign_is_mandatory)) == (
        if is_negative {
            -(magnitude(century) as int)
        } else {
            magnitude(century) as int
        }),
{
    law_signed_reads_back(
        is_negative,
        sign_is_mandatory || century >= 100,
        magnitude(century),
        2,
        padding,
    );
}

/// A year of more than four digits begins with a sign and is not affected by the modifier.
pub proof fn law_long_years_are_signed(
    year: int,
    padding: Padding,
    sign_is_mandatory: bool,
    other_padding: Padding,
    other_sign_is_mandatory: bool,
)
    requires
        year >= 10_000 || year <= -10_000,
    ensures
        year_text(year, padding, sign_is_mandatory) == sign(year < 0, true) + decimal(
            magnitude(year),
        ),
        year_text(year, padding, sign_is_mandatory) == year_text(
            year,
            other_padding,
            other_sign_is_mandatory,
        ),
{
    assert(power_of_ten(3) == 1_000) by {
        reveal_with_fuel(power_of_ten, 4);
    }
    law_wide_numbers_are_not_padded(magnitude(year), 4, padding);
    law_wide_numbers_are_not_padded(magnitude(year), 4, other_padding);
}

/// A timestamp reads back as the timestamp.
pub proof fn law_timestamp_reads_back(timestamp: int, sign_is_mandatory: bool)
    ensures
        signed_value(timestamp_text(timestamp, sign_is_mandatory)) == timestamp,
{
    law_signed_reads_back(
        timestamp < 0,
        sign_is_mandatory,
        magnitude(timestamp),
        0,
        Padding::Unpadded,
    );
}

/// A number with a fraction whose parts fit in their digits takes that many digits before and
/// behind the decimal point, and both parts read back.
pub proof fn law_truncated_float_reads_back(
    int_part: u64,
    frac_part: u64,
    digits_before: nat,
    digits_after: nat,
)
    requires
        digits_before >= 1,
        1 <= digits_after < 9,
        int_part < power_of_ten(digits_before),
        frac_part < power_of_ten(digits_after),
    ensures
        ({
            let parts = FloatParts::Truncated { int_part, frac_part };
            let text = parts.text(digits_before as int, Some(digits_after as int));
            &&& parts.suits(form_for(Some(digits_after as int)))
            &&& text.len() == digits_before + 1 + digits_after
            &&& decimal_value(text.take(digits_before as int)) == int_part
            &&& text[digits_before as int] == '.' as u8
            &&& decimal_value(text.skip((digits_before + 1) as int)) == frac_part
        }),
{
    let parts = FloatParts::Truncated { int_part, frac_part };
    let text = parts.text(digits_before as int, Some(digits_after as int));
    let whole = padded(int_part as nat, digits_before as int, Padding::Zero);
    let fraction = padded(frac_part as nat, digits_after as int, Padding::Zero);
    law_padded_width(int_part as nat, digits_before, Padding::Zero);
    law_padded_width(frac_part as nat, digits_after, Padding::Zero);
    law_zero_padded_reads_back(int_part as nat, digits_before as int);
    law_zero_padded_reads_back(frac_part as nat, digits_after as int);
    assert(text.take(digits_before as int) =~= whole);
    assert(text.skip((digits_before + 1) as int) =~= fraction);
}

/// The digits that count end where only zeros follow.
pub proof fn lemma_significant_digits_bounds(digits: Seq<u8>)
    requires
        digits.len() >= 1,
    ensures
        1 <= significant_digits(digits) <= digits.len(),
        forall|i: int|
            significant_digits(digits) <= i < digits.len() ==> digits[i] == '0' as u8,
        significant_digits(digits) > 1 ==> digits[significant_digits(digits) - 1] != '0' as u8,
    decreases digits.len(),
{
    if digits.len() > 1 && digits.last() == '0' as u8 {
        let fewer = digits.drop_last();
        lemma_significant_digits_bounds(fewer);
        assert forall|i: int| significant_digits(digits) <= i < digits.len() implies digits[i]
            == '0' as u8 by {
            assert(i < fewer.len() ==> fewer[i] == digits[i]);
        }
    }
}

/// Each zero that digits end with multiplies their number by ten.
pub proof fn lemma_trailing_zeros(digits: Seq<u8>, width: nat)
    requires
        width <= digits.len(),
        forall|i: int| width <= i < digits.len() ==> digits[i] == '0' as u8,
    ensures
        decimal_value(digits) == decimal_value(digits.take(width as int)) * power_of_ten(
            (digits.len() - width) as nat,
        ),
    decreases digits.len(),
{
    if width == digits.len() {
        assert(digits.take(width as int) =~= digits);
        let power = power_of_ten(0);
        assert(decimal_value(digits) * power == decimal_value(digits)) by (nonlinear_arith)
            requires
                power == 1,
        ;
    } else {
        let fewer = digits.drop_last();
        lemma_trailing_zeros(fewer, width);
        assert(fewer.take(width as int) =~= digits.take(width as int));
        let value = decimal_value(digits.take(width as int)) as int;
        let power = power_of_ten((fewer.len() - width) as nat) as int;
        assert(power_of_ten((digits.len() - width) as nat) == 10 * power);
        assert((value * power) * 10 == value * (10 * power)) by (nonlinear_arith);
        assert(digits.last() == '0' as u8);
    }
}

/// A number that is padded with trailing zeros takes its width, or its own digits where they are
/// more, and each zero multiplies it by ten: as the digits of a fraction it keeps its value.
pub proof fn law_trailing_zeros_keep_the_fraction(n: nat, width: nat)
    ensures
        ({
            let text = trailing_padded(n, width as int);
            let digits = decimal(n).len();
            &&& text.len() == if width < digits {
                digits
            } else {
                width
            }
            &&& all_digits(text)
            &&& decimal_value(text) == n * power_of_ten((text.len() - digits) as nat)
        }),
{
    let text = trailing_padded(n, width as int);
    law_decimal_reads_back(n);
    law_decimal_holds_digits(n);
    lemma_trailing_zeros(text, decimal(n).len());
    assert(text.take(decimal(n).len() as int) =~= decimal(n));
}

/// A fraction of a second has as many digits as were asked for, and they are the first of the nine
/// digits of its nanoseconds: it is truncated, never rounded.
pub proof fn law_subsecond_truncates(nanos: nat, digits: SubsecondDigits)
    requires
        nanos <= 999_999_999,
    ensures
        1 <= subsecond_width(nanos, digits) <= 9,
        subsecond_text(nanos, digits).len() == subsecond_width(nanos, digits),
        decimal_value(subsecond_text(nanos, digits)) == nanos / power_of_ten(
            (9 - subsecond_width(nanos, digits)) as nat,
        ),
{
    let width = subsecond_width(nanos, digits);
    lemma_nine_digits(nanos);
    lemma_significant_digits_bounds(nine_digits(nanos));
    law_division_truncates_digits(nanos, 9, (9 - width) as nat);
    law_zero_padded_reads_back(nanos / power_of_ten((9 - width) as nat), width as int);
}

/// A fraction of a second that is written with as many digits as it needs loses nothing, and ends
/// with a zero only if that is its one digit.
pub proof fn law_subsecond_one_or_more_is_exact(nanos: nat)
    requires
        nanos <= 999_999_999,
    ensures
        ({
            let text = subsecond_text(nanos, SubsecondDigits::OneOrMore);
            &&& decimal_value(text) * power_of_ten((9 - text.len()) as nat) == nanos
            &&& text.len() == 1 || text.last() != '0' as u8
        }),
{
    let all = nine_digits(nanos);
    lemma_nine_digits(nanos);
    lemma_significant_digits_bounds(all);
    lemma_trailing_zeros(all, significant_digits(all));
    law_zero_padded_reads_back(nanos, 9);
}

} // verus!
