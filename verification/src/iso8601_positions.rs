//! Laws that say of each byte of a date, a time or an offset in ISO 8601 what it is.

use crate::component_laws::lemma_nanosecond_digit;
use crate::float::{precision, FloatParts};
use crate::iso8601::{
    date_tail, date_year, fraction_text, offset_error, offset_text, outcome, separator, time_digits,
    time_head, time_mark, time_tail, year_field, DateComponents, Format, Iso8601, OffsetComponents,
    TimeComponents, TimePrecision,
};
use crate::modifier::Padding;
use crate::place_laws::{law_four_digits, law_six_digits, law_three_digits, law_two_digits};
use crate::ranged::DecimalDigits;
use crate::subsecond::{lemma_nine_digits, nine_digits};
use crate::text::{magnitude, padded, power_of_ten, repeat};
use vstd::prelude::*;

verus! {

/// A year of six digits is written with its sign: a minus sign exactly if it is negative.
pub proof fn law_six_digit_year_bytes(config: Iso8601, year: int)
    requires
        config.year_is_six_digits,
        -999_999 <= year <= 999_999,
    ensures
        ({
            let n: int = if year < 0 {
                -year
            } else {
                year
            };
            &&& year_field(config, year) matches Some(text)
            &&& text.len() == 7
            &&& year < 0 ==> text[0] == '-' as u8
            &&& year >= 0 ==> text[0] == '+' as u8
            &&& text[1] == '0' as u8 + n / 100_000
            &&& text[2] == '0' as u8 + (n / 10_000) % 10
            &&& text[3] == '0' as u8 + (n / 1_000) % 10
            &&& text[4] == '0' as u8 + (n / 100) % 10
            &&& text[5] == '0' as u8 + (n / 10) % 10
            &&& text[6] == '0' as u8 + n % 10
        }),
{
    law_six_digits(magnitude(year));
}

/// A year from 0 to 9999 is written as its four digits where years have four digits.
pub proof fn law_four_digit_year_bytes(config: Iso8601, year: int)
    requires
        !config.year_is_six_digits,
        0 <= year <= 9_999,
    ensures
        ({
            &&& year_field(config, year) matches Some(text)
            &&& text.len() == 4
            &&& text[0] == '0' as u8 + year / 1_000
            &&& text[1] == '0' as u8 + (year / 100) % 10
            &&& text[2] == '0' as u8 + (year / 10) % 10
            &&& text[3] == '0' as u8 + year % 10
        }),
{
    law_four_digits(year as nat);
}

/// Where years have four digits, years whose sixteen lowest bits are the same have the same
/// outcome, and a year is refused exactly if those bits make more than 9999.
pub proof fn law_four_digit_years_wrap(config: Iso8601, year: int)
    requires
        !config.year_is_six_digits,
    ensures
        year_field(config, year) == year_field(config, year % 0x1_0000),
        year_field(config, year) is None <==> year % 0x1_0000 > 9_999,
{
}

/// Where years have six digits, none is refused.
pub proof fn law_six_digit_years_are_written(config: Iso8601, year: int)
    requires
        config.year_is_six_digits,
    ensures
        year_field(config, year) is Some,
{
}

/// A week date is written with the week-based year, and any other with the calendar year.
pub proof fn law_year_of_a_date(config: Iso8601, date: DateComponents)
    ensures
        config.date_kind is Week ==> date_year(config, date) == date.iso_year@,
        !(config.date_kind is Week) ==> date_year(config, date) == date.calendar_year@,
{
}

/// Behind the year of a calendar date stand the two digits of the month and then the two digits of
/// the day, each behind a hyphen where separators are written.
pub proof fn law_calendar_date_bytes(config: Iso8601, date: DateComponents)
    requires
        config.date_kind is Calendar,
        1 <= date.day@ <= 31,
    ensures
        ({
            let text = date_tail(config, date);
            let month = date.month.ordinal();
            let day = date.day@;
            if config.use_separators {
                &&& text.len() == 6
                &&& text[0] == '-' as u8
                &&& text[1] == '0' as u8 + month / 10
                &&& text[2] == '0' as u8 + month % 10
                &&& text[3] == '-' as u8
                &&& text[4] == '0' as u8 + day / 10
                &&& text[5] == '0' as u8 + day % 10
            } else {
                &&& text.len() == 4
                &&& text[0] == '0' as u8 + month / 10
                &&& text[1] == '0' as u8 + month % 10
                &&& text[2] == '0' as u8 + day / 10
                &&& text[3] == '0' as u8 + day % 10
            }
        }),
{
    law_two_digits(date.month.ordinal() as nat, Padding::Zero);
    law_two_digits(date.day@ as nat, Padding::Zero);
}

/// Behind the year of a week date stand a W and the two digits of the week, and then the day of the
/// week from 1 for Monday to 7 for Sunday, each behind a hyphen where separators are written.
pub proof fn law_week_date_bytes(config: Iso8601, date: DateComponents)
    requires
        config.date_kind is Week,
        1 <= date.iso_week_number@ <= 53,
    ensures
        ({
            let text = date_tail(config, date);
            let week = date.iso_week_number@;
            let day = text.last();
            &&& if config.use_separators {
                &&& text.len() == 6
                &&& text[0] == '-' as u8
                &&& text[1] == 'W' as u8
                &&& text[2] == '0' as u8 + week / 10
                &&& text[3] == '0' as u8 + week % 10
                &&& text[4] == '-' as u8
            } else {
                &&& text.len() == 4
                &&& text[0] == 'W' as u8
                &&& text[1] == '0' as u8 + week / 10
                &&& text[2] == '0' as u8 + week % 10
            }
            &&& date.weekday is Monday ==> day == '1' as u8
            &&& date.weekday is Tuesday ==> day == '2' as u8
            &&& date.weekday is Wednesday ==> day == '3' as u8
            &&& date.weekday is Thursday ==> day == '4' as u8
            &&& date.weekday is Friday ==> day == '5' as u8
            &&& date.weekday is Saturday ==> day == '6' as u8
            &&& date.weekday is Sunday ==> day == '7' as u8
        }),
{
    law_two_digits(date.iso_week_number@ as nat, Padding::Zero);
}

/// Behind the year of an ordinal date stand the three digits of the day of the year, behind a
/// hyphen where separators are written.
pub proof fn law_ordinal_date_bytes(config: Iso8601, date: DateComponents)
    requires
        config.date_kind is Ordinal,
        1 <= date.ordinal@ <= 366,
    ensures
        ({
            let text = date_tail(config, date);
            let day = date.ordinal@;
            if config.use_separators {
                &&& text.len() == 4
                &&& text[0] == '-' as u8
                &&& text[1] == '0' as u8 + day / 100
                &&& text[2] == '0' as u8 + (day / 10) % 10
                &&& text[3] == '0' as u8 + day % 10
            } else {
                &&& text.len() == 3
                &&& text[0] == '0' as u8 + day / 100
                &&& text[1] == '0' as u8 + (day / 10) % 10
                &&& text[2] == '0' as u8 + day % 10
            }
        }),
{
    law_three_digits(date.ordinal@ as nat);
}

/// The precision that digits are asked for with is their number.
pub proof fn law_precision(config: Iso8601, digits: Option<DecimalDigits>)
    ensures
        digits is None <==> precision(digits) is None,
        digits is Some ==> precision(digits)->0 == digits->0@,
        config.time_precision == (TimePrecision::Hour { decimal_digits: digits }) ==> time_digits(
            config,
        ) == precision(digits),
        config.time_precision == (TimePrecision::Minute { decimal_digits: digits })
            ==> time_digits(config) == precision(digits),
        config.time_precision == (TimePrecision::Second { decimal_digits: digits })
            ==> time_digits(config) == precision(digits),
{
}

/// A fraction of a second is a decimal point and as many digits as were asked for: the tenths of a
/// second, the hundredths, and so on to the nanoseconds, and then zeros. Nothing is written where
/// no digits were asked for.
pub proof fn law_fraction_bytes(nanos: nat, digits: int, i: int)
    requires
        nanos <= 999_999_999,
        digits >= 1,
    ensures
        fraction_text(nanos, None).len() == 0,
        ({
            let text = fraction_text(nanos, Some(digits));
            &&& text.len() == 1 + digits
            &&& text[0] == '.' as u8
            &&& 0 <= i < digits && i < 9 ==> text[1 + i] == '0' as u8 + (nanos / power_of_ten(
                (8 - i) as nat,
            )) % 10
            &&& 9 <= i < digits ==> text[1 + i] == '0' as u8
        }),
{
    lemma_nine_digits(nanos);
    if 0 <= i < 9 {
        lemma_nanosecond_digit(nanos, i);
    }
    let kept: int = if digits < 9 {
        digits
    } else {
        9
    };
    let text = fraction_text(nanos, Some(digits));
    assert(text =~= seq!['.' as u8] + nine_digits(nanos).take(kept) + repeat(
        '0' as u8,
        digits - 9,
    ));
}

/// A time to the second, byte by byte: behind the mark stand the two digits of the hour, those of
/// the minute and those of the second, with colons between them where separators are written, and
/// then the fraction of the second in as many digits as were asked for.
pub proof fn law_time_to_the_second_bytes(
    config: Iso8601,
    time: TimeComponents,
    last: FloatParts,
    decimal_digits: Option<DecimalDigits>,
    i: int,
)
    requires
        config.time_precision == (TimePrecision::Second { decimal_digits }),
        decimal_digits matches Some(digits) ==> digits@ >= 1,
        0 <= time.hour@ <= 23,
        0 <= time.minute@ <= 59,
        0 <= time.second@ <= 59,
        0 <= time.nanosecond@ <= 999_999_999,
    ensures
        ({
            let text = time_head(config, time) + time_tail(config, time, last);
            let hour: int = if config.use_separators && !config.format_date {
                0
            } else {
                1
            };
            let minute: int = if config.use_separators {
                hour + 3
            } else {
                hour + 2
            };
            let second: int = if config.use_separators {
                minute + 3
            } else {
                minute + 2
            };
            &&& hour == 1 ==> text[0] == 'T' as u8
            &&& text[hour] == '0' as u8 + time.hour@ / 10
            &&& text[hour + 1] == '0' as u8 + time.hour@ % 10
            &&& config.use_separators ==> text[hour + 2] == ':' as u8
            &&& text[minute] == '0' as u8 + time.minute@ / 10
            &&& text[minute + 1] == '0' as u8 + time.minute@ % 10
            &&& config.use_separators ==> text[minute + 2] == ':' as u8
            &&& text[second] == '0' as u8 + time.second@ / 10
            &&& text[second + 1] == '0' as u8 + time.second@ % 10
            &&& decimal_digits is None ==> text.len() == second + 2
            &&& decimal_digits matches Some(digits) ==> {
                &&& text.len() == second + 3 + digits@
                &&& text[second + 2] == '.' as u8
                &&& 0 <= i < digits@ && i < 9 ==> text[second + 3 + i] == '0' as u8 + (
                time.nanosecond@ / power_of_ten((8 - i) as nat) as int) % 10
                &&& 9 <= i < digits@ ==> text[second + 3 + i] == '0' as u8
            }
        }),
{
    let (hour, minute) = (time.hour@ as nat, time.minute@ as nat);
    let second = time.second@ as nat;
    law_two_digits(hour, Padding::Zero);
    law_two_digits(minute, Padding::Zero);
    law_two_digits(second, Padding::Zero);
    let head = time_head(config, time);
    let fraction = fraction_text(time.nanosecond@ as nat, precision(decimal_digits));
    let text = head + time_tail(config, time, last);
    assert(text =~= time_mark(config) + padded(hour, 2, Padding::Zero) + separator(
        config,
        ':' as u8,
    ) + padded(minute, 2, Padding::Zero) + separator(config, ':' as u8) + padded(
        second,
        2,
        Padding::Zero,
    ) + fraction);
    if let Some(digits) = decimal_digits {
        law_fraction_bytes(time.nanosecond@ as nat, digits@, i);
        assert(fraction.len() == 1 + digits@);
        assert(text[(head.len() + 2) as int] == fraction[0]);
        if 0 <= i < digits@ {
            assert(text[head.len() + 3 + i] == fraction[1 + i]);
        }
    } else {
        assert(fraction.len() == 0);
    }
}

/// A time to the minute: behind the mark stand the two digits of the hour and, where separators are
/// written, a colon. The rest is the number of minutes.
pub proof fn law_time_to_the_minute_bytes(
    config: Iso8601,
    time: TimeComponents,
    last: FloatParts,
    decimal_digits: Option<DecimalDigits>,
)
    requires
        config.time_precision == (TimePrecision::Minute { decimal_digits }),
        0 <= time.hour@ <= 23,
    ensures
        ({
            let text = time_head(config, time) + time_tail(config, time, last);
            let hour: int = if config.use_separators && !config.format_date {
                0
            } else {
                1
            };
            let minute: int = if config.use_separators {
                hour + 3
            } else {
                hour + 2
            };
            &&& hour == 1 ==> text[0] == 'T' as u8
            &&& text.len() >= minute
            &&& text[hour] == '0' as u8 + time.hour@ / 10
            &&& text[hour + 1] == '0' as u8 + time.hour@ % 10
            &&& config.use_separators ==> text[hour + 2] == ':' as u8
            &&& text.skip(minute) == last.text(
                2,
                match decimal_digits {
                    Some(digits) => Some(digits@),
                    None => None,
                },
            )
        }),
{
    let hour = time.hour@ as nat;
    law_two_digits(hour, Padding::Zero);
    let head = time_head(config, time);
    let tail = last.text(2, precision(decimal_digits));
    let text = head + time_tail(config, time, last);
    assert(head =~= time_mark(config) + padded(hour, 2, Padding::Zero) + separator(
        config,
        ':' as u8,
    ));
    assert(text.skip(head.len() as int) =~= tail);
}

/// A time to the hour is the mark and the number of hours.
pub proof fn law_time_to_the_hour_bytes(
    config: Iso8601,
    time: TimeComponents,
    last: FloatParts,
    decimal_digits: Option<DecimalDigits>,
)
    requires
        config.time_precision == (TimePrecision::Hour { decimal_digits }),
    ensures
        ({
            let text = time_head(config, time) + time_tail(config, time, last);
            let hour: int = if config.use_separators && !config.format_date {
                0
            } else {
                1
            };
            &&& text.len() >= hour
            &&& hour == 1 ==> text[0] == 'T' as u8
            &&& text.skip(hour) == last.text(
                2,
                match decimal_digits {
                    Some(digits) => Some(digits@),
                    None => None,
                },
            )
        }),
{
    let head = time_head(config, time);
    let text = head + time_tail(config, time, last);
    assert(text.skip(head.len() as int) =~= last.text(2, precision(decimal_digits)));
}

/// An offset that is written as a number begins with a minus sign exactly if it is negative, and
/// with a plus sign otherwise. Then stand the two digits of the hours and, if the offset is written
/// to the minute, those of the minutes, behind a colon where separators are written.
pub proof fn law_offset_bytes(config: Iso8601, offset: OffsetComponents)
    requires
        -25 <= offset.hour@ <= 25,
        -59 <= offset.minute@ <= 59,
        offset.second@ == 0,
        !(config.format_time && offset.is_utc),
    ensures
        ({
            let text = offset_text(config, offset);
            let hours: int = if offset.hour@ < 0 {
                -offset.hour@
            } else {
                offset.hour@
            };
            let minutes: int = if offset.minute@ < 0 {
                -offset.minute@
            } else {
                offset.minute@
            };
            &&& text.len() >= 3
            &&& offset.is_negative ==> text[0] == '-' as u8
            &&& !offset.is_negative ==> text[0] == '+' as u8
            &&& text[1] == '0' as u8 + hours / 10
            &&& text[2] == '0' as u8 + hours % 10
            &&& config.offset_precision is Hour ==> text.len() == 3
            &&& config.offset_precision is Minute && config.use_separators ==> {
                &&& text.len() == 6
                &&& text[3] == ':' as u8
                &&& text[4] == '0' as u8 + minutes / 10
                &&& text[5] == '0' as u8 + minutes % 10
            }
            &&& config.offset_precision is Minute && !config.use_separators ==> {
                &&& text.len() == 5
                &&& text[3] == '0' as u8 + minutes / 10
                &&& text[4] == '0' as u8 + minutes % 10
            }
        }),
{
    law_two_digits(magnitude(offset.hour@), Padding::Zero);
    law_two_digits(magnitude(offset.minute@), Padding::Zero);
}

/// Next to a time, UTC is written as the letter Z and nothing is refused. Otherwise an offset with
/// seconds is refused for them and leaves nothing, and one with minutes that is written to the hour
/// is refused for its minutes. No other offset is refused.
pub proof fn law_offset_refusals(config: Iso8601, offset: OffsetComponents)
    ensures
        ({
            let error = offset_error(config, offset);
            if config.format_time && offset.is_utc {
                &&& error is None
                &&& offset_text(config, offset).len() == 1
                &&& offset_text(config, offset)[0] == 'Z' as u8
            } else if offset.second@ != 0 {
                &&& error == Some("offset_second"@)
                &&& offset_text(config, offset).len() == 0
            } else if config.offset_precision is Hour && offset.minute@ != 0 {
                error == Some("offset_minute"@)
            } else {
                error is None
            }
        }),
{
}

/// An outcome is a success exactly if nothing was refused, and otherwise names what was refused.
pub proof fn law_outcomes_name_what_is_refused(
    r: Result<(), Format>,
    refused: Seq<char>,
    name: &'static str,
)
    ensures
        outcome(r, None) <==> r is Ok,
        outcome(r, Some(refused)) ==> r is Err,
        r == Err::<(), Format>(Format::InvalidComponent(name)) ==> (outcome(r, Some(refused))
            <==> name@ == refused),
{
}

} // verus!
