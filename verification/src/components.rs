//! The components of dates, times, offsets and timestamps.

use crate::calendar::{Month, Period, Weekday};
use crate::modifier;
use crate::modifier::Padding;
use crate::output::{law_writes_join, Output};
use crate::ranged::{
    Day, Digit, ExtendedCentury, FourDigits, Hours, IsoWeekNumber, LastTwo, Minutes,
    MondayBasedWeek, OffsetHours, OffsetMinutes, OffsetSeconds, Ordinal, Seconds, SixDigits,
    StandardCentury, StandardYear, SundayBasedWeek, TwoDigits, Year,
};
use crate::text::{
    ascii, decimal, law_wide_numbers_are_not_padded, lemma_ascii_encoding, lemma_powers_of_ten,
    magnitude, padded, sign, signed,
};
use vstd::prelude::*;

verus! {

/// The hour on the 12-hour clock, from 1 to 12.
pub open spec fn hour_on_12_hour_clock(hour: int) -> int {
    if hour % 12 == 0 {
        12
    } else {
        hour % 12
    }
}

/// The number of a weekday, given the days since the first day of the week.
pub open spec fn weekday_number(days: int, one_indexed: bool) -> Seq<u8> {
    decimal(
        (if one_indexed {
            days + 1
        } else {
            days
        }) as nat,
    )
}

/// The letters that stand for a half of the day.
pub open spec fn period_letters(period: Period, is_uppercase: bool) -> Seq<u8> {
    match (period, is_uppercase) {
        (Period::Am, false) => seq!['a' as u8, 'm' as u8],
        (Period::Am, true) => seq!['A' as u8, 'M' as u8],
        (Period::Pm, false) => seq!['p' as u8, 'm' as u8],
        (Period::Pm, true) => seq!['P' as u8, 'M' as u8],
    }
}

/// A year, padded to four digits. Where more digits are possible, those years that have them are
/// marked by a sign.
pub open spec fn year_text(year: int, padding: Padding, sign_is_mandatory: bool) -> Seq<u8> {
    signed(year < 0, sign_is_mandatory || year >= 10_000, magnitude(year), 4, padding)
}

/// A century, padded to two digits. Where more digits are possible, those centuries that have them
/// are marked by a sign.
///
/// The sign is told apart, since a negative year may lie in century zero.
pub open spec fn century_text(
    century: int,
    is_negative: bool,
    padding: Padding,
    sign_is_mandatory: bool,
) -> Seq<u8> {
    signed(is_negative, sign_is_mandatory || century >= 100, magnitude(century), 2, padding)
}

/// A timestamp, without padding.
pub open spec fn timestamp_text(timestamp: int, sign_is_mandatory: bool) -> Seq<u8> {
    sign(timestamp < 0, sign_is_mandatory) + decimal(magnitude(timestamp))
}

/// Returns the distance of an integer from zero.
fn unsigned_abs_i64(value: i64) -> (r: u64)
    ensures
        r == magnitude(value as int),
{
    if value < 0 {
        (-(value + 1)) as u64 + 1
    } else {
        value as u64
    }
}

/// Returns the distance of an integer from zero.
fn unsigned_abs_i128(value: i128) -> (r: u128)
    ensures
        r == magnitude(value as int),
{
    if value < 0 {
        (-(value + 1)) as u128 + 1
    } else {
        value as u128
    }
}

impl Output {
    /// Format the day into the designated output.
    pub fn fmt_day(&mut self, day: Day, modifier: modifier::Day)
        requires
            old(self).wf(),
        ensures
            final(self).appended(*old(self), padded(day@ as nat, 2, modifier.padding)),
    {
        self.format_two_digits(day.expand(), modifier.padding);
    }

    /// Format the month into the designated output as a number from 1-12.
    pub fn fmt_month_numerical(&mut self, month: Month, modifier: modifier::MonthNumerical)
        requires
            old(self).wf(),
        ensures
            final(self).appended(*old(self), padded(month.ordinal() as nat, 2, modifier.padding)),
    {
        self.format_two_digits(TwoDigits::new_unchecked(month.number()), modifier.padding);
    }

    /// Format the ordinal into the designated output.
    pub fn fmt_ordinal(&mut self, ordinal: Ordinal, modifier: modifier::Ordinal)
        requires
            old(self).wf(),
        ensures
            final(self).appended(*old(self), padded(ordinal@ as nat, 3, modifier.padding)),
    {
        self.format_three_digits(ordinal.expand(), modifier.padding);
    }

    /// Format the weekday into the designated output as a number from either 0-6 or 1-7 (depending
    /// on the modifier), where Sunday is either 0 or 1.
    pub fn fmt_weekday_sunday(&mut self, weekday: Weekday, modifier: modifier::WeekdaySunday)
        requires
            old(self).wf(),
        ensures
            final(self).appended(
                *old(self),
                weekday_number(weekday.days_from_sunday(), modifier.one_indexed),
            ),
    {
        let first: u8 = if modifier.one_indexed {
            1
        } else {
            0
        };
        self.format_single_digit(Digit::new_unchecked(weekday.number_days_from_sunday() + first));
    }

    /// Format the weekday into the designated output as a number from either 0-6 or 1-7 (depending
    /// on the modifier), where Monday is either 0 or 1.
    pub fn fmt_weekday_monday(&mut self, weekday: Weekday, modifier: modifier::WeekdayMonday)
        requires
            old(self).wf(),
        ensures
            final(self).appended(
                *old(self),
                weekday_number(weekday.days_from_monday(), modifier.one_indexed),
            ),
    {
        let first: u8 = if modifier.one_indexed {
            1
        } else {
            0
        };
        self.format_single_digit(Digit::new_unchecked(weekday.number_days_from_monday() + first));
    }

    /// Format the number of the ISO 8601 week.
    pub fn fmt_week_number_iso(
        &mut self,
        week_number: IsoWeekNumber,
        modifier: modifier::WeekNumberIso,
    )
        requires
            old(self).wf(),
        ensures
            final(self).appended(*old(self), padded(week_number@ as nat, 2, modifier.padding)),
    {
        self.format_two_digits(week_number.expand(), modifier.padding);
    }

    /// Format the number of the week, where weeks begin on Sunday.
    pub fn fmt_week_number_sunday(
        &mut self,
        week_number: SundayBasedWeek,
        modifier: modifier::WeekNumberSunday,
    )
        requires
            old(self).wf(),
        ensures
            final(self).appended(*old(self), padded(week_number@ as nat, 2, modifier.padding)),
    {
        self.format_two_digits(week_number.expand(), modifier.padding);
    }

    /// Format the number of the week, where weeks begin on Monday.
    pub fn fmt_week_number_monday(
        &mut self,
        week_number: MondayBasedWeek,
        modifier: modifier::WeekNumberMonday,
    )
        requires
            old(self).wf(),
        ensures
            final(self).appended(*old(self), padded(week_number@ as nat, 2, modifier.padding)),
    {
        self.format_two_digits(week_number.expand(), modifier.padding);
    }

    /// Format a year, which may have up to six digits.
    fn fmt_year_extended(&mut self, full_year: Year, padding: Padding, sign_is_mandatory: bool)
        requires
            old(self).wf(),
        ensures
            final(self).appended(*old(self), year_text(full_year@, padding, sign_is_mandatory)),
    {
        proof {
            lemma_powers_of_ten();
        }
        self.fmt_sign(
            full_year.is_negative(),
            sign_is_mandatory || full_year.get() >= 10_000,
        );
        let ghost after_sign: Output = *self;
        let value: SixDigits = full_year.abs();
        if let Some(value) = value.narrow::<0, 9_999>() {
            self.format_four_digits(value.to_u16(), padding);
        } else if let Some(value) = value.narrow::<0, 99_999>() {
            proof {
                law_wide_numbers_are_not_padded(value@ as nat, 4, padding);
                law_wide_numbers_are_not_padded(value@ as nat, 5, Padding::Zero);
            }
            self.format_five_digits_pad_zero(value);
        } else {
            proof {
                law_wide_numbers_are_not_padded(value@ as nat, 4, padding);
                law_wide_numbers_are_not_padded(value@ as nat, 6, Padding::Zero);
            }
            self.format_six_digits_pad_zero(value);
        }
        proof {
            law_writes_join(
                *old(self),
                after_sign,
                *self,
                sign(full_year@ < 0, sign_is_mandatory || full_year@ >= 10_000),
                padded(magnitude(full_year@), 4, padding),
            );
        }
    }

    /// Format a year, which has at most four digits.
    fn fmt_year_standard(
        &mut self,
        full_year: StandardYear,
        padding: Padding,
        sign_is_mandatory: bool,
    )
        requires
            old(self).wf(),
        ensures
            final(self).appended(
                *old(self),
                signed(full_year@ < 0, sign_is_mandatory, magnitude(full_year@), 4, padding),
            ),
    {
        self.fmt_sign(full_year.is_negative(), sign_is_mandatory);
        let ghost after_sign: Output = *self;
        let value: FourDigits = full_year.abs();
        self.format_four_digits(value, padding);
        proof {
            law_writes_join(
                *old(self),
                after_sign,
                *self,
                sign(full_year@ < 0, sign_is_mandatory),
                padded(magnitude(full_year@), 4, padding),
            );
        }
    }

    /// Format a century, which may have up to four digits.
    fn fmt_century_extended(
        &mut self,
        century: ExtendedCentury,
        is_negative: bool,
        padding: Padding,
        sign_is_mandatory: bool,
    )
        requires
            old(self).wf(),
        ensures
            final(self).appended(
                *old(self),
                century_text(century@, is_negative, padding, sign_is_mandatory),
            ),
    {
        proof {
            lemma_powers_of_ten();
        }
        self.fmt_sign(is_negative, sign_is_mandatory || century.get() >= 100);
        let ghost after_sign: Output = *self;
        let value: FourDigits = century.abs();
        if let Some(value) = value.narrow::<0, 99>() {
            self.format_two_digits(value.to_u8(), padding);
        } else if let Some(value) = value.narrow::<0, 999>() {
            proof {
                law_wide_numbers_are_not_padded(value@ as nat, 2, padding);
                law_wide_numbers_are_not_padded(value@ as nat, 3, padding);
            }
            self.format_three_digits(value, padding);
        } else {
            proof {
                law_wide_numbers_are_not_padded(value@ as nat, 2, padding);
                law_wide_numbers_are_not_padded(value@ as nat, 4, padding);
            }
            self.format_four_digits(value, padding);
        }
        proof {
            law_writes_join(
                *old(self),
                after_sign,
                *self,
                sign(is_negative, sign_is_mandatory || century@ >= 100),
                padded(magnitude(century@), 2, padding),
            );
        }
    }

    /// Format a century, which has at most two digits.
    fn fmt_century_standard(
        &mut self,
        century: StandardCentury,
        is_negative: bool,
        padding: Padding,
        sign_is_mandatory: bool,
    )
        requires
            old(self).wf(),
        ensures
            final(self).appended(
                *old(self),
                signed(is_negative, sign_is_mandatory, magnitude(century@), 2, padding),
            ),
    {
        self.fmt_sign(is_negative, sign_is_mandatory);
        let ghost after_sign: Output = *self;
        let value: TwoDigits = century.abs();
        self.format_two_digits(value, padding);
        proof {
            law_writes_join(
                *old(self),
                after_sign,
                *self,
                sign(is_negative, sign_is_mandatory),
                padded(magnitude(century@), 2, padding),
            );
        }
    }

    /// Format the calendar year, which may have up to six digits.
    pub fn fmt_calendar_year_full_extended_range(
        &mut self,
        full_year: Year,
        modifier: modifier::CalendarYearFullExtendedRange,
    )
        requires
            old(self).wf(),
        ensures
            final(self).appended(
                *old(self),
                year_text(full_year@, modifier.padding, modifier.sign_is_mandatory),
            ),
    {
        self.fmt_year_extended(full_year, modifier.padding, modifier.sign_is_mandatory);
    }

    /// Format the calendar year, which has at most four digits.
    pub fn fmt_calendar_year_full_standard_range(
        &mut self,
        full_year: StandardYear,
        modifier: modifier::CalendarYearFullStandardRange,
    )
        requires
            old(self).wf(),
        ensures
            final(self).appended(
                *old(self),
                signed(
                    full_year@ < 0,
                    modifier.sign_is_mandatory,
                    magnitude(full_year@),
                    4,
                    modifier.padding,
                ),
            ),
    {
        self.fmt_year_standard(full_year, modifier.padding, modifier.sign_is_mandatory);
    }

    /// Format the ISO 8601 week-based year, which may have up to six digits.
    pub fn fmt_iso_year_full_extended_range(
        &mut self,
        full_year: Year,
        modifier: modifier::IsoYearFullExtendedRange,
    )
        requires
            old(self).wf(),
        ensures
            final(self).appended(
                *old(self),
                year_text(full_year@, modifier.padding, modifier.sign_is_mandatory),
            ),
    {
        self.fmt_year_extended(full_year, modifier.padding, modifier.sign_is_mandatory);
    }

    /// Format the ISO 8601 week-based year, which has at most four digits.
    pub fn fmt_iso_year_full_standard_range(
        &mut self,
        full_year: StandardYear,
        modifier: modifier::IsoYearFullStandardRange,
    )
        requires
            old(self).wf(),
        ensures
            final(self).appended(
                *old(self),
                signed(
                    full_year@ < 0,
                    modifier.sign_is_mandatory,
                    magnitude(full_year@),
                    4,
                    modifier.padding,
                ),
            ),
    {
        self.fmt_year_standard(full_year, modifier.padding, modifier.sign_is_mandatory);
    }

    /// Format the century of the calendar year, which may have up to four digits.
    pub fn fmt_calendar_year_century_extended_range(
        &mut self,
        century: ExtendedCentury,
        is_negative: bool,
        modifier: modifier::CalendarYearCenturyExtendedRange,
    )
        requires
            old(self).wf(),
        ensures
            final(self).appended(
                *old(self),
                century_text(century@, is_negative, modifier.padding, modifier.sign_is_mandatory),
            ),
    {
        self.fmt_century_extended(
            century,
            is_negative,
            modifier.padding,
            modifier.sign_is_mandatory,
        );
    }

    /// Format the century of the calendar year, which has at most two digits.
    pub fn fmt_calendar_year_century_standard_range(
        &mut self,
        century: StandardCentury,
        is_negative: bool,
        modifier: modifier::CalendarYearCenturyStandardRange,
    )
        requires
            old(self).wf(),
        ensures
            final(self).appended(
                *old(self),
                signed(
                    is_negative,
                    modifier.sign_is_mandatory,
                    magnitude(century@),
                    2,
                    modifier.padding,
                ),
            ),
    {
        self.fmt_century_standard(
            century,
            is_negative,
            modifier.padding,
            modifier.sign_is_mandatory,
        );
    }

    /// Format the century of the ISO 8601 week-based year, which may have up to four digits.
    pub fn fmt_iso_year_century_extended_range(
        &mut self,
        century: ExtendedCentury,
        is_negative: bool,
        modifier: modifier::IsoYearCenturyExtendedRange,
    )
        requires
            old(self).wf(),
        ensures
            final(self).appended(
                *old(self),
                century_text(century@, is_negative, modifier.padding, modifier.sign_is_mandatory),
            ),
    {
        self.fmt_century_extended(
            century,
            is_negative,
            modifier.padding,
            modifier.sign_is_mandatory,
        );
    }

    /// Format the century of the ISO 8601 week-based year, which has at most two digits.
    pub fn fmt_iso_year_century_standard_range(
        &mut self,
        century: StandardCentury,
        is_negative: bool,
        modifier: modifier::IsoYearCenturyStandardRange,
    )
        requires
            old(self).wf(),
        ensures
            final(self).appended(
                *old(self),
                signed(
                    is_negative,
                    modifier.sign_is_mandatory,
                    magnitude(century@),
                    2,
                    modifier.padding,
                ),
            ),
    {
        self.fmt_century_standard(
            century,
            is_negative,
            modifier.padding,
            modifier.sign_is_mandatory,
        );
    }

    /// Format the last two digits of the calendar year.
    pub fn fmt_calendar_year_last_two(
        &mut self,
        last_two: LastTwo,
        modifier: modifier::CalendarYearLastTwo,
    )
        requires
            old(self).wf(),
        ensures
            final(self).appended(*old(self), padded(last_two@ as nat, 2, modifier.padding)),
    {
        self.format_two_digits(last_two, modifier.padding);
    }

    /// Format the last two digits of the ISO 8601 week-based year.
    pub fn fmt_iso_year_last_two(&mut self, last_two: LastTwo, modifier: modifier::IsoYearLastTwo)
        requires
            old(self).wf(),
        ensures
            final(self).appended(*old(self), padded(last_two@ as nat, 2, modifier.padding)),
    {
        self.format_two_digits(last_two, modifier.padding);
    }

    /// Format the hour into the designated output using the 12-hour clock.
    pub fn fmt_hour_12(&mut self, hour: Hours, modifier: modifier::Hour12)
        requires
            old(self).wf(),
        ensures
            final(self).appended(
                *old(self),
                padded(hour_on_12_hour_clock(hour@) as nat, 2, modifier.padding),
            ),
    {
        let hour: u8 = (hour.get() + 11) % 12 + 1;
        self.format_two_digits(TwoDigits::new_unchecked(hour), modifier.padding);
    }

    /// Format the hour into the designated output using the 24-hour clock.
    pub fn fmt_hour_24(&mut self, hour: Hours, modifier: modifier::Hour24)
        requires
            old(self).wf(),
        ensures
            final(self).appended(*old(self), padded(hour@ as nat, 2, modifier.padding)),
    {
        self.format_two_digits(hour.expand(), modifier.padding);
    }

    /// Format the minute into the designated output.
    pub fn fmt_minute(&mut self, minute: Minutes, modifier: modifier::Minute)
        requires
            old(self).wf(),
        ensures
            final(self).appended(*old(self), padded(minute@ as nat, 2, modifier.padding)),
    {
        self.format_two_digits(minute.expand(), modifier.padding);
    }

    /// Format the period into the designated output.
    pub fn fmt_period(&mut self, period: Period, modifier: modifier::Period)
        requires
            old(self).wf(),
        ensures
            final(self).appended(*old(self), period_letters(period, modifier.is_uppercase)),
    {
        proof {
            reveal_strlit("am");
            reveal_strlit("AM");
            reveal_strlit("pm");
            reveal_strlit("PM");
            lemma_ascii_encoding("am"@);
            lemma_ascii_encoding("AM"@);
            lemma_ascii_encoding("pm"@);
            lemma_ascii_encoding("PM"@);
            assert(ascii("am"@) =~= period_letters(Period::Am, false));
            assert(ascii("AM"@) =~= period_letters(Period::Am, true));
            assert(ascii("pm"@) =~= period_letters(Period::Pm, false));
            assert(ascii("PM"@) =~= period_letters(Period::Pm, true));
        }
        self.write(
            match (period, modifier.is_uppercase) {
                (Period::Am, false) => "am",
                (Period::Am, true) => "AM",
                (Period::Pm, false) => "pm",
                (Period::Pm, true) => "PM",
            },
        );
    }

    /// Format the second into the designated output.
    pub fn fmt_second(&mut self, second: Seconds, modifier: modifier::Second)
        requires
            old(self).wf(),
        ensures
            final(self).appended(*old(self), padded(second@ as nat, 2, modifier.padding)),
    {
        self.format_two_digits(second.expand(), modifier.padding);
    }

    /// Format the sign of a number into the designated output.
    pub fn fmt_sign(&mut self, is_negative: bool, sign_is_mandatory: bool)
        requires
            old(self).wf(),
        ensures
            final(self).appended(*old(self), sign(is_negative, sign_is_mandatory)),
    {
        proof {
            reveal_strlit("-");
            reveal_strlit("+");
            lemma_ascii_encoding("-"@);
            lemma_ascii_encoding("+"@);
            assert(ascii("-"@) =~= seq!['-' as u8]);
            assert(ascii("+"@) =~= seq!['+' as u8]);
        }
        if is_negative {
            self.write("-");
        } else if sign_is_mandatory {
            self.write("+");
        }
    }

    /// Format the offset hour into the designated output.
    pub fn fmt_offset_hour(
        &mut self,
        is_negative: bool,
        hour: OffsetHours,
        modifier: modifier::OffsetHour,
    )
        requires
            old(self).wf(),
        ensures
            final(self).appended(
                *old(self),
                signed(
                    is_negative,
                    modifier.sign_is_mandatory,
                    magnitude(hour@),
                    2,
                    modifier.padding,
                ),
            ),
    {
        self.fmt_sign(is_negative, modifier.sign_is_mandatory);
        let ghost after_sign: Output = *self;
        self.format_two_digits(hour.abs().expand(), modifier.padding);
        proof {
            law_writes_join(
                *old(self),
                after_sign,
                *self,
                sign(is_negative, modifier.sign_is_mandatory),
                padded(magnitude(hour@), 2, modifier.padding),
            );
        }
    }

    /// Format the offset minute into the designated output.
    pub fn fmt_offset_minute(
        &mut self,
        offset_minute: OffsetMinutes,
        modifier: modifier::OffsetMinute,
    )
        requires
            old(self).wf(),
        ensures
            final(self).appended(
                *old(self),
                padded(magnitude(offset_minute@), 2, modifier.padding),
            ),
    {
        self.format_two_digits(offset_minute.abs().expand(), modifier.padding);
    }

    /// Format the offset second into the designated output.
    pub fn fmt_offset_second(
        &mut self,
        offset_second: OffsetSeconds,
        modifier: modifier::OffsetSecond,
    )
        requires
            old(self).wf(),
        ensures
            final(self).appended(
                *old(self),
                padded(magnitude(offset_second@), 2, modifier.padding),
            ),
    {
        self.format_two_digits(offset_second.abs().expand(), modifier.padding);
    }

    /// Format a timestamp of 64 bits.
    fn fmt_timestamp_i64(&mut self, timestamp: i64, sign_is_mandatory: bool)
        requires
            old(self).wf(),
        ensures
            final(self).appended(*old(self), timestamp_text(timestamp as int, sign_is_mandatory)),
    {
        self.fmt_sign(timestamp < 0, sign_is_mandatory);
        let ghost after_sign: Output = *self;
        self.format_u64_pad_none(unsigned_abs_i64(timestamp));
        proof {
            law_writes_join(
                *old(self),
                after_sign,
                *self,
                sign(timestamp < 0, sign_is_mandatory),
                decimal(magnitude(timestamp as int)),
            );
        }
    }

    /// Format a timestamp of 128 bits.
    fn fmt_timestamp_i128(&mut self, timestamp: i128, sign_is_mandatory: bool)
        requires
            old(self).wf(),
        ensures
            final(self).appended(*old(self), timestamp_text(timestamp as int, sign_is_mandatory)),
    {
        self.fmt_sign(timestamp < 0, sign_is_mandatory);
        let ghost after_sign: Output = *self;
        self.format_u128_pad_none(unsigned_abs_i128(timestamp));
        proof {
            law_writes_join(
                *old(self),
                after_sign,
                *self,
                sign(timestamp < 0, sign_is_mandatory),
                decimal(magnitude(timestamp as int)),
            );
        }
    }

    /// Format the Unix timestamp (in seconds) into the designated output.
    pub fn fmt_unix_timestamp_second(
        &mut self,
        timestamp: i64,
        modifier: modifier::UnixTimestampSecond,
    )
        requires
            old(self).wf(),
        ensures
            final(self).appended(
                *old(self),
                timestamp_text(timestamp as int, modifier.sign_is_mandatory),
            ),
    {
        self.fmt_timestamp_i64(timestamp, modifier.sign_is_mandatory);
    }

    /// Format the Unix timestamp (in milliseconds) into the designated output.
    pub fn fmt_unix_timestamp_millisecond(
        &mut self,
        timestamp_millis: i64,
        modifier: modifier::UnixTimestampMillisecond,
    )
        requires
            old(self).wf(),
        ensures
            final(self).appended(
                *old(self),
                timestamp_text(timestamp_millis as int, modifier.sign_is_mandatory),
            ),
    {
        self.fmt_timestamp_i64(timestamp_millis, modifier.sign_is_mandatory);
    }

    /// Format the Unix timestamp (in microseconds) into the designated output.
    pub fn fmt_unix_timestamp_microsecond(
        &mut self,
        timestamp_micros: i128,
        modifier: modifier::UnixTimestampMicrosecond,
    )
        requires
            old(self).wf(),
        ensures
            final(self).appended(
                *old(self),
                timestamp_text(timestamp_micros as int, modifier.sign_is_mandatory),
            ),
    {
        self.fmt_timestamp_i128(timestamp_micros, modifier.sign_is_mandatory);
    }

    /// Format the Unix timestamp (in nanoseconds) into the designated output.
    pub fn fmt_unix_timestamp_nanosecond(
        &mut self,
        timestamp_nanos: i128,
        modifier: modifier::UnixTimestampNanosecond,
    )
        requires
            old(self).wf(),
        ensures
            final(self).appended(
                *old(self),
                timestamp_text(timestamp_nanos as int, modifier.sign_is_mandatory),
            ),
    {
        self.fmt_timestamp_i128(timestamp_nanos, modifier.sign_is_mandatory);
    }
}

} // verus!
