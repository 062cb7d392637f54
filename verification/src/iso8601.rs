//! Formatting for ISO 8601.

use crate::calendar::{Month, Weekday};
use crate::float::{form_for, precision, FloatParts};
use crate::modifier::Padding;
use crate::output::{law_writes_join, Output};
use crate::ranged::{
    Day, DecimalDigits, Digit, FourDigits, Hours, IsoWeekNumber, Minutes, Nanoseconds, OffsetHours,
    OffsetMinutes, OffsetSeconds, Ordinal, Seconds, TwoDigits, Year,
};
use crate::subsecond::nine_digits;
use crate::text::{
    decimal, law_division_truncates_digits, lemma_ascii_encoding, magnitude, padded, power_of_ten,
    repeat, sign,
};
use num_conv::Truncate;
use vstd::prelude::*;
use vstd::utf8::encode_utf8;

verus! {

/// Which parts of a date are written.
#[derive(Clone, Copy, Debug, PartialEq, Eq)]
pub enum DateKind {
    /// The year, the month and the day of the month.
    Calendar,
    /// The year, the week and the day of the week.
    Week,
    /// The year and the day of the year.
    Ordinal,
}

/// The unit that a time ends with, and how many digits of its fraction are written.
#[derive(Clone, Copy, Debug, PartialEq, Eq)]
pub enum TimePrecision {
    /// Hours.
    Hour { decimal_digits: Option<DecimalDigits> },
    /// Hours and minutes.
    Minute { decimal_digits: Option<DecimalDigits> },
    /// Hours, minutes and seconds.
    Second { decimal_digits: Option<DecimalDigits> },
}

/// The unit that a UTC offset ends with.
#[derive(Clone, Copy, Debug, PartialEq, Eq)]
pub enum OffsetPrecision {
    /// Hours.
    Hour,
    /// Hours and minutes.
    Minute,
}

/// A configuration of the format.
#[derive(Clone, Copy, Debug, PartialEq, Eq)]
pub struct Iso8601 {
    /// Whether a date is written.
    pub format_date: bool,
    /// Whether a time is written.
    pub format_time: bool,
    /// Whether separators are written (the extended format) or not (the basic format).
    pub use_separators: bool,
    /// Whether years have a sign and six digits, or no sign and four digits.
    pub year_is_six_digits: bool,
    /// Which parts of the date are written.
    pub date_kind: DateKind,
    /// How precise the time is.
    pub time_precision: TimePrecision,
    /// How precise the UTC offset is.
    pub offset_precision: OffsetPrecision,
}

/// What is written of a date.
#[derive(Clone, Copy, Debug, PartialEq, Eq)]
pub struct DateComponents {
    pub calendar_year: Year,
    pub iso_year: Year,
    pub month: Month,
    pub day: Day,
    pub ordinal: Ordinal,
    pub iso_week_number: IsoWeekNumber,
    pub weekday: Weekday,
}

/// What is written of a time.
#[derive(Clone, Copy, Debug, PartialEq, Eq)]
pub struct TimeComponents {
    pub hour: Hours,
    pub minute: Minutes,
    pub second: Seconds,
    pub nanosecond: Nanoseconds,
}

/// What is written of a UTC offset.
#[derive(Clone, Copy, Debug, PartialEq, Eq)]
pub struct OffsetComponents {
    pub is_utc: bool,
    pub is_negative: bool,
    pub hour: OffsetHours,
    pub minute: OffsetMinutes,
    pub second: OffsetSeconds,
}

/// Why a value cannot be formatted.
#[derive(Clone, Copy, Debug, PartialEq, Eq)]
pub enum Format {
    /// The value of the named component cannot be written in the format.
    InvalidComponent(&'static str),
}

/// A byte that stands in the extended format only.
pub open spec fn separator(config: Iso8601, byte: u8) -> Seq<u8> {
    if config.use_separators {
        seq![byte]
    } else {
        seq![]
    }
}

/// The year as it is written, if it can be.
///
/// Where years have four digits, the sixteen lowest bits of the year have to fit in four digits,
/// and are what is written.
pub open spec fn year_field(config: Iso8601, year: int) -> Option<Seq<u8>> {
    if config.year_is_six_digits {
        Some(sign(year < 0, true) + padded(magnitude(year), 6, Padding::Zero))
    } else if year % 0x1_0000 <= 9_999 {
        Some(padded((year % 0x1_0000) as nat, 4, Padding::Zero))
    } else {
        None
    }
}

/// The year that a date is written with.
pub open spec fn date_year(config: Iso8601, date: DateComponents) -> int {
    match config.date_kind {
        DateKind::Week => date.iso_year@,
        _ => date.calendar_year@,
    }
}

/// The month and the day of a calendar date.
pub open spec fn month_and_day(config: Iso8601, date: DateComponents) -> Seq<u8> {
    separator(config, '-' as u8) + padded(date.month.ordinal() as nat, 2, Padding::Zero)
        + separator(config, '-' as u8) + padded(date.day@ as nat, 2, Padding::Zero)
}

/// The week and the weekday of a week date.
pub open spec fn week_and_weekday(config: Iso8601, date: DateComponents) -> Seq<u8> {
    separator(config, '-' as u8) + seq!['W' as u8] + padded(
        date.iso_week_number@ as nat,
        2,
        Padding::Zero,
    ) + separator(config, '-' as u8) + decimal((date.weekday.days_from_monday() + 1) as nat)
}

/// The day of an ordinal date.
pub open spec fn day_of_year(config: Iso8601, date: DateComponents) -> Seq<u8> {
    separator(config, '-' as u8) + padded(date.ordinal@ as nat, 3, Padding::Zero)
}

/// What is written of a date behind the year.
pub open spec fn date_tail(config: Iso8601, date: DateComponents) -> Seq<u8> {
    match config.date_kind {
        DateKind::Calendar => month_and_day(config, date),
        DateKind::Week => week_and_weekday(config, date),
        DateKind::Ordinal => day_of_year(config, date),
    }
}

/// The mark that a time begins with. It can only be omitted in the extended format where there is
/// no date being formatted.
pub open spec fn time_mark(config: Iso8601) -> Seq<u8> {
    if !config.use_separators || config.format_date {
        seq!['T' as u8]
    } else {
        seq![]
    }
}

/// The first `digits` digits of the fraction of a second, behind a decimal point. The fraction is
/// truncated, not rounded; from the tenth digit on it is zero.
pub open spec fn fraction_text(nanos: nat, digits: Option<int>) -> Seq<u8> {
    match digits {
        None => seq![],
        Some(digits) => seq!['.' as u8] + nine_digits(nanos).take(
            if digits < 9 {
                digits
            } else {
                9
            },
        ) + repeat('0' as u8, digits - 9),
    }
}

/// The number of digits of the fraction that a time ends with.
pub open spec fn time_digits(config: Iso8601) -> Option<int> {
    match config.time_precision {
        TimePrecision::Hour { decimal_digits } => precision(decimal_digits),
        TimePrecision::Minute { decimal_digits } => precision(decimal_digits),
        TimePrecision::Second { decimal_digits } => precision(decimal_digits),
    }
}

/// A number of two digits, and the separator behind it.
pub open spec fn clock_field(config: Iso8601, n: int) -> Seq<u8> {
    padded(n as nat, 2, Padding::Zero) + separator(config, ':' as u8)
}

/// What is written of a time before the unit that it ends with.
pub open spec fn time_head(config: Iso8601, time: TimeComponents) -> Seq<u8> {
    match config.time_precision {
        TimePrecision::Hour { .. } => time_mark(config),
        TimePrecision::Minute { .. } => time_mark(config) + clock_field(config, time.hour@),
        TimePrecision::Second { .. } => time_mark(config) + clock_field(config, time.hour@)
            + clock_field(config, time.minute@),
    }
}

/// The seconds of a time, fraction included.
pub open spec fn seconds_text(time: TimeComponents, digits: Option<int>) -> Seq<u8> {
    padded(time.second@ as nat, 2, Padding::Zero) + fraction_text(time.nanosecond@ as nat, digits)
}

/// The unit that a time ends with: seconds from the components, any other as it was found out.
pub open spec fn time_tail(config: Iso8601, time: TimeComponents, last: FloatParts) -> Seq<u8> {
    match config.time_precision {
        TimePrecision::Second { .. } => seconds_text(time, time_digits(config)),
        _ => last.text(2, time_digits(config)),
    }
}

/// The UTC offset is written as the letter for no offset.
pub open spec fn offset_is_zulu(config: Iso8601, offset: OffsetComponents) -> bool {
    config.format_time && offset.is_utc
}

/// The component of a UTC offset that cannot be written, if there is one.
pub open spec fn offset_error(config: Iso8601, offset: OffsetComponents) -> Option<Seq<char>> {
    if offset_is_zulu(config, offset) {
        None
    } else if offset.second@ != 0 {
        Some("offset_second"@)
    } else if config.offset_precision is Hour && offset.minute@ != 0 {
        Some("offset_minute"@)
    } else {
        None
    }
}

/// What is written of a UTC offset. Where the minutes cannot be written, the hours are.
pub open spec fn offset_text(config: Iso8601, offset: OffsetComponents) -> Seq<u8> {
    if offset_is_zulu(config, offset) {
        seq!['Z' as u8]
    } else if offset.second@ != 0 {
        seq![]
    } else {
        let hours = sign(offset.is_negative, true) + padded(
            magnitude(offset.hour@),
            2,
            Padding::Zero,
        );
        match config.offset_precision {
            OffsetPrecision::Hour => hours,
            OffsetPrecision::Minute => hours + separator(config, ':' as u8) + padded(
                magnitude(offset.minute@),
                2,
                Padding::Zero,
            ),
        }
    }
}

/// The outcome is success if no component is invalid, and otherwise names the component.
pub open spec fn outcome(r: Result<(), Format>, invalid: Option<Seq<char>>) -> bool {
    match invalid {
        None => r is Ok,
        Some(expected) => {
            &&& r matches Err(Format::InvalidComponent(name))
            &&& name@ == expected
        },
    }
}

const POW_TABLE: [u64; 9] = [
    1,
    10,
    100,
    1_000,
    10_000,
    100_000,
    1_000_000,
    10_000_000,
    100_000_000,
];

/// Calls `num_conv::Truncate::truncate` from `u32` to `u16`, which keeps the sixteen least
/// significant bits.
#[verifier::external_body]
fn truncate(value: u32) -> (r: u16)
    ensures
        r as int == value as int % 0x1_0000,
{
    value.truncate()
}

proof fn lemma_marks()
    ensures
        encode_utf8("-"@) == seq!['-' as u8],
        encode_utf8("+"@) == seq!['+' as u8],
        encode_utf8(":"@) == seq![':' as u8],
        encode_utf8("."@) == seq!['.' as u8],
        encode_utf8("T"@) == seq!['T' as u8],
        encode_utf8("W"@) == seq!['W' as u8],
        encode_utf8("Z"@) == seq!['Z' as u8],
        encode_utf8("-W"@) == seq!['-' as u8, 'W' as u8],
{
    reveal_strlit("-");
    reveal_strlit("+");
    reveal_strlit(":");
    reveal_strlit(".");
    reveal_strlit("T");
    reveal_strlit("W");
    reveal_strlit("Z");
    reveal_strlit("-W");
    lemma_ascii_encoding("-"@);
    lemma_ascii_encoding("+"@);
    lemma_ascii_encoding(":"@);
    lemma_ascii_encoding("."@);
    lemma_ascii_encoding("T"@);
    lemma_ascii_encoding("W"@);
    lemma_ascii_encoding("Z"@);
    lemma_ascii_encoding("-W"@);
}

impl Output {
    /// Write the year of a date.
    fn write_year(&mut self, config: &Iso8601, year: Year) -> (r: Result<(), Format>)
        requires
            old(self).wf(),
        ensures
            match year_field(*config, year@) {
                Some(text) => r is Ok && final(self).appended(*old(self), text),
                None => outcome(r, Some("year"@)) && final(self).appended(*old(self), seq![]),
            },
    {
        proof {
            lemma_marks();
        }
        if config.year_is_six_digits {
            self.write_if_else(year.is_negative(), "-", "+");
            self.format_six_digits_pad_zero(year.abs());
            assert(self.contents() =~= old(self).contents() + year_field(*config, year@)->0);
        } else {
            let value: i32 = year.get();
            let unsigned: u32 = value as u32;
            assert(value < 0 ==> unsigned == value + 0x1_0000_0000) by (bit_vector)
                requires
                    unsigned == value as u32,
            ;
            match FourDigits::new(truncate(unsigned)) {
                Some(year) => {
                    self.format_four_digits_pad_zero(year);
                },
                None => {
                    assert(old(self).contents() =~= old(self).contents() + Seq::<u8>::empty());
                    return Err(Format::InvalidComponent("year"));
                },
            }
        }
        Ok(())
    }

    /// Write the month and the day of a calendar date.
    fn write_month_and_day(&mut self, config: &Iso8601, value: &DateComponents)
        requires
            old(self).wf(),
        ensures
            final(self).appended(*old(self), month_and_day(*config, *value)),
    {
        proof {
            lemma_marks();
        }
        self.write_if(config.use_separators, "-");
        self.format_two_digits(TwoDigits::new_unchecked(value.month.number()), Padding::Zero);
        self.write_if(config.use_separators, "-");
        self.format_two_digits(value.day.expand(), Padding::Zero);
        assert(self.contents() =~= old(self).contents() + month_and_day(*config, *value));
    }

    /// Write the week and the weekday of a week date.
    fn write_week_and_weekday(&mut self, config: &Iso8601, value: &DateComponents)
        requires
            old(self).wf(),
        ensures
            final(self).appended(*old(self), week_and_weekday(*config, *value)),
    {
        proof {
            lemma_marks();
        }
        self.write_if_else(config.use_separators, "-W", "W");
        self.format_two_digits(value.iso_week_number.expand(), Padding::Zero);
        self.write_if(config.use_separators, "-");
        self.format_single_digit(Digit::new_unchecked(value.weekday.number_from_monday()));
        assert(self.contents() =~= old(self).contents() + week_and_weekday(*config, *value));
    }

    /// Write the day of an ordinal date.
    fn write_day_of_year(&mut self, config: &Iso8601, value: &DateComponents)
        requires
            old(self).wf(),
        ensures
            final(self).appended(*old(self), day_of_year(*config, *value)),
    {
        proof {
            lemma_marks();
        }
        self.write_if(config.use_separators, "-");
        self.format_three_digits(value.ordinal.expand(), Padding::Zero);
        assert(self.contents() =~= old(self).contents() + day_of_year(*config, *value));
    }

    /// Format the date portion of ISO 8601.
    pub fn format_iso8601_date(&mut self, config: &Iso8601, value: &DateComponents) -> (r: Result<
        (),
        Format,
    >)
        requires
            old(self).wf(),
        ensures
            match year_field(*config, date_year(*config, *value)) {
                Some(year) => r is Ok && final(self).appended(
                    *old(self),
                    year + date_tail(*config, *value),
                ),
                None => outcome(r, Some("year"@)) && final(self).appended(*old(self), seq![]),
            },
    {
        let year: Year = match config.date_kind {
            DateKind::Week => value.iso_year,
            _ => value.calendar_year,
        };
        let written: Result<(), Format> = self.write_year(config, year);
        if written.is_err() {
            return written;
        }
        let ghost after_year: Output = *self;
        match config.date_kind {
            DateKind::Calendar => self.write_month_and_day(config, value),
            DateKind::Week => self.write_week_and_weekday(config, value),
            DateKind::Ordinal => self.write_day_of_year(config, value),
        }
        proof {
            law_writes_join(
                *old(self),
                after_year,
                *self,
                year_field(*config, year@)->0,
                date_tail(*config, *value),
            );
        }
        Ok(())
    }

    /// Write the fraction of a second behind a decimal point.
    fn write_fraction(&mut self, nanosecond: Nanoseconds, decimal_digits: Option<DecimalDigits>)
        requires
            old(self).wf(),
        ensures
            final(self).appended(
                *old(self),
                fraction_text(nanosecond@ as nat, precision(decimal_digits)),
            ),
    {
        if let Some(digits) = decimal_digits {
            let digits: u8 = digits.get();
            proof {
                lemma_marks();
                reveal_with_fuel(power_of_ten, 10);
            }
            self.write(".");
            let nano: u64 = nanosecond.get() as u64;
            let sub_digits: u8 = if digits < 9 {
                digits
            } else {
                9
            };
            let truncated: u64 = nano / POW_TABLE[9 - sub_digits as usize];
            proof {
                law_division_truncates_digits(nano as nat, 9, (9 - sub_digits) as nat);
            }
            self.write_zero_padded(truncated, sub_digits);
            self.write_zeros((digits - sub_digits) as usize);
        }
        assert(self.contents() =~= old(self).contents() + fraction_text(
            nanosecond@ as nat,
            precision(decimal_digits),
        ));
    }

    /// Write a number of two digits, and the separator behind it.
    fn write_clock_field(&mut self, config: &Iso8601, value: TwoDigits)
        requires
            old(self).wf(),
        ensures
            final(self).appended(*old(self), clock_field(*config, value@)),
    {
        proof {
            lemma_marks();
        }
        self.format_two_digits(value, Padding::Zero);
        self.write_if(config.use_separators, ":");
        assert(self.contents() =~= old(self).contents() + clock_field(*config, value@));
    }

    /// Write what stands before the unit that a time ends with.
    fn write_time_head(&mut self, config: &Iso8601, value: &TimeComponents)
        requires
            old(self).wf(),
        ensures
            final(self).appended(*old(self), time_head(*config, *value)),
    {
        proof {
            lemma_marks();
        }
        // The "T" can only be omitted in extended format where there is no date being formatted.
        self.write_if(!config.use_separators || config.format_date, "T");
        match config.time_precision {
            TimePrecision::Hour { .. } => {},
            TimePrecision::Minute { .. } => {
                self.write_clock_field(config, value.hour.expand());
            },
            TimePrecision::Second { .. } => {
                self.write_clock_field(config, value.hour.expand());
                self.write_clock_field(config, value.minute.expand());
            },
        }
        assert(self.contents() =~= old(self).contents() + time_head(*config, *value));
    }

    /// Write the seconds that a time ends with.
    fn write_seconds(&mut self, value: &TimeComponents, decimal_digits: Option<DecimalDigits>)
        requires
            old(self).wf(),
        ensures
            final(self).appended(*old(self), seconds_text(*value, precision(decimal_digits))),
    {
        self.format_two_digits(value.second.expand(), Padding::Zero);
        let ghost after_whole: Output = *self;
        self.write_fraction(value.nanosecond, decimal_digits);
        proof {
            law_writes_join(
                *old(self),
                after_whole,
                *self,
                padded(value.second@ as nat, 2, Padding::Zero),
                fraction_text(value.nanosecond@ as nat, precision(decimal_digits)),
            );
        }
    }

    /// Format the time portion of ISO 8601.
    ///
    /// Where the time ends with hours or minutes, `last` is what was found out about their number,
    /// fraction included.
    pub fn format_iso8601_time(
        &mut self,
        config: &Iso8601,
        value: &TimeComponents,
        last: &FloatParts,
    )
        requires
            old(self).wf(),
            config.time_precision is Second || last.suits(form_for(time_digits(*config))),
        ensures
            final(self).appended(
                *old(self),
                time_head(*config, *value) + time_tail(*config, *value, *last),
            ),
    {
        self.write_time_head(config, value);
        let ghost after_head: Output = *self;
        match config.time_precision {
            TimePrecision::Hour { decimal_digits } => {
                self.format_float(last, 2, decimal_digits);
            },
            TimePrecision::Minute { decimal_digits } => {
                self.format_float(last, 2, decimal_digits);
            },
            TimePrecision::Second { decimal_digits } => {
                self.write_seconds(value, decimal_digits);
            },
        }
        proof {
            law_writes_join(
                *old(self),
                after_head,
                *self,
                time_head(*config, *value),
                time_tail(*config, *value, *last),
            );
        }
    }

    /// Format the UTC offset portion of ISO 8601.
    pub fn format_iso8601_offset(&mut self, config: &Iso8601, value: &OffsetComponents) -> (r:
        Result<(), Format>)
        requires
            old(self).wf(),
        ensures
            outcome(r, offset_error(*config, *value)),
            final(self).appended(*old(self), offset_text(*config, *value)),
    {
        proof {
            lemma_marks();
        }
        if config.format_time && value.is_utc {
            self.write("Z");
            return Ok(());
        }
        if value.second.get() != 0 {
            assert(self.contents() =~= old(self).contents() + Seq::<u8>::empty());
            return Err(Format::InvalidComponent("offset_second"));
        }
        self.write_if_else(value.is_negative, "-", "+");
        self.format_two_digits(value.hour.abs().expand(), Padding::Zero);
        match config.offset_precision {
            OffsetPrecision::Hour => {
                assert(self.contents() =~= old(self).contents() + offset_text(*config, *value));
                if value.minute.get() != 0 {
                    return Err(Format::InvalidComponent("offset_minute"));
                }
            },
            OffsetPrecision::Minute => {
                self.write_if(config.use_separators, ":");
                self.format_two_digits(value.minute.abs().expand(), Padding::Zero);
                assert(self.contents() =~= old(self).contents() + offset_text(*config, *value));
            },
        }
        Ok(())
    }
}

} // verus!
