//! Modifiers: how a component is to be written.

use vstd::prelude::*;

verus! {

/// What stands in the place of the leading zeros of a number.
#[derive(Clone, Copy, Debug, PartialEq, Eq)]
pub enum Padding {
    /// Spaces.
    Space,
    /// Zeros.
    Zero,
    /// Nothing: the number takes only as many bytes as it needs.
    Unpadded,
}

/// How many digits of a fraction of a second are written.
#[derive(Clone, Copy, Debug, PartialEq, Eq)]
pub enum SubsecondDigits {
    /// One digit.
    One,
    /// Two digits.
    Two,
    /// Three digits.
    Three,
    /// Four digits.
    Four,
    /// Five digits.
    Five,
    /// Six digits.
    Six,
    /// Seven digits.
    Seven,
    /// Eight digits.
    Eight,
    /// Nine digits.
    Nine,
    /// As many digits as the fraction needs, and at least one.
    OneOrMore,
}

/// How the day of a month is written.
#[derive(Clone, Copy, Debug, PartialEq, Eq)]
pub struct Day {
    /// How the number is padded to its width.
    pub padding: Padding,
}

/// How the abbreviated name of a month is written.
#[derive(Clone, Copy, Debug, PartialEq, Eq)]
pub struct MonthShort {
    /// Whether the name is matched by case. This has no effect on formatting.
    pub case_sensitive: bool,
}

/// How the full name of a month is written.
#[derive(Clone, Copy, Debug, PartialEq, Eq)]
pub struct MonthLong {
    /// Whether the name is matched by case. This has no effect on formatting.
    pub case_sensitive: bool,
}

/// How the number of a month is written.
#[derive(Clone, Copy, Debug, PartialEq, Eq)]
pub struct MonthNumerical {
    /// How the number is padded to its width.
    pub padding: Padding,
}

/// How the day of a year is written.
#[derive(Clone, Copy, Debug, PartialEq, Eq)]
pub struct Ordinal {
    /// How the number is padded to its width.
    pub padding: Padding,
}

/// How the abbreviated name of a weekday is written.
#[derive(Clone, Copy, Debug, PartialEq, Eq)]
pub struct WeekdayShort {
    /// Whether the name is matched by case. This has no effect on formatting.
    pub case_sensitive: bool,
}

/// How the full name of a weekday is written.
#[derive(Clone, Copy, Debug, PartialEq, Eq)]
pub struct WeekdayLong {
    /// Whether the name is matched by case. This has no effect on formatting.
    pub case_sensitive: bool,
}

/// How the number of a weekday, counted from Sunday, is written.
#[derive(Clone, Copy, Debug, PartialEq, Eq)]
pub struct WeekdaySunday {
    /// Whether the first day of the week is 1 and not 0.
    pub one_indexed: bool,
}

/// How the number of a weekday, counted from Monday, is written.
#[derive(Clone, Copy, Debug, PartialEq, Eq)]
pub struct WeekdayMonday {
    /// Whether the first day of the week is 1 and not 0.
    pub one_indexed: bool,
}

/// How the number of an ISO 8601 week is written.
#[derive(Clone, Copy, Debug, PartialEq, Eq)]
pub struct WeekNumberIso {
    /// How the number is padded to its width.
    pub padding: Padding,
}

/// How the number of a week that begins on Sunday is written.
#[derive(Clone, Copy, Debug, PartialEq, Eq)]
pub struct WeekNumberSunday {
    /// How the number is padded to its width.
    pub padding: Padding,
}

/// How the number of a week that begins on Monday is written.
#[derive(Clone, Copy, Debug, PartialEq, Eq)]
pub struct WeekNumberMonday {
    /// How the number is padded to its width.
    pub padding: Padding,
}

/// How a calendar year of up to six digits is written.
#[derive(Clone, Copy, Debug, PartialEq, Eq)]
pub struct CalendarYearFullExtendedRange {
    /// How the number is padded to its width.
    pub padding: Padding,
    /// Whether a sign is written before a number that is not negative.
    pub sign_is_mandatory: bool,
}

/// How a calendar year of up to four digits is written.
#[derive(Clone, Copy, Debug, PartialEq, Eq)]
pub struct CalendarYearFullStandardRange {
    /// How the number is padded to its width.
    pub padding: Padding,
    /// Whether a sign is written before a number that is not negative.
    pub sign_is_mandatory: bool,
}

/// How an ISO 8601 week-based year of up to six digits is written.
#[derive(Clone, Copy, Debug, PartialEq, Eq)]
pub struct IsoYearFullExtendedRange {
    /// How the number is padded to its width.
    pub padding: Padding,
    /// Whether a sign is written before a number that is not negative.
    pub sign_is_mandatory: bool,
}

/// How an ISO 8601 week-based year of up to four digits is written.
#[derive(Clone, Copy, Debug, PartialEq, Eq)]
pub struct IsoYearFullStandardRange {
    /// How the number is padded to its width.
    pub padding: Padding,
    /// Whether a sign is written before a number that is not negative.
    pub sign_is_mandatory: bool,
}

/// How the century of a calendar year of up to six digits is written.
#[derive(Clone, Copy, Debug, PartialEq, Eq)]
pub struct CalendarYearCenturyExtendedRange {
    /// How the number is padded to its width.
    pub padding: Padding,
    /// Whether a sign is written before a number that is not negative.
    pub sign_is_mandatory: bool,
}

/// How the century of a calendar year of up to four digits is written.
#[derive(Clone, Copy, Debug, PartialEq, Eq)]
pub struct CalendarYearCenturyStandardRange {
    /// How the number is padded to its width.
    pub padding: Padding,
    /// Whether a sign is written before a number that is not negative.
    pub sign_is_mandatory: bool,
}

/// How the century of an ISO 8601 week-based year of up to six digits is written.
#[derive(Clone, Copy, Debug, PartialEq, Eq)]
pub struct IsoYearCenturyExtendedRange {
    /// How the number is padded to its width.
    pub padding: Padding,
    /// Whether a sign is written before a number that is not negative.
    pub sign_is_mandatory: bool,
}

/// How the century of an ISO 8601 week-based year of up to four digits is written.
#[derive(Clone, Copy, Debug, PartialEq, Eq)]
pub struct IsoYearCenturyStandardRange {
    /// How the number is padded to its width.
    pub padding: Padding,
    /// Whether a sign is written before a number that is not negative.
    pub sign_is_mandatory: bool,
}

/// How the last two digits of a calendar year are written.
#[derive(Clone, Copy, Debug, PartialEq, Eq)]
pub struct CalendarYearLastTwo {
    /// How the number is padded to its width.
    pub padding: Padding,
}

/// How the last two digits of an ISO 8601 week-based year are written.
#[derive(Clone, Copy, Debug, PartialEq, Eq)]
pub struct IsoYearLastTwo {
    /// How the number is padded to its width.
    pub padding: Padding,
}

/// How the hour on the 12-hour clock is written.
#[derive(Clone, Copy, Debug, PartialEq, Eq)]
pub struct Hour12 {
    /// How the number is padded to its width.
    pub padding: Padding,
}

/// How the hour on the 24-hour clock is written.
#[derive(Clone, Copy, Debug, PartialEq, Eq)]
pub struct Hour24 {
    /// How the number is padded to its width.
    pub padding: Padding,
}

/// How the minute of an hour is written.
#[derive(Clone, Copy, Debug, PartialEq, Eq)]
pub struct Minute {
    /// How the number is padded to its width.
    pub padding: Padding,
}

/// How the half of the day is written.
#[derive(Clone, Copy, Debug, PartialEq, Eq)]
pub struct Period {
    /// Whether the letters are upper case.
    pub is_uppercase: bool,
    /// Whether the name is matched by case. This has no effect on formatting.
    pub case_sensitive: bool,
}

/// How the second of a minute is written.
#[derive(Clone, Copy, Debug, PartialEq, Eq)]
pub struct Second {
    /// How the number is padded to its width.
    pub padding: Padding,
}

/// How the fraction of a second is written.
#[derive(Clone, Copy, Debug, PartialEq, Eq)]
pub struct Subsecond {
    /// How many digits are written.
    pub digits: SubsecondDigits,
}

/// How the whole hours of a UTC offset are written.
#[derive(Clone, Copy, Debug, PartialEq, Eq)]
pub struct OffsetHour {
    /// How the number is padded to its width.
    pub padding: Padding,
    /// Whether a sign is written before a number that is not negative.
    pub sign_is_mandatory: bool,
}

/// How the minutes of a UTC offset are written.
#[derive(Clone, Copy, Debug, PartialEq, Eq)]
pub struct OffsetMinute {
    /// How the number is padded to its width.
    pub padding: Padding,
}

/// How the seconds of a UTC offset are written.
#[derive(Clone, Copy, Debug, PartialEq, Eq)]
pub struct OffsetSecond {
    /// How the number is padded to its width.
    pub padding: Padding,
}

/// How a Unix timestamp in seconds is written.
#[derive(Clone, Copy, Debug, PartialEq, Eq)]
pub struct UnixTimestampSecond {
    /// Whether a sign is written before a number that is not negative.
    pub sign_is_mandatory: bool,
}

/// How a Unix timestamp in milliseconds is written.
#[derive(Clone, Copy, Debug, PartialEq, Eq)]
pub struct UnixTimestampMillisecond {
    /// Whether a sign is written before a number that is not negative.
    pub sign_is_mandatory: bool,
}

/// How a Unix timestamp in microseconds is written.
#[derive(Clone, Copy, Debug, PartialEq, Eq)]
pub struct UnixTimestampMicrosecond {
    /// Whether a sign is written before a number that is not negative.
    pub sign_is_mandatory: bool,
}

/// How a Unix timestamp in nanoseconds is written.
#[derive(Clone, Copy, Debug, PartialEq, Eq)]
pub struct UnixTimestampNanosecond {
    /// Whether a sign is written before a number that is not negative.
    pub sign_is_mandatory: bool,
}

} // verus!
