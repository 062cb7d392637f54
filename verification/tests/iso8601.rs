use time_formatting::calendar::{Month, Weekday};
use time_formatting::float::FloatParts;
use time_formatting::iso8601::{
    DateComponents, DateKind, Format, Iso8601, OffsetComponents, OffsetPrecision, TimeComponents,
    TimePrecision,
};
use time_formatting::modifier::{Subsecond, SubsecondDigits};
use time_formatting::output::Output;
use time_formatting::ranged::{
    Day, DecimalDigits, Hours, IsoWeekNumber, Minutes, Nanoseconds, OffsetHours, OffsetMinutes,
    OffsetSeconds, Ordinal, Seconds, Year,
};

const EXTENDED: Iso8601 = Iso8601 {
    format_date: true,
    format_time: true,
    use_separators: true,
    year_is_six_digits: false,
    date_kind: DateKind::Calendar,
    time_precision: TimePrecision::Second { decimal_digits: None },
    offset_precision: OffsetPrecision::Minute,
};

fn text_of(output: Output) -> String {
    assert_eq!(output.bytes_written(), output.as_slice().len());
    String::from_utf8(output.into_inner()).unwrap()
}

fn date(year: i32) -> DateComponents {
    DateComponents {
        calendar_year: Year::new(year).unwrap(),
        iso_year: Year::new(year - 1).unwrap(),
        month: Month::January,
        day: Day::new(2).unwrap(),
        ordinal: Ordinal::new(2).unwrap(),
        iso_week_number: IsoWeekNumber::new(53).unwrap(),
        weekday: Weekday::Saturday,
    }
}

fn format_date(config: Iso8601, date: DateComponents) -> (String, Result<(), Format>) {
    let mut output = Output::new(Vec::new());
    let result = output.format_iso8601_date(&config, &date);
    (text_of(output), result)
}

fn time(nanosecond: u32) -> TimeComponents {
    TimeComponents {
        hour: Hours::new(3).unwrap(),
        minute: Minutes::new(4).unwrap(),
        second: Seconds::new(5).unwrap(),
        nanosecond: Nanoseconds::new(nanosecond).unwrap(),
    }
}

fn format_seconds(config: Iso8601, digits: u8, nanosecond: u32) -> String {
    let decimal_digits = DecimalDigits::new(digits);
    let config = Iso8601 { time_precision: TimePrecision::Second { decimal_digits }, ..config };
    let mut output = Output::new(Vec::new());
    let last = FloatParts::Whole { int_part: 0 };
    output.format_iso8601_time(&config, &time(nanosecond), &last);
    text_of(output)
}

fn offset(is_negative: bool, hour: i8, minute: i8, second: i8) -> OffsetComponents {
    OffsetComponents {
        is_utc: hour == 0 && minute == 0 && second == 0,
        is_negative,
        hour: OffsetHours::new(hour).unwrap(),
        minute: OffsetMinutes::new(minute).unwrap(),
        second: OffsetSeconds::new(second).unwrap(),
    }
}

fn format_offset(config: Iso8601, offset: OffsetComponents) -> (String, Result<(), Format>) {
    let mut output = Output::new(Vec::new());
    let result = output.format_iso8601_offset(&config, &offset);
    (text_of(output), result)
}

#[test]
fn dates_in_the_extended_format() {
    let week = Iso8601 { date_kind: DateKind::Week, ..EXTENDED };
    let ordinal = Iso8601 { date_kind: DateKind::Ordinal, ..EXTENDED };
    assert_eq!(format_date(EXTENDED, date(2021)), ("2021-01-02".to_string(), Ok(())));
    assert_eq!(format_date(week, date(2021)), ("2020-W53-6".to_string(), Ok(())));
    assert_eq!(format_date(ordinal, date(2021)), ("2021-002".to_string(), Ok(())));
}

#[test]
fn dates_in_the_basic_format() {
    let basic = Iso8601 { use_separators: false, ..EXTENDED };
    let week = Iso8601 { date_kind: DateKind::Week, ..basic };
    let ordinal = Iso8601 { date_kind: DateKind::Ordinal, ..basic };
    assert_eq!(format_date(basic, date(2021)), ("20210102".to_string(), Ok(())));
    assert_eq!(format_date(week, date(2021)), ("2020W536".to_string(), Ok(())));
    assert_eq!(format_date(ordinal, date(2021)), ("2021002".to_string(), Ok(())));
}

#[test]
fn years_of_six_digits() {
    let six = Iso8601 { year_is_six_digits: true, ..EXTENDED };
    assert_eq!(format_date(six, date(2021)), ("+002021-01-02".to_string(), Ok(())));
    assert_eq!(format_date(six, date(0)), ("+000000-01-02".to_string(), Ok(())));
    assert_eq!(format_date(six, date(-2021)), ("-002021-01-02".to_string(), Ok(())));
    assert_eq!(format_date(six, date(999_999)), ("+999999-01-02".to_string(), Ok(())));
}

#[test]
fn years_of_four_digits() {
    let refused = ("".to_string(), Err(Format::InvalidComponent("year")));
    assert_eq!(format_date(EXTENDED, date(0)), ("0000-01-02".to_string(), Ok(())));
    assert_eq!(format_date(EXTENDED, date(9_999)), ("9999-01-02".to_string(), Ok(())));
    assert_eq!(format_date(EXTENDED, date(10_000)), refused);
    assert_eq!(format_date(EXTENDED, date(65_535)), refused);
    assert_eq!(format_date(EXTENDED, date(-1)), refused);
    assert_eq!(format_date(EXTENDED, date(-55_536)), refused);
    let week = Iso8601 { date_kind: DateKind::Week, ..EXTENDED };
    let ordinal = Iso8601 { date_kind: DateKind::Ordinal, ..EXTENDED };
    assert_eq!(format_date(week, date(0)), refused);
    assert_eq!(format_date(ordinal, date(-1)), refused);
}

#[test]
fn years_of_four_digits_keep_sixteen_bits() {
    assert_eq!(format_date(EXTENDED, date(65_536 + 2021)).0, "2021-01-02");
    assert_eq!(format_date(EXTENDED, date(2021 - 65_536)).0, "2021-01-02");
    assert_eq!(format_date(EXTENDED, date(-55_537)).0, "9999-01-02");
}

#[test]
fn times_in_seconds() {
    let basic = Iso8601 { use_separators: false, ..EXTENDED };
    let alone = Iso8601 { format_date: false, ..EXTENDED };
    let basic_alone = Iso8601 { format_date: false, ..basic };
    assert_eq!(format_seconds(EXTENDED, 0, 0), "T03:04:05");
    assert_eq!(format_seconds(basic, 0, 0), "T030405");
    assert_eq!(format_seconds(alone, 0, 0), "03:04:05");
    assert_eq!(format_seconds(basic_alone, 0, 0), "T030405");
}

#[test]
fn fractions_of_seconds_are_truncated() {
    assert_eq!(format_seconds(EXTENDED, 1, 999_999_999), "T03:04:05.9");
    assert_eq!(format_seconds(EXTENDED, 3, 5_999_999), "T03:04:05.005");
    assert_eq!(format_seconds(EXTENDED, 8, 123_456_789), "T03:04:05.12345678");
    assert_eq!(format_seconds(EXTENDED, 9, 7), "T03:04:05.000000007");
    assert_eq!(format_seconds(EXTENDED, 12, 123_456_789), "T03:04:05.123456789000");
    assert_eq!(format_seconds(EXTENDED, 255, 1).len(), "T03:04:05.".len() + 255);
}

#[test]
fn times_in_hours_and_minutes() {
    let mut output = Output::new(Vec::new());
    let time_precision = TimePrecision::Hour { decimal_digits: DecimalDigits::new(2) };
    let config = Iso8601 { time_precision, ..EXTENDED };
    let last = FloatParts::Truncated { int_part: 3, frac_part: 6 };
    output.format_iso8601_time(&config, &time(0), &last);
    assert_eq!(text_of(output), "T03.06");

    let mut output = Output::new(Vec::new());
    let time_precision = TimePrecision::Minute { decimal_digits: None };
    let config = Iso8601 { time_precision, ..EXTENDED };
    let last = FloatParts::Whole { int_part: 4 };
    output.format_iso8601_time(&config, &time(0), &last);
    assert_eq!(text_of(output), "T03:04");

    let mut output = Output::new(Vec::new());
    let time_precision = TimePrecision::Minute { decimal_digits: DecimalDigits::new(10) };
    let config = Iso8601 { time_precision, ..EXTENDED };
    let last = FloatParts::Rendered { text: b"4.0833333333".to_vec() };
    output.format_iso8601_time(&config, &time(0), &last);
    assert_eq!(text_of(output), "T03:04.0833333333");
}

#[test]
fn offset_zero_is_a_letter_next_to_a_time() {
    let zero = offset(false, 0, 0, 0);
    let alone = Iso8601 { format_time: false, ..EXTENDED };
    assert_eq!(format_offset(EXTENDED, zero), ("Z".to_string(), Ok(())));
    assert_eq!(format_offset(alone, zero), ("+00:00".to_string(), Ok(())));
}

#[test]
fn offsets_in_minutes() {
    let basic = Iso8601 { use_separators: false, ..EXTENDED };
    let behind = offset(true, -3, -30, 0);
    assert_eq!(format_offset(EXTENDED, behind), ("-03:30".to_string(), Ok(())));
    assert_eq!(format_offset(basic, behind), ("-0330".to_string(), Ok(())));
    assert_eq!(format_offset(EXTENDED, offset(false, 25, 59, 0)).0, "+25:59");
}

#[test]
fn offsets_in_hours() {
    let hours = Iso8601 { offset_precision: OffsetPrecision::Hour, ..EXTENDED };
    assert_eq!(format_offset(hours, offset(false, 9, 0, 0)), ("+09".to_string(), Ok(())));
    let refused = ("-03".to_string(), Err(Format::InvalidComponent("offset_minute")));
    assert_eq!(format_offset(hours, offset(true, -3, -30, 0)), refused);
}

#[test]
fn offsets_with_seconds_are_refused() {
    let refused = ("".to_string(), Err(Format::InvalidComponent("offset_second")));
    assert_eq!(format_offset(EXTENDED, offset(false, 0, 0, 1)), refused);
    let hours = Iso8601 { offset_precision: OffsetPrecision::Hour, ..EXTENDED };
    assert_eq!(format_offset(hours, offset(true, -3, -30, -1)), refused);
}

#[test]
fn dates_take_a_fixed_width_and_differ() {
    for (kind, width) in [(DateKind::Calendar, 10), (DateKind::Week, 10), (DateKind::Ordinal, 8)] {
        let config = Iso8601 { date_kind: kind, ..EXTENDED };
        let mut seen: Vec<String> = Vec::new();
        for year in [1, 2, 20, 999, 2021, 9_999] {
            for day in [1, 2, 11, 31] {
                let mut value = date(year);
                value.day = Day::new(day).unwrap();
                value.ordinal = Ordinal::new(day as u16 * 10).unwrap();
                value.iso_week_number = IsoWeekNumber::new(day).unwrap();
                let (text, result) = format_date(config, value);
                assert_eq!(result, Ok(()));
                assert_eq!(text.len(), width);
                assert!(!seen.contains(&text));
                seen.push(text);
            }
        }
    }
}

#[test]
fn times_of_nine_digits_differ() {
    let mut seen: Vec<String> = Vec::new();
    for nanosecond in [0, 1, 10, 100_000_000, 999_999_999] {
        for digits in [9, 11] {
            let text = format_seconds(EXTENDED, digits, nanosecond);
            assert!(!seen.contains(&text));
            seen.push(text);
        }
    }
    assert_eq!(format_seconds(EXTENDED, 2, 120_000_000), format_seconds(EXTENDED, 2, 129_999_999));
}

#[test]
fn fractions_agree_with_subseconds() {
    let mut output = Output::new(Vec::new());
    let digits = SubsecondDigits::Four;
    output.fmt_subsecond(Nanoseconds::new(56_789_000).unwrap(), Subsecond { digits });
    let fraction = text_of(output);
    assert_eq!(fraction, "0567");
    assert_eq!(format_seconds(EXTENDED, 4, 56_789_000), format!("T03:04:05.{fraction}"));
}

#[test]
fn offsets_differ() {
    let mut seen: Vec<String> = Vec::new();
    for is_negative in [false, true] {
        for hour in [0, 1, 10, 25] {
            for minute in [1, 10, 59] {
                let (text, result) = format_offset(EXTENDED, offset(is_negative, hour, minute, 0));
                assert_eq!(result, Ok(()));
                assert!(!seen.contains(&text));
                seen.push(text);
            }
        }
    }
}

#[test]
fn rendered_minutes_are_counted_in_full() {
    let mut output = Output::new(Vec::new());
    let time_precision = TimePrecision::Minute { decimal_digits: DecimalDigits::new(9) };
    let config = Iso8601 { time_precision, ..EXTENDED };
    let last = FloatParts::Rendered { text: b"004.083333333".to_vec() };
    output.format_iso8601_time(&config, &time(0), &last);
    assert_eq!(output.as_slice(), b"T03:004.083333333");
    assert_eq!(output.bytes_written(), "T03:004.083333333".len());
}
