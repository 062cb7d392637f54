use time_formatting::calendar::{Month, Period, Weekday};
use time_formatting::modifier::{self, Padding, SubsecondDigits};
use time_formatting::output::Output;
use time_formatting::ranged::{
    Day, ExtendedCentury, Hours, IsoWeekNumber, LastTwo, Minutes, MondayBasedWeek, Nanoseconds,
    OffsetHours, OffsetMinutes, OffsetSeconds, Ordinal, Seconds, StandardCentury, StandardYear,
    SundayBasedWeek, Year,
};

const MONTHS: [Month; 12] = [
    Month::January,
    Month::February,
    Month::March,
    Month::April,
    Month::May,
    Month::June,
    Month::July,
    Month::August,
    Month::September,
    Month::October,
    Month::November,
    Month::December,
];

const WEEKDAYS: [Weekday; 7] = [
    Weekday::Monday,
    Weekday::Tuesday,
    Weekday::Wednesday,
    Weekday::Thursday,
    Weekday::Friday,
    Weekday::Saturday,
    Weekday::Sunday,
];

fn written(format: impl FnOnce(&mut Output)) -> String {
    let mut output = Output::new(Vec::new());
    format(&mut output);
    assert_eq!(output.bytes_written(), output.as_slice().len());
    String::from_utf8(output.into_inner()).unwrap()
}

#[test]
fn day() {
    let format = |day, padding| {
        written(|o| o.fmt_day(Day::new(day).unwrap(), modifier::Day { padding }))
    };
    assert_eq!(format(1, Padding::Zero), "01");
    assert_eq!(format(1, Padding::Space), " 1");
    assert_eq!(format(1, Padding::Unpadded), "1");
    assert_eq!(format(31, Padding::Unpadded), "31");
}

#[test]
fn month_names() {
    let names = [
        "January",
        "February",
        "March",
        "April",
        "May",
        "June",
        "July",
        "August",
        "September",
        "October",
        "November",
        "December",
    ];
    for i in 0..12 {
        for case_sensitive in [false, true] {
            let long = modifier::MonthLong { case_sensitive };
            let short = modifier::MonthShort { case_sensitive };
            assert_eq!(written(|o| o.fmt_month_long(MONTHS[i], long)), names[i]);
            assert_eq!(written(|o| o.fmt_month_short(MONTHS[i], short)), names[i][..3]);
        }
    }
}

#[test]
fn month_abbreviations_differ() {
    let short = modifier::MonthShort { case_sensitive: true };
    for a in MONTHS {
        for b in MONTHS {
            let same =
                written(|o| o.fmt_month_short(a, short)) == written(|o| o.fmt_month_short(b, short));
            assert_eq!(same, a == b);
        }
    }
}

#[test]
fn month_numbers() {
    for i in 0..12 {
        let zero = modifier::MonthNumerical { padding: Padding::Zero };
        let none = modifier::MonthNumerical { padding: Padding::Unpadded };
        assert_eq!(written(|o| o.fmt_month_numerical(MONTHS[i], zero)), format!("{:02}", i + 1));
        assert_eq!(written(|o| o.fmt_month_numerical(MONTHS[i], none)), (i + 1).to_string());
    }
}

#[test]
fn ordinal() {
    let format = |ordinal, padding| {
        written(|o| o.fmt_ordinal(Ordinal::new(ordinal).unwrap(), modifier::Ordinal { padding }))
    };
    assert_eq!(format(1, Padding::Zero), "001");
    assert_eq!(format(42, Padding::Space), " 42");
    assert_eq!(format(42, Padding::Unpadded), "42");
    assert_eq!(format(366, Padding::Space), "366");
}

#[test]
fn weekday_names() {
    let names =
        ["Monday", "Tuesday", "Wednesday", "Thursday", "Friday", "Saturday", "Sunday"];
    for i in 0..7 {
        let long = modifier::WeekdayLong { case_sensitive: true };
        let short = modifier::WeekdayShort { case_sensitive: false };
        assert_eq!(written(|o| o.fmt_weekday_long(WEEKDAYS[i], long)), names[i]);
        assert_eq!(written(|o| o.fmt_weekday_short(WEEKDAYS[i], short)), names[i][..3]);
    }
}

#[test]
fn weekday_numbers() {
    for i in 0..7 {
        let sunday = |one_indexed| {
            let modifier = modifier::WeekdaySunday { one_indexed };
            written(|o| o.fmt_weekday_sunday(WEEKDAYS[i], modifier))
        };
        let monday = |one_indexed| {
            let modifier = modifier::WeekdayMonday { one_indexed };
            written(|o| o.fmt_weekday_monday(WEEKDAYS[i], modifier))
        };
        assert_eq!(sunday(false), ((i + 1) % 7).to_string());
        assert_eq!(sunday(true), ((i + 1) % 7 + 1).to_string());
        assert_eq!(monday(false), i.to_string());
        assert_eq!(monday(true), (i + 1).to_string());
    }
}

#[test]
fn week_numbers() {
    let iso = IsoWeekNumber::new(1).unwrap();
    let modifier = modifier::WeekNumberIso { padding: Padding::Zero };
    assert_eq!(written(|o| o.fmt_week_number_iso(iso, modifier)), "01");
    let sunday = SundayBasedWeek::new(0).unwrap();
    let modifier = modifier::WeekNumberSunday { padding: Padding::Space };
    assert_eq!(written(|o| o.fmt_week_number_sunday(sunday, modifier)), " 0");
    let monday = MondayBasedWeek::new(53).unwrap();
    let modifier = modifier::WeekNumberMonday { padding: Padding::Unpadded };
    assert_eq!(written(|o| o.fmt_week_number_monday(monday, modifier)), "53");
}

fn extended_year(year: i32, padding: Padding, sign_is_mandatory: bool) -> String {
    let year = Year::new(year).unwrap();
    let calendar = modifier::CalendarYearFullExtendedRange { padding, sign_is_mandatory };
    let iso = modifier::IsoYearFullExtendedRange { padding, sign_is_mandatory };
    let text = written(|o| o.fmt_calendar_year_full_extended_range(year, calendar));
    assert_eq!(written(|o| o.fmt_iso_year_full_extended_range(year, iso)), text);
    text
}

fn standard_year(year: i16, padding: Padding, sign_is_mandatory: bool) -> String {
    let year = StandardYear::new(year).unwrap();
    let calendar = modifier::CalendarYearFullStandardRange { padding, sign_is_mandatory };
    let iso = modifier::IsoYearFullStandardRange { padding, sign_is_mandatory };
    let text = written(|o| o.fmt_calendar_year_full_standard_range(year, calendar));
    assert_eq!(written(|o| o.fmt_iso_year_full_standard_range(year, iso)), text);
    text
}

#[test]
fn years() {
    assert_eq!(extended_year(2021, Padding::Zero, false), "2021");
    assert_eq!(extended_year(2021, Padding::Zero, true), "+2021");
    assert_eq!(extended_year(-1, Padding::Zero, false), "-0001");
    assert_eq!(extended_year(5, Padding::Space, false), "   5");
    assert_eq!(extended_year(5, Padding::Space, true), "+   5");
    assert_eq!(extended_year(0, Padding::Unpadded, false), "0");
    assert_eq!(extended_year(9_999, Padding::Zero, false), "9999");
    assert_eq!(extended_year(10_000, Padding::Unpadded, false), "+10000");
    assert_eq!(extended_year(-10_000, Padding::Space, false), "-10000");
    assert_eq!(extended_year(99_999, Padding::Zero, false), "+99999");
    assert_eq!(extended_year(100_000, Padding::Zero, false), "+100000");
    assert_eq!(extended_year(-999_999, Padding::Zero, true), "-999999");
    assert_eq!(standard_year(9_999, Padding::Zero, false), "9999");
    assert_eq!(standard_year(-12, Padding::Unpadded, false), "-12");
    assert_eq!(standard_year(12, Padding::Space, true), "+  12");
}

#[test]
fn year_ranges_agree_and_read_back() {
    for year in [-9_999i16, -1_000, -1, 0, 1, 999, 1_000, 9_999] {
        for padding in [Padding::Space, Padding::Zero, Padding::Unpadded] {
            for sign_is_mandatory in [false, true] {
                let text = standard_year(year, padding, sign_is_mandatory);
                assert_eq!(extended_year(year as i32, padding, sign_is_mandatory), text);
                assert_eq!(text.replace(' ', "").parse::<i16>(), Ok(year));
            }
        }
    }
}

fn extended_century(
    century: i16,
    is_negative: bool,
    padding: Padding,
    sign_is_mandatory: bool,
) -> String {
    let century = ExtendedCentury::new(century).unwrap();
    let calendar = modifier::CalendarYearCenturyExtendedRange { padding, sign_is_mandatory };
    let iso = modifier::IsoYearCenturyExtendedRange { padding, sign_is_mandatory };
    let text =
        written(|o| o.fmt_calendar_year_century_extended_range(century, is_negative, calendar));
    assert_eq!(
        written(|o| o.fmt_iso_year_century_extended_range(century, is_negative, iso)),
        text
    );
    text
}

fn standard_century(
    century: i8,
    is_negative: bool,
    padding: Padding,
    sign_is_mandatory: bool,
) -> String {
    let century = StandardCentury::new(century).unwrap();
    let calendar = modifier::CalendarYearCenturyStandardRange { padding, sign_is_mandatory };
    let iso = modifier::IsoYearCenturyStandardRange { padding, sign_is_mandatory };
    let text =
        written(|o| o.fmt_calendar_year_century_standard_range(century, is_negative, calendar));
    assert_eq!(
        written(|o| o.fmt_iso_year_century_standard_range(century, is_negative, iso)),
        text
    );
    text
}

#[test]
fn centuries() {
    assert_eq!(extended_century(20, false, Padding::Zero, false), "20");
    assert_eq!(extended_century(0, true, Padding::Zero, false), "-00");
    assert_eq!(extended_century(-1, true, Padding::Space, false), "- 1");
    assert_eq!(extended_century(99, false, Padding::Zero, true), "+99");
    assert_eq!(extended_century(100, false, Padding::Unpadded, false), "+100");
    assert_eq!(extended_century(-999, true, Padding::Zero, false), "-999");
    assert_eq!(extended_century(1_000, false, Padding::Space, false), "+1000");
    assert_eq!(extended_century(9_999, false, Padding::Zero, false), "+9999");
    assert_eq!(standard_century(3, false, Padding::Zero, false), "03");
    assert_eq!(standard_century(3, false, Padding::Unpadded, true), "+3");
    assert_eq!(standard_century(0, true, Padding::Zero, false), "-00");
    assert_eq!(standard_century(-99, true, Padding::Zero, false), "-99");
    for century in [-99i8, -1, 0, 1, 99] {
        assert_eq!(
            standard_century(century, century < 0, Padding::Zero, false),
            extended_century(century as i16, century < 0, Padding::Zero, false)
        );
    }
}

#[test]
fn last_two() {
    let last_two = LastTwo::new(7).unwrap();
    let calendar = modifier::CalendarYearLastTwo { padding: Padding::Zero };
    let iso = modifier::IsoYearLastTwo { padding: Padding::Space };
    assert_eq!(written(|o| o.fmt_calendar_year_last_two(last_two, calendar)), "07");
    assert_eq!(written(|o| o.fmt_iso_year_last_two(last_two, iso)), " 7");
}

#[test]
fn hours() {
    let twelve = |hour| {
        let modifier = modifier::Hour12 { padding: Padding::Zero };
        written(|o| o.fmt_hour_12(Hours::new(hour).unwrap(), modifier))
    };
    assert_eq!(twelve(0), "12");
    assert_eq!(twelve(1), "01");
    assert_eq!(twelve(11), "11");
    assert_eq!(twelve(12), "12");
    assert_eq!(twelve(13), "01");
    assert_eq!(twelve(23), "11");
    for hour in 0..12 {
        assert_eq!(twelve(hour), twelve(hour + 12));
    }
    let modifier = modifier::Hour24 { padding: Padding::Zero };
    assert_eq!(written(|o| o.fmt_hour_24(Hours::new(0).unwrap(), modifier)), "00");
    assert_eq!(written(|o| o.fmt_hour_24(Hours::new(23).unwrap(), modifier)), "23");
}

#[test]
fn minutes_and_seconds() {
    let modifier = modifier::Minute { padding: Padding::Space };
    assert_eq!(written(|o| o.fmt_minute(Minutes::new(3).unwrap(), modifier)), " 3");
    let modifier = modifier::Second { padding: Padding::Zero };
    assert_eq!(written(|o| o.fmt_second(Seconds::new(59).unwrap(), modifier)), "59");
}

#[test]
fn periods() {
    let format = |period, is_uppercase| {
        let modifier = modifier::Period { is_uppercase, case_sensitive: true };
        written(|o| o.fmt_period(period, modifier))
    };
    assert_eq!(format(Period::Am, false), "am");
    assert_eq!(format(Period::Am, true), "AM");
    assert_eq!(format(Period::Pm, false), "pm");
    assert_eq!(format(Period::Pm, true), "PM");
}

fn subsecond(nanos: u32, digits: SubsecondDigits) -> String {
    let nanos = Nanoseconds::new(nanos).unwrap();
    written(|o| o.fmt_subsecond(nanos, modifier::Subsecond { digits }))
}

#[test]
fn subseconds_of_fixed_width() {
    let digits = [
        SubsecondDigits::One,
        SubsecondDigits::Two,
        SubsecondDigits::Three,
        SubsecondDigits::Four,
        SubsecondDigits::Five,
        SubsecondDigits::Six,
        SubsecondDigits::Seven,
        SubsecondDigits::Eight,
        SubsecondDigits::Nine,
    ];
    for i in 0..9 {
        assert_eq!(subsecond(123_456_789, digits[i]), "123456789"[..i + 1]);
        assert_eq!(subsecond(999_999_999, digits[i]), "999999999"[..i + 1]);
        assert_eq!(subsecond(5, digits[i]), "000000005"[..i + 1]);
    }
}

#[test]
fn subseconds_as_needed() {
    let format = |nanos| subsecond(nanos, SubsecondDigits::OneOrMore);
    assert_eq!(format(0), "0");
    assert_eq!(format(100_000_000), "1");
    assert_eq!(format(120_000_000), "12");
    assert_eq!(format(123_000_000), "123");
    assert_eq!(format(123_400_000), "1234");
    assert_eq!(format(123_450_000), "12345");
    assert_eq!(format(123_456_000), "123456");
    assert_eq!(format(123_456_700), "1234567");
    assert_eq!(format(123_456_780), "12345678");
    assert_eq!(format(123_456_789), "123456789");
    assert_eq!(format(10_000_000), "01");
    assert_eq!(format(1), "000000001");
    assert_eq!(format(100_000_010), "10000001");
}

#[test]
fn subseconds_as_needed_lose_nothing() {
    for nanos in [0, 1, 10, 7_000, 500_000_000, 120_300_400, 999_999_990] {
        let text = subsecond(nanos, SubsecondDigits::OneOrMore);
        assert!(text.len() == 1 || !text.ends_with('0'));
        let scale = 10u32.pow(9 - text.len() as u32);
        assert_eq!(text.parse::<u32>().unwrap() * scale, nanos);
    }
}

#[test]
fn signs() {
    assert_eq!(written(|o| o.fmt_sign(true, true)), "-");
    assert_eq!(written(|o| o.fmt_sign(true, false)), "-");
    assert_eq!(written(|o| o.fmt_sign(false, true)), "+");
    assert_eq!(written(|o| o.fmt_sign(false, false)), "");
}

#[test]
fn offsets() {
    let hour = |is_negative, hour, sign_is_mandatory| {
        let modifier = modifier::OffsetHour { padding: Padding::Zero, sign_is_mandatory };
        written(|o| o.fmt_offset_hour(is_negative, OffsetHours::new(hour).unwrap(), modifier))
    };
    assert_eq!(hour(false, 1, true), "+01");
    assert_eq!(hour(false, 1, false), "01");
    assert_eq!(hour(true, -25, false), "-25");
    assert_eq!(hour(true, 0, false), "-00");
    let minute = modifier::OffsetMinute { padding: Padding::Zero };
    assert_eq!(written(|o| o.fmt_offset_minute(OffsetMinutes::new(-5).unwrap(), minute)), "05");
    let second = modifier::OffsetSecond { padding: Padding::Space };
    assert_eq!(written(|o| o.fmt_offset_second(OffsetSeconds::new(-9).unwrap(), second)), " 9");
}

#[test]
fn unix_timestamps_read_back() {
    for sign_is_mandatory in [false, true] {
        for timestamp in [i64::MIN, -1, 0, 1, 1_546_398_245, i64::MAX] {
            let modifier = modifier::UnixTimestampSecond { sign_is_mandatory };
            let text = written(|o| o.fmt_unix_timestamp_second(timestamp, modifier));
            assert_eq!(text.parse::<i64>(), Ok(timestamp));
            assert_eq!(text.starts_with('+'), sign_is_mandatory && timestamp >= 0);
            let modifier = modifier::UnixTimestampMillisecond { sign_is_mandatory };
            assert_eq!(written(|o| o.fmt_unix_timestamp_millisecond(timestamp, modifier)), text);
        }
        for timestamp in [i128::MIN, -1, 0, 1, i128::MAX] {
            let modifier = modifier::UnixTimestampMicrosecond { sign_is_mandatory };
            let text = written(|o| o.fmt_unix_timestamp_microsecond(timestamp, modifier));
            assert_eq!(text.parse::<i128>(), Ok(timestamp));
            let modifier = modifier::UnixTimestampNanosecond { sign_is_mandatory };
            assert_eq!(written(|o| o.fmt_unix_timestamp_nanosecond(timestamp, modifier)), text);
        }
    }
}

#[test]
fn weekday_abbreviations_differ() {
    let short = modifier::WeekdayShort { case_sensitive: true };
    for a in WEEKDAYS {
        for b in WEEKDAYS {
            let same = written(|o| o.fmt_weekday_short(a, short))
                == written(|o| o.fmt_weekday_short(b, short));
            assert_eq!(same, a == b);
        }
    }
}

#[test]
fn long_years_do_not_depend_on_the_modifier() {
    for year in [-999_999, -10_000, 10_000, 54_321, 100_000, 999_999] {
        for padding in [Padding::Space, Padding::Zero, Padding::Unpadded] {
            for sign_is_mandatory in [false, true] {
                let text = extended_year(year, padding, sign_is_mandatory);
                assert_eq!(text, format!("{year:+}"));
            }
        }
    }
}

#[test]
fn centuries_read_back() {
    for century in [-9_999i16, -100, -1, 0, 7, 99, 100, 1_234] {
        for padding in [Padding::Space, Padding::Zero, Padding::Unpadded] {
            let text = extended_century(century, century < 0, padding, false);
            assert_eq!(text.replace(' ', "").parse::<i16>(), Ok(century));
        }
    }
}
