//! Laws that hold of dates, times and offsets in ISO 8601.

use crate::float::FloatParts;
use crate::iso8601::{
    clock_field, date_tail, date_year, fraction_text, offset_error, offset_is_zulu, offset_text,
    seconds_text, separator, time_digits, time_head, time_mark, time_tail, year_field,
    DateComponents, DateKind, Iso8601, OffsetComponents, OffsetPrecision, TimeComponents,
};
use crate::laws::lemma_trailing_zeros;
use crate::modifier::{Padding, SubsecondDigits};
use crate::subsecond::{lemma_nine_digits, nine_digits, subsecond_text, subsecond_width};
use crate::text::{
    decimal, decimal_value, law_decimal_reads_back, law_division_truncates_digits,
    law_padded_is_unambiguous, law_padded_width, law_signed_reads_back, law_zero_padded_reads_back,
    lemma_powers_of_ten, lemma_split, magnitude, padded, power_of_ten, repeat, sign, signed,
    signed_value,
};
use vstd::prelude::*;

verus! {

/// Every component of the date lies in its range.
pub open spec fn valid_date(date: DateComponents) -> bool {
    &&& -999_999 <= date.calendar_year@ <= 999_999
    &&& -999_999 <= date.iso_year@ <= 999_999
    &&& 1 <= date.day@ <= 31
    &&& 1 <= date.ordinal@ <= 366
    &&& 1 <= date.iso_week_number@ <= 53
}

/// Every component of the time lies in its range.
pub open spec fn valid_time(time: TimeComponents) -> bool {
    &&& 0 <= time.hour@ <= 23
    &&& 0 <= time.minute@ <= 59
    &&& 0 <= time.second@ <= 59
    &&& 0 <= time.nanosecond@ <= 999_999_999
}

/// Every component of the offset lies in its range.
pub open spec fn valid_offset(offset: OffsetComponents) -> bool {
    &&& -25 <= offset.hour@ <= 25
    &&& -59 <= offset.minute@ <= 59
    &&& -59 <= offset.second@ <= 59
}

/// The year can be written, and what is written is the whole year.
pub open spec fn writable_year(config: Iso8601, year: int) -> bool {
    if config.year_is_six_digits {
        -999_999 <= year <= 999_999
    } else {
        0 <= year <= 9_999
    }
}

/// How many bytes a year takes.
pub open spec fn year_width(config: Iso8601) -> nat {
    if config.year_is_six_digits {
        7
    } else {
        4
    }
}

/// A year that can be written takes a fixed width and reads back as the year.
pub proof fn law_year_field_reads_back(config: Iso8601, year: int)
    requires
        writable_year(config, year),
    ensures
        year_field(config, year) matches Some(text) && text.len() == year_width(config)
            && signed_value(text) == year,
{
    lemma_powers_of_ten();
    if config.year_is_six_digits {
        law_padded_width(magnitude(year), 6, Padding::Zero);
        law_signed_reads_back(year < 0, true, magnitude(year), 6, Padding::Zero);
    } else {
        law_padded_width(year as nat, 4, Padding::Zero);
        law_signed_reads_back(false, false, year as nat, 4, Padding::Zero);
        assert(signed(false, false, year as nat, 4, Padding::Zero) =~= padded(
            year as nat,
            4,
            Padding::Zero,
        ));
    }
}

/// Where years have four digits, a year that has a sign or more digits never reads back: it is
/// refused, or if its sixteen lowest bits fit in four digits, written as the year that they make.
pub proof fn law_other_years_do_not_read_back(config: Iso8601, year: int)
    requires
        !config.year_is_six_digits,
        year < 0 || year > 9_999,
    ensures
        year_field(config, year) is None <==> year % 0x1_0000 > 9_999,
        year_field(config, year) matches Some(text) ==> signed_value(text) == year % 0x1_0000
            && signed_value(text) != year,
{
    if year % 0x1_0000 <= 9_999 {
        law_year_field_reads_back(config, year % 0x1_0000);
    }
}

/// Two years are the same, as far as they are written: where years have four digits, these are the
/// sixteen lowest bits.
pub open spec fn same_year(config: Iso8601, year: int, other: int) -> bool {
    if config.year_is_six_digits {
        year == other
    } else {
        year % 0x1_0000 == other % 0x1_0000
    }
}

/// A year that can be written takes a fixed width.
proof fn lemma_year_field(config: Iso8601, year: int)
    requires
        -999_999 <= year <= 999_999,
        year_field(config, year) is Some,
    ensures
        year_field(config, year)->0.len() == year_width(config),
        signed_value(year_field(config, year)->0) == if config.year_is_six_digits {
            year
        } else {
            year % 0x1_0000
        },
{
    if config.year_is_six_digits {
        law_year_field_reads_back(config, year);
    } else {
        law_year_field_reads_back(config, year % 0x1_0000);
    }
}

/// What is written of a date takes a fixed width, which depends on the configuration alone.
pub proof fn law_date_width(config: Iso8601, date: DateComponents)
    requires
        valid_date(date),
        year_field(config, date_year(config, date)) is Some,
    ensures
        (year_field(config, date_year(config, date))->0 + date_tail(config, date)).len()
            == year_width(config) + match config.date_kind {
            DateKind::Calendar => if config.use_separators {
                6int
            } else {
                4
            },
            DateKind::Week => if config.use_separators {
                6int
            } else {
                4
            },
            DateKind::Ordinal => if config.use_separators {
                4int
            } else {
                3
            },
        },
{
    lemma_powers_of_ten();
    lemma_year_field(config, date_year(config, date));
    law_padded_width(date.month.ordinal() as nat, 2, Padding::Zero);
    law_padded_width(date.day@ as nat, 2, Padding::Zero);
    law_padded_width(date.iso_week_number@ as nat, 2, Padding::Zero);
    law_padded_width(date.ordinal@ as nat, 3, Padding::Zero);
    assert(decimal((date.weekday.days_from_monday() + 1) as nat).len() == 1);
}

/// Two dates that are written alike have the same components, as far as they are written: of a year
/// in four digits, these are its sixteen lowest bits, and so the whole year if it has no more.
pub proof fn law_date_is_unambiguous(config: Iso8601, date: DateComponents, other: DateComponents)
    requires
        valid_date(date),
        valid_date(other),
        year_field(config, date_year(config, date)) is Some,
        year_field(config, date_year(config, other)) is Some,
        year_field(config, date_year(config, date))->0 + date_tail(config, date) == year_field(
            config,
            date_year(config, other),
        )->0 + date_tail(config, other),
    ensures
        match config.date_kind {
            DateKind::Calendar => {
                &&& same_year(config, date.calendar_year@, other.calendar_year@)
                &&& date.month == other.month
                &&& date.day@ == other.day@
            },
            DateKind::Week => {
                &&& same_year(config, date.iso_year@, other.iso_year@)
                &&& date.iso_week_number@ == other.iso_week_number@
                &&& date.weekday == other.weekday
            },
            DateKind::Ordinal => {
                &&& same_year(config, date.calendar_year@, other.calendar_year@)
                &&& date.ordinal@ == other.ordinal@
            },
        },
{
    lemma_powers_of_ten();
    let dash = separator(config, '-' as u8);
    lemma_year_field(config, date_year(config, date));
    lemma_year_field(config, date_year(config, other));
    lemma_split(
        year_field(config, date_year(config, date))->0,
        date_tail(config, date),
        year_field(config, date_year(config, other))->0,
        date_tail(config, other),
    );
    match config.date_kind {
        DateKind::Calendar => {
            let (m, n) = (date.month.ordinal() as nat, other.month.ordinal() as nat);
            let (d, e) = (date.day@ as nat, other.day@ as nat);
            lemma_two_fields(dash, m, n, dash, d, e);
        },
        DateKind::Week => {
            let (m, n) = (date.iso_week_number@ as nat, other.iso_week_number@ as nat);
            let d = (date.weekday.days_from_monday() + 1) as nat;
            let e = (other.weekday.days_from_monday() + 1) as nat;
            let mark = dash + seq!['W' as u8];
            law_padded_width(m, 2, Padding::Zero);
            law_padded_width(n, 2, Padding::Zero);
            lemma_split(
                mark + padded(m, 2, Padding::Zero) + dash,
                decimal(d),
                mark + padded(n, 2, Padding::Zero) + dash,
                decimal(e),
            );
            lemma_split(
                mark + padded(m, 2, Padding::Zero),
                dash,
                mark + padded(n, 2, Padding::Zero),
                dash,
            );
            lemma_split(mark, padded(m, 2, Padding::Zero), mark, padded(n, 2, Padding::Zero));
            law_padded_is_unambiguous(m, n, 2, Padding::Zero);
            law_decimal_reads_back(d);
            law_decimal_reads_back(e);
        },
        DateKind::Ordinal => {
            let (m, n) = (date.ordinal@ as nat, other.ordinal@ as nat);
            lemma_split(dash, padded(m, 3, Padding::Zero), dash, padded(n, 3, Padding::Zero));
            law_padded_is_unambiguous(m, n, 3, Padding::Zero);
        },
    }
}

/// Two pairs of two-digit numbers that are written alike, each behind the same marks, are the same.
proof fn lemma_two_fields(mark: Seq<u8>, m: nat, n: nat, other_mark: Seq<u8>, d: nat, e: nat)
    requires
        m < 100,
        n < 100,
        mark + padded(m, 2, Padding::Zero) + other_mark + padded(d, 2, Padding::Zero) == mark
            + padded(n, 2, Padding::Zero) + other_mark + padded(e, 2, Padding::Zero),
    ensures
        m == n,
        d == e,
{
    lemma_powers_of_ten();
    law_padded_width(m, 2, Padding::Zero);
    law_padded_width(n, 2, Padding::Zero);
    lemma_split(
        mark + padded(m, 2, Padding::Zero) + other_mark,
        padded(d, 2, Padding::Zero),
        mark + padded(n, 2, Padding::Zero) + other_mark,
        padded(e, 2, Padding::Zero),
    );
    lemma_split(
        mark + padded(m, 2, Padding::Zero),
        other_mark,
        mark + padded(n, 2, Padding::Zero),
        other_mark,
    );
    lemma_split(mark, padded(m, 2, Padding::Zero), mark, padded(n, 2, Padding::Zero));
    law_padded_is_unambiguous(m, n, 2, Padding::Zero);
    law_padded_is_unambiguous(d, e, 2, Padding::Zero);
}

/// The mark that a time begins with is omitted exactly in the extended format where no date is
/// formatted.
pub proof fn law_time_mark(config: Iso8601)
    ensures
        time_mark(config).len() == 0 <==> config.use_separators && !config.format_date,
        time_mark(config).len() > 0 ==> time_mark(config) == seq!['T' as u8],
{
}

/// A fraction of a second takes the digits asked for, behind a decimal point. They read back as the
/// fraction in units of the last digit: rounded down where digits are dropped, exact otherwise.
pub proof fn law_fraction_truncates(nanos: nat, digits: nat)
    requires
        nanos <= 999_999_999,
        digits >= 1,
    ensures
        ({
            let text = fraction_text(nanos, Some(digits as int));
            &&& text.len() == 1 + digits
            &&& text[0] == '.' as u8
            &&& decimal_value(text.drop_first()) == if digits <= 9 {
                nanos / power_of_ten((9 - digits) as nat)
            } else {
                nanos * power_of_ten((digits - 9) as nat)
            }
        }),
{
    let text = fraction_text(nanos, Some(digits as int));
    lemma_nine_digits(nanos);
    if digits <= 9 {
        let kept = nine_digits(nanos).take(digits as int);
        assert(text.drop_first() =~= kept);
        law_division_truncates_digits(nanos, 9, (9 - digits) as nat);
        law_zero_padded_reads_back(nanos / power_of_ten((9 - digits) as nat), digits as int);
    } else {
        assert(nine_digits(nanos).take(9) =~= nine_digits(nanos));
        let zeros = repeat('0' as u8, digits - 9);
        assert(text.drop_first() =~= nine_digits(nanos) + zeros);
        lemma_trailing_zeros(text.drop_first(), 9);
        assert(text.drop_first().take(9) =~= nine_digits(nanos));
        law_zero_padded_reads_back(nanos, 9);
    }
}

/// A fraction of up to nine digits is written as the component with as many digits is, behind a
/// decimal point.
pub proof fn law_fraction_is_subsecond(nanos: nat, digits: SubsecondDigits)
    requires
        nanos <= 999_999_999,
        !(digits is OneOrMore),
    ensures
        fraction_text(nanos, Some(subsecond_width(nanos, digits) as int)) == seq!['.' as u8]
            + subsecond_text(nanos, digits),
{
    lemma_nine_digits(nanos);
    assert(fraction_text(nanos, Some(subsecond_width(nanos, digits) as int)) =~= seq!['.' as u8]
        + subsecond_text(nanos, digits));
}

proof fn lemma_clock_field(config: Iso8601, n: int)
    requires
        0 <= n <= 99,
    ensures
        clock_field(config, n).len() == 2 + separator(config, ':' as u8).len(),
{
    lemma_powers_of_ten();
    law_padded_width(n as nat, 2, Padding::Zero);
}

proof fn lemma_same_clock_field(config: Iso8601, m: int, n: int)
    requires
        0 <= m <= 99,
        0 <= n <= 99,
        clock_field(config, m) == clock_field(config, n),
    ensures
        m == n,
{
    lemma_powers_of_ten();
    law_padded_width(m as nat, 2, Padding::Zero);
    law_padded_width(n as nat, 2, Padding::Zero);
    lemma_split(
        padded(m as nat, 2, Padding::Zero),
        separator(config, ':' as u8),
        padded(n as nat, 2, Padding::Zero),
        separator(config, ':' as u8),
    );
    law_padded_is_unambiguous(m as nat, n as nat, 2, Padding::Zero);
}

/// Two times that are written alike to the second have the same hour, minute and second, and the
/// same nanosecond as far as digits of it are written.
pub proof fn law_time_is_unambiguous(
    config: Iso8601,
    time: TimeComponents,
    other: TimeComponents,
    last: FloatParts,
    other_last: FloatParts,
)
    requires
        valid_time(time),
        valid_time(other),
        config.time_precision is Second,
        time_digits(config) matches Some(digits) ==> digits >= 1,
        time_head(config, time) + time_tail(config, time, last) == time_head(config, other)
            + time_tail(config, other, other_last),
    ensures
        time.hour@ == other.hour@,
        time.minute@ == other.minute@,
        time.second@ == other.second@,
        time_digits(config) matches Some(digits) ==> if digits >= 9 {
            time.nanosecond@ == other.nanosecond@
        } else {
            time.nanosecond@ as nat / power_of_ten((9 - digits) as nat)
                == other.nanosecond@ as nat / power_of_ten((9 - digits) as nat)
        },
{
    lemma_powers_of_ten();
    lemma_clock_field(config, time.hour@);
    lemma_clock_field(config, time.minute@);
    lemma_clock_field(config, other.hour@);
    lemma_clock_field(config, other.minute@);
    let (mark, digits) = (time_mark(config), time_digits(config));
    let (hour, minute) = (clock_field(config, time.hour@), clock_field(config, time.minute@));
    let other_hour = clock_field(config, other.hour@);
    let other_minute = clock_field(config, other.minute@);
    lemma_split(
        mark + hour + minute,
        seconds_text(time, digits),
        mark + other_hour + other_minute,
        seconds_text(other, digits),
    );
    lemma_split(mark + hour, minute, mark + other_hour, other_minute);
    lemma_split(mark, hour, mark, other_hour);
    lemma_same_clock_field(config, time.hour@, other.hour@);
    lemma_same_clock_field(config, time.minute@, other.minute@);
    law_padded_width(time.second@ as nat, 2, Padding::Zero);
    law_padded_width(other.second@ as nat, 2, Padding::Zero);
    lemma_split(
        padded(time.second@ as nat, 2, Padding::Zero),
        fraction_text(time.nanosecond@ as nat, digits),
        padded(other.second@ as nat, 2, Padding::Zero),
        fraction_text(other.nanosecond@ as nat, digits),
    );
    law_padded_is_unambiguous(time.second@ as nat, other.second@ as nat, 2, Padding::Zero);
    if let Some(digits) = digits {
        lemma_same_fraction(time.nanosecond@ as nat, other.nanosecond@ as nat, digits as nat);
    }
}

proof fn lemma_same_fraction(nanos: nat, other: nat, digits: nat)
    requires
        nanos <= 999_999_999,
        other <= 999_999_999,
        digits >= 1,
        fraction_text(nanos, Some(digits as int)) == fraction_text(other, Some(digits as int)),
    ensures
        if digits >= 9 {
            nanos == other
        } else {
            nanos / power_of_ten((9 - digits) as nat) == other / power_of_ten((9 - digits) as nat)
        },
{
    if digits < 9 {
        law_fraction_truncates(nanos, digits);
        law_fraction_truncates(other, digits);
    } else {
        lemma_nine_digits(nanos);
        lemma_nine_digits(other);
        let zeros = repeat('0' as u8, digits - 9);
        let point = seq!['.' as u8];
        assert(nine_digits(nanos).take(9) =~= nine_digits(nanos));
        assert(nine_digits(other).take(9) =~= nine_digits(other));
        lemma_split(point + nine_digits(nanos), zeros, point + nine_digits(other), zeros);
        lemma_split(point, nine_digits(nanos), point, nine_digits(other));
        law_padded_is_unambiguous(nanos, other, 9, Padding::Zero);
    }
}

/// Only an offset marked as UTC is written as a letter, and only next to a time. A refused offset
/// leaves no more than its sign and its hours, and nothing if its seconds are refused.
pub proof fn law_offset_outcomes(config: Iso8601, offset: OffsetComponents)
    requires
        valid_offset(offset),
    ensures
        offset_text(config, offset) == seq!['Z' as u8] <==> config.format_time && offset.is_utc,
        offset_is_zulu(config, offset) ==> offset_error(config, offset) is None,
        !offset_is_zulu(config, offset) ==> (offset_error(config, offset) is None
            <==> offset.second@ == 0 && (config.offset_precision is Minute || offset.minute@ == 0)),
        !offset_is_zulu(config, offset) && offset.second@ != 0 ==> offset_text(config, offset)
            == Seq::<u8>::empty(),
        !offset_is_zulu(config, offset) && offset.second@ == 0 ==> offset_text(config, offset).len()
            == match config.offset_precision {
            OffsetPrecision::Hour => 3int,
            OffsetPrecision::Minute => if config.use_separators {
                6
            } else {
                5
            },
        },
{
    lemma_powers_of_ten();
    law_padded_width(magnitude(offset.hour@), 2, Padding::Zero);
    law_padded_width(magnitude(offset.minute@), 2, Padding::Zero);
    if !offset_is_zulu(config, offset) {
        assert(offset_text(config, offset).len() != seq!['Z' as u8].len());
    }
}

/// Two offsets that are written alike have the same sign, hours and minutes, or both are marked as
/// UTC and written as a letter.
pub proof fn law_offset_is_unambiguous(
    config: Iso8601,
    offset: OffsetComponents,
    other: OffsetComponents,
)
    requires
        valid_offset(offset),
        valid_offset(other),
        offset_error(config, offset) is None,
        offset_error(config, other) is None,
        offset_text(config, offset) == offset_text(config, other),
    ensures
        offset_is_zulu(config, offset) == offset_is_zulu(config, other),
        !offset_is_zulu(config, offset) ==> {
            &&& offset.is_negative == other.is_negative
            &&& magnitude(offset.hour@) == magnitude(other.hour@)
            &&& magnitude(offset.minute@) == magnitude(other.minute@)
        },
{
    law_offset_outcomes(config, offset);
    law_offset_outcomes(config, other);
    if !offset_is_zulu(config, offset) {
        lemma_powers_of_ten();
        let (h, g) = (magnitude(offset.hour@), magnitude(other.hour@));
        let (m, n) = (magnitude(offset.minute@), magnitude(other.minute@));
        law_padded_width(h, 2, Padding::Zero);
        law_padded_width(g, 2, Padding::Zero);
        let (minus, other_minus) = (sign(offset.is_negative, true), sign(other.is_negative, true));
        let hours = minus + padded(h, 2, Padding::Zero);
        let other_hours = other_minus + padded(g, 2, Padding::Zero);
        if config.offset_precision is Minute {
            let colon = separator(config, ':' as u8);
            lemma_split(
                hours + colon,
                padded(m, 2, Padding::Zero),
                other_hours + colon,
                padded(n, 2, Padding::Zero),
            );
            lemma_split(hours, colon, other_hours, colon);
            law_padded_is_unambiguous(m, n, 2, Padding::Zero);
        }
        lemma_split(minus, padded(h, 2, Padding::Zero), other_minus, padded(g, 2, Padding::Zero));
        law_padded_is_unambiguous(h, g, 2, Padding::Zero);
        assert(minus[0] == other_minus[0]);
    }
}

} // verus!
