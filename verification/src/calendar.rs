//! Months, weekdays and the halves of a day.

use vstd::prelude::*;

verus! {

/// A month of the year.
#[derive(Clone, Copy, Debug, PartialEq, Eq)]
pub enum Month {
    January,
    February,
    March,
    April,
    May,
    June,
    July,
    August,
    September,
    October,
    November,
    December,
}

impl Month {
    /// The number of the month, from 1 for January to 12 for December.
    pub open spec fn ordinal(self) -> int {
        match self {
            Month::January => 1,
            Month::February => 2,
            Month::March => 3,
            Month::April => 4,
            Month::May => 5,
            Month::June => 6,
            Month::July => 7,
            Month::August => 8,
            Month::September => 9,
            Month::October => 10,
            Month::November => 11,
            Month::December => 12,
        }
    }

    /// Returns the number of the month, from 1 for January to 12 for December.
    pub fn number(self) -> (r: u8)
        ensures
            r == self.ordinal(),
            1 <= r <= 12,
    {
        match self {
            Month::January => 1,
            Month::February => 2,
            Month::March => 3,
            Month::April => 4,
            Month::May => 5,
            Month::June => 6,
            Month::July => 7,
            Month::August => 8,
            Month::September => 9,
            Month::October => 10,
            Month::November => 11,
            Month::December => 12,
        }
    }
}

/// A day of the week.
#[derive(Clone, Copy, Debug, PartialEq, Eq)]
pub enum Weekday {
    Monday,
    Tuesday,
    Wednesday,
    Thursday,
    Friday,
    Saturday,
    Sunday,
}

impl Weekday {
    /// The number of days since the last Monday, from 0 to 6.
    pub open spec fn days_from_monday(self) -> int {
        match self {
            Weekday::Monday => 0,
            Weekday::Tuesday => 1,
            Weekday::Wednesday => 2,
            Weekday::Thursday => 3,
            Weekday::Friday => 4,
            Weekday::Saturday => 5,
            Weekday::Sunday => 6,
        }
    }

    /// The number of days since the last Sunday, from 0 to 6.
    pub open spec fn days_from_sunday(self) -> int {
        (self.days_from_monday() + 1) % 7
    }

    /// Returns the number of days since the last Monday, from 0 to 6.
    pub fn number_days_from_monday(self) -> (r: u8)
        ensures
            r == self.days_from_monday(),
            r <= 6,
    {
        match self {
            Weekday::Monday => 0,
            Weekday::Tuesday => 1,
            Weekday::Wednesday => 2,
            Weekday::Thursday => 3,
            Weekday::Friday => 4,
            Weekday::Saturday => 5,
            Weekday::Sunday => 6,
        }
    }

    /// Returns the number of days since the last Sunday, from 0 to 6.
    pub fn number_days_from_sunday(self) -> (r: u8)
        ensures
            r == self.days_from_sunday(),
            r <= 6,
    {
        (self.number_days_from_monday() + 1) % 7
    }

    /// Returns the number of the weekday, from 1 for Monday to 7 for Sunday.
    pub fn number_from_monday(self) -> (r: u8)
        ensures
            r == self.days_from_monday() + 1,
            1 <= r <= 7,
    {
        self.number_days_from_monday() + 1
    }
}

/// The months are numbered from 1 in January to 12 in December, in the order of the year.
pub proof fn law_months_in_order(month: Month)
    ensures
        1 <= month.ordinal() <= 12,
        month is January <==> month.ordinal() == 1,
        month is February <==> month.ordinal() == 2,
        month is March <==> month.ordinal() == 3,
        month is April <==> month.ordinal() == 4,
        month is May <==> month.ordinal() == 5,
        month is June <==> month.ordinal() == 6,
        month is July <==> month.ordinal() == 7,
        month is August <==> month.ordinal() == 8,
        month is September <==> month.ordinal() == 9,
        month is October <==> month.ordinal() == 10,
        month is November <==> month.ordinal() == 11,
        month is December <==> month.ordinal() == 12,
{
}

/// The days of the week are counted from 0, in order, once from Monday and once from Sunday.
pub proof fn law_weekdays_in_order(weekday: Weekday)
    ensures
        0 <= weekday.days_from_monday() <= 6,
        0 <= weekday.days_from_sunday() <= 6,
        weekday is Monday <==> weekday.days_from_monday() == 0,
        weekday is Tuesday <==> weekday.days_from_monday() == 1,
        weekday is Wednesday <==> weekday.days_from_monday() == 2,
        weekday is Thursday <==> weekday.days_from_monday() == 3,
        weekday is Friday <==> weekday.days_from_monday() == 4,
        weekday is Saturday <==> weekday.days_from_monday() == 5,
        weekday is Sunday <==> weekday.days_from_monday() == 6,
        weekday is Monday <==> weekday.days_from_sunday() == 1,
        weekday is Tuesday <==> weekday.days_from_sunday() == 2,
        weekday is Wednesday <==> weekday.days_from_sunday() == 3,
        weekday is Thursday <==> weekday.days_from_sunday() == 4,
        weekday is Friday <==> weekday.days_from_sunday() == 5,
        weekday is Saturday <==> weekday.days_from_sunday() == 6,
        weekday is Sunday <==> weekday.days_from_sunday() == 0,
{
}

/// A half of the day.
#[derive(Clone, Copy, Debug, PartialEq, Eq)]
pub enum Period {
    /// The half before noon.
    Am,
    /// The half from noon on.
    Pm,
}

} // verus!
