//! The names of months and weekdays.

use crate::calendar::{Month, Weekday};
use crate::modifier;
use crate::output::Output;
use crate::text::{ascii, lemma_ascii_encoding};
use num_conv::Widen;
use vstd::prelude::*;
use vstd::slice::slice_subrange;
use vstd::utf8::is_ascii_chars;

verus! {

const MONTH_NAMES: [&'static str; 12] = [
    "January",
    "February",
    "March",
    "April",
    "May",
    "June",
    "July",
    "August",
    "September",
    "October",
    "November",
    "December",
];

const WEEKDAY_NAMES: [&'static str; 7] = [
    "Monday",
    "Tuesday",
    "Wednesday",
    "Thursday",
    "Friday",
    "Saturday",
    "Sunday",
];

/// The name of a month.
pub open spec fn month_name(month: Month) -> Seq<char> {
    match month {
        Month::January => "January"@,
        Month::February => "February"@,
        Month::March => "March"@,
        Month::April => "April"@,
        Month::May => "May"@,
        Month::June => "June"@,
        Month::July => "July"@,
        Month::August => "August"@,
        Month::September => "September"@,
        Month::October => "October"@,
        Month::November => "November"@,
        Month::December => "December"@,
    }
}

/// The name of a weekday.
pub open spec fn weekday_name(weekday: Weekday) -> Seq<char> {
    match weekday {
        Weekday::Monday => "Monday"@,
        Weekday::Tuesday => "Tuesday"@,
        Weekday::Wednesday => "Wednesday"@,
        Weekday::Thursday => "Thursday"@,
        Weekday::Friday => "Friday"@,
        Weekday::Saturday => "Saturday"@,
        Weekday::Sunday => "Sunday"@,
    }
}

/// The abbreviation of a name: its first three bytes.
pub open spec fn abbreviated(name: Seq<char>) -> Seq<u8> {
    ascii(name).take(3)
}

proof fn lemma_month_name(month: Month)
    ensures
        is_ascii_chars(month_name(month)),
        month_name(month).len() >= 3,
{
    reveal_strlit("January");
    reveal_strlit("February");
    reveal_strlit("March");
    reveal_strlit("April");
    reveal_strlit("May");
    reveal_strlit("June");
    reveal_strlit("July");
    reveal_strlit("August");
    reveal_strlit("September");
    reveal_strlit("October");
    reveal_strlit("November");
    reveal_strlit("December");
}

proof fn lemma_weekday_name(weekday: Weekday)
    ensures
        is_ascii_chars(weekday_name(weekday)),
        weekday_name(weekday).len() >= 3,
{
    reveal_strlit("Monday");
    reveal_strlit("Tuesday");
    reveal_strlit("Wednesday");
    reveal_strlit("Thursday");
    reveal_strlit("Friday");
    reveal_strlit("Saturday");
    reveal_strlit("Sunday");
}

/// The name of a month, letter by letter, and its abbreviation: the first three letters.
pub proof fn law_month_letters(month: Month)
    ensures
        month is January ==> ascii(month_name(month)) == seq![
            'J' as u8,
            'a' as u8,
            'n' as u8,
            'u' as u8,
            'a' as u8,
            'r' as u8,
            'y' as u8,
        ],
        month is February ==> ascii(month_name(month)) == seq![
            'F' as u8,
            'e' as u8,
            'b' as u8,
            'r' as u8,
            'u' as u8,
            'a' as u8,
            'r' as u8,
            'y' as u8,
        ],
        month is March ==> ascii(month_name(month)) == seq![
            'M' as u8,
            'a' as u8,
            'r' as u8,
            'c' as u8,
            'h' as u8,
        ],
        month is April ==> ascii(month_name(month)) == seq![
            'A' as u8,
            'p' as u8,
            'r' as u8,
            'i' as u8,
            'l' as u8,
        ],
        month is May ==> ascii(month_name(month)) == seq!['M' as u8, 'a' as u8, 'y' as u8],
        month is June ==> ascii(month_name(month)) == seq![
            'J' as u8,
            'u' as u8,
            'n' as u8,
            'e' as u8,
        ],
        month is July ==> ascii(month_name(month)) == seq![
            'J' as u8,
            'u' as u8,
            'l' as u8,
            'y' as u8,
        ],
        month is August ==> ascii(month_name(month)) == seq![
            'A' as u8,
            'u' as u8,
            'g' as u8,
            'u' as u8,
            's' as u8,
            't' as u8,
        ],
        month is September ==> ascii(month_name(month)) == seq![
            'S' as u8,
            'e' as u8,
            'p' as u8,
            't' as u8,
            'e' as u8,
            'm' as u8,
            'b' as u8,
            'e' as u8,
            'r' as u8,
        ],
        month is October ==> ascii(month_name(month)) == seq![
            'O' as u8,
            'c' as u8,
            't' as u8,
            'o' as u8,
            'b' as u8,
            'e' as u8,
            'r' as u8,
        ],
        month is November ==> ascii(month_name(month)) == seq![
            'N' as u8,
            'o' as u8,
            'v' as u8,
            'e' as u8,
            'm' as u8,
            'b' as u8,
            'e' as u8,
            'r' as u8,
        ],
        month is December ==> ascii(month_name(month)) == seq![
            'D' as u8,
            'e' as u8,
            'c' as u8,
            'e' as u8,
            'm' as u8,
            'b' as u8,
            'e' as u8,
            'r' as u8,
        ],
        abbreviated(month_name(month)).len() == 3,
        abbreviated(month_name(month))[0] == ascii(month_name(month))[0],
        abbreviated(month_name(month))[1] == ascii(month_name(month))[1],
        abbreviated(month_name(month))[2] == ascii(month_name(month))[2],
{
    reveal_strlit("January");
    reveal_strlit("February");
    reveal_strlit("March");
    reveal_strlit("April");
    reveal_strlit("May");
    reveal_strlit("June");
    reveal_strlit("July");
    reveal_strlit("August");
    reveal_strlit("September");
    reveal_strlit("October");
    reveal_strlit("November");
    reveal_strlit("December");
    lemma_month_name(month);
    if month is January {
        assert(ascii(month_name(month)) =~= seq![
            'J' as u8,
            'a' as u8,
            'n' as u8,
            'u' as u8,
            'a' as u8,
            'r' as u8,
            'y' as u8,
        ]);
    }
    if month is February {
        assert(ascii(month_name(month)) =~= seq![
            'F' as u8,
            'e' as u8,
            'b' as u8,
            'r' as u8,
            'u' as u8,
            'a' as u8,
            'r' as u8,
            'y' as u8,
        ]);
    }
    if month is March {
        assert(ascii(month_name(month)) =~= seq![
            'M' as u8,
            'a' as u8,
            'r' as u8,
            'c' as u8,
            'h' as u8,
        ]);
    }
    if month is April {
        assert(ascii(month_name(month)) =~= seq![
            'A' as u8,
            'p' as u8,
            'r' as u8,
            'i' as u8,
            'l' as u8,
        ]);
    }
    if month is May {
        assert(ascii(month_name(month)) =~= seq!['M' as u8, 'a' as u8, 'y' as u8]);
    }
    if month is June {
        assert(ascii(month_name(month)) =~= seq!['J' as u8, 'u' as u8, 'n' as u8, 'e' as u8]);
    }
    if month is July {
        assert(ascii(month_name(month)) =~= seq!['J' as u8, 'u' as u8, 'l' as u8, 'y' as u8]);
    }
    if month is August {
        assert(ascii(month_name(month)) =~= seq![
            'A' as u8,
            'u' as u8,
            'g' as u8,
            'u' as u8,
            's' as u8,
            't' as u8,
        ]);
    }
    if month is September {
        assert(ascii(month_name(month)) =~= seq![
            'S' as u8,
            'e' as u8,
            'p' as u8,
            't' as u8,
            'e' as u8,
            'm' as u8,
            'b' as u8,
            'e' as u8,
            'r' as u8,
        ]);
    }
    if month is October {
        assert(ascii(month_name(month)) =~= seq![
            'O' as u8,
            'c' as u8,
            't' as u8,
            'o' as u8,
            'b' as u8,
            'e' as u8,
            'r' as u8,
        ]);
    }
    if month is November {
        assert(ascii(month_name(month)) =~= seq![
            'N' as u8,
            'o' as u8,
            'v' as u8,
            'e' as u8,
            'm' as u8,
            'b' as u8,
            'e' as u8,
            'r' as u8,
        ]);
    }
    if month is December {
        assert(ascii(month_name(month)) =~= seq![
            'D' as u8,
            'e' as u8,
            'c' as u8,
            'e' as u8,
            'm' as u8,
            'b' as u8,
            'e' as u8,
            'r' as u8,
        ]);
    }
}

/// The name of a weekday, letter by letter, and its abbreviation: the first three letters.
pub proof fn law_weekday_letters(weekday: Weekday)
    ensures
        weekday is Monday ==> ascii(weekday_name(weekday)) == seq![
            'M' as u8,
            'o' as u8,
            'n' as u8,
            'd' as u8,
            'a' as u8,
            'y' as u8,
        ],
        weekday is Tuesday ==> ascii(weekday_name(weekday)) == seq![
            'T' as u8,
            'u' as u8,
            'e' as u8,
            's' as u8,
            'd' as u8,
            'a' as u8,
            'y' as u8,
        ],
        weekday is Wednesday ==> ascii(weekday_name(weekday)) == seq![
            'W' as u8,
            'e' as u8,
            'd' as u8,
            'n' as u8,
            'e' as u8,
            's' as u8,
            'd' as u8,
            'a' as u8,
            'y' as u8,
        ],
        weekday is Thursday ==> ascii(weekday_name(weekday)) == seq![
            'T' as u8,
            'h' as u8,
            'u' as u8,
            'r' as u8,
            's' as u8,
            'd' as u8,
            'a' as u8,
            'y' as u8,
        ],
        weekday is Friday ==> ascii(weekday_name(weekday)) == seq![
            'F' as u8,
            'r' as u8,
            'i' as u8,
            'd' as u8,
            'a' as u8,
            'y' as u8,
        ],
        weekday is Saturday ==> ascii(weekday_name(weekday)) == seq![
            'S' as u8,
            'a' as u8,
            't' as u8,
            'u' as u8,
            'r' as u8,
            'd' as u8,
            'a' as u8,
            'y' as u8,
        ],
        weekday is Sunday ==> ascii(weekday_name(weekday)) == seq![
            'S' as u8,
            'u' as u8,
            'n' as u8,
            'd' as u8,
            'a' as u8,
            'y' as u8,
        ],
        abbreviated(weekday_name(weekday)).len() == 3,
        abbreviated(weekday_name(weekday))[0] == ascii(weekday_name(weekday))[0],
        abbreviated(weekday_name(weekday))[1] == ascii(weekday_name(weekday))[1],
        abbreviated(weekday_name(weekday))[2] == ascii(weekday_name(weekday))[2],
{
    reveal_strlit("Monday");
    reveal_strlit("Tuesday");
    reveal_strlit("Wednesday");
    reveal_strlit("Thursday");
    reveal_strlit("Friday");
    reveal_strlit("Saturday");
    reveal_strlit("Sunday");
    lemma_weekday_name(weekday);
    if weekday is Monday {
        assert(ascii(weekday_name(weekday)) =~= seq![
            'M' as u8,
            'o' as u8,
            'n' as u8,
            'd' as u8,
            'a' as u8,
            'y' as u8,
        ]);
    }
    if weekday is Tuesday {
        assert(ascii(weekday_name(weekday)) =~= seq![
            'T' as u8,
            'u' as u8,
            'e' as u8,
            's' as u8,
            'd' as u8,
            'a' as u8,
            'y' as u8,
        ]);
    }
    if weekday is Wednesday {
        assert(ascii(weekday_name(weekday)) =~= seq![
            'W' as u8,
            'e' as u8,
            'd' as u8,
            'n' as u8,
            'e' as u8,
            's' as u8,
            'd' as u8,
            'a' as u8,
            'y' as u8,
        ]);
    }
    if weekday is Thursday {
        assert(ascii(weekday_name(weekday)) =~= seq![
            'T' as u8,
            'h' as u8,
            'u' as u8,
            'r' as u8,
            's' as u8,
            'd' as u8,
            'a' as u8,
            'y' as u8,
        ]);
    }
    if weekday is Friday {
        assert(ascii(weekday_name(weekday)) =~= seq![
            'F' as u8,
            'r' as u8,
            'i' as u8,
            'd' as u8,
            'a' as u8,
            'y' as u8,
        ]);
    }
    if weekday is Saturday {
        assert(ascii(weekday_name(weekday)) =~= seq![
            'S' as u8,
            'a' as u8,
            't' as u8,
            'u' as u8,
            'r' as u8,
            'd' as u8,
            'a' as u8,
            'y' as u8,
        ]);
    }
    if weekday is Sunday {
        assert(ascii(weekday_name(weekday)) =~= seq![
            'S' as u8,
            'u' as u8,
            'n' as u8,
            'd' as u8,
            'a' as u8,
            'y' as u8,
        ]);
    }
}

/// An abbreviation is what the name begins with.
pub proof fn law_abbreviations_begin_names(month: Month, weekday: Weekday)
    ensures
        abbreviated(month_name(month)).len() == 3,
        abbreviated(month_name(month)).is_prefix_of(ascii(month_name(month))),
        abbreviated(weekday_name(weekday)).len() == 3,
        abbreviated(weekday_name(weekday)).is_prefix_of(ascii(weekday_name(weekday))),
{
    lemma_month_name(month);
    lemma_weekday_name(weekday);
}

/// No two months have the same abbreviation, and so no two have the same name.
pub proof fn law_month_names_differ(month: Month, other: Month)
    requires
        abbreviated(month_name(month)) == abbreviated(month_name(other)) || ascii(
            month_name(month),
        ) == ascii(month_name(other)),
    ensures
        month == other,
{
    reveal_strlit("January");
    reveal_strlit("February");
    reveal_strlit("March");
    reveal_strlit("April");
    reveal_strlit("May");
    reveal_strlit("June");
    reveal_strlit("July");
    reveal_strlit("August");
    reveal_strlit("September");
    reveal_strlit("October");
    reveal_strlit("November");
    reveal_strlit("December");
    let (short, other_short) = (abbreviated(month_name(month)), abbreviated(month_name(other)));
    assert(short[0] == other_short[0] && short[1] == other_short[1] && short[2] == other_short[2]);
}

/// No two weekdays have the same abbreviation, and so no two have the same name.
pub proof fn law_weekday_names_differ(weekday: Weekday, other: Weekday)
    requires
        abbreviated(weekday_name(weekday)) == abbreviated(weekday_name(other)) || ascii(
            weekday_name(weekday),
        ) == ascii(weekday_name(other)),
    ensures
        weekday == other,
{
    reveal_strlit("Monday");
    reveal_strlit("Tuesday");
    reveal_strlit("Wednesday");
    reveal_strlit("Thursday");
    reveal_strlit("Friday");
    reveal_strlit("Saturday");
    reveal_strlit("Sunday");
    let short = abbreviated(weekday_name(weekday));
    let other_short = abbreviated(weekday_name(other));
    assert(short[0] == other_short[0] && short[1] == other_short[1]);
}

/// Calls `num_conv::Widen::widen` from `u8` to `usize`, which keeps the value.
#[verifier::external_body]
fn widen(value: u8) -> (r: usize)
    ensures
        r == value,
{
    value.widen()
}

/// Returns the name of a month.
fn name_of_month(month: Month) -> (r: &'static str)
    ensures
        r@ == month_name(month),
{
    MONTH_NAMES[widen(month.number()) - 1]
}

/// Returns the name of a weekday.
fn name_of_weekday(weekday: Weekday) -> (r: &'static str)
    ensures
        r@ == weekday_name(weekday),
{
    WEEKDAY_NAMES[widen(weekday.number_days_from_monday())]
}

impl Output {
    /// Format the month into the designated output using the abbreviated name.
    pub fn fmt_month_short(&mut self, month: Month, _modifier: modifier::MonthShort)
        requires
            old(self).wf(),
        ensures
            final(self).appended(*old(self), abbreviated(month_name(month))),
    {
        proof {
            lemma_month_name(month);
            lemma_ascii_encoding(month_name(month));
        }
        self.write_bytes(slice_subrange(name_of_month(month).as_bytes(), 0, 3));
    }

    /// Format the month into the designated output using the full name.
    pub fn fmt_month_long(&mut self, month: Month, _modifier: modifier::MonthLong)
        requires
            old(self).wf(),
        ensures
            final(self).appended(*old(self), ascii(month_name(month))),
    {
        proof {
            lemma_month_name(month);
            lemma_ascii_encoding(month_name(month));
        }
        self.write(name_of_month(month));
    }

    /// Format the weekday into the designated output using the abbreviated name.
    pub fn fmt_weekday_short(&mut self, weekday: Weekday, _modifier: modifier::WeekdayShort)
        requires
            old(self).wf(),
        ensures
            final(self).appended(*old(self), abbreviated(weekday_name(weekday))),
    {
        proof {
            lemma_weekday_name(weekday);
            lemma_ascii_encoding(weekday_name(weekday));
        }
        self.write_bytes(slice_subrange(name_of_weekday(weekday).as_bytes(), 0, 3));
    }

    /// Format the weekday into the designated output using the full name.
    pub fn fmt_weekday_long(&mut self, weekday: Weekday, _modifier: modifier::WeekdayLong)
        requires
            old(self).wf(),
        ensures
            final(self).appended(*old(self), ascii(weekday_name(weekday))),
    {
        proof {
            lemma_weekday_name(weekday);
            lemma_ascii_encoding(weekday_name(weekday));
        }
        self.write(name_of_weekday(weekday));
    }
}

} // verus!
