//! Integers that are known to lie in a range.
//!
//! Whether a value lies in a range is asked of the `deranged` crate; the values themselves are
//! kept as plain integers, so that contracts can speak of them.

use vstd::prelude::*;

verus! {

/// Calls `deranged::RangedU8::<MIN, MAX>::new`, which answers with the value if it lies in
/// `MIN..=MAX` and with `None` otherwise. An instance with `MIN > MAX` fails to compile.
#[verifier::external_body]
fn ranged_u8_new<const MIN: u8, const MAX: u8>(value: u8) -> (r: Option<u8>)
    requires
        MIN <= MAX,
    ensures
        r == (if MIN <= value <= MAX {
            Some(value)
        } else {
            None
        }),
{
    deranged::RangedU8::<MIN, MAX>::new(value).map(|ranged| ranged.get())
}

/// A `u8` in the range `MIN..=MAX`.
#[derive(Clone, Copy, Debug, PartialEq, Eq)]
pub struct RangedU8<const MIN: u8, const MAX: u8> {
    value: u8,
}

impl<const MIN: u8, const MAX: u8> View for RangedU8<MIN, MAX> {
    type V = int;

    closed spec fn view(&self) -> int {
        self.value as int
    }
}

impl<const MIN: u8, const MAX: u8> RangedU8<MIN, MAX> {
    #[verifier::type_invariant]
    spec fn in_range(self) -> bool {
        MIN <= self.value <= MAX
    }

    /// Returns the value as a ranged integer if it lies in `MIN..=MAX`.
    pub fn new(value: u8) -> (r: Option<Self>)
        requires
            MIN <= MAX,
        ensures
            r is Some <==> MIN <= value <= MAX,
            r matches Some(ranged) ==> ranged@ == value,
    {
        match ranged_u8_new::<MIN, MAX>(value) {
            Some(value) => Some(RangedU8 { value }),
            None => None,
        }
    }

    /// Makes a ranged integer of a value that lies in `MIN..=MAX`, without a test at run time.
    pub(crate) fn new_unchecked(value: u8) -> (r: Self)
        requires
            MIN <= value <= MAX,
        ensures
            r@ == value,
    {
        RangedU8 { value }
    }

    /// Returns the value as a primitive.
    pub fn get(self) -> (r: u8)
        ensures
            r == self@,
            MIN <= r <= MAX,
    {
        proof {
            use_type_invariant(self);
        }
        self.value
    }

    /// Returns the same value in a range that holds this one.
    pub fn expand<const NEW_MIN: u8, const NEW_MAX: u8>(self) -> (r: RangedU8<
        NEW_MIN,
        NEW_MAX,
    >)
        requires
            NEW_MIN <= MIN,
            MAX <= NEW_MAX,
        ensures
            r@ == self@,
    {
        proof {
            use_type_invariant(self);
        }
        RangedU8 { value: self.value }
    }
}

/// Calls `deranged::RangedU16::<MIN, MAX>::new`, which answers with the value if it lies in
/// `MIN..=MAX` and with `None` otherwise. An instance with `MIN > MAX` fails to compile.
#[verifier::external_body]
fn ranged_u16_new<const MIN: u16, const MAX: u16>(value: u16) -> (r: Option<u16>)
    requires
        MIN <= MAX,
    ensures
        r == (if MIN <= value <= MAX {
            Some(value)
        } else {
            None
        }),
{
    deranged::RangedU16::<MIN, MAX>::new(value).map(|ranged| ranged.get())
}

/// Calls `narrow::<NEW_MIN, NEW_MAX>` of `deranged::RangedU16<MIN, MAX>`, which answers with the
/// value if it lies in `NEW_MIN..=NEW_MAX` and with `None` otherwise. An instance whose new range
/// is empty or not part of the old one fails to compile.
#[verifier::external_body]
fn ranged_u16_narrow<
    const MIN: u16,
    const MAX: u16,
    const NEW_MIN: u16,
    const NEW_MAX: u16,
>(value: u16) -> (r: Option<u16>)
    requires
        MIN <= value <= MAX,
        MIN <= NEW_MIN <= NEW_MAX <= MAX,
    ensures
        r == (if NEW_MIN <= value <= NEW_MAX {
            Some(value)
        } else {
            None
        }),
{
    let ranged = deranged::RangedU16::<MIN, MAX>::new(value)?;
    ranged.narrow::<NEW_MIN, NEW_MAX>().map(|narrowed| narrowed.get())
}

/// A `u16` in the range `MIN..=MAX`.
#[derive(Clone, Copy, Debug, PartialEq, Eq)]
pub struct RangedU16<const MIN: u16, const MAX: u16> {
    value: u16,
}

impl<const MIN: u16, const MAX: u16> View for RangedU16<MIN, MAX> {
    type V = int;

    closed spec fn view(&self) -> int {
        self.value as int
    }
}

impl<const MIN: u16, const MAX: u16> RangedU16<MIN, MAX> {
    #[verifier::type_invariant]
    spec fn in_range(self) -> bool {
        MIN <= self.value <= MAX
    }

    /// Returns the value as a ranged integer if it lies in `MIN..=MAX`.
    pub fn new(value: u16) -> (r: Option<Self>)
        requires
            MIN <= MAX,
        ensures
            r is Some <==> MIN <= value <= MAX,
            r matches Some(ranged) ==> ranged@ == value,
    {
        match ranged_u16_new::<MIN, MAX>(value) {
            Some(value) => Some(RangedU16 { value }),
            None => None,
        }
    }

    /// Makes a ranged integer of a value that lies in `MIN..=MAX`, without a test at run time.
    pub(crate) fn new_unchecked(value: u16) -> (r: Self)
        requires
            MIN <= value <= MAX,
        ensures
            r@ == value,
    {
        RangedU16 { value }
    }

    /// Returns the value as a primitive.
    pub fn get(self) -> (r: u16)
        ensures
            r == self@,
            MIN <= r <= MAX,
    {
        proof {
            use_type_invariant(self);
        }
        self.value
    }

    /// Returns the same value in a range that holds this one.
    pub fn expand<const NEW_MIN: u16, const NEW_MAX: u16>(self) -> (r: RangedU16<
        NEW_MIN,
        NEW_MAX,
    >)
        requires
            NEW_MIN <= MIN,
            MAX <= NEW_MAX,
        ensures
            r@ == self@,
    {
        proof {
            use_type_invariant(self);
        }
        RangedU16 { value: self.value }
    }

    /// Returns the same value in a part of this range, if it lies there.
    pub fn narrow<const NEW_MIN: u16, const NEW_MAX: u16>(self) -> (r: Option<
        RangedU16<NEW_MIN, NEW_MAX>,
    >)
        requires
            MIN <= NEW_MIN <= NEW_MAX <= MAX,
        ensures
            r is Some <==> NEW_MIN <= self@ <= NEW_MAX,
            r matches Some(narrowed) ==> narrowed@ == self@,
    {
        proof {
            use_type_invariant(self);
        }
        match ranged_u16_narrow::<MIN, MAX, NEW_MIN, NEW_MAX>(self.value) {
            Some(value) => Some(RangedU16 { value }),
            None => None,
        }
    }
}

/// Calls `deranged::RangedU32::<MIN, MAX>::new`, which answers with the value if it lies in
/// `MIN..=MAX` and with `None` otherwise. An instance with `MIN > MAX` fails to compile.
#[verifier::external_body]
fn ranged_u32_new<const MIN: u32, const MAX: u32>(value: u32) -> (r: Option<u32>)
    requires
        MIN <= MAX,
    ensures
        r == (if MIN <= value <= MAX {
            Some(value)
        } else {
            None
        }),
{
    deranged::RangedU32::<MIN, MAX>::new(value).map(|ranged| ranged.get())
}

/// Calls `narrow::<NEW_MIN, NEW_MAX>` of `deranged::RangedU32<MIN, MAX>`, which answers with the
/// value if it lies in `NEW_MIN..=NEW_MAX` and with `None` otherwise. An instance whose new range
/// is empty or not part of the old one fails to compile.
#[verifier::external_body]
fn ranged_u32_narrow<
    const MIN: u32,
    const MAX: u32,
    const NEW_MIN: u32,
    const NEW_MAX: u32,
>(value: u32) -> (r: Option<u32>)
    requires
        MIN <= value <= MAX,
        MIN <= NEW_MIN <= NEW_MAX <= MAX,
    ensures
        r == (if NEW_MIN <= value <= NEW_MAX {
            Some(value)
        } else {
            None
        }),
{
    let ranged = deranged::RangedU32::<MIN, MAX>::new(value)?;
    ranged.narrow::<NEW_MIN, NEW_MAX>().map(|narrowed| narrowed.get())
}

/// A `u32` in the range `MIN..=MAX`.
#[derive(Clone, Copy, Debug, PartialEq, Eq)]
pub struct RangedU32<const MIN: u32, const MAX: u32> {
    value: u32,
}

impl<const MIN: u32, const MAX: u32> View for RangedU32<MIN, MAX> {
    type V = int;

    closed spec fn view(&self) -> int {
        self.value as int
    }
}

impl<const MIN: u32, const MAX: u32> RangedU32<MIN, MAX> {
    #[verifier::type_invariant]
    spec fn in_range(self) -> bool {
        MIN <= self.value <= MAX
    }

    /// Returns the value as a ranged integer if it lies in `MIN..=MAX`.
    pub fn new(value: u32) -> (r: Option<Self>)
        requires
            MIN <= MAX,
        ensures
            r is Some <==> MIN <= value <= MAX,
            r matches Some(ranged) ==> ranged@ == value,
    {
        match ranged_u32_new::<MIN, MAX>(value) {
            Some(value) => Some(RangedU32 { value }),
            None => None,
        }
    }

    /// Makes a ranged integer of a value that lies in `MIN..=MAX`, without a test at run time.
    pub(crate) fn new_unchecked(value: u32) -> (r: Self)
        requires
            MIN <= value <= MAX,
        ensures
            r@ == value,
    {
        RangedU32 { value }
    }

    /// Returns the value as a primitive.
    pub fn get(self) -> (r: u32)
        ensures
            r == self@,
            MIN <= r <= MAX,
    {
        proof {
            use_type_invariant(self);
        }
        self.value
    }

    /// Returns the same value in a part of this range, if it lies there.
    pub fn narrow<const NEW_MIN: u32, const NEW_MAX: u32>(self) -> (r: Option<
        RangedU32<NEW_MIN, NEW_MAX>,
    >)
        requires
            MIN <= NEW_MIN <= NEW_MAX <= MAX,
        ensures
            r is Some <==> NEW_MIN <= self@ <= NEW_MAX,
            r matches Some(narrowed) ==> narrowed@ == self@,
    {
        proof {
            use_type_invariant(self);
        }
        match ranged_u32_narrow::<MIN, MAX, NEW_MIN, NEW_MAX>(self.value) {
            Some(value) => Some(RangedU32 { value }),
            None => None,
        }
    }
}

/// An `i8` in the range `-BOUND..=BOUND`.
#[derive(Clone, Copy, Debug, PartialEq, Eq)]
pub struct SymmetricI8<const BOUND: u8> {
    value: i8,
}

impl<const BOUND: u8> View for SymmetricI8<BOUND> {
    type V = int;

    closed spec fn view(&self) -> int {
        self.value as int
    }
}

impl<const BOUND: u8> SymmetricI8<BOUND> {
    #[verifier::type_invariant]
    spec fn in_range(self) -> bool {
        -BOUND <= self.value <= BOUND
    }

    /// Returns the value as a ranged integer if it lies in `-BOUND..=BOUND`.
    pub fn new(value: i8) -> (r: Option<Self>)
        ensures
            r is Some <==> -BOUND <= value <= BOUND,
            r matches Some(ranged) ==> ranged@ == value,
    {
        let wide: i16 = value as i16;
        let bound: i16 = BOUND as i16;
        if -bound <= wide && wide <= bound {
            Some(SymmetricI8 { value })
        } else {
            None
        }
    }

    /// Returns the value as a primitive.
    pub fn get(self) -> (r: i8)
        ensures
            r == self@,
            -BOUND <= r <= BOUND,
    {
        proof {
            use_type_invariant(self);
        }
        self.value
    }

    /// Tells whether the value is below zero.
    pub fn is_negative(self) -> (r: bool)
        ensures
            r == (self@ < 0),
    {
        self.value < 0
    }

    /// Returns the distance of the value from zero.
    pub fn abs(self) -> (r: RangedU8<0, BOUND>)
        ensures
            r@ == (if self@ < 0 {
                -self@
            } else {
                self@
            }),
    {
        proof {
            use_type_invariant(self);
        }
        let wide: i16 = self.value as i16;
        let magnitude: i16 = if wide < 0 {
            -wide
        } else {
            wide
        };
        RangedU8::new_unchecked(magnitude as u8)
    }
}

/// An `i16` in the range `-BOUND..=BOUND`.
#[derive(Clone, Copy, Debug, PartialEq, Eq)]
pub struct SymmetricI16<const BOUND: u16> {
    value: i16,
}

impl<const BOUND: u16> View for SymmetricI16<BOUND> {
    type V = int;

    closed spec fn view(&self) -> int {
        self.value as int
    }
}

impl<const BOUND: u16> SymmetricI16<BOUND> {
    #[verifier::type_invariant]
    spec fn in_range(self) -> bool {
        -BOUND <= self.value <= BOUND
    }

    /// Returns the value as a ranged integer if it lies in `-BOUND..=BOUND`.
    pub fn new(value: i16) -> (r: Option<Self>)
        ensures
            r is Some <==> -BOUND <= value <= BOUND,
            r matches Some(ranged) ==> ranged@ == value,
    {
        let wide: i32 = value as i32;
        let bound: i32 = BOUND as i32;
        if -bound <= wide && wide <= bound {
            Some(SymmetricI16 { value })
        } else {
            None
        }
    }

    /// Returns the value as a primitive.
    pub fn get(self) -> (r: i16)
        ensures
            r == self@,
            -BOUND <= r <= BOUND,
    {
        proof {
            use_type_invariant(self);
        }
        self.value
    }

    /// Tells whether the value is below zero.
    pub fn is_negative(self) -> (r: bool)
        ensures
            r == (self@ < 0),
    {
        self.value < 0
    }

    /// Returns the distance of the value from zero.
    pub fn abs(self) -> (r: RangedU16<0, BOUND>)
        ensures
            r@ == (if self@ < 0 {
                -self@
            } else {
                self@
            }),
    {
        proof {
            use_type_invariant(self);
        }
        let wide: i32 = self.value as i32;
        let magnitude: i32 = if wide < 0 {
            -wide
        } else {
            wide
        };
        RangedU16::new_unchecked(magnitude as u16)
    }
}

/// An `i32` in the range `-BOUND..=BOUND`.
#[derive(Clone, Copy, Debug, PartialEq, Eq)]
pub struct SymmetricI32<const BOUND: u32> {
    value: i32,
}

impl<const BOUND: u32> View for SymmetricI32<BOUND> {
    type V = int;

    closed spec fn view(&self) -> int {
        self.value as int
    }
}

impl<const BOUND: u32> SymmetricI32<BOUND> {
    #[verifier::type_invariant]
    spec fn in_range(self) -> bool {
        -BOUND <= self.value <= BOUND
    }

    /// Returns the value as a ranged integer if it lies in `-BOUND..=BOUND`.
    pub fn new(value: i32) -> (r: Option<Self>)
        ensures
            r is Some <==> -BOUND <= value <= BOUND,
            r matches Some(ranged) ==> ranged@ == value,
    {
        let wide: i64 = value as i64;
        let bound: i64 = BOUND as i64;
        if -bound <= wide && wide <= bound {
            Some(SymmetricI32 { value })
        } else {
            None
        }
    }

    /// Returns the value as a primitive.
    pub fn get(self) -> (r: i32)
        ensures
            r == self@,
            -BOUND <= r <= BOUND,
    {
        proof {
            use_type_invariant(self);
        }
        self.value
    }

    /// Tells whether the value is below zero.
    pub fn is_negative(self) -> (r: bool)
        ensures
            r == (self@ < 0),
    {
        self.value < 0
    }

    /// Returns the distance of the value from zero.
    pub fn abs(self) -> (r: RangedU32<0, BOUND>)
        ensures
            r@ == (if self@ < 0 {
                -self@
            } else {
                self@
            }),
    {
        proof {
            use_type_invariant(self);
        }
        let wide: i64 = self.value as i64;
        let magnitude: i64 = if wide < 0 {
            -wide
        } else {
            wide
        };
        RangedU32::new_unchecked(magnitude as u32)
    }
}

impl RangedU32<0, 9_999> {
    /// Returns the same value as a 16-bit integer.
    pub fn to_u16(self) -> (r: RangedU16<0, 9_999>)
        ensures
            r@ == self@,
    {
        RangedU16::new_unchecked(self.get() as u16)
    }
}

impl RangedU16<0, 99> {
    /// Returns the same value as an 8-bit integer.
    pub fn to_u8(self) -> (r: RangedU8<0, 99>)
        ensures
            r@ == self@,
    {
        RangedU8::new_unchecked(self.get() as u8)
    }
}

/// A number of one digit.
pub type Digit = RangedU8<0, 9>;

/// A number of at most two digits.
pub type TwoDigits = RangedU8<0, 99>;

/// A number of at most three digits.
pub type ThreeDigits = RangedU16<0, 999>;

/// A number of at most four digits.
pub type FourDigits = RangedU16<0, 9_999>;

/// A number of at most five digits.
pub type FiveDigits = RangedU32<0, 99_999>;

/// A number of at most six digits.
pub type SixDigits = RangedU32<0, 999_999>;

/// How many digits follow a decimal point, where any do.
pub type DecimalDigits = RangedU8<1, 255>;

/// The day of a month.
pub type Day = RangedU8<1, 31>;

/// The day of a year.
pub type Ordinal = RangedU16<1, 366>;

/// The number of an ISO 8601 week.
pub type IsoWeekNumber = RangedU8<1, 53>;

/// The number of a week that begins on Monday.
pub type MondayBasedWeek = RangedU8<0, 53>;

/// The number of a week that begins on Sunday.
pub type SundayBasedWeek = RangedU8<0, 53>;

/// A year of at most six digits.
pub type Year = SymmetricI32<999_999>;

/// A year of at most four digits.
pub type StandardYear = SymmetricI16<9_999>;

/// The century of a [`Year`].
pub type ExtendedCentury = SymmetricI16<9_999>;

/// The century of a [`StandardYear`].
pub type StandardCentury = SymmetricI8<99>;

/// The last two digits of a year.
pub type LastTwo = RangedU8<0, 99>;

/// The hour of a day.
pub type Hours = RangedU8<0, 23>;

/// The minute of an hour.
pub type Minutes = RangedU8<0, 59>;

/// The second of a minute.
pub type Seconds = RangedU8<0, 59>;

/// The nanosecond of a second.
pub type Nanoseconds = RangedU32<0, 999_999_999>;

/// The whole hours of a UTC offset.
pub type OffsetHours = SymmetricI8<25>;

/// The minutes of a UTC offset past its whole hours.
pub type OffsetMinutes = SymmetricI8<59>;

/// The seconds of a UTC offset past its whole minutes.
pub type OffsetSeconds = SymmetricI8<59>;

} // verus!
