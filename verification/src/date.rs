//! Calendar days, and the stamp by which a day names its cache file.

use vstd::prelude::*;

verus! {

/// The earliest year a calendar day can have.
pub const MIN_YEAR: i32 = -262143;

/// The latest year a calendar day can have.
pub const MAX_YEAR: i32 = 262142;

/// Leap years of the proleptic Gregorian calendar, in astronomical year
/// numbering (year 0 is a leap year).
pub open spec fn is_leap_year(year: int) -> bool {
    year % 4 == 0 && (year % 100 != 0 || year % 400 == 0)
}

/// Number of days of `month` in `year`; 0 where `month` is no month.
pub open spec fn days_in_month(year: int, month: int) -> int {
    if month == 2 {
        if is_leap_year(year) {
            29
        } else {
            28
        }
    } else if month == 4 || month == 6 || month == 9 || month == 11 {
        30
    } else if 1 <= month <= 12 {
        31
    } else {
        0
    }
}

/// Whether `year`, `month` and `day` name a day of the calendar.
pub open spec fn is_calendar_date(year: int, month: int, day: int) -> bool {
    &&& MIN_YEAR <= year <= MAX_YEAR
    &&& 1 <= month <= 12
    &&& 1 <= day <= days_in_month(year, month)
}

/// The character of a decimal digit.
pub open spec fn digit_char(d: int) -> char {
    if d == 0 {
        '0'
    } else if d == 1 {
        '1'
    } else if d == 2 {
        '2'
    } else if d == 3 {
        '3'
    } else if d == 4 {
        '4'
    } else if d == 5 {
        '5'
    } else if d == 6 {
        '6'
    } else if d == 7 {
        '7'
    } else if d == 8 {
        '8'
    } else {
        '9'
    }
}

/// The last `width` decimal digits of `n`, most significant first.
pub open spec fn digits(n: int, width: nat) -> Seq<char>
    decreases width,
{
    if width == 0 {
        Seq::empty()
    } else {
        digits(n / 10, (width - 1) as nat).push(digit_char(n % 10))
    }
}

/// How a year is written: four digits from 0 to 9999; outside of that a sign
/// and the digits of its magnitude, at least four of them.
pub open spec fn year_text(year: int) -> Seq<char> {
    if 0 <= year <= 9999 {
        digits(year, 4)
    } else if year < 0 {
        seq!['-'] + magnitude_text(-year)
    } else {
        seq!['+'] + magnitude_text(year)
    }
}

/// The digits of `n`, padded with zeros to four, for `n` below a million.
pub open spec fn magnitude_text(n: int) -> Seq<char> {
    if n < 10000 {
        digits(n, 4)
    } else if n < 100000 {
        digits(n, 5)
    } else {
        digits(n, 6)
    }
}

/// The stamp of a day: its year, then month and day with two digits each.
pub open spec fn date_stamp(year: int, month: int, day: int) -> Seq<char> {
    year_text(year) + digits(month, 2) + digits(day, 2)
}

/// The format that produces a stamp: year, month and day as numbers, padded
/// with zeros.
pub const STAMP_FORMAT: &'static str = "%Y%m%d";

/// The format that produces a stamp, as a text.
pub open spec fn stamp_format() -> Seq<char> {
    STAMP_FORMAT@
}

/// What a calendar day stands for.
pub ghost struct DateView {
    pub year: int,
    pub month: int,
    pub day: int,
}

/// A day of the proleptic Gregorian calendar.
#[derive(Clone, Copy, Debug, PartialEq, Eq)]
pub struct CalendarDate {
    year: i32,
    month: u32,
    day: u32,
}

impl View for CalendarDate {
    type V = DateView;

    closed spec fn view(&self) -> DateView {
        DateView { year: self.year as int, month: self.month as int, day: self.day as int }
    }
}

impl CalendarDate {
    #[verifier::type_invariant]
    spec fn valid(self) -> bool {
        is_calendar_date(self.year as int, self.month as int, self.day as int)
    }

    /// The day with the given year, month and day of the month, where there
    /// is one.
    pub fn new(year: i32, month: u32, day: u32) -> (r: Option<CalendarDate>)
        ensures
            r is Some <==> is_calendar_date(year as int, month as int, day as int),
            r matches Some(d) ==> d@ == (DateView {
                year: year as int,
                month: month as int,
                day: day as int,
            }),
    {
        if year < MIN_YEAR || year > MAX_YEAR || month < 1 || month > 12 || day < 1 {
            return None;
        }
        // A multiple of 400 years on, the calendar repeats.
        let shifted: u32 = (year + 262400) as u32;
        assert(is_leap_year(shifted as int) == is_leap_year(year as int));
        let leap = shifted % 4 == 0 && (shifted % 100 != 0 || shifted % 400 == 0);
        let last: u32 = if month == 2 {
            if leap {
                29
            } else {
                28
            }
        } else if month == 4 || month == 6 || month == 9 || month == 11 {
            30
        } else {
            31
        };
        if day > last {
            None
        } else {
            Some(CalendarDate { year, month, day })
        }
    }

    /// The stamp of this day, as it stands in the name of the day's file.
    pub fn stamp(&self) -> (s: String)
        ensures
            s@ == date_stamp(self@.year, self@.month, self@.day),
            is_calendar_date(self@.year, self@.month, self@.day),
    {
        proof {
            use_type_invariant(self);
        }
        format_date(self.year, self.month, self.day, STAMP_FORMAT)
    }

    /// The year, in astronomical numbering.
    pub fn year(&self) -> (r: i32)
        ensures
            r == self@.year,
    {
        self.year
    }

    /// The month, from 1 to 12.
    pub fn month(&self) -> (r: u32)
        ensures
            r == self@.month,
    {
        self.month
    }

    /// The day of the month, from 1.
    pub fn day(&self) -> (r: u32)
        ensures
            r == self@.day,
    {
        self.day
    }
}

/// The characters of the digits stand in the order of the digits.
pub proof fn lemma_digit_char_order(a: int, b: int)
    requires
        0 <= a <= 9,
        0 <= b <= 9,
    ensures
        (digit_char(a) as int <= digit_char(b) as int) == (a <= b),
        (digit_char(a) == digit_char(b)) == (a == b),
{
}

/// Ten to the power of `exp`.
pub open spec fn pow10(exp: nat) -> int
    decreases exp,
{
    if exp == 0 {
        1
    } else {
        10 * pow10((exp - 1) as nat)
    }
}

/// `digits` writes exactly `width` characters.
pub proof fn lemma_digits_len(n: int, width: nat)
    ensures
        digits(n, width).len() == width,
    decreases width,
{
    if width > 0 {
        lemma_digits_len(n / 10, (width - 1) as nat);
    }
}

/// Two numbers that fit into `width` digits and are written alike are equal.
pub proof fn lemma_digits_injective(a: int, b: int, width: nat)
    requires
        0 <= a < pow10(width),
        0 <= b < pow10(width),
        digits(a, width) == digits(b, width),
    ensures
        a == b,
    decreases width,
{
    if width > 0 {
        let rest = (width - 1) as nat;
        let da = digits(a / 10, rest);
        let db = digits(b / 10, rest);
        lemma_digits_len(a / 10, rest);
        lemma_digits_len(b / 10, rest);
        assert(da.push(digit_char(a % 10)).last() == digit_char(a % 10));
        assert(db.push(digit_char(b % 10)).last() == digit_char(b % 10));
        assert(a % 10 == b % 10);
        assert(da.push(digit_char(a % 10)).drop_last() == da);
        assert(db.push(digit_char(b % 10)).drop_last() == db);
        lemma_digits_injective(a / 10, b / 10, rest);
    }
}

/// The text of a year is four to seven characters long, and a sign opens it
/// exactly where the year is not one of 0 to 9999.
proof fn lemma_year_text_shape(year: int)
    requires
        MIN_YEAR <= year <= MAX_YEAR,
    ensures
        4 <= year_text(year).len() <= 7,
        0 <= year <= 9999 ==> year_text(year) == digits(year, 4),
        year < 0 ==> year_text(year)[0] == '-' && year_text(year).skip(1) == magnitude_text(-year),
        year > 9999 ==> year_text(year)[0] == '+' && year_text(year).skip(1) == magnitude_text(
            year,
        ),
        0 <= year <= 9999 ==> year_text(year)[0] != '-' && year_text(year)[0] != '+',
{
    lemma_digits_len(year, 4);
    lemma_digits_len(-year, 4);
    lemma_digits_len(-year, 5);
    lemma_digits_len(-year, 6);
    lemma_digits_len(year, 5);
    lemma_digits_len(year, 6);
    if 0 <= year <= 9999 {
        reveal_with_fuel(digits, 5);
    } else if year < 0 {
        assert((seq!['-'] + magnitude_text(-year)).skip(1) =~= magnitude_text(-year));
    } else {
        assert((seq!['+'] + magnitude_text(year)).skip(1) =~= magnitude_text(year));
    }
}

/// Two magnitudes below a million that are written alike are equal.
proof fn lemma_magnitude_text_injective(a: int, b: int)
    requires
        0 <= a < 1000000,
        0 <= b < 1000000,
        magnitude_text(a) == magnitude_text(b),
    ensures
        a == b,
{
    reveal_with_fuel(pow10, 7);
    lemma_digits_len(a, 4);
    lemma_digits_len(a, 5);
    lemma_digits_len(a, 6);
    lemma_digits_len(b, 4);
    lemma_digits_len(b, 5);
    lemma_digits_len(b, 6);
    if a < 10000 {
        lemma_digits_injective(a, b, 4);
    } else if a < 100000 {
        lemma_digits_injective(a, b, 5);
    } else {
        lemma_digits_injective(a, b, 6);
    }
}

/// Two years that are written alike are equal.
pub proof fn lemma_year_text_injective(a: int, b: int)
    requires
        MIN_YEAR <= a <= MAX_YEAR,
        MIN_YEAR <= b <= MAX_YEAR,
        year_text(a) == year_text(b),
    ensures
        a == b,
{
    lemma_year_text_shape(a);
    lemma_year_text_shape(b);
    if 0 <= a <= 9999 {
        reveal_with_fuel(pow10, 5);
        lemma_digits_injective(a, b, 4);
    } else if a < 0 {
        lemma_magnitude_text_injective(-a, -b);
    } else {
        lemma_magnitude_text_injective(a, b);
    }
}

/// Distinct days have distinct stamps: two days of the calendar whose stamps
/// are equal are the same day.
pub proof fn lemma_date_stamp_injective(a: DateView, b: DateView)
    requires
        is_calendar_date(a.year, a.month, a.day),
        is_calendar_date(b.year, b.month, b.day),
        date_stamp(a.year, a.month, a.day) == date_stamp(b.year, b.month, b.day),
    ensures
        a == b,
{
    let sa = date_stamp(a.year, a.month, a.day);
    let sb = date_stamp(b.year, b.month, b.day);
    let ya = year_text(a.year);
    let yb = year_text(b.year);
    lemma_digits_len(a.month, 2);
    lemma_digits_len(a.day, 2);
    lemma_digits_len(b.month, 2);
    lemma_digits_len(b.day, 2);
    assert(sa.len() == ya.len() + 4);
    assert(sb.len() == yb.len() + 4);
    let n = ya.len() as int;
    assert(sa.subrange(0, n) =~= ya);
    assert(sb.subrange(0, n) =~= yb);
    assert(sa.subrange(n, n + 2) =~= digits(a.month, 2));
    assert(sb.subrange(n, n + 2) =~= digits(b.month, 2));
    assert(sa.subrange(n + 2, n + 4) =~= digits(a.day, 2));
    assert(sb.subrange(n + 2, n + 4) =~= digits(b.day, 2));
    lemma_year_text_injective(a.year, b.year);
    reveal_with_fuel(pow10, 3);
    lemma_digits_injective(a.month, b.month, 2);
    lemma_digits_injective(a.day, b.day, 2);
}

/// Formats a day with `chrono::NaiveDate::format`. The contract covers the
/// one format that writes the year, the month and the day as numbers padded
/// with zeros: chrono writes a year from 0 to 9999 with four digits and any
/// other year with a sign before at least four digits, and month and day
/// with two digits each.
#[verifier::external_body]
fn format_date(year: i32, month: u32, day: u32, format: &str) -> (s: String)
    requires
        is_calendar_date(year as int, month as int, day as int),
        format@ == stamp_format(),
    ensures
        s@ == date_stamp(year as int, month as int, day as int),
{
    chrono::NaiveDate::from_ymd_opt(year, month, day).unwrap().format(format).to_string()
}

} // verus!
