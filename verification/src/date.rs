//! Calendar dates of the years 0 to 9999, read from and written as
//! `YYYY-MM-DD`.

use vstd::prelude::*;
use crate::text::chars_of;

verus! {

/// The format of a date in a header, as `chrono` writes formats.
pub const DATE_FMT: &'static str = "%Y-%m-%d";

/// A year, a month and a day, as numbers.
pub struct DateView {
    pub year: int,
    pub month: int,
    pub day: int,
}

/// Whether the proleptic Gregorian calendar gives `year` 366 days.
pub open spec fn is_leap_year(year: int) -> bool {
    year % 4 == 0 && (year % 100 != 0 || year % 400 == 0)
}

/// The number of days of a month, for `month` from 1 to 12.
pub open spec fn days_in_month(year: int, month: int) -> int {
    if month == 2 {
        if is_leap_year(year) {
            29
        } else {
            28
        }
    } else if month == 4 || month == 6 || month == 9 || month == 11 {
        30
    } else {
        31
    }
}

/// The character of the decimal digit `n`.
pub open spec fn digit_char(n: int) -> char {
    (0x30 + n) as char
}

/// `n` in two decimal digits, for `n` from 0 to 99.
pub open spec fn two_digits(n: int) -> Seq<char> {
    seq![digit_char(n / 10), digit_char(n % 10)]
}

/// `n` in four decimal digits, for `n` from 0 to 9999.
pub open spec fn four_digits(n: int) -> Seq<char> {
    two_digits(n / 100) + two_digits(n % 100)
}

/// Whether `c` is one of `0` to `9`.
pub open spec fn is_digit(c: char) -> bool {
    0x30 <= c as u32 <= 0x39
}

/// The number that the decimal digit `c` stands for.
pub open spec fn digit_value(c: char) -> int {
    c as u32 - 0x30
}

/// Whether `s` is four digits, a dash, two digits, a dash and two digits.
pub open spec fn has_date_shape(s: Seq<char>) -> bool {
    &&& s.len() == 10
    &&& is_digit(s[0])
    &&& is_digit(s[1])
    &&& is_digit(s[2])
    &&& is_digit(s[3])
    &&& s[4] == '-'
    &&& is_digit(s[5])
    &&& is_digit(s[6])
    &&& s[7] == '-'
    &&& is_digit(s[8])
    &&& is_digit(s[9])
}

/// The numbers that a text of the shape of a date spells.
pub open spec fn spelled_date(s: Seq<char>) -> DateView {
    DateView {
        year: 1000 * digit_value(s[0]) + 100 * digit_value(s[1]) + 10 * digit_value(s[2])
            + digit_value(s[3]),
        month: 10 * digit_value(s[5]) + digit_value(s[6]),
        day: 10 * digit_value(s[8]) + digit_value(s[9]),
    }
}

/// The date that `s` spells: `s` has the shape `YYYY-MM-DD` and names a day
/// of the calendar.
pub open spec fn date_of_text(s: Seq<char>) -> Option<DateView> {
    if has_date_shape(s) && spelled_date(s).valid() {
        Some(spelled_date(s))
    } else {
        None
    }
}

impl DateView {
    /// Whether this is a day of the calendar, in a year from 0 to 9999.
    pub open spec fn valid(self) -> bool {
        &&& 0 <= self.year <= 9999
        &&& 1 <= self.month <= 12
        &&& 1 <= self.day <= days_in_month(self.year, self.month)
    }

    /// A number that grows with the date: its decimal digits are those of
    /// the year, the month and the day.
    pub open spec fn ordinal(self) -> int {
        self.year * 10000 + self.month * 100 + self.day
    }

    /// Whether `self` is a later day than `other`.
    pub open spec fn after(self, other: DateView) -> bool {
        ||| self.year > other.year
        ||| self.year == other.year && self.month > other.month
        ||| self.year == other.year && self.month == other.month && self.day > other.day
    }

    /// The date as `YYYY-MM-DD`.
    pub open spec fn text(self) -> Seq<char> {
        four_digits(self.year) + seq!['-'] + two_digits(self.month) + seq!['-'] + two_digits(
            self.day,
        )
    }

    /// The first instant of the date in UTC, as RFC 3339 writes it.
    pub open spec fn rfc3339(self) -> Seq<char> {
        self.text() + seq!['T', '0', '0', ':', '0', '0', ':', '0', '0', '+', '0', '0', ':', '0', '0']
    }
}

/// A day of the calendar, in a year from 0 to 9999.
#[derive(Clone, Copy, Debug, PartialEq, Eq)]
pub struct Date {
    year: u16,
    month: u8,
    day: u8,
}

impl View for Date {
    type V = DateView;

    closed spec fn view(&self) -> DateView {
        DateView { year: self.year as int, month: self.month as int, day: self.day as int }
    }
}

/// Whether the calendar has the day, by `chrono::NaiveDate::from_ymd_opt`:
/// for a year from 0 to 9999 it returns a date exactly when the month is one
/// of 1 to 12 and the day one of that month in that year.
#[verifier::external_body]
fn on_calendar(year: i32, month: u32, day: u32) -> (b: bool)
    requires
        0 <= year <= 9999,
    ensures
        b == (DateView { year: year as int, month: month as int, day: day as int }).valid(),
{
    chrono::NaiveDate::from_ymd_opt(year, month, day).is_some()
}

/// The date in the format `DATE_FMT`, by `chrono::NaiveDate::format`: the
/// year in four digits, the month and the day in two, each padded with
/// zeros, with dashes between them.
#[verifier::external_body]
fn format_ymd(year: i32, month: u32, day: u32, format: &str) -> (s: String)
    requires
        (DateView { year: year as int, month: month as int, day: day as int }).valid(),
        format@ == DATE_FMT@,
    ensures
        s@ == (DateView { year: year as int, month: month as int, day: day as int }).text(),
{
    chrono::NaiveDate::from_ymd_opt(year, month, day).unwrap().format(format).to_string()
}

/// Midnight of the date in UTC, by `chrono::DateTime::<Utc>::to_rfc3339`:
/// the date as `YYYY-MM-DD`, then `T00:00:00+00:00`.
#[verifier::external_body]
fn format_rfc3339(year: i32, month: u32, day: u32) -> (s: String)
    requires
        (DateView { year: year as int, month: month as int, day: day as int }).valid(),
    ensures
        s@ == (DateView { year: year as int, month: month as int, day: day as int }).rfc3339(),
{
    let day = chrono::NaiveDate::from_ymd_opt(year, month, day).unwrap();
    day.and_hms_opt(0, 0, 0).unwrap().and_utc().to_rfc3339()
}

/// The number that `c` stands for, where `c` is a decimal digit.
fn digit_of(c: char) -> (r: Option<u16>)
    ensures
        r is Some <==> is_digit(c),
        r matches Some(n) ==> n == digit_value(c),
{
    let n: u32 = c as u32;
    if 0x30 <= n && n <= 0x39 {
        Some((n - 0x30) as u16)
    } else {
        None
    }
}

impl Date {
    #[verifier::type_invariant]
    spec fn well_formed(self) -> bool {
        self@.valid()
    }

    /// The date of the given year, month and day, where the calendar has it.
    pub fn new(year: u16, month: u8, day: u8) -> (r: Option<Date>)
        ensures
            r is Some <==> (DateView {
                year: year as int,
                month: month as int,
                day: day as int,
            }).valid(),
            r matches Some(d) ==> d@ == (DateView {
                year: year as int,
                month: month as int,
                day: day as int,
            }),
    {
        if year <= 9999 && on_calendar(year as i32, month as u32, day as u32) {
            Some(Date { year, month, day })
        } else {
            None
        }
    }

    /// The first day of the year 1, which no post is older than.
    pub fn first() -> (d: Date)
        ensures
            d@ == (DateView { year: 1, month: 1, day: 1 }),
    {
        Date { year: 1, month: 1, day: 1 }
    }

    /// The date that `text` spells as `YYYY-MM-DD`.
    pub fn parse(text: &str) -> (r: Option<Date>)
        ensures
            r is Some <==> date_of_text(text@) is Some,
            r matches Some(d) ==> Some(d@) == date_of_text(text@),
    {
        let s = chars_of(text);
        if s.len() != 10 || s[4] != '-' || s[7] != '-' {
            return None;
        }
        let (y0, y1, y2, y3) = match (digit_of(s[0]), digit_of(s[1]), digit_of(s[2]), digit_of(s[3])) {
            (Some(a), Some(b), Some(c), Some(d)) => (a, b, c, d),
            _ => { return None; },
        };
        let (m0, m1, d0, d1) = match (digit_of(s[5]), digit_of(s[6]), digit_of(s[8]), digit_of(s[9])) {
            (Some(a), Some(b), Some(c), Some(d)) => (a, b, c, d),
            _ => { return None; },
        };
        let year: u16 = 1000 * y0 + 100 * y1 + 10 * y2 + y3;
        let month: u16 = 10 * m0 + m1;
        let day: u16 = 10 * d0 + d1;
        Date::new(year, month as u8, day as u8)
    }

    /// The year, from 0 to 9999.
    pub fn year(&self) -> (y: u16)
        ensures
            y == self@.year,
            self@.valid(),
    {
        proof {
            use_type_invariant(self);
        }
        self.year
    }

    /// The month, from 1 to 12.
    pub fn month(&self) -> (m: u8)
        ensures
            m == self@.month,
            self@.valid(),
    {
        proof {
            use_type_invariant(self);
        }
        self.month
    }

    /// The day of the month, from 1 to 31.
    pub fn day(&self) -> (d: u8)
        ensures
            d == self@.day,
            self@.valid(),
    {
        proof {
            use_type_invariant(self);
        }
        self.day
    }

    /// A number that grows with the date.
    pub fn ordinal(&self) -> (n: u32)
        ensures
            n == self@.ordinal(),
            self@.valid(),
    {
        proof {
            use_type_invariant(self);
        }
        let y: u32 = self.year as u32;
        let m: u32 = self.month as u32;
        let d: u32 = self.day as u32;
        y * 10000 + m * 100 + d
    }

    /// Whether `self` is a later day than `other`.
    pub fn is_after(&self, other: &Date) -> (b: bool)
        ensures
            b == self@.after(other@),
            b == (self@.ordinal() > other@.ordinal()),
    {
        proof {
            use_type_invariant(self);
            use_type_invariant(other);
        }
        self.ordinal() > other.ordinal()
    }

    /// The date as `YYYY-MM-DD`.
    pub fn to_text(&self) -> (s: String)
        ensures
            s@ == self@.text(),
    {
        proof {
            use_type_invariant(self);
        }
        format_ymd(self.year as i32, self.month as u32, self.day as u32, DATE_FMT)
    }

    /// The first instant of the date in UTC, as RFC 3339 writes it:
    /// `YYYY-MM-DDT00:00:00+00:00`.
    pub fn to_rfc3339(&self) -> (s: String)
        ensures
            s@ == self@.rfc3339(),
    {
        proof {
            use_type_invariant(self);
        }
        format_rfc3339(self.year as i32, self.month as u32, self.day as u32)
    }
}

/// Of two days of the calendar, the later one has the larger ordinal.
pub proof fn lemma_ordinal_orders(a: DateView, b: DateView)
    requires
        a.valid(),
        b.valid(),
    ensures
        a.after(b) <==> a.ordinal() > b.ordinal(),
        a == b <==> a.ordinal() == b.ordinal(),
{
}

/// The ten characters that a date is written in: the digits of the year,
/// of the month and of the day, with a dash after the first two groups.
pub proof fn lemma_date_text_digits(d: DateView)
    ensures
        d.text() == seq![
            digit_char(d.year / 100 / 10),
            digit_char(d.year / 100 % 10),
            digit_char(d.year % 100 / 10),
            digit_char(d.year % 100 % 10),
            '-',
            digit_char(d.month / 10),
            digit_char(d.month % 10),
            '-',
            digit_char(d.day / 10),
            digit_char(d.day % 10),
        ],
{
}

/// A date is written in ten characters, each a digit or a dash.
pub proof fn lemma_date_text_is_plain(d: DateView)
    requires
        d.valid(),
    ensures
        d.text().len() == 10,
        forall|i: int| 0 <= i < 10 ==> is_digit(#[trigger] d.text()[i]) || d.text()[i] == '-',
{
    lemma_date_text_digits(d);
    assert(forall|n: int| 0 <= n <= 9 ==> is_digit(#[trigger] digit_char(n)));
}

/// A date that is written as `YYYY-MM-DD` and read again is the same date.
pub proof fn lemma_date_text_round_trip(d: DateView)
    requires
        d.valid(),
    ensures
        date_of_text(d.text()) == Some(d),
{
    lemma_date_text_digits(d);
    assert(forall|n: int|
        0 <= n <= 9 ==> is_digit(#[trigger] digit_char(n)) && digit_value(digit_char(n)) == n);
    assert(has_date_shape(d.text()));
    assert(spelled_date(d.text()) == d);
}

} // verus!
