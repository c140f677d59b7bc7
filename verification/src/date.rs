//! Calendar dates.
//!
//! Dates are those of the proleptic Gregorian calendar that `chrono::NaiveDate` can hold. Counting
//! days, counting back and reading dates from text is left to chrono.
use vstd::prelude::*;
use chrono::Datelike;
use crate::text::{decimal, decimal_of};

verus! {

/// A calendar date.
#[derive(Debug, Clone, Copy, PartialEq, Eq, Structural)]
pub struct Date {
    pub year: i32,
    pub month: u32,
    pub day: u32,
}

/// First and last year that a date can lie in.
pub const MIN_YEAR: i32 = -262143;

pub const MAX_YEAR: i32 = 262142;

/// The year has a leap day.
pub open spec fn leap(y: int) -> bool {
    y % 4 == 0 && (y % 100 != 0 || y % 400 == 0)
}

/// Number of days of a month.
pub open spec fn month_len(y: int, m: int) -> int {
    if m == 2 {
        if leap(y) {
            29
        } else {
            28
        }
    } else if m == 4 || m == 6 || m == 9 || m == 11 {
        30
    } else {
        31
    }
}

/// The date exists.
pub open spec fn valid_ymd(y: int, m: int, d: int) -> bool {
    MIN_YEAR <= y <= MAX_YEAR && 1 <= m <= 12 && 1 <= d <= month_len(y, m)
}

/// Number of days of a year before a month.
pub open spec fn days_before_month(y: int, m: int) -> int
    decreases m,
{
    if m <= 1 {
        0
    } else {
        days_before_month(y, m - 1) + month_len(y, m - 1)
    }
}

/// Number of a day, counted from the first of January of the year 1, which is day 1.
pub open spec fn day_number(y: int, m: int, d: int) -> int {
    let p = y - 1;
    365 * p + p / 4 - p / 100 + p / 400 + days_before_month(y, m) + d
}

/// Day numbers stay far within thirty-two bits.
pub proof fn lemma_day_number_bounds(y: int, m: int, d: int)
    requires
        valid_ymd(y, m, d),
    ensures
        -100_000_000 < day_number(y, m, d) < 100_000_000,
{
    reveal_with_fuel(days_before_month, 12);
    assert(0 <= days_before_month(y, m) <= 335);
}

/// Number of the first day that a date can have.
pub const FIRST_DAY: i32 = -95_746_129;

impl Date {
    /// The date exists.
    pub open spec fn valid(&self) -> bool {
        valid_ymd(self.year as int, self.month as int, self.day as int)
    }

    /// Number of the day.
    pub open spec fn number(&self) -> int {
        day_number(self.year as int, self.month as int, self.day as int)
    }

    /// Day of the week, counted from Monday as 0.
    pub open spec fn weekday(&self) -> int {
        (self.number() - 1) % 7
    }
}

/// Every day from the first one on has a date: going back from a date leads to one.
pub proof fn lemma_day_back(d: Date, n: int) -> (r: Date)
    requires
        d.valid(),
        n >= 0,
        d.number() - n >= FIRST_DAY,
    ensures
        r.valid(),
        r.number() == d.number() - n,
    decreases n,
{
    if n == 0 {
        d
    } else {
        let y = d.year as int;
        let m = d.month as int;
        if d.day > 1 {
            lemma_day_back(Date { day: (d.day - 1) as u32, ..d }, n - 1)
        } else if m > 1 {
            let p = Date {
                year: d.year,
                month: (m - 1) as u32,
                day: month_len(y, m - 1) as u32,
            };
            assert(p.number() == d.number() - 1);
            lemma_day_back(p, n - 1)
        } else {
            reveal_with_fuel(days_before_month, 13);
            assert(days_before_month(y, 1) == 0);
            if y == MIN_YEAR {
                assert(d.number() == FIRST_DAY);
            }
            let p = Date { year: (y - 1) as i32, month: 12, day: 31 };
            assert(days_before_month(y - 1, 12) == (if leap(y - 1) {
                335int
            } else {
                334int
            }));
            assert(p.number() == d.number() - 1);
            lemma_day_back(p, n - 1)
        }
    }
}

/// Number of a day. Calls `chrono::NaiveDate::from_ymd_opt`, which gives a date exactly where it
/// exists within chrono's range, and `chrono::Datelike::num_days_from_ce`, which counts the days of
/// the proleptic Gregorian calendar from January 1 of the year 1 as day 1.
#[verifier::external_body]
pub(crate) fn count_days(year: i32, month: u32, day: u32) -> (r: Option<i32>)
    ensures
        r == (if valid_ymd(year as int, month as int, day as int) {
            Some(day_number(year as int, month as int, day as int) as i32)
        } else {
            None
        }),
{
    chrono::NaiveDate::from_ymd_opt(year, month, day).map(|d| d.num_days_from_ce())
}

/// The date with a day number. Calls `chrono::NaiveDate::from_num_days_from_ce_opt`, which gives the
/// date of that number exactly where it lies within chrono's range.
#[verifier::external_body]
pub(crate) fn date_of_count(days: i32) -> (r: Option<(i32, u32, u32)>)
    ensures
        match r {
            Some(p) => valid_ymd(p.0 as int, p.1 as int, p.2 as int) && day_number(
                p.0 as int,
                p.1 as int,
                p.2 as int,
            ) == days,
            None => forall|y: int, m: int, d: int| #[trigger]
                valid_ymd(y, m, d) ==> day_number(y, m, d) != days,
        },
{
    chrono::NaiveDate::from_num_days_from_ce_opt(days).map(|d| (d.year(), d.month(), d.day()))
}

/// What `chrono::NaiveDate::parse_from_str` makes of a text under the format `%Y-%m-%d`: year, month
/// and day, where it reads.
pub uninterp spec fn read_ymd(s: Seq<char>) -> Option<(int, int, int)>;

/// Reads a date from text. Calls `chrono::NaiveDate::parse_from_str` with the format `%Y-%m-%d`. A
/// date that it reads exists, and the ten characters of a date's own form read as that date; what
/// else it accepts is only named.
#[verifier::external_body]
pub(crate) fn scan_ymd(s: &str) -> (r: Option<(i32, u32, u32)>)
    ensures
        match r {
            Some(p) => read_ymd(s@) == Some((p.0 as int, p.1 as int, p.2 as int)) && valid_ymd(
                p.0 as int,
                p.1 as int,
                p.2 as int,
            ),
            None => read_ymd(s@) is None,
        },
        forall|y: int, m: int, d: int|
            valid_ymd(y, m, d) && 0 <= y <= 9999 && s@ == #[trigger] iso_of(y, m, d) ==> r == Some(
                (y as i32, m as u32, d as u32),
            ),
{
    let d = chrono::NaiveDate::parse_from_str(s, "%Y-%m-%d").ok();
    d.map(|d| (d.year(), d.month(), d.day()))
}

/// A number with zeros before it up to a width.
pub open spec fn padded(n: nat, width: int) -> Seq<char> {
    let s = decimal_of(n);
    if s.len() >= width {
        s
    } else {
        Seq::new((width - s.len()) as nat, |i: int| '0') + s
    }
}

/// How a year is written: four digits, and outside the years 0 to 9999 a sign before them.
pub open spec fn year_text(y: int) -> Seq<char> {
    if 0 <= y <= 9999 {
        padded(y as nat, 4)
    } else if y < 0 {
        seq!['-'] + padded((-y) as nat, 4)
    } else {
        seq!['+'] + padded(y as nat, 4)
    }
}

/// How a date is written.
pub open spec fn iso_of(y: int, m: int, d: int) -> Seq<char> {
    year_text(y) + seq!['-'] + padded(m as nat, 2) + seq!['-'] + padded(d as nat, 2)
}

/// A number with zeros before it up to a width.
pub fn pad_number(n: u64, width: usize) -> (r: String)
    requires
        width <= 20,
    ensures
        r@ == padded(n as nat, width as int),
{
    let s = decimal(n);
    let len = s.as_str().unicode_len();
    if len >= width {
        return s;
    }
    let mut r = String::new();
    let mut i: usize = 0;
    while i < width - len
        invariant
            len < width <= 20,
            i <= width - len,
            r@ == Seq::new(i as nat, |k: int| '0'),
        decreases width - len - i,
    {
        r.push('0');
        i += 1;
        assert(r@ =~= Seq::new(i as nat, |k: int| '0'));
    }
    r.append(s.as_str());
    r
}

impl Date {
    /// The date, where it exists.
    pub fn new(year: i32, month: u32, day: u32) -> (r: Option<Date>)
        ensures
            r == (if valid_ymd(year as int, month as int, day as int) {
                Some(Date { year, month, day })
            } else {
                None
            }),
    {
        match count_days(year, month, day) {
            Some(_) => Some(Date { year, month, day }),
            None => None,
        }
    }

    /// Number of the day.
    pub fn count(&self) -> (r: i32)
        requires
            self.valid(),
        ensures
            r == self.number(),
            -100_000_000 < r < 100_000_000,
    {
        proof {
            lemma_day_number_bounds(self.year as int, self.month as int, self.day as int);
        }
        match count_days(self.year, self.month, self.day) {
            Some(n) => n,
            None => 0,
        }
    }

    /// The date some days before this one, where it lies within range.
    pub fn minus_days(&self, days: i32) -> (r: Option<Date>)
        requires
            self.valid(),
            0 <= days <= 100_000_000,
        ensures
            match r {
                Some(d) => d.valid() && d.number() == self.number() - days,
                None => forall|y: int, m: int, d: int| #[trigger]
                    valid_ymd(y, m, d) ==> day_number(y, m, d) != self.number() - days,
            },
    {
        match date_of_count(self.count() - days) {
            Some(p) => Some(Date { year: p.0, month: p.1, day: p.2 }),
            None => None,
        }
    }

    /// Reads a date.
    pub fn parse(s: &str) -> (r: Option<Date>)
        ensures
            match r {
                Some(d) => d.valid() && read_ymd(s@) == Some(
                    (d.year as int, d.month as int, d.day as int),
                ),
                None => read_ymd(s@) is None,
            },
            forall|d: Date|
                d.valid() && 0 <= d.year <= 9999 && s@ == #[trigger] iso_of(
                    d.year as int,
                    d.month as int,
                    d.day as int,
                ) ==> r == Some(d),
    {
        match scan_ymd(s) {
            Some(p) => Some(Date { year: p.0, month: p.1, day: p.2 }),
            None => None,
        }
    }

    /// Day of the week, counted from Monday as 0.
    pub fn day_of_week(&self) -> (r: u32)
        requires
            self.valid(),
        ensures
            r == self.weekday(),
    {
        let n: i64 = self.count() as i64 - 1 + 700_000_000;
        (n % 7) as u32
    }

    /// How the date is written.
    pub fn iso(&self) -> (r: String)
        requires
            self.valid(),
        ensures
            r@ == iso_of(self.year as int, self.month as int, self.day as int),
    {
        let mut r = String::new();
        if self.year < 0 {
            r.push('-');
            r.append(pad_number((-(self.year as i64)) as u64, 4).as_str());
        } else if self.year > 9999 {
            r.push('+');
            r.append(pad_number(self.year as u64, 4).as_str());
        } else {
            r.append(pad_number(self.year as u64, 4).as_str());
        }
        assert(r@ =~= year_text(self.year as int));
        r.push('-');
        r.append(pad_number(self.month as u64, 2).as_str());
        r.push('-');
        r.append(pad_number(self.day as u64, 2).as_str());
        assert(r@ =~= iso_of(self.year as int, self.month as int, self.day as int));
        r
    }
}

/// A date lies before another: by year, then month, then day.
pub open spec fn earlier(a: Date, b: Date) -> bool {
    a.year < b.year || (a.year == b.year && (a.month < b.month || (a.month == b.month && a.day
        < b.day)))
}

/// Whether a date lies before another.
pub fn is_earlier(a: Date, b: Date) -> (r: bool)
    ensures
        r == earlier(a, b),
{
    a.year < b.year || (a.year == b.year && (a.month < b.month || (a.month == b.month && a.day
        < b.day)))
}

} // verus!
