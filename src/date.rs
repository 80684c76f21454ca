//! Calendar dates of the proleptic Gregorian calendar, years -9999 to 9999.

use vstd::prelude::*;

verus! {

pub const MIN_YEAR: i32 = -9999;

pub const MAX_YEAR: i32 = 9999;

/// A month of the year.
#[derive(Debug, Clone, Copy, PartialEq, Eq, Structural)]
pub enum Month {
    January,
    February,
    March,
    April,
    May,
    June,
    July,
    August,
    September,
    October,
    November,
    December,
}

/// A day of the week.
#[derive(Debug, Clone, Copy, PartialEq, Eq, Structural)]
pub enum Weekday {
    Monday,
    Tuesday,
    Wednesday,
    Thursday,
    Friday,
    Saturday,
    Sunday,
}

impl Month {
    /// The month's number, January being 1.
    pub open spec fn spec_number(self) -> int {
        match self {
            Month::January => 1,
            Month::February => 2,
            Month::March => 3,
            Month::April => 4,
            Month::May => 5,
            Month::June => 6,
            Month::July => 7,
            Month::August => 8,
            Month::September => 9,
            Month::October => 10,
            Month::November => 11,
            Month::December => 12,
        }
    }

    pub fn number(&self) -> (r: u8)
        ensures
            r as int == self.spec_number(),
            1 <= r <= 12,
    {
        match self {
            Month::January => 1,
            Month::February => 2,
            Month::March => 3,
            Month::April => 4,
            Month::May => 5,
            Month::June => 6,
            Month::July => 7,
            Month::August => 8,
            Month::September => 9,
            Month::October => 10,
            Month::November => 11,
            Month::December => 12,
        }
    }

    /// The month numbered `n`, if `n` is between 1 and 12.
    pub fn from_number(n: u8) -> (r: Option<Month>)
        ensures
            match r {
                Some(m) => 1 <= n <= 12 && m.spec_number() == n as int,
                None => !(1 <= n <= 12),
            },
    {
        match n {
            1 => Some(Month::January),
            2 => Some(Month::February),
            3 => Some(Month::March),
            4 => Some(Month::April),
            5 => Some(Month::May),
            6 => Some(Month::June),
            7 => Some(Month::July),
            8 => Some(Month::August),
            9 => Some(Month::September),
            10 => Some(Month::October),
            11 => Some(Month::November),
            12 => Some(Month::December),
            _ => None,
        }
    }

    /// The following month; December is followed by January.
    pub fn next(&self) -> (r: Month)
        ensures
            r.spec_number() == self.spec_number() % 12 + 1,
    {
        match self {
            Month::January => Month::February,
            Month::February => Month::March,
            Month::March => Month::April,
            Month::April => Month::May,
            Month::May => Month::June,
            Month::June => Month::July,
            Month::July => Month::August,
            Month::August => Month::September,
            Month::September => Month::October,
            Month::October => Month::November,
            Month::November => Month::December,
            Month::December => Month::January,
        }
    }

    /// The preceding month; January is preceded by December.
    pub fn previous(&self) -> (r: Month)
        ensures
            r.spec_number() == (self.spec_number() + 10) % 12 + 1,
    {
        match self {
            Month::January => Month::December,
            Month::February => Month::January,
            Month::March => Month::February,
            Month::April => Month::March,
            Month::May => Month::April,
            Month::June => Month::May,
            Month::July => Month::June,
            Month::August => Month::July,
            Month::September => Month::August,
            Month::October => Month::September,
            Month::November => Month::October,
            Month::December => Month::November,
        }
    }
}

impl Weekday {
    /// Days since Monday.
    pub open spec fn spec_index(self) -> int {
        match self {
            Weekday::Monday => 0,
            Weekday::Tuesday => 1,
            Weekday::Wednesday => 2,
            Weekday::Thursday => 3,
            Weekday::Friday => 4,
            Weekday::Saturday => 5,
            Weekday::Sunday => 6,
        }
    }
}

pub open spec fn is_leap_year(y: int) -> bool {
    (y % 4 == 0 && y % 100 != 0) || y % 400 == 0
}

pub open spec fn days_in_month(y: int, m: int) -> int {
    if m == 2 {
        if is_leap_year(y) {
            29
        } else {
            28
        }
    } else if m == 4 || m == 6 || m == 9 || m == 11 {
        30
    } else {
        31
    }
}

pub open spec fn valid_ymd(y: int, m: int, d: int) -> bool {
    MIN_YEAR <= y <= MAX_YEAR && 1 <= m <= 12 && 1 <= d <= days_in_month(y, m)
}

/// Days of the year `y` before the first of month `m`.
pub open spec fn days_before_month(y: int, m: int) -> int
    decreases m,
{
    if m <= 1 {
        0
    } else {
        days_before_month(y, m - 1) + days_in_month(y, m - 1)
    }
}

/// Days from the first of January of the earliest year to that of year `y`.
pub open spec fn days_before_year(y: int) -> int {
    let a = y - MIN_YEAR;
    365 * a + a / 4 - a / 100 + a / 400
}

/// Days from the earliest date, -9999-01-01, to the given one.
pub open spec fn day_number(y: int, m: int, d: int) -> int {
    days_before_year(y) + days_before_month(y, m) + d - 1
}

/// A calendar date; `wf` holds when it exists in the calendar.
#[derive(Debug, Clone, Copy, PartialEq, Eq, Structural)]
pub struct Date {
    pub year: i32,
    pub month: Month,
    pub day: u8,
}

impl Date {
    pub open spec fn spec_year(self) -> int {
        self.year as int
    }

    pub open spec fn spec_month(self) -> int {
        self.month.spec_number()
    }

    pub open spec fn spec_day(self) -> int {
        self.day as int
    }

    pub open spec fn wf(self) -> bool {
        valid_ymd(self.spec_year(), self.spec_month(), self.spec_day())
    }

    pub open spec fn spec_day_number(self) -> int {
        day_number(self.spec_year(), self.spec_month(), self.spec_day())
    }

    /// The date with the given year, month and day, if the day exists in
    /// that month and the year lies between -9999 and 9999.
    pub fn from_calendar_date(year: i32, month: Month, day: u8) -> (r: Result<Date, DateError>)
        ensures
            match r {
                Ok(d) => valid_ymd(year as int, month.spec_number(), day as int) && d.year == year
                    && d.month == month && d.day == day,
                Err(e) => !valid_ymd(year as int, month.spec_number(), day as int) && e
                    == DateError::ComponentRange,
            },
    {
        if year < MIN_YEAR || year > MAX_YEAR || day < 1 || day > days_in_month_exec(year, month) {
            Err(DateError::ComponentRange)
        } else {
            Ok(Date { year, month, day })
        }
    }

    pub fn year(&self) -> (r: i32)
        ensures
            r == self.year,
    {
        self.year
    }

    pub fn month(&self) -> (r: Month)
        ensures
            r == self.month,
    {
        self.month
    }

    pub fn day(&self) -> (r: u8)
        ensures
            r == self.day,
    {
        self.day
    }

    /// The day of the week.
    pub fn weekday(&self) -> (r: Weekday)
        requires
            self.wf(),
        ensures
            r.spec_index() == self.spec_day_number() % 7,
    {
        let n = day_number_exec(self.year, self.month, self.day);
        match n % 7 {
            0 => Weekday::Monday,
            1 => Weekday::Tuesday,
            2 => Weekday::Wednesday,
            3 => Weekday::Thursday,
            4 => Weekday::Friday,
            5 => Weekday::Saturday,
            _ => Weekday::Sunday,
        }
    }

    /// The following date, or `None` after 9999-12-31.
    pub fn next_day(&self) -> (r: Option<Date>)
        requires
            self.wf(),
        ensures
            match r {
                Some(n) => n.wf() && n.spec_day_number() == self.spec_day_number() + 1,
                None => self.year == MAX_YEAR && self.spec_month() == 12 && self.day == 31,
            },
    {
        let dim = days_in_month_exec(self.year, self.month);
        if self.day < dim {
            Some(Date { year: self.year, month: self.month, day: self.day + 1 })
        } else if self.month.number() < 12 {
            let r = Date { year: self.year, month: self.month.next(), day: 1 };
            assert(days_before_month(r.spec_year(), r.spec_month()) == days_before_month(
                self.spec_year(),
                self.spec_month(),
            ) + dim);
            Some(r)
        } else if self.year < MAX_YEAR {
            let r = Date { year: self.year + 1, month: Month::January, day: 1 };
            proof {
                lemma_days_before_year_step(r.spec_year());
                lemma_days_before_year_end(self.spec_year());
            }
            Some(r)
        } else {
            None
        }
    }

    /// The preceding date, or `None` before -9999-01-01.
    pub fn previous_day(&self) -> (r: Option<Date>)
        requires
            self.wf(),
        ensures
            match r {
                Some(p) => p.wf() && p.spec_day_number() == self.spec_day_number() - 1,
                None => self.year == MIN_YEAR && self.spec_month() == 1 && self.day == 1,
            },
    {
        if self.day > 1 {
            Some(Date { year: self.year, month: self.month, day: self.day - 1 })
        } else if self.month.number() > 1 {
            let m = self.month.previous();
            let r = Date { year: self.year, month: m, day: days_in_month_exec(self.year, m) };
            Some(r)
        } else if self.year > MIN_YEAR {
            let r = Date { year: self.year - 1, month: Month::December, day: 31 };
            proof {
                lemma_days_before_year_step(self.spec_year());
                lemma_days_before_year_end(r.spec_year());
            }
            Some(r)
        } else {
            None
        }
    }
}

/// Why a date could not be made.
#[derive(Debug, Clone, Copy, PartialEq, Eq, Structural)]
pub enum DateError {
    ComponentRange,
}

fn is_leap_year_exec(y: i32) -> (r: bool)
    ensures
        r == is_leap_year(y as int),
{
    let a: i64 = y as i64 + 10000;
    proof {
        assert(a % 4 == (y as int) % 4);
        assert(a % 100 == (y as int) % 100);
        assert(a % 400 == (y as int) % 400);
    }
    (a % 4 == 0 && a % 100 != 0) || a % 400 == 0
}

pub fn days_in_month_exec(y: i32, m: Month) -> (r: u8)
    ensures
        r as int == days_in_month(y as int, m.spec_number()),
        28 <= r <= 31,
{
    match m {
        Month::February => if is_leap_year_exec(y) {
            29
        } else {
            28
        },
        Month::April | Month::June | Month::September | Month::November => 30,
        _ => 31,
    }
}

proof fn lemma_days_before_year_step(y: int)
    requires
        MIN_YEAR < y <= MAX_YEAR,
    ensures
        days_before_year(y) == days_before_year(y - 1) + 365 + (if is_leap_year(y - 1) {
            1int
        } else {
            0int
        }),
{
    let a = y - MIN_YEAR;
    let b = a - 1;
    assert(a / 4 - b / 4 == (if a % 4 == 0 {
        1int
    } else {
        0int
    }));
    assert(a / 100 - b / 100 == (if a % 100 == 0 {
        1int
    } else {
        0int
    }));
    assert(a / 400 - b / 400 == (if a % 400 == 0 {
        1int
    } else {
        0int
    }));
    assert((y - 1) % 4 == a % 4);
    assert((y - 1) % 100 == a % 100);
    assert((y - 1) % 400 == a % 400);
}

proof fn lemma_days_before_year_end(y: int)
    ensures
        days_before_month(y, 12) + 31 == 365 + (if is_leap_year(y) {
            1int
        } else {
            0int
        }),
{
    reveal_with_fuel(days_before_month, 12);
}

/// Day number of 9999-12-31, the last date.
pub const MAX_DAY_NUMBER: u32 = 7304483;

proof fn lemma_days_before_year_mono(y: int)
    requires
        MIN_YEAR <= y <= MAX_YEAR,
    ensures
        days_before_year(y) + 365 * (MAX_YEAR - y) <= days_before_year(MAX_YEAR as int),
    decreases MAX_YEAR - y,
{
    if y < MAX_YEAR {
        lemma_days_before_year_mono(y + 1);
        lemma_days_before_year_step(y + 1);
    }
}

/// Every valid date lies between day number 0 and the last date's.
pub proof fn lemma_day_number_bounds(d: Date)
    requires
        d.wf(),
    ensures
        0 <= d.spec_day_number() <= MAX_DAY_NUMBER,
{
    reveal_with_fuel(days_before_month, 12);
    lemma_days_before_year_mono(d.spec_year());
    assert(days_before_year(MAX_YEAR as int) + 364 == MAX_DAY_NUMBER);
}

proof fn lemma_days_before_month_bound(y: int, m: int)
    requires
        1 <= m <= 12,
    ensures
        0 <= days_before_month(y, m) <= 335,
{
    reveal_with_fuel(days_before_month, 12);
}

fn days_before_month_exec(y: i32, m: Month) -> (r: u32)
    ensures
        r as int == days_before_month(y as int, m.spec_number()),
{
    let mut total: u32 = 0;
    let mut k: u8 = 1;
    let n = m.number();
    while k < n
        invariant
            1 <= k <= n <= 12,
            n as int == m.spec_number(),
            total as int == days_before_month(y as int, k as int),
            total <= 31 * k,
        decreases n - k,
    {
        let mk = Month::from_number(k).unwrap();
        total = total + days_in_month_exec(y, mk) as u32;
        k = k + 1;
    }
    total
}

/// The day number of a valid date.
fn day_number_exec(y: i32, m: Month, d: u8) -> (r: i64)
    requires
        valid_ymd(y as int, m.spec_number(), d as int),
    ensures
        r as int == day_number(y as int, m.spec_number(), d as int),
        r >= 0,
{
    let a: i64 = y as i64 + 9999;
    let before_month = days_before_month_exec(y, m);
    proof {
        lemma_days_before_month_bound(y as int, m.spec_number());
    }
    365 * a + a / 4 - a / 100 + a / 400 + before_month as i64 + d as i64 - 1
}

} // verus!
