//! The dates that a month view of the calendar shows.

use vstd::prelude::*;
use crate::date::{
    Date, Month, Weekday, MIN_YEAR, MAX_YEAR, MAX_DAY_NUMBER, valid_ymd, days_in_month,
    lemma_day_number_bounds,
};

verus! {

/// How many days a week row adds after `last` to reach a Sunday, where the
/// calendar allows.
pub open spec fn pad_after(last: Date) -> int {
    let want = 6 - last.spec_day_number() % 7;
    let room = MAX_DAY_NUMBER - last.spec_day_number();
    if want <= room {
        want
    } else {
        room
    }
}

/// `r` is `dates` with whole weeks around it: the days before the first date
/// back to a Monday, and those after the last up to a Sunday.
pub open spec fn is_padding_of(r: Seq<Date>, dates: Seq<Date>) -> bool {
    &&& dates.len() == 0 ==> r == dates
    &&& dates.len() > 0 ==> {
        let n = dates.len() as int;
        let p = dates[0].spec_day_number() % 7;
        let q = pad_after(dates[n - 1]);
        &&& r.len() == p + n + q
        &&& r.subrange(p, p + n) == dates
        &&& forall|i: int|
            0 <= i < p ==> (#[trigger] r[i]).wf() && r[i].spec_day_number()
                == dates[0].spec_day_number() - (p - i)
        &&& forall|i: int|
            0 <= i < q ==> (#[trigger] r[p + n + i]).wf() && r[p + n + i].spec_day_number()
                == dates[n - 1].spec_day_number() + 1 + i
    }
}

/// The dates of `month` in `year`, from the first on; none where the year is
/// out of range.
pub open spec fn month_dates(month: Month, year: i32) -> Seq<Date> {
    let len = if MIN_YEAR <= year <= MAX_YEAR {
        days_in_month(year as int, month.spec_number())
    } else {
        0
    };
    Seq::new(len as nat, |i: int| Date { year, month, day: (i + 1) as u8 })
}

proof fn lemma_mod7_succ(x: int)
    requires
        x % 7 != 6,
    ensures
        (x + 1) % 7 == x % 7 + 1,
{
}

proof fn lemma_max_day_number()
    ensures
        crate::date::day_number(9999, 12, 31) == MAX_DAY_NUMBER,
{
    reveal_with_fuel(crate::date::days_before_month, 12);
}

/// Every date of `month` in `year`, from the first on; none where the year is
/// out of range.
pub fn get_dates_for_month(month: Month, year: i32) -> (r: Vec<Date>)
    ensures
        r@ == month_dates(month, year),
        forall|i: int| 0 <= i < r@.len() ==> (#[trigger] r@[i]).wf(),
{
    let mut dates: Vec<Date> = Vec::new();
    let mut day: u8 = 1;
    while day < 32
        invariant
            1 <= day <= 32,
            dates@.len() == day - 1,
            forall|i: int|
                0 <= i < dates@.len() ==> #[trigger] dates@[i] == (Date {
                    year,
                    month,
                    day: (i + 1) as u8,
                }),
            forall|i: int| 0 <= i < dates@.len() ==> (#[trigger] dates@[i]).wf(),
            day > 1 ==> valid_ymd(year as int, month.spec_number(), (day - 1) as int),
        ensures
            dates@.len() == (if MIN_YEAR <= year <= MAX_YEAR {
                days_in_month(year as int, month.spec_number())
            } else {
                0
            }),
        decreases 32 - day,
    {
        match Date::from_calendar_date(year, month, day) {
            Ok(d) => {
                dates.push(d);
            },
            Err(_) => {
                break ;
            },
        }
        day = day + 1;
    }
    assert(dates@ =~= month_dates(month, year));
    dates
}

/// Adds the dates of the previous and the next month around `dates` until
/// the first is a Monday and the last a Sunday, so that the dates fill whole
/// weeks.
pub fn pad_dates(dates: Vec<Date>) -> (r: Vec<Date>)
    requires
        forall|i: int| 0 <= i < dates@.len() ==> (#[trigger] dates@[i]).wf(),
    ensures
        is_padding_of(r@, dates@),
{
    if dates.len() == 0 {
        return dates;
    }
    let mut padded: Vec<Date> = Vec::new();
    let ghost n = dates@.len() as int;
    let ghost d0 = dates@[0].spec_day_number();
    let ghost p = d0 % 7;

    // Pad backwards until the first day is a Monday.
    let mut first = dates[0];
    while first.weekday() != Weekday::Monday
        invariant
            first.wf(),
            0 <= padded@.len() <= p,
            d0 == dates@[0].spec_day_number(),
            p == d0 % 7,
            first.spec_day_number() == d0 - padded@.len(),
            first.spec_day_number() % 7 == p - padded@.len(),
            forall|i: int|
                0 <= i < padded@.len() ==> (#[trigger] padded@[i]).wf() && padded@[i].spec_day_number()
                    == d0 - (padded@.len() - i),
        ensures
            padded@.len() == p,
        decreases first.spec_day_number() % 7,
    {
        match first.previous_day() {
            Some(previous) => {
                first = previous;
                padded.insert(0, first);
            },
            None => {
                break ;
            },
        }
    }

    // The dates themselves.
    let mut i: usize = 0;
    while i < dates.len()
        invariant
            0 <= i <= dates@.len(),
            n == dates@.len(),
            0 <= p < 7,
            padded@.len() == p + i,
            forall|k: int| 0 <= k < i ==> #[trigger] padded@[p + k] == dates@[k],
            forall|k: int|
                0 <= k < p ==> (#[trigger] padded@[k]).wf() && padded@[k].spec_day_number() == d0
                    - (p - k),
        decreases dates@.len() - i,
    {
        padded.push(dates[i]);
        i = i + 1;
    }

    // Pad forwards until the last day is a Sunday.
    let ghost dl = dates@[n - 1].spec_day_number();
    let ghost q = pad_after(dates@[n - 1]);
    let mut last = dates[dates.len() - 1];
    let ghost base = padded@.len() as int;
    proof {
        lemma_day_number_bounds(dates@[n - 1]);
    }
    while last.weekday() != Weekday::Sunday
        invariant
            last.wf(),
            base == p + n,
            0 <= p < 7,
            n == dates@.len(),
            0 <= q,
            dl == dates@[n - 1].spec_day_number(),
            q == pad_after(dates@[n - 1]),
            base <= padded@.len() <= base + q,
            last.spec_day_number() == dl + (padded@.len() - base),
            last.spec_day_number() % 7 == dl % 7 + (padded@.len() - base),
            forall|k: int| 0 <= k < n ==> #[trigger] padded@[p + k] == dates@[k],
            forall|k: int|
                0 <= k < p ==> (#[trigger] padded@[k]).wf() && padded@[k].spec_day_number() == d0
                    - (p - k),
            forall|k: int|
                0 <= k < padded@.len() - base ==> (#[trigger] padded@[base + k]).wf()
                    && padded@[base + k].spec_day_number() == dl + 1 + k,
        ensures
            padded@.len() == base + q,
        decreases 6 - last.spec_day_number() % 7,
    {
        match last.next_day() {
            Some(next) => {
                proof {
                    lemma_day_number_bounds(next);
                    lemma_mod7_succ(last.spec_day_number());
                }
                last = next;
                padded.push(last);
            },
            None => {
                proof {
                    lemma_max_day_number();
                }
                break ;
            },
        }
    }
    assert forall|k: int| 0 <= k < n implies #[trigger] padded@.subrange(p, p + n)[k]
        == dates@[k] by {
        assert(padded@[p + k] == dates@[k]);
    }
    assert(padded@.subrange(p, p + n) =~= dates@);
    padded
}

/// The padded dates of a month view.
pub fn calender_month_dates(month: Month, year: i32) -> (r: Vec<Date>)
    ensures
        is_padding_of(r@, month_dates(month, year)),
{
    pad_dates(get_dates_for_month(month, year))
}

/// The month after `month`, and its year.
pub fn next_calendar_month(month: &Month, year: i32) -> (r: (Month, i32))
    requires
        *month == Month::December ==> year < i32::MAX,
    ensures
        *month == Month::December ==> r == (Month::January, (year + 1) as i32),
        *month != Month::December ==> r.1 == year && r.0.spec_number() == month.spec_number() + 1,
{
    match month {
        Month::December => (Month::January, year + 1),
        _ => (month.next(), year),
    }
}

/// The month before `month`, and its year.
pub fn previous_calendar_month(month: &Month, year: i32) -> (r: (Month, i32))
    requires
        *month == Month::January ==> year > i32::MIN,
    ensures
        *month == Month::January ==> r == (Month::December, (year - 1) as i32),
        *month != Month::January ==> r.1 == year && r.0.spec_number() == month.spec_number() - 1,
{
    match month {
        Month::January => (Month::December, year - 1),
        _ => (month.previous(), year),
    }
}

} // verus!
