use quickplan::calendar::{
    calender_month_dates, get_dates_for_month, next_calendar_month, pad_dates,
    previous_calendar_month,
};
use quickplan::date::{Date, DateError, Month, Weekday};

#[test]
fn test_pad_dates() {
    let feb_2024_dates = pad_dates(get_dates_for_month(Month::February, 2024));
    assert_eq!(feb_2024_dates.len(), 35);
    assert_eq!(feb_2024_dates.first().unwrap().weekday(), Weekday::Monday);
    assert_eq!(feb_2024_dates.last().unwrap().weekday(), Weekday::Sunday);

    let feb_2027_dates = pad_dates(get_dates_for_month(Month::February, 2027));
    assert_eq!(feb_2027_dates.len(), 28);
    assert_eq!(feb_2027_dates.first().unwrap().weekday(), Weekday::Monday);
    assert_eq!(feb_2027_dates.last().unwrap().weekday(), Weekday::Sunday);

    let jan_dates = pad_dates(get_dates_for_month(Month::January, 2024));
    assert_eq!(jan_dates.len(), 35);
    assert_eq!(jan_dates.first().unwrap().weekday(), Weekday::Monday);
    assert_eq!(jan_dates.last().unwrap().weekday(), Weekday::Sunday);

    let april_dates = pad_dates(get_dates_for_month(Month::April, 2024));
    assert_eq!(april_dates.len(), 35);
    assert_eq!(april_dates.first().unwrap().weekday(), Weekday::Monday);
    assert_eq!(april_dates.last().unwrap().weekday(), Weekday::Sunday);
}

#[test]
fn test_get_dates_for_month() {
    let feb_2024_dates = get_dates_for_month(Month::February, 2024);
    assert_eq!(feb_2024_dates.len(), 29);

    let jan_dates = get_dates_for_month(Month::January, 2024);
    assert_eq!(jan_dates.len(), 31);

    let april_dates = get_dates_for_month(Month::April, 2024);
    assert_eq!(april_dates.len(), 30);
    assert_eq!(april_dates[0].weekday(), Weekday::Monday);
}

#[test]
fn dates_for_month_out_of_range_year_is_empty() {
    assert!(get_dates_for_month(Month::May, 10000).is_empty());
    assert_eq!(get_dates_for_month(Month::February, 1900).len(), 28);
    assert_eq!(get_dates_for_month(Month::February, 2000).len(), 29);
}

#[test]
fn pad_dates_of_nothing_is_nothing() {
    assert!(pad_dates(vec![]).is_empty());
}

#[test]
fn padding_surrounds_the_month() {
    // September 2024 starts on a Sunday and ends on a Monday.
    let dates = calender_month_dates(Month::September, 2024);
    assert_eq!(dates.len(), 42);
    assert_eq!(dates[0], Date::from_calendar_date(2024, Month::August, 26).unwrap());
    assert_eq!(dates[6], Date::from_calendar_date(2024, Month::September, 1).unwrap());
    assert_eq!(dates[41], Date::from_calendar_date(2024, Month::October, 6).unwrap());
}

#[test]
fn padding_stops_at_the_last_date() {
    // 9999-12-31 is a Friday: there is no day after it to pad with.
    let dates = calender_month_dates(Month::December, 9999);
    assert_eq!(dates.last().unwrap(), &Date::from_calendar_date(9999, Month::December, 31).unwrap());
    assert_eq!(dates.last().unwrap().weekday(), Weekday::Friday);
}

#[test]
fn weekdays_of_known_dates() {
    assert_eq!(Date::from_calendar_date(2000, Month::January, 1).unwrap().weekday(), Weekday::Saturday);
    assert_eq!(Date::from_calendar_date(2024, Month::September, 5).unwrap().weekday(), Weekday::Thursday);
    assert_eq!(Date::from_calendar_date(-9999, Month::January, 1).unwrap().weekday(), Weekday::Monday);
}

#[test]
fn invalid_calendar_dates_are_refused() {
    assert_eq!(Date::from_calendar_date(2023, Month::February, 29), Err(DateError::ComponentRange));
    assert_eq!(Date::from_calendar_date(2024, Month::April, 31), Err(DateError::ComponentRange));
    assert_eq!(Date::from_calendar_date(2024, Month::April, 0), Err(DateError::ComponentRange));
    assert_eq!(Date::from_calendar_date(10000, Month::January, 1), Err(DateError::ComponentRange));
    assert!(Date::from_calendar_date(2024, Month::February, 29).is_ok());
}

#[test]
fn next_and_previous_day_cross_boundaries() {
    let d = Date::from_calendar_date(2023, Month::December, 31).unwrap();
    assert_eq!(d.next_day(), Some(Date::from_calendar_date(2024, Month::January, 1).unwrap()));
    let d = Date::from_calendar_date(2024, Month::March, 1).unwrap();
    assert_eq!(d.previous_day(), Some(Date::from_calendar_date(2024, Month::February, 29).unwrap()));
    let last = Date::from_calendar_date(9999, Month::December, 31).unwrap();
    assert_eq!(last.next_day(), None);
    let first = Date::from_calendar_date(-9999, Month::January, 1).unwrap();
    assert_eq!(first.previous_day(), None);
}

#[test]
fn month_navigation() {
    assert_eq!(next_calendar_month(&Month::December, 2024), (Month::January, 2025));
    assert_eq!(next_calendar_month(&Month::February, 2024), (Month::March, 2024));
    assert_eq!(previous_calendar_month(&Month::January, 2024), (Month::December, 2023));
    assert_eq!(previous_calendar_month(&Month::October, 2024), (Month::September, 2024));
}
