use quickplan::ctx::{Ctx, CtxW};
use quickplan::date::{Date, Month};
use quickplan::fields::{ModelDate, Timestamp, WebId};
use quickplan::url_id::new_url_id;
use quickplan::utc::{current_date, format_time, now_utc, parse_utc, TimeError};

#[test]
fn test_parse_utc_ok() {
    // -- Setup & Fixtures
    let datetime_str_fx = format_time(now_utc()).unwrap();

    // -- Exec
    let date = parse_utc(&datetime_str_fx).unwrap();

    // -- Check
    assert_eq!(format_time(date).unwrap(), datetime_str_fx);
}

#[test]
fn parse_utc_rejects_other_text() {
    assert_eq!(parse_utc("2024-09-05"), Err(TimeError::UtcFailParse("2024-09-05".to_string())));
    assert!(parse_utc("2024-09-05T10:00:00Z").is_ok());
    assert!(parse_utc("2024-09-05T10:00:00+02:00").is_ok());
}

#[test]
fn timestamp_text_must_be_rfc3339() {
    assert!(Timestamp::from_text("not a time").is_none());
    let t = Timestamp::from_text("2024-09-05T10:00:00Z").unwrap();
    assert_eq!(t.as_str(), "2024-09-05T10:00:00Z");
    let now = Timestamp::now().unwrap();
    assert!(Timestamp::from_text(now.as_str()).is_some());
}

#[test]
fn current_date_is_valid() {
    let d = current_date();
    assert!(Date::from_calendar_date(d.year(), d.month(), d.day()).is_ok());
}

#[test]
fn model_date_text_form() {
    let d = ModelDate::new(Date::from_calendar_date(2024, Month::September, 5).unwrap());
    assert_eq!(d.to_text(), "2024-09-05");
    assert_eq!(ModelDate::from_text("2024-09-05"), Some(d));
    let bc = ModelDate::new(Date::from_calendar_date(-44, Month::March, 15).unwrap());
    assert_eq!(bc.to_text(), "-0044-03-15");
    assert_eq!(ModelDate::from_text("-0044-03-15"), Some(bc));
    assert_eq!(ModelDate::new(Date::from_calendar_date(7, Month::January, 1).unwrap()).to_text(), "0007-01-01");
}

#[test]
fn model_date_text_rejects_malformed() {
    assert_eq!(ModelDate::from_text("2023-02-29"), None);
    assert_eq!(ModelDate::from_text("2024-9-05"), None);
    assert_eq!(ModelDate::from_text("2024/09/05"), None);
    assert_eq!(ModelDate::from_text("2024-13-01"), None);
    assert_eq!(ModelDate::from_text(""), None);
}

#[test]
fn web_id_text_round_trip() {
    let w = WebId::new(0xa1a2a3a4b1b2c1c2d1d2d3d4d5d6d7d8);
    assert_eq!(w.to_text(), "a1a2a3a4-b1b2-c1c2-d1d2-d3d4d5d6d7d8");
    assert_eq!(WebId::from_text("a1a2a3a4-b1b2-c1c2-d1d2-d3d4d5d6d7d8"), Some(w));
    assert_eq!(WebId::from_text("nope"), None);
}

#[test]
fn generated_web_ids_are_version_7_and_distinct() {
    let a = WebId::generate();
    let b = WebId::generate();
    assert_eq!((a.value >> 76) & 0xf, 7);
    assert_eq!((a.value >> 62) & 0x3, 2);
    assert_ne!(a, b);
    assert_eq!(a.to_text().len(), 36);
}

#[test]
fn url_ids_are_eight_alphanumerics() {
    let id = new_url_id();
    assert_eq!(id.chars().count(), 8);
    assert!(id.chars().all(|c| c.is_ascii_alphanumeric()));
}

#[test]
fn contexts_carry_the_plan_slug() {
    assert_eq!(Ctx::root_ctx().url_id(), None);
    let ctx = Ctx::new("abc123").unwrap();
    assert_eq!(ctx.url_id(), Some("abc123".to_string()));
    let wrapped = CtxW(ctx);
    assert_eq!(wrapped.0.url_id(), Some("abc123".to_string()));
}

#[test]
fn creation_timestamps_have_a_fixed_width() {
    let t = Timestamp::now().unwrap();
    assert_eq!(t.as_str().len(), 20);
    assert!(t.as_str().ends_with('Z'));
}
