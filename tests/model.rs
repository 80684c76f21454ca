use quickplan::crud::{finish_create, finish_delete, finish_get, TableDesc};
use quickplan::date::{Date, Month};
use quickplan::error::{DecodeReason, Error};
use quickplan::fields::{ModelDate, Timestamp};
use quickplan::plan::{PlanBmc, PlanForCreate};
use quickplan::plandate::{PlanDateBmc, PlanDateForCreateMulti};
use quickplan::sql::{bind_params, render_sql, DbError, DbErrorKind, Field, Outcome, Query, SqlValue};
use quickplan::user::{UserBmc, UserForCreate};
use quickplan::user_date::{ToggleAction, UserDateBmc, UserDateForCreate};
use quickplan::sql::Returning;
use quickplan::web::{client_status_and_error, ClientError};
use rusqlite::types::{Value, ValueRef};
use rusqlite::Connection;

const SCHEMA: &str = "
CREATE TABLE plan (
    id INTEGER PRIMARY KEY AUTOINCREMENT,
    name TEXT NOT NULL,
    url_id TEXT NOT NULL UNIQUE,
    description TEXT,
    ctime TEXT NOT NULL
);
CREATE TABLE plan_user (
    id INTEGER PRIMARY KEY AUTOINCREMENT,
    plan_id INTEGER NOT NULL REFERENCES plan(id) ON DELETE CASCADE,
    name TEXT NOT NULL,
    web_id TEXT NOT NULL UNIQUE,
    ctime TEXT NOT NULL
);
CREATE TABLE user_date (
    id INTEGER PRIMARY KEY AUTOINCREMENT,
    user_id INTEGER NOT NULL REFERENCES plan_user(id) ON DELETE CASCADE,
    date TEXT NOT NULL,
    ctime TEXT NOT NULL
);
CREATE TABLE plan_date (
    id INTEGER PRIMARY KEY AUTOINCREMENT,
    plan_id INTEGER NOT NULL REFERENCES plan(id) ON DELETE CASCADE,
    user_id INTEGER NOT NULL REFERENCES plan_user(id) ON DELETE CASCADE,
    date TEXT NOT NULL,
    ctime TEXT NOT NULL
);
";

fn setup() -> Connection {
    let conn = Connection::open_in_memory().unwrap();
    conn.execute_batch("PRAGMA foreign_keys = ON;").unwrap();
    conn.execute_batch(SCHEMA).unwrap();
    conn
}

fn to_value(v: &SqlValue) -> Value {
    match v {
        SqlValue::Null => Value::Null,
        SqlValue::Integer(i) => Value::Integer(*i),
        SqlValue::Text(s) => Value::Text(s.clone()),
    }
}

fn db_error(e: rusqlite::Error) -> DbError {
    let kind = match &e {
        rusqlite::Error::SqliteFailure(f, _) if f.code == rusqlite::ErrorCode::ConstraintViolation => {
            DbErrorKind::ConstraintViolation
        }
        _ => DbErrorKind::Other,
    };
    DbError { kind, message: e.to_string() }
}

fn exec(conn: &Connection, q: &Query) -> Result<Outcome, DbError> {
    let sql = render_sql(q);
    let params: Vec<Value> = bind_params(q).iter().map(to_value).collect();
    if let Query::Delete { .. } = q {
        return conn
            .execute(&sql, rusqlite::params_from_iter(params))
            .map(|n| Outcome::Changed(n as u64))
            .map_err(db_error);
    }
    let mut stmt = conn.prepare(&sql).map_err(db_error)?;
    let names: Vec<String> = stmt.column_names().iter().map(|s| s.to_string()).collect();
    let mut rows = stmt.query(rusqlite::params_from_iter(params)).map_err(db_error)?;
    let mut out = Vec::new();
    while let Some(row) = rows.next().map_err(db_error)? {
        let mut fields = Vec::new();
        for (i, name) in names.iter().enumerate() {
            let value = match row.get_ref(i).map_err(db_error)? {
                ValueRef::Null => SqlValue::Null,
                ValueRef::Integer(n) => SqlValue::Integer(n),
                ValueRef::Real(f) => SqlValue::Text(f.to_string()),
                ValueRef::Text(t) => SqlValue::Text(String::from_utf8_lossy(t).into_owned()),
                ValueRef::Blob(_) => SqlValue::Null,
            };
            fields.push(Field { name: name.clone(), value });
        }
        out.push(fields);
    }
    Ok(Outcome::Rows(out))
}

fn plan_create(conn: &Connection, plan_c: &PlanForCreate) -> Result<i64, Error> {
    let q = PlanBmc::create_statement(plan_c, Returning::Id)?;
    PlanBmc::finish_create(exec(conn, &q))
}

fn plan_get(conn: &Connection, id: i64) -> Result<quickplan::plan::Plan, Error> {
    PlanBmc::finish_get(id, exec(conn, &PlanBmc::get_query(id)))
}

fn plan_delete(conn: &Connection, id: i64) -> Result<(), Error> {
    PlanBmc::finish_delete(id, exec(conn, &PlanBmc::delete_query(id)))
}

fn user_create(conn: &Connection, user_c: &UserForCreate) -> Result<i64, Error> {
    let q = UserBmc::create_statement(user_c, Returning::Id)?;
    UserBmc::finish_create(exec(conn, &q))
}

fn toggle(conn: &Connection, date_c: &UserDateForCreate) -> Result<(), Error> {
    let found = UserDateBmc::finish_get_date(exec(conn, &UserDateBmc::get_date_query(date_c)))?;
    let now = Timestamp::now().unwrap();
    match UserDateBmc::toggle_action(date_c, found, &now) {
        ToggleAction::Delete { id, query } => UserDateBmc::finish_delete(id, exec(conn, &query)),
        ToggleAction::Create { query } => UserDateBmc::finish_create(exec(conn, &query)).map(|_| ()),
    }
}

fn sample_plan(name: &str, url_id: &str) -> PlanForCreate {
    PlanForCreate { name: name.to_string(), url_id: url_id.to_string(), description: None }
}

fn date(y: i32, m: Month, d: u8) -> Date {
    Date::from_calendar_date(y, m, d).unwrap()
}

#[test]
fn test_plan_bmc_create_ok() {
    let conn = setup();
    let fx_plan_name = "plan_create_ok";
    let fx_plan_urlid = "planurl_create_ok";
    let fx_plan_description = "plan_description_create_ok";
    let plan_c = PlanForCreate {
        name: fx_plan_name.to_string(),
        url_id: fx_plan_urlid.to_string(),
        description: Some(fx_plan_description.to_string()),
    };
    let id = plan_create(&conn, &plan_c).unwrap();
    let plan = plan_get(&conn, id).unwrap();
    assert_eq!(fx_plan_name, plan.name);
    plan_delete(&conn, id).unwrap();
}

#[test]
fn test_plan_bmc_create_return_ok() {
    let conn = setup();
    let fx_plan_name = "plan_create_return_ok";
    let fx_plan_urlid = "planurl_create_return_ok";
    let plan_c = sample_plan(fx_plan_name, fx_plan_urlid);
    let q = PlanBmc::create_statement(&plan_c, Returning::All).unwrap();
    let plan = PlanBmc::finish_create_return(exec(&conn, &q)).unwrap();
    assert_eq!(fx_plan_name, plan.name);
    plan_delete(&conn, plan.id).unwrap();
}

#[test]
fn test_plan_bmc_by_url_ok() {
    let conn = setup();
    let fx_plan_name = "plan_url_ok";
    let fx_plan_urlid = "planurl_url_ok";
    let id = plan_create(&conn, &sample_plan(fx_plan_name, fx_plan_urlid)).unwrap();
    let q = PlanBmc::get_plan_by_url_query(fx_plan_urlid);
    let plan = PlanBmc::finish_get_plan_by_url(fx_plan_urlid, exec(&conn, &q)).unwrap();
    assert_eq!(fx_plan_name, plan.name);
    plan_delete(&conn, id).unwrap();
}

#[test]
fn test_plan_bmc_input_too_long_fail() {
    let conn = setup();
    let result_name_too_long = plan_create(
        &conn,
        &PlanForCreate {
            name: "This is a string input for the test. It serves as a demonstration of a text that exceeds the required length of 128 characters. 
            The purpose is to test how the system handles longer inputs and whether it correctly identifies them as being too long.".to_string(),
            url_id: "short".to_string(),
            description: None,
        },
    );
    let result_url_id_too_long = plan_create(
        &conn,
        &PlanForCreate {
            name: "short".to_string(),
            url_id: "This is a string input for the test. It serves as a demonstration of a text that exceeds the required length of 128 characters. 
            The purpose is to test how the system handles longer inputs and whether it correctly identifies them as being too long.".to_string(),
            description: None,
        },
    );
    let result_description_too_long = plan_create(
        &conn,
        &PlanForCreate {
            name: "short".to_string(),
            url_id: "short".to_string(),
            description: Some("
            Lorem ipsum dolor sit amet, consectetuer adipiscing elit. Aenean commodo ligula eget dolor. 
            Aenean massa. Cum sociis natoque penatibus et magnis dis parturient montes, nascetur ridiculus mus. 
            Donec quam felis, ultricies nec, pellentesque eu, pretium quis, sem. Nulla consequat massa quis enim. 
            Donec pede justo, fringilla vel, aliquet nec, vulputate eget, arcu. In enim justo, rhoncus ut, imperdiet a, venenatis vitae, justo. 
            Nullam dictum felis eu pede mollis pretium. Integer tincidunt. Cras dapibus. Vivamus elementum semper nisi. 
            Aenean vulputate eleifend tellus. Aenean leo ligula, porttitor eu, consequat vitae, eleifend ac, enim. 
            Aliquam lorem ante, dapibus in, viverra quis, feugiat a, tellus. Phasellus viverra nulla ut metus varius laoreet. 
            Quisque rutrum. Aenean imperdiet. Etiam ultricies nisi vel augue. Curabitur ullamcorper ultricies nisi. Nam eget dui. 
            Etiam rhoncus. Maecenas tempus, tellus eget condimentum rhoncus, sem quam semper libero, sit amet adipiscing sem neque sed ipsum. 
            Nam quam nunc, blandit vel, luctus pulvinar, hendrerit id, lorem. Maecenas nec odio et ante tincidunt tempus.
            Donec vitae sapien ut libero venenatis faucibus. Nullam quis ante. Etiam sit amet orci eget eros faucibus tincidunt. Duis leo. 
            Sed fringilla mauris sit amet nibh. Donec sodales sagittis magna. 
            Sed consequat, leo eget bibendum sodales, augue velit cursus nunc, quis gravida magna mi a libero. Fusce vulputate eleifend sapien. 
            Vestibulum purus quam, scelerisque ut, mollis sed, nonummy id, metus. Nullam accumsan lorem in dui. 
            Cras ultricies mi eu turpis hendrerit fringilla. Vestibulum ante ipsum primis in faucibus orci luctus et ultrices posuere cubilia Curae; 
            In ac dui quis mi consectetuer lacinia. Nam pretium turpis et arcu. Duis arcu tortor, suscipit eget, imperdiet nec, imperdiet iaculis, ipsum. 
            Sed aliquam ultrices mauris. Integer ante arcu, accumsan a, consectetuer eget, posuere ut, mauris. Praesent adipiscing. 
            Phasellus ullamcorper ipsum rutrum nunc. Nunc nonummy metus. Vestib
            ".to_string()),
        },
    );
    assert!(result_name_too_long.is_err());
    assert!(result_url_id_too_long.is_err());
    assert!(result_description_too_long.is_err());
    assert!(matches!(result_name_too_long, Err(Error::InputTooLong { ref field, max: 128 }) if field == "name"));
    assert!(matches!(result_url_id_too_long, Err(Error::InputTooLong { ref field, max: 128 }) if field == "url_id"));
    assert!(matches!(result_description_too_long, Err(Error::InputTooLong { ref field, max: 2000 }) if field == "description"));
}

#[test]
fn test_create_multiple_ok() {
    let conn = setup();
    let fx_plan_id = plan_create(&conn, &sample_plan("create_multiple_plan_date", "create_multiple_plan_date")).unwrap();
    let fx_user_id = user_create(
        &conn,
        &UserForCreate { plan_id: fx_plan_id, name: "create_multiple_plan_date".to_string() },
    )
    .unwrap();
    let date_c_m = PlanDateForCreateMulti {
        plan_id: fx_plan_id,
        user_id: fx_user_id,
        dates: vec![
            date(2024, Month::September, 5),
            date(2024, Month::October, 20),
            date(2024, Month::February, 22),
            date(2024, Month::March, 21),
        ],
    };
    let q = PlanDateBmc::create_multiple_statement(&date_c_m).unwrap().unwrap();
    let ids = PlanDateBmc::finish_create_multiple(exec(&conn, &q)).unwrap();
    assert_eq!(ids.len(), 4);
    for (id, d) in ids.iter().zip(date_c_m.dates.iter()) {
        let pd = PlanDateBmc::finish_get(*id, exec(&conn, &PlanDateBmc::get_query(*id))).unwrap();
        assert_eq!(pd.date.date(), *d);
    }
    plan_delete(&conn, fx_plan_id).unwrap();
}

#[test]
fn create_multiple_of_no_date_sends_nothing() {
    let date_c_m = PlanDateForCreateMulti { plan_id: 1, user_id: 1, dates: vec![] };
    assert!(PlanDateBmc::create_multiple_statement(&date_c_m).unwrap().is_none());
}

#[test]
fn test_user_bmc_create_ok() {
    let conn = setup();
    let plan_id = plan_create(&conn, &sample_plan("plan_user_create_ok", "plan_url_user_create_ok")).unwrap();
    let fx_user_name = "user_create_ok";
    let user_id = user_create(&conn, &UserForCreate { plan_id, name: fx_user_name.to_string() }).unwrap();
    let user = UserBmc::finish_get(user_id, exec(&conn, &UserBmc::get_query(user_id))).unwrap();
    assert_eq!(fx_user_name, user.name);
    let q = UserBmc::get_user_with_web_id_query(user.web_id);
    let same = UserBmc::finish_get_user_with_web_id(user.web_id, exec(&conn, &q)).unwrap();
    assert_eq!(same.id, user_id);
    plan_delete(&conn, plan_id).unwrap();
}

#[test]
fn test_user_bmc_create_name_too_long_fail() {
    let conn = setup();
    let plan_id = plan_create(
        &conn,
        &sample_plan("plan_user_create_name_too_long_fail", "user_create_name_too_long_fail"),
    )
    .unwrap();
    let fx_user_name = "This is a string input for the test. It serves as a demonstration of a text that exceeds the required length of 128 characters. 
        The purpose is to test how the system handles longer inputs and whether it correctly identifies them as being too long.";
    let result_user_name_too_long = user_create(&conn, &UserForCreate { plan_id, name: fx_user_name.to_string() });
    assert!(result_user_name_too_long.is_err());
}

#[test]
fn test_user_bmc_get_users_for_plan_ok() {
    let conn = setup();
    let plan_id = plan_create(&conn, &sample_plan("plan_get_users_ok", "plan_get_users_ok")).unwrap();
    for name in ["user_1", "user_2", "user_3"] {
        user_create(&conn, &UserForCreate { plan_id, name: name.to_string() }).unwrap();
    }
    let q = UserBmc::get_users_for_plan_query(plan_id);
    let users = UserBmc::finish_get_users_for_plan(exec(&conn, &q)).unwrap();
    assert_eq!(users.len(), 3);
}

#[test]
fn test_create_user_date_ok() {
    let conn = setup();
    let fx_date = date(2024, Month::September, 5);
    let fx_plan_id = plan_create(&conn, &sample_plan("create_user_date", "create_user_date")).unwrap();
    let fx_user_id = user_create(&conn, &UserForCreate { plan_id: fx_plan_id, name: "create_user_date".to_string() }).unwrap();
    let date_c = UserDateForCreate { user_id: fx_user_id, date: ModelDate::new(fx_date) };
    let q = UserDateBmc::create_statement(&date_c).unwrap();
    let id = UserDateBmc::finish_create(exec(&conn, &q)).unwrap();
    let user_date = UserDateBmc::finish_get(id, exec(&conn, &UserDateBmc::get_query(id))).unwrap();
    assert_eq!(user_date.date.date(), fx_date);
    plan_delete(&conn, fx_plan_id).unwrap();
}

#[test]
fn test_get_user_date_ok() {
    let conn = setup();
    let fx_date = date(2024, Month::October, 20);
    let fx_plan_id = plan_create(&conn, &sample_plan("get_user_date_ok", "get_user_date_ok")).unwrap();
    let fx_user_id = user_create(&conn, &UserForCreate { plan_id: fx_plan_id, name: "get_user_date_ok".to_string() }).unwrap();
    let date_c = UserDateForCreate { user_id: fx_user_id, date: ModelDate::new(fx_date) };
    let q = UserDateBmc::create_statement(&date_c).unwrap();
    let fx_id = UserDateBmc::finish_create(exec(&conn, &q)).unwrap();
    let check_id = UserDateBmc::finish_get_date(exec(&conn, &UserDateBmc::get_date_query(&date_c)))
        .unwrap()
        .unwrap();
    assert_eq!(check_id, fx_id);
}

#[test]
fn scenario_trip_plan() {
    let conn = setup();
    let n = plan_create(&conn, &sample_plan("Trip", "abc123")).unwrap();
    let plan = plan_get(&conn, n).unwrap();
    assert_eq!(plan.id, n);
    assert_eq!(plan.name, "Trip");
    assert_eq!(plan.url_id, "abc123");
    assert_eq!(plan.description, None);
    let now = Timestamp::now().unwrap();
    assert_eq!(&plan.ctime.as_str()[..10], &now.as_str()[..10]);

    let q = UserBmc::create_statement(&UserForCreate { plan_id: n, name: "Ana".to_string() }, Returning::All).unwrap();
    let ana = UserBmc::finish_create_return(exec(&conn, &q)).unwrap();
    assert_eq!(ana.name, "Ana");
    assert_ne!(ana.web_id.to_text(), n.to_string());
    assert_eq!(ana.web_id.to_text().len(), 36);

    let date_c = UserDateForCreate { user_id: ana.id, date: ModelDate::new(date(2024, Month::September, 5)) };
    toggle(&conn, &date_c).unwrap();
    assert!(UserDateBmc::finish_get_date(exec(&conn, &UserDateBmc::get_date_query(&date_c))).unwrap().is_some());
    toggle(&conn, &date_c).unwrap();
    assert_eq!(UserDateBmc::finish_get_date(exec(&conn, &UserDateBmc::get_date_query(&date_c))).unwrap(), None);
}

#[test]
fn toggle_three_times_leaves_one_mark() {
    let conn = setup();
    let plan_id = plan_create(&conn, &sample_plan("p", "toggle3")).unwrap();
    let user_id = user_create(&conn, &UserForCreate { plan_id, name: "u".to_string() }).unwrap();
    let date_c = UserDateForCreate { user_id, date: ModelDate::new(date(2024, Month::May, 1)) };
    for _ in 0..3 {
        toggle(&conn, &date_c).unwrap();
    }
    let count: i64 = conn.query_row("SELECT COUNT(*) FROM user_date", [], |r| r.get(0)).unwrap();
    assert_eq!(count, 1);
}

#[test]
fn duplicate_url_id_is_a_constraint_violation() {
    let conn = setup();
    let first = plan_create(&conn, &sample_plan("a", "same")).unwrap();
    let second = plan_create(&conn, &sample_plan("b", "same"));
    assert!(matches!(second, Err(Error::Query(DbError { kind: DbErrorKind::ConstraintViolation, .. }))));
    let count: i64 = conn.query_row("SELECT COUNT(*) FROM plan", [], |r| r.get(0)).unwrap();
    assert_eq!(count, 1);
    assert_eq!(plan_get(&conn, first).unwrap().name, "a");
}

#[test]
fn delete_then_get_is_not_found() {
    let conn = setup();
    let id = plan_create(&conn, &sample_plan("gone", "gone")).unwrap();
    plan_delete(&conn, id).unwrap();
    match plan_get(&conn, id) {
        Err(Error::EntityNotFound { entity, id: missing }) => {
            assert_eq!(entity, "plan");
            assert_eq!(missing, id);
        }
        other => panic!("unexpected {other:?}"),
    }
}

#[test]
fn delete_of_missing_id_is_not_found() {
    let conn = setup();
    let id = plan_create(&conn, &sample_plan("kept", "kept")).unwrap();
    let r = plan_delete(&conn, id + 100);
    assert!(matches!(r, Err(Error::EntityNotFound { id: missing, .. }) if missing == id + 100));
    assert_eq!(plan_get(&conn, id).unwrap().name, "kept");
}

#[test]
fn plan_description_round_trips() {
    let conn = setup();
    let plan_c = PlanForCreate {
        name: "n".to_string(),
        url_id: "with_description".to_string(),
        description: Some("a long weekend".to_string()),
    };
    let id = plan_create(&conn, &plan_c).unwrap();
    assert_eq!(plan_get(&conn, id).unwrap().description, Some("a long weekend".to_string()));
}

#[test]
fn unknown_slug_is_plan_url_not_found() {
    let conn = setup();
    let q = PlanBmc::get_plan_by_url_query("nothing");
    let r = PlanBmc::finish_get_plan_by_url("nothing", exec(&conn, &q));
    assert!(matches!(r, Err(Error::PlanUrlNotFound { ref url_id }) if url_id == "nothing"));
}

#[test]
fn rendered_statements() {
    let now = Timestamp::from_text("2024-09-05T10:00:00Z").unwrap();
    let q = PlanBmc::create_query(&sample_plan("Trip", "abc123"), &now, Returning::Id).unwrap();
    assert_eq!(
        render_sql(&q),
        "INSERT INTO \"plan\" (\"name\", \"url_id\", \"ctime\") VALUES (?, ?, ?) RETURNING \"id\""
    );
    let params = bind_params(&q);
    assert_eq!(params.len(), 3);
    assert!(matches!(&params[2], SqlValue::Text(t) if t == "2024-09-05T10:00:00Z"));
    assert_eq!(
        render_sql(&PlanBmc::get_query(7)),
        "SELECT \"id\", \"name\", \"url_id\", \"description\", \"ctime\" FROM \"plan\" WHERE \"id\" = ?"
    );
    assert_eq!(render_sql(&PlanBmc::delete_query(7)), "DELETE FROM \"plan\" WHERE \"id\" = ?");
    let date_c = UserDateForCreate { user_id: 3, date: ModelDate::new(date(2024, Month::May, 1)) };
    assert_eq!(
        render_sql(&UserDateBmc::get_date_query(&date_c)),
        "SELECT \"id\" FROM \"user_date\" WHERE \"user_id\" = ? AND \"date\" = ?"
    );
    let r = PlanBmc::create_query(&sample_plan("Trip", "abc123"), &now, Returning::All).unwrap();
    assert!(render_sql(&r).ends_with(" RETURNING *"));
}

#[test]
fn user_create_injects_web_id_after_ctime() {
    let now = Timestamp::from_text("2024-09-05T10:00:00Z").unwrap();
    let w = quickplan::fields::WebId::new(1);
    let q = UserBmc::create_query(&UserForCreate { plan_id: 1, name: "Ana".to_string() }, &now, w, Returning::Id).unwrap();
    assert_eq!(
        render_sql(&q),
        "INSERT INTO \"plan_user\" (\"plan_id\", \"name\", \"ctime\", \"web_id\") VALUES (?, ?, ?, ?) RETURNING \"id\""
    );
    let params = bind_params(&q);
    assert!(matches!(&params[3], SqlValue::Text(t) if t == "00000000-0000-0000-0000-000000000001"));
}

#[test]
fn plan_date_batch_renders_one_group_per_date() {
    let now = Timestamp::from_text("2024-09-05T10:00:00Z").unwrap();
    let m = PlanDateForCreateMulti {
        plan_id: 1,
        user_id: 2,
        dates: vec![date(2024, Month::May, 1), date(2024, Month::May, 2)],
    };
    let q = PlanDateBmc::create_multiple_query(&m, &now).unwrap();
    assert_eq!(
        render_sql(&q),
        "INSERT INTO \"plan_date\" (\"plan_id\", \"user_id\", \"date\", \"ctime\") VALUES (?, ?, ?, ?), (?, ?, ?, ?) RETURNING \"id\""
    );
    assert_eq!(bind_params(&q).len(), 8);
}

fn row(fields: Vec<(&str, SqlValue)>) -> Vec<Field> {
    fields.into_iter().map(|(n, v)| Field { name: n.to_string(), value: v }).collect()
}

#[test]
fn result_readers_report_each_failure() {
    let table = TableDesc { name: "plan".to_string(), has_creation_timestamp: true, has_web_id: false };
    assert!(matches!(finish_create(Ok(Outcome::Rows(vec![]))), Err(Error::NoRowReturned)));
    assert!(matches!(finish_create(Ok(Outcome::Changed(1))), Err(Error::UnexpectedOutcome)));
    assert_eq!(finish_create(Ok(Outcome::Rows(vec![row(vec![("id", SqlValue::Integer(9))])]))).unwrap(), 9);
    assert!(matches!(
        finish_create(Ok(Outcome::Rows(vec![row(vec![("id", SqlValue::Text("x".to_string()))])]))),
        Err(Error::Decode { reason: DecodeReason::InvalidType, .. })
    ));
    assert!(matches!(
        finish_create(Ok(Outcome::Rows(vec![row(vec![("other", SqlValue::Integer(1))])]))),
        Err(Error::Decode { reason: DecodeReason::Missing, .. })
    ));
    let err = DbError { kind: DbErrorKind::Other, message: "disk".to_string() };
    assert!(matches!(finish_delete(&table, 1, Err(err)), Err(Error::Query(_))));
    assert!(matches!(finish_delete(&table, 1, Ok(Outcome::Changed(0))), Err(Error::EntityNotFound { id: 1, .. })));
    assert!(finish_delete(&table, 1, Ok(Outcome::Changed(1))).is_ok());
    assert!(matches!(finish_get(&table, 4, Ok(Outcome::Rows(vec![]))), Err(Error::EntityNotFound { id: 4, .. })));
    let bad_time = row(vec![
        ("id", SqlValue::Integer(1)),
        ("name", SqlValue::Text("n".to_string())),
        ("url_id", SqlValue::Text("u".to_string())),
        ("description", SqlValue::Null),
        ("ctime", SqlValue::Text("yesterday".to_string())),
    ]);
    assert!(matches!(
        PlanBmc::finish_get(1, Ok(Outcome::Rows(vec![bad_time]))),
        Err(Error::Decode { reason: DecodeReason::InvalidText, ref column }) if column == "ctime"
    ));
}

#[test]
fn client_errors_hide_internals() {
    let (status, ce) = client_status_and_error(&Error::EntityNotFound { entity: "plan".to_string(), id: 3 });
    assert_eq!(status, 404);
    assert!(matches!(ce, ClientError::ENTITY_NOT_FOUND { ref entity, id: 3 } if entity == "plan"));
    let (status, ce) = client_status_and_error(&Error::NoRowReturned);
    assert_eq!(status, 500);
    assert!(matches!(ce, ClientError::SERVICE_ERROR));
}

#[test]
fn lookup_by_web_id_refuses_another_user() {
    let now = Timestamp::now().unwrap();
    let other = quickplan::fields::WebId::new(2);
    let row = row(vec![
        ("id", SqlValue::Integer(1)),
        ("name", SqlValue::Text("Ana".to_string())),
        ("web_id", SqlValue::Text(other.to_text())),
        ("ctime", SqlValue::Text(now.as_str().to_string())),
    ]);
    let wanted = quickplan::fields::WebId::new(1);
    let r = UserBmc::finish_get_user_with_web_id(wanted, Ok(Outcome::Rows(vec![row.clone()])));
    assert!(matches!(r, Err(Error::UserWebIdNotFound { web_id }) if web_id == wanted));
    let u = UserBmc::finish_get_user_with_web_id(other, Ok(Outcome::Rows(vec![row]))).unwrap();
    assert_eq!(u.web_id, other);
}

#[test]
fn too_long_name_is_refused_before_anything_else() {
    let long = "x".repeat(129);
    let r = PlanBmc::create_statement(&sample_plan(&long, "ok"), Returning::Id);
    assert!(matches!(r, Err(Error::InputTooLong { ref field, max: 128 }) if field == "name"));
    let r = UserBmc::create_statement(&UserForCreate { plan_id: 1, name: long }, Returning::Id);
    assert!(matches!(r, Err(Error::InputTooLong { ref field, max: 128 }) if field == "name"));
}
