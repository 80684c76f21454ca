//! Availability marks: one row per user and date, switched on and off by
//! the toggle protocol.

use vstd::prelude::*;
use crate::crud::{self, TableDesc, create_fields, ctime_col, date_col, insert_spec, int_col};
use crate::error::{Error, ErrorV, plain_result};
use crate::fields::{ModelDate, Timestamp, WebId, date_text};
use crate::sql::{
    DbError, Field, Outcome, OutcomeV, Query, QueryV, Returning, SqlValue, Val, fields_view,
    names_view, outcome_view, query_wf,
};

verus! {

// region:    --- User Date Types

/// A stored availability mark.
#[derive(Debug, Clone)]
pub struct UserDate {
    pub id: i64,
    pub user_id: i64,
    pub date: ModelDate,
    pub ctime: Timestamp,
}

/// The mathematical form of a mark: the date as year, month and day.
pub struct UserDateV {
    pub id: i64,
    pub user_id: i64,
    pub date: (int, int, int),
    pub ctime: Seq<char>,
}

impl View for UserDate {
    type V = UserDateV;

    open spec fn view(&self) -> UserDateV {
        UserDateV {
            id: self.id,
            user_id: self.user_id,
            date: (self.date.0.spec_year(), self.date.0.spec_month(), self.date.0.spec_day()),
            ctime: self.ctime@,
        }
    }
}

/// The mark columns that lookups filter on.
pub enum UserDateIden {
    UserId,
    Date,
}

impl UserDateIden {
    pub fn name(&self) -> (r: &'static str)
        ensures
            *self == UserDateIden::UserId ==> r@ == "user_id"@,
            *self == UserDateIden::Date ==> r@ == "date"@,
    {
        match self {
            UserDateIden::UserId => "user_id",
            UserDateIden::Date => "date",
        }
    }
}

/// A user and a date: what a mark is created from, and what the toggle looks up.
#[derive(Debug, Clone, Copy)]
pub struct UserDateForCreate {
    pub user_id: i64,
    pub date: ModelDate,
}

// endregion: --- User Date Types

// region:    --- Field model

pub open spec fn user_date_fields(u: UserDateForCreate) -> Seq<(Seq<char>, Val)> {
    seq![("user_id"@, Val::Int(u.user_id)), ("date"@, Val::Text(date_text(u.date.0)))]
}

pub open spec fn user_date_columns() -> Seq<Seq<char>> {
    seq!["id"@, "user_id"@, "date"@, "ctime"@]
}

/// The mark a row holds.
pub open spec fn user_date_from_row(row: Seq<(Seq<char>, Val)>) -> Result<UserDateV, ErrorV> {
    match int_col(row, "id"@) {
        Err(e) => Err(e),
        Ok(id) => match int_col(row, "user_id"@) {
            Err(e) => Err(e),
            Ok(user_id) => match date_col(row, "date"@) {
                Err(e) => Err(e),
                Ok(date) => match ctime_col(row) {
                    Err(e) => Err(e),
                    Ok(ctime) => Ok(UserDateV { id, user_id, date, ctime }),
                },
            },
        },
    }
}

pub open spec fn user_date_result(r: Result<UserDate, Error>) -> Result<UserDateV, ErrorV> {
    match r {
        Ok(u) => Ok(u@),
        Err(e) => Err(e@),
    }
}

impl UserDateForCreate {
    /// The fields of the payload, in declaration order.
    pub fn fields(&self) -> (r: Vec<Field>)
        requires
            self.date.0.wf(),
        ensures
            fields_view(r@) == user_date_fields(*self),
    {
        let mut v: Vec<Field> = Vec::new();
        v.push(Field { name: String::from_str("user_id"), value: SqlValue::Integer(self.user_id) });
        v.push(Field { name: String::from_str("date"), value: SqlValue::Text(self.date.to_text()) });
        assert(fields_view(v@) =~= user_date_fields(*self));
        v
    }
}

impl UserDate {
    /// The columns a mark is read from.
    pub fn columns() -> (r: Vec<String>)
        ensures
            names_view(r@) == user_date_columns(),
    {
        let mut v: Vec<String> = Vec::new();
        v.push(String::from_str("id"));
        v.push(String::from_str("user_id"));
        v.push(String::from_str("date"));
        v.push(String::from_str("ctime"));
        assert(names_view(v@) =~= user_date_columns());
        v
    }

    /// Reads a mark from a row.
    pub fn from_row(row: &Vec<Field>) -> (r: Result<UserDate, Error>)
        ensures
            user_date_result(r) == user_date_from_row(fields_view(row@)),
    {
        let id = crud::read_int(row, "id")?;
        let user_id = crud::read_int(row, "user_id")?;
        let date = crud::read_date(row, "date")?;
        let ctime = crud::read_ctime(row)?;
        Ok(UserDate { id, user_id, date, ctime })
    }
}

// endregion: --- Field model

// region:    --- User Date Bmc

/// The mark table's controller.
pub struct UserDateBmc;

pub open spec fn user_date_table_name() -> Seq<char> {
    "user_date"@
}

/// The statement that creates the mark `u` at instant `now`.
pub open spec fn user_date_create_spec(u: UserDateForCreate, now: Seq<char>) -> QueryV {
    insert_spec(
        user_date_table_name(),
        user_date_fields(u) + seq![("ctime"@, Val::Text(now))],
        Returning::Id,
    )
}

/// The filter that finds the marks of a user on a date.
pub open spec fn pair_filter(u: UserDateForCreate) -> Seq<(Seq<char>, Val)> {
    user_date_fields(u)
}

/// The lookup that the toggle starts with: the ids of the marks of `u`'s user and date.
pub open spec fn get_date_spec(u: UserDateForCreate) -> QueryV {
    QueryV::Select { table: user_date_table_name(), columns: seq!["id"@], filter: pair_filter(u) }
}

/// What the lookup finds: the id of the first mark returned, if any.
pub open spec fn get_date_result(out: OutcomeV) -> Result<Option<i64>, ErrorV> {
    match out {
        OutcomeV::Failed(k) => Err(ErrorV::Query(k)),
        OutcomeV::Changed(_) => Err(ErrorV::UnexpectedOutcome),
        OutcomeV::Rows(rows) => if rows.len() == 0 {
            Ok(None)
        } else {
            match int_col(rows[0], "id"@) {
                Ok(id) => Ok(Some(id)),
                Err(e) => Err(e),
            }
        },
    }
}

/// The second step of the toggle: what to do once the lookup has answered.
pub enum ToggleAction {
    /// A mark exists: delete it by its primary key.
    Delete { id: i64, query: Query },
    /// No mark exists: create one.
    Create { query: Query },
}

/// The statement the toggle's second step runs, for a lookup that found `found`.
pub open spec fn toggle_spec(u: UserDateForCreate, found: Option<i64>, now: Seq<char>) -> QueryV {
    match found {
        Some(id) => QueryV::Delete { table: user_date_table_name(), filter: crud::id_filter(id) },
        None => user_date_create_spec(u, now),
    }
}

impl ToggleAction {
    pub open spec fn query_view(&self) -> QueryV {
        match self {
            ToggleAction::Delete { query, .. } => query@,
            ToggleAction::Create { query } => query@,
        }
    }
}

impl UserDateBmc {
    /// The mark table: it has a creation timestamp and no external identifier.
    pub fn table() -> (r: TableDesc)
        ensures
            r.name@ == user_date_table_name(),
            r.has_creation_timestamp,
            !r.has_web_id,
    {
        TableDesc {
            name: String::from_str("user_date"),
            has_creation_timestamp: true,
            has_web_id: false,
        }
    }

    /// The statement that creates `date_c` with creation time `now`.
    pub fn create_query(date_c: &UserDateForCreate, now: &Timestamp) -> (r: Query)
        requires
            date_c.date.0.wf(),
        ensures
            r@ == user_date_create_spec(*date_c, now@),
            query_wf(r@),
    {
        let table = Self::table();
        let fields = date_c.fields();
        let ghost fs = fields_view(fields@);
        let q = crud::create_query(&table, fields, now, WebId::new(0));
        assert(create_fields(&table, fs, now@, 0) =~= user_date_fields(*date_c) + seq![
            ("ctime"@, Val::Text(now@)),
        ]);
        q
    }

    /// The statement that creates `date_c` now.
    pub fn create_statement(date_c: &UserDateForCreate) -> (r: Result<Query, Error>)
        requires
            date_c.date.0.wf(),
        ensures
            match r {
                Ok(q) => query_wf(q@) && exists|now: Timestamp|
                    now.wf() && #[trigger] user_date_create_spec(*date_c, now@) == q@,
                Err(e) => e@ == ErrorV::TimeFormat,
            },
    {
        let now = match Timestamp::now() {
            Ok(t) => t,
            Err(_) => return Err(Error::TimeFormat),
        };
        let q = Self::create_query(date_c, &now);
        assert(user_date_create_spec(*date_c, now@) == q@);
        Ok(q)
    }

    /// Reads the result of a create: the new mark's primary key.
    pub fn finish_create(res: Result<Outcome, DbError>) -> (r: Result<i64, Error>)
        ensures
            plain_result(r) == crud::create_result(outcome_view(res)),
    {
        crud::finish_create(res)
    }

    /// The select of the mark with primary key `id`.
    pub fn get_query(id: i64) -> (r: Query)
        ensures
            r@ == (QueryV::Select {
                table: user_date_table_name(),
                columns: user_date_columns(),
                filter: crud::id_filter(id),
            }),
    {
        crud::get_query(&Self::table(), UserDate::columns(), id)
    }

    /// Reads the result of a get by primary key.
    pub fn finish_get(id: i64, res: Result<Outcome, DbError>) -> (r: Result<UserDate, Error>)
        ensures
            match crud::get_row_result(user_date_table_name(), id, outcome_view(res)) {
                Ok(row) => user_date_result(r) == user_date_from_row(row),
                Err(e) => user_date_result(r) == Err::<UserDateV, ErrorV>(e),
            },
    {
        let row = crud::finish_get(&Self::table(), id, res)?;
        UserDate::from_row(&row)
    }

    /// The delete of the mark with primary key `id`.
    pub fn delete_query(id: i64) -> (r: Query)
        ensures
            r@ == (QueryV::Delete { table: user_date_table_name(), filter: crud::id_filter(id) }),
    {
        crud::delete_query(&Self::table(), id)
    }

    /// Reads the result of a delete by primary key.
    pub fn finish_delete(id: i64, res: Result<Outcome, DbError>) -> (r: Result<(), Error>)
        ensures
            plain_result(r) == crud::delete_result(user_date_table_name(), id, outcome_view(res)),
    {
        crud::finish_delete(&Self::table(), id, res)
    }

    /// The lookup of the marks of `date_c`'s user on its date.
    pub fn get_date_query(date_c: &UserDateForCreate) -> (r: Query)
        requires
            date_c.date.0.wf(),
        ensures
            r@ == get_date_spec(*date_c),
    {
        let mut columns: Vec<String> = Vec::new();
        columns.push(String::from_str("id"));
        assert(names_view(columns@) =~= seq!["id"@]);
        Query::Select { table: Self::table().name, columns, filter: date_c.fields() }
    }

    /// Reads the lookup's answer: the id of a mark, if one exists.
    pub fn finish_get_date(res: Result<Outcome, DbError>) -> (r: Result<Option<i64>, Error>)
        ensures
            plain_result(r) == get_date_result(outcome_view(res)),
    {
        match res {
            Err(e) => Err(Error::Query(e)),
            Ok(Outcome::Changed(_)) => Err(Error::UnexpectedOutcome),
            Ok(Outcome::Rows(rows)) => {
                if rows.len() == 0 {
                    Ok(None)
                } else {
                    let id = crud::read_int(&rows[0], "id")?;
                    Ok(Some(id))
                }
            },
        }
    }

    /// The toggle's decision: delete the mark the lookup found, or create one.
    pub fn toggle_action(date_c: &UserDateForCreate, found: Option<i64>, now: &Timestamp) -> (r:
        ToggleAction)
        requires
            date_c.date.0.wf(),
        ensures
            r.query_view() == toggle_spec(*date_c, found, now@),
            query_wf(r.query_view()),
            match found {
                Some(id) => r matches ToggleAction::Delete { id: i, .. } && i == id,
                None => r is Create,
            },
    {
        match found {
            Some(id) => ToggleAction::Delete { id, query: Self::delete_query(id) },
            None => ToggleAction::Create { query: Self::create_query(date_c, now) },
        }
    }
}

// endregion: --- User Date Bmc

} // verus!
