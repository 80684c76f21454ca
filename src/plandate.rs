//! Dates selected for a plan by a user, created in batches.

use vstd::prelude::*;
use crate::crud::{
    self, TableDesc, create_many_fields, ctime_col, date_col, field_names, insert_many_spec, int_col,
};
use crate::date::Date;
use crate::error::{Error, ErrorV, plain_result};
use crate::fields::{ModelDate, Timestamp, WebId, date_text};
use crate::sql::{
    DbError, Field, Outcome, Query, QueryV, Returning, SqlValue, Val, fields_view,
    names_view, outcome_view,
};

verus! {

/// A stored plan date.
#[derive(Debug, Clone)]
pub struct PlanDate {
    pub plan_id: i64,
    pub user_id: i64,
    pub date: ModelDate,
    pub ctime: Timestamp,
}

/// What a caller supplies to create one plan date.
#[derive(Debug, Clone, Copy)]
pub struct PlanDateForCreate {
    pub plan_id: i64,
    pub user_id: i64,
    pub date: ModelDate,
}

/// Several dates of one user on one plan.
#[derive(Debug, Clone)]
pub struct PlanDateForCreateMulti {
    pub plan_id: i64,
    pub user_id: i64,
    pub dates: Vec<Date>,
}

/// The mathematical form of a plan date: the date as year, month and day.
pub struct PlanDateV {
    pub plan_id: i64,
    pub user_id: i64,
    pub date: (int, int, int),
    pub ctime: Seq<char>,
}

impl View for PlanDate {
    type V = PlanDateV;

    open spec fn view(&self) -> PlanDateV {
        PlanDateV {
            plan_id: self.plan_id,
            user_id: self.user_id,
            date: (self.date.0.spec_year(), self.date.0.spec_month(), self.date.0.spec_day()),
            ctime: self.ctime@,
        }
    }
}

/// The plan date a row holds.
pub open spec fn plan_date_from_row(row: Seq<(Seq<char>, Val)>) -> Result<PlanDateV, ErrorV> {
    match int_col(row, "plan_id"@) {
        Err(e) => Err(e),
        Ok(plan_id) => match int_col(row, "user_id"@) {
            Err(e) => Err(e),
            Ok(user_id) => match date_col(row, "date"@) {
                Err(e) => Err(e),
                Ok(date) => match ctime_col(row) {
                    Err(e) => Err(e),
                    Ok(ctime) => Ok(PlanDateV { plan_id, user_id, date, ctime }),
                },
            },
        },
    }
}

pub open spec fn plan_date_result(r: Result<PlanDate, Error>) -> Result<PlanDateV, ErrorV> {
    match r {
        Ok(p) => Ok(p@),
        Err(e) => Err(e@),
    }
}

pub open spec fn plan_date_fields(p: PlanDateForCreate) -> Seq<(Seq<char>, Val)> {
    seq![
        ("plan_id"@, Val::Int(p.plan_id)),
        ("user_id"@, Val::Int(p.user_id)),
        ("date"@, Val::Text(date_text(p.date.0))),
    ]
}

pub open spec fn plan_date_columns() -> Seq<Seq<char>> {
    seq!["plan_id"@, "user_id"@, "date"@, "ctime"@]
}

pub open spec fn plan_date_table_name() -> Seq<char> {
    "plan_date"@
}

/// The insert of one plan date per date of `m`, created at instant `now`.
pub open spec fn plan_date_multi_spec(m: PlanDateForCreateMulti, now: Seq<char>) -> QueryV {
    insert_many_spec(
        plan_date_table_name(),
        Seq::new(
            m.dates@.len(),
            |i: int|
                plan_date_fields(
                    PlanDateForCreate { plan_id: m.plan_id, user_id: m.user_id, date: ModelDate(m.dates@[i]) },
                ) + seq![("ctime"@, Val::Text(now))],
        ),
        Returning::Id,
    )
}

impl PlanDateForCreate {
    /// The fields of the payload, in declaration order.
    pub fn fields(&self) -> (r: Vec<Field>)
        requires
            self.date.0.wf(),
        ensures
            fields_view(r@) == plan_date_fields(*self),
    {
        let mut v: Vec<Field> = Vec::new();
        v.push(Field { name: String::from_str("plan_id"), value: SqlValue::Integer(self.plan_id) });
        v.push(Field { name: String::from_str("user_id"), value: SqlValue::Integer(self.user_id) });
        v.push(Field { name: String::from_str("date"), value: SqlValue::Text(self.date.to_text()) });
        assert(fields_view(v@) =~= plan_date_fields(*self));
        v
    }
}

impl PlanDate {
    /// The columns a plan date is read from.
    pub fn columns() -> (r: Vec<String>)
        ensures
            names_view(r@) == plan_date_columns(),
    {
        let mut v: Vec<String> = Vec::new();
        v.push(String::from_str("plan_id"));
        v.push(String::from_str("user_id"));
        v.push(String::from_str("date"));
        v.push(String::from_str("ctime"));
        assert(names_view(v@) =~= plan_date_columns());
        v
    }

    /// Reads a plan date from a row.
    pub fn from_row(row: &Vec<Field>) -> (r: Result<PlanDate, Error>)
        ensures
            plan_date_result(r) == plan_date_from_row(fields_view(row@)),
    {
        let plan_id = crud::read_int(row, "plan_id")?;
        let user_id = crud::read_int(row, "user_id")?;
        let date = crud::read_date(row, "date")?;
        let ctime = crud::read_ctime(row)?;
        Ok(PlanDate { plan_id, user_id, date, ctime })
    }
}

/// The plan date table's controller.
pub struct PlanDateBmc;

impl PlanDateBmc {
    /// The plan date table: it has a creation timestamp and no external identifier.
    pub fn table() -> (r: TableDesc)
        ensures
            r.name@ == plan_date_table_name(),
            r.has_creation_timestamp,
            !r.has_web_id,
    {
        TableDesc {
            name: String::from_str("plan_date"),
            has_creation_timestamp: true,
            has_web_id: false,
        }
    }

    /// One payload per date, sharing the plan and the user, in input order.
    pub fn split(date_c_m: &PlanDateForCreateMulti) -> (r: Vec<PlanDateForCreate>)
        ensures
            r@.len() == date_c_m.dates@.len(),
            forall|i: int|
                0 <= i < r@.len() ==> #[trigger] r@[i] == (PlanDateForCreate {
                    plan_id: date_c_m.plan_id,
                    user_id: date_c_m.user_id,
                    date: ModelDate(date_c_m.dates@[i]),
                }),
    {
        let mut v: Vec<PlanDateForCreate> = Vec::new();
        let mut i: usize = 0;
        while i < date_c_m.dates.len()
            invariant
                i <= date_c_m.dates@.len(),
                v@.len() == i,
                forall|k: int|
                    0 <= k < i ==> #[trigger] v@[k] == (PlanDateForCreate {
                        plan_id: date_c_m.plan_id,
                        user_id: date_c_m.user_id,
                        date: ModelDate(date_c_m.dates@[k]),
                    }),
            decreases date_c_m.dates@.len() - i,
        {
            v.push(
                PlanDateForCreate {
                    plan_id: date_c_m.plan_id,
                    user_id: date_c_m.user_id,
                    date: ModelDate::new(date_c_m.dates[i]),
                },
            );
            i = i + 1;
        }
        v
    }

    /// The statement that creates one plan date per date of `date_c_m`, with
    /// creation time `now`; nothing for no date.
    pub fn create_multiple_query(date_c_m: &PlanDateForCreateMulti, now: &Timestamp) -> (r: Option<
        Query,
    >)
        requires
            forall|i: int| 0 <= i < date_c_m.dates@.len() ==> (#[trigger] date_c_m.dates@[i]).wf(),
        ensures
            date_c_m.dates@.len() == 0 ==> r is None,
            date_c_m.dates@.len() > 0 ==> (r matches Some(q) && q@ == plan_date_multi_spec(
                *date_c_m,
                now@,
            ) && crate::sql::query_wf(q@)),
    {
        let table = Self::table();
        let items = Self::split(date_c_m);
        let mut data: Vec<Vec<Field>> = Vec::new();
        let mut web_ids: Vec<WebId> = Vec::new();
        let mut i: usize = 0;
        while i < items.len()
            invariant
                i <= items@.len(),
                items@.len() == date_c_m.dates@.len(),
                forall|k: int|
                    0 <= k < items@.len() ==> #[trigger] items@[k] == (PlanDateForCreate {
                        plan_id: date_c_m.plan_id,
                        user_id: date_c_m.user_id,
                        date: ModelDate(date_c_m.dates@[k]),
                    }),
                forall|k: int|
                    0 <= k < date_c_m.dates@.len() ==> (#[trigger] date_c_m.dates@[k]).wf(),
                data@.len() == i,
                web_ids@.len() == i,
                forall|k: int|
                    0 <= k < i ==> fields_view((#[trigger] data@[k])@) == plan_date_fields(items@[k]),
            decreases items@.len() - i,
        {
            data.push(items[i].fields());
            web_ids.push(WebId::new(0));
            i = i + 1;
        }
        proof {
            assert forall|k: int| 0 <= k < data@.len() implies field_names(
                fields_view((#[trigger] data@[k])@),
            ) == field_names(fields_view(data@[0]@)) by {
                assert(field_names(fields_view(data@[k]@)) =~= seq!["plan_id"@, "user_id"@, "date"@]);
                assert(field_names(fields_view(data@[0]@)) =~= seq!["plan_id"@, "user_id"@, "date"@]);
            }
        }
        let ghost dv = data@;
        let ghost wv = web_ids@;
        let r = crud::create_multiple_query(&table, data, now, &web_ids);
        proof {
            if date_c_m.dates@.len() > 0 {
                let want = Seq::new(
                    date_c_m.dates@.len(),
                    |i: int|
                        plan_date_fields(
                            PlanDateForCreate {
                                plan_id: date_c_m.plan_id,
                                user_id: date_c_m.user_id,
                                date: ModelDate(date_c_m.dates@[i]),
                            },
                        ) + seq![("ctime"@, Val::Text(now@))],
                );
                assert(create_many_fields(&table, dv, now@, wv) =~= want);
            }
        }
        r
    }

    /// The statement that creates every date of `date_c_m` now; nothing for no date.
    pub fn create_multiple_statement(date_c_m: &PlanDateForCreateMulti) -> (r: Result<
        Option<Query>,
        Error,
    >)
        requires
            forall|i: int| 0 <= i < date_c_m.dates@.len() ==> (#[trigger] date_c_m.dates@[i]).wf(),
        ensures
            date_c_m.dates@.len() == 0 ==> r matches Ok(None),
            r matches Ok(o) ==> (o is None <==> date_c_m.dates@.len() == 0),
            r matches Ok(Some(q)) ==> crate::sql::query_wf(q@) && exists|now: Timestamp|
                now.wf() && #[trigger] plan_date_multi_spec(*date_c_m, now@) == q@,
            r matches Err(e) ==> e@ == ErrorV::TimeFormat,
    {
        if date_c_m.dates.len() == 0 {
            return Ok(None);
        }
        let now = match Timestamp::now() {
            Ok(t) => t,
            Err(_) => return Err(Error::TimeFormat),
        };
        let r = Self::create_multiple_query(date_c_m, &now);
        if let Some(q) = &r {
            assert(plan_date_multi_spec(*date_c_m, now@) == q@);
        }
        Ok(r)
    }

    /// Reads the result of a create of several plan dates: the new primary keys.
    pub fn finish_create_multiple(res: Result<Outcome, DbError>) -> (r: Result<Vec<i64>, Error>)
        ensures
            match r {
                Ok(ids) => crud::ids_result(outcome_view(res)) == Ok::<Seq<i64>, ErrorV>(ids@),
                Err(e) => crud::ids_result(outcome_view(res)) == Err::<Seq<i64>, ErrorV>(e@),
            },
    {
        crud::finish_create_multiple(res)
    }

    /// The select of the plan date with primary key `id`.
    pub fn get_query(id: i64) -> (r: Query)
        ensures
            r@ == (QueryV::Select {
                table: plan_date_table_name(),
                columns: plan_date_columns(),
                filter: crud::id_filter(id),
            }),
    {
        crud::get_query(&Self::table(), PlanDate::columns(), id)
    }

    /// Reads the result of a get by primary key.
    pub fn finish_get(id: i64, res: Result<Outcome, DbError>) -> (r: Result<PlanDate, Error>)
        ensures
            match crud::get_row_result(plan_date_table_name(), id, outcome_view(res)) {
                Ok(row) => plan_date_result(r) == plan_date_from_row(row),
                Err(e) => plan_date_result(r) == Err::<PlanDateV, ErrorV>(e),
            },
    {
        let row = crud::finish_get(&Self::table(), id, res)?;
        PlanDate::from_row(&row)
    }

    /// The delete of the plan date with primary key `id`.
    pub fn delete_query(id: i64) -> (r: Query)
        ensures
            r@ == (QueryV::Delete { table: plan_date_table_name(), filter: crud::id_filter(id) }),
    {
        crud::delete_query(&Self::table(), id)
    }

    /// Reads the result of a delete by primary key.
    pub fn finish_delete(id: i64, res: Result<Outcome, DbError>) -> (r: Result<(), Error>)
        ensures
            plain_result(r) == crud::delete_result(plan_date_table_name(), id, outcome_view(res)),
    {
        crud::finish_delete(&Self::table(), id, res)
    }
}

} // verus!
