//! Plans: the shareable unit that invitees register on.

use vstd::prelude::*;
use crate::crud::{
    self, TableDesc, create_fields, ctime_col, insert_spec, int_col, opt_text_col, text_col,
};
use crate::error::{Error, ErrorV, plain_result};
use crate::fields::Timestamp;
use crate::sql::{
    DbError, Field, Outcome, OutcomeV, Query, QueryV, Returning, SqlValue, Val, fields_view,
    names_view, outcome_view, query_wf,
};

verus! {

pub const NAME_MAX: usize = 128;

pub const URL_ID_MAX: usize = 128;

pub const DESCRIPTION_MAX: usize = 2000;

// region:    --- Plan Types

/// A stored plan.
#[derive(Debug, Clone)]
pub struct Plan {
    pub id: i64,
    pub name: String,
    pub url_id: String,
    pub description: Option<String>,
    pub ctime: Timestamp,
}

/// The mathematical form of a plan.
pub struct PlanV {
    pub id: i64,
    pub name: Seq<char>,
    pub url_id: Seq<char>,
    pub description: Option<Seq<char>>,
    pub ctime: Seq<char>,
}

pub open spec fn opt_view(o: Option<String>) -> Option<Seq<char>> {
    match o {
        Some(s) => Some(s@),
        None => None,
    }
}

impl View for Plan {
    type V = PlanV;

    open spec fn view(&self) -> PlanV {
        PlanV {
            id: self.id,
            name: self.name@,
            url_id: self.url_id@,
            description: opt_view(self.description),
            ctime: self.ctime@,
        }
    }
}

/// What a caller supplies to create a plan.
#[derive(Debug, Clone)]
pub struct PlanForCreate {
    pub name: String,
    pub url_id: String,
    pub description: Option<String>,
}

/// The plan columns that lookups filter on.
pub enum PlanIden {
    UrlId,
}

impl PlanIden {
    pub fn name(&self) -> (r: &'static str)
        ensures
            r@ == "url_id"@,
    {
        "url_id"
    }
}

// endregion: --- Plan Types

// region:    --- Field model

/// The fields a plan payload writes: name, public slug, and the description
/// only when present.
pub open spec fn plan_fields(p: PlanForCreate) -> Seq<(Seq<char>, Val)> {
    seq![("name"@, Val::Text(p.name@)), ("url_id"@, Val::Text(p.url_id@))] + match p.description {
        Some(d) => seq![("description"@, Val::Text(d@))],
        None => Seq::empty(),
    }
}

/// The length checks made before any statement is built.
pub open spec fn plan_check(p: PlanForCreate) -> Result<(), ErrorV> {
    if p.name@.len() > NAME_MAX {
        Err(ErrorV::InputTooLong { field: "name"@, max: NAME_MAX })
    } else if p.url_id@.len() > URL_ID_MAX {
        Err(ErrorV::InputTooLong { field: "url_id"@, max: URL_ID_MAX })
    } else if p.description matches Some(d) && d@.len() > DESCRIPTION_MAX {
        Err(ErrorV::InputTooLong { field: "description"@, max: DESCRIPTION_MAX })
    } else {
        Ok(())
    }
}

/// The plan a row holds.
pub open spec fn plan_from_row(row: Seq<(Seq<char>, Val)>) -> Result<PlanV, ErrorV> {
    match int_col(row, "id"@) {
        Err(e) => Err(e),
        Ok(id) => match text_col(row, "name"@) {
            Err(e) => Err(e),
            Ok(name) => match text_col(row, "url_id"@) {
                Err(e) => Err(e),
                Ok(url_id) => match opt_text_col(row, "description"@) {
                    Err(e) => Err(e),
                    Ok(description) => match ctime_col(row) {
                        Err(e) => Err(e),
                        Ok(ctime) => Ok(PlanV { id, name, url_id, description, ctime }),
                    },
                },
            },
        },
    }
}

pub open spec fn plan_result(r: Result<Plan, Error>) -> Result<PlanV, ErrorV> {
    match r {
        Ok(p) => Ok(p@),
        Err(e) => Err(e@),
    }
}

pub open spec fn plan_columns() -> Seq<Seq<char>> {
    seq!["id"@, "name"@, "url_id"@, "description"@, "ctime"@]
}

fn text_field(name: &str, value: &String) -> (r: Field)
    ensures
        r@ == (name@, Val::Text(value@)),
{
    Field { name: String::from_str(name), value: SqlValue::Text(value.clone()) }
}

fn check_len(s: &String, field: &str, max: usize) -> (r: Result<(), Error>)
    ensures
        s@.len() > max ==> (r matches Err(e) && e@ == (ErrorV::InputTooLong { field: field@, max })),
        s@.len() <= max ==> r is Ok,
{
    if s.as_str().unicode_len() > max {
        Err(Error::InputTooLong { field: String::from_str(field), max })
    } else {
        Ok(())
    }
}

impl PlanForCreate {
    /// The fields present in the payload, in declaration order.
    pub fn fields(&self) -> (r: Vec<Field>)
        ensures
            fields_view(r@) == plan_fields(*self),
    {
        let mut v: Vec<Field> = Vec::new();
        v.push(text_field("name", &self.name));
        v.push(text_field("url_id", &self.url_id));
        match &self.description {
            Some(d) => v.push(text_field("description", d)),
            None => {},
        }
        assert(fields_view(v@) =~= plan_fields(*self));
        v
    }

    /// Rejects a payload whose texts are too long for their columns.
    pub fn validate(&self) -> (r: Result<(), Error>)
        ensures
            plain_result(r) == plan_check(*self),
    {
        check_len(&self.name, "name", NAME_MAX)?;
        check_len(&self.url_id, "url_id", URL_ID_MAX)?;
        match &self.description {
            Some(d) => check_len(d, "description", DESCRIPTION_MAX),
            None => Ok(()),
        }
    }
}

impl Plan {
    /// The columns a plan is read from.
    pub fn columns() -> (r: Vec<String>)
        ensures
            names_view(r@) == plan_columns(),
    {
        let mut v: Vec<String> = Vec::new();
        v.push(String::from_str("id"));
        v.push(String::from_str("name"));
        v.push(String::from_str("url_id"));
        v.push(String::from_str("description"));
        v.push(String::from_str("ctime"));
        assert(names_view(v@) =~= plan_columns());
        v
    }

    /// Reads a plan from a row.
    pub fn from_row(row: &Vec<Field>) -> (r: Result<Plan, Error>)
        ensures
            plan_result(r) == plan_from_row(fields_view(row@)),
    {
        let id = crud::read_int(row, "id")?;
        let name = crud::read_text(row, "name")?;
        let url_id = crud::read_text(row, "url_id")?;
        let description = crud::read_opt_text(row, "description")?;
        let ctime = crud::read_ctime(row)?;
        Ok(Plan { id, name, url_id, description, ctime })
    }
}

// endregion: --- Field model

// region:    --- PlanBmc

/// The plan table's controller.
pub struct PlanBmc;

pub open spec fn plan_table_name() -> Seq<char> {
    "plan"@
}

/// The statement that creates the plan `p` at instant `now`.
pub open spec fn plan_create_spec(p: PlanForCreate, now: Seq<char>, returning: Returning) -> QueryV {
    insert_spec(plan_table_name(), plan_fields(p) + seq![("ctime"@, Val::Text(now))], returning)
}

/// The first row of a result read as a plan, or `not_found` where there is none.
pub open spec fn first_plan(out: OutcomeV, not_found: ErrorV) -> Result<PlanV, ErrorV> {
    match out {
        OutcomeV::Failed(k) => Err(ErrorV::Query(k)),
        OutcomeV::Changed(_) => Err(ErrorV::UnexpectedOutcome),
        OutcomeV::Rows(rows) => if rows.len() == 0 {
            Err(not_found)
        } else {
            plan_from_row(rows[0])
        },
    }
}

impl PlanBmc {
    /// The plan table: it has a creation timestamp and no external identifier.
    pub fn table() -> (r: TableDesc)
        ensures
            r.name@ == plan_table_name(),
            r.has_creation_timestamp,
            !r.has_web_id,
    {
        TableDesc { name: String::from_str("plan"), has_creation_timestamp: true, has_web_id: false }
    }

    /// The statement that creates `plan_c` with creation time `now`, after
    /// the length checks.
    pub fn create_query(plan_c: &PlanForCreate, now: &Timestamp, returning: Returning) -> (r:
        Result<Query, Error>)
        ensures
            match r {
                Ok(q) => plan_check(*plan_c) is Ok && q@ == plan_create_spec(*plan_c, now@, returning)
                    && query_wf(q@),
                Err(e) => plan_check(*plan_c) == Err::<(), ErrorV>(e@),
            },
    {
        plan_c.validate()?;
        let table = Self::table();
        let fields = plan_c.fields();
        let ghost fs = fields_view(fields@);
        let q = if returning == Returning::Id {
            crud::create_query(&table, fields, now, crate::fields::WebId::new(0))
        } else {
            crud::create_return_query(&table, fields, now, crate::fields::WebId::new(0))
        };
        assert(create_fields(&table, fs, now@, 0) =~= plan_fields(*plan_c) + seq![
            ("ctime"@, Val::Text(now@)),
        ]);
        Ok(q)
    }

    /// The statement that creates `plan_c` now, after the length checks.
    pub fn create_statement(plan_c: &PlanForCreate, returning: Returning) -> (r: Result<Query, Error>)
        ensures
            plan_check(*plan_c) matches Err(e) ==> (r matches Err(f) && f@ == e),
            plan_check(*plan_c) is Ok ==> match r {
                Ok(q) => query_wf(q@) && exists|now: Timestamp|
                    now.wf() && #[trigger] plan_create_spec(*plan_c, now@, returning) == q@,
                Err(e) => e@ == ErrorV::TimeFormat,
            },
    {
        plan_c.validate()?;
        let now = match Timestamp::now() {
            Ok(t) => t,
            Err(_) => return Err(Error::TimeFormat),
        };
        let q = Self::create_query(plan_c, &now, returning)?;
        assert(plan_create_spec(*plan_c, now@, returning) == q@);
        Ok(q)
    }

    /// Reads the result of a create: the new plan's primary key.
    pub fn finish_create(res: Result<Outcome, DbError>) -> (r: Result<i64, Error>)
        ensures
            plain_result(r) == crud::create_result(outcome_view(res)),
    {
        crud::finish_create(res)
    }

    /// Reads the result of a create that returns the new row.
    pub fn finish_create_return(res: Result<Outcome, DbError>) -> (r: Result<Plan, Error>)
        ensures
            plan_result(r) == first_plan(outcome_view(res), ErrorV::NoRowReturned),
    {
        match res {
            Err(e) => Err(Error::Query(e)),
            Ok(Outcome::Changed(_)) => Err(Error::UnexpectedOutcome),
            Ok(Outcome::Rows(rows)) => {
                if rows.len() == 0 {
                    Err(Error::NoRowReturned)
                } else {
                    Plan::from_row(&rows[0])
                }
            },
        }
    }

    /// The select of the plan with primary key `id`.
    pub fn get_query(id: i64) -> (r: Query)
        ensures
            r@ == (QueryV::Select {
                table: plan_table_name(),
                columns: plan_columns(),
                filter: crud::id_filter(id),
            }),
    {
        crud::get_query(&Self::table(), Plan::columns(), id)
    }

    /// Reads the result of a get by primary key.
    pub fn finish_get(id: i64, res: Result<Outcome, DbError>) -> (r: Result<Plan, Error>)
        ensures
            plan_result(r) == first_plan(
                outcome_view(res),
                ErrorV::EntityNotFound { entity: plan_table_name(), id },
            ),
    {
        let row = crud::finish_get(&Self::table(), id, res)?;
        Plan::from_row(&row)
    }

    /// The delete of the plan with primary key `id`.
    pub fn delete_query(id: i64) -> (r: Query)
        ensures
            r@ == (QueryV::Delete { table: plan_table_name(), filter: crud::id_filter(id) }),
    {
        crud::delete_query(&Self::table(), id)
    }

    /// Reads the result of a delete by primary key.
    pub fn finish_delete(id: i64, res: Result<Outcome, DbError>) -> (r: Result<(), Error>)
        ensures
            plain_result(r) == crud::delete_result(plan_table_name(), id, outcome_view(res)),
    {
        crud::finish_delete(&Self::table(), id, res)
    }

    /// The select of the plan whose public slug is `url_id`.
    pub fn get_plan_by_url_query(url_id: &str) -> (r: Query)
        ensures
            r@ == (QueryV::Select {
                table: plan_table_name(),
                columns: plan_columns(),
                filter: seq![("url_id"@, Val::Text(url_id@))],
            }),
    {
        let mut filter: Vec<Field> = Vec::new();
        filter.push(Field {
            name: String::from_str(PlanIden::UrlId.name()),
            value: SqlValue::Text(String::from_str(url_id)),
        });
        assert(fields_view(filter@) =~= seq![("url_id"@, Val::Text(url_id@))]);
        Query::Select { table: Self::table().name, columns: Plan::columns(), filter }
    }

    /// Reads the result of a lookup by public slug.
    pub fn finish_get_plan_by_url(url_id: &str, res: Result<Outcome, DbError>) -> (r: Result<
        Plan,
        Error,
    >)
        ensures
            plan_result(r) == first_plan(
                outcome_view(res),
                ErrorV::PlanUrlNotFound { url_id: url_id@ },
            ),
    {
        match res {
            Err(e) => Err(Error::Query(e)),
            Ok(Outcome::Changed(_)) => Err(Error::UnexpectedOutcome),
            Ok(Outcome::Rows(rows)) => {
                if rows.len() == 0 {
                    Err(Error::PlanUrlNotFound { url_id: String::from_str(url_id) })
                } else {
                    Plan::from_row(&rows[0])
                }
            },
        }
    }
}

// endregion: --- PlanBmc

} // verus!
