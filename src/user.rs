//! Invitees registered on a plan.

use vstd::prelude::*;
use crate::crud::{
    self, TableDesc, create_fields, ctime_col, insert_spec, int_col, text_col, web_id_col,
    web_id_reads_back,
};
use crate::error::{Error, ErrorV, plain_result};
use crate::fields::{Timestamp, WebId, uuid_text};
use crate::sql::{
    DbError, Field, Outcome, OutcomeV, Query, QueryV, Returning, SqlValue, Val, fields_view,
    names_view, outcome_view, query_wf, row_list_view,
};
use crate::user_date::UserDate;
use crate::plan::NAME_MAX;

verus! {

// region:    --- User Types

/// A stored user.
#[derive(Debug, Clone)]
pub struct User {
    pub id: i64,
    pub name: String,
    pub web_id: WebId,
    pub ctime: Timestamp,
}

/// The mathematical form of a user.
pub struct UserV {
    pub id: i64,
    pub name: Seq<char>,
    pub web_id: u128,
    pub ctime: Seq<char>,
}

impl View for User {
    type V = UserV;

    open spec fn view(&self) -> UserV {
        UserV { id: self.id, name: self.name@, web_id: self.web_id.value, ctime: self.ctime@ }
    }
}

/// The user columns that lookups filter on.
pub enum UserIden {
    PlanId,
    WebId,
}

impl UserIden {
    pub fn name(&self) -> (r: &'static str)
        ensures
            *self == UserIden::PlanId ==> r@ == "plan_id"@,
            *self == UserIden::WebId ==> r@ == "web_id"@,
    {
        match self {
            UserIden::PlanId => "plan_id",
            UserIden::WebId => "web_id",
        }
    }
}

/// What a caller supplies to register a user on a plan.
#[derive(Debug, Clone)]
pub struct UserForCreate {
    pub plan_id: i64,
    pub name: String,
}

/// A user with the dates they marked.
pub struct UserDates {
    pub plan_id: i64,
    pub name: String,
    pub dates: Vec<UserDate>,
}

// endregion: --- User Types

// region:    --- Field model

pub open spec fn user_fields(u: UserForCreate) -> Seq<(Seq<char>, Val)> {
    seq![("plan_id"@, Val::Int(u.plan_id)), ("name"@, Val::Text(u.name@))]
}

pub open spec fn user_check(u: UserForCreate) -> Result<(), ErrorV> {
    if u.name@.len() > NAME_MAX {
        Err(ErrorV::InputTooLong { field: "name"@, max: NAME_MAX })
    } else {
        Ok(())
    }
}

pub open spec fn user_columns() -> Seq<Seq<char>> {
    seq!["id"@, "name"@, "web_id"@, "ctime"@]
}

/// The user a row holds.
pub open spec fn user_from_row(row: Seq<(Seq<char>, Val)>) -> Result<UserV, ErrorV> {
    match int_col(row, "id"@) {
        Err(e) => Err(e),
        Ok(id) => match text_col(row, "name"@) {
            Err(e) => Err(e),
            Ok(name) => match web_id_col(row) {
                Err(e) => Err(e),
                Ok(web_id) => match ctime_col(row) {
                    Err(e) => Err(e),
                    Ok(ctime) => Ok(UserV { id, name, web_id, ctime }),
                },
            },
        },
    }
}

pub open spec fn user_result(r: Result<User, Error>) -> Result<UserV, ErrorV> {
    match r {
        Ok(u) => Ok(u@),
        Err(e) => Err(e@),
    }
}

/// Every row read as a user, or the first failure.
pub open spec fn users_from_rows(rows: Seq<Seq<(Seq<char>, Val)>>) -> Result<Seq<UserV>, ErrorV>
    decreases rows.len(),
{
    if rows.len() == 0 {
        Ok(Seq::empty())
    } else {
        match users_from_rows(rows.drop_last()) {
            Err(e) => Err(e),
            Ok(us) => match user_from_row(rows.last()) {
                Err(e) => Err(e),
                Ok(u) => Ok(us.push(u)),
            },
        }
    }
}

impl UserForCreate {
    /// The fields of the payload, in declaration order.
    pub fn fields(&self) -> (r: Vec<Field>)
        ensures
            fields_view(r@) == user_fields(*self),
    {
        let mut v: Vec<Field> = Vec::new();
        v.push(Field { name: String::from_str("plan_id"), value: SqlValue::Integer(self.plan_id) });
        v.push(Field { name: String::from_str("name"), value: SqlValue::Text(self.name.clone()) });
        assert(fields_view(v@) =~= user_fields(*self));
        v
    }

    /// Rejects a name too long for its column.
    pub fn validate(&self) -> (r: Result<(), Error>)
        ensures
            plain_result(r) == user_check(*self),
    {
        if self.name.as_str().unicode_len() > NAME_MAX {
            Err(Error::InputTooLong { field: String::from_str("name"), max: NAME_MAX })
        } else {
            Ok(())
        }
    }
}

impl User {
    /// The columns a user is read from.
    pub fn columns() -> (r: Vec<String>)
        ensures
            names_view(r@) == user_columns(),
    {
        let mut v: Vec<String> = Vec::new();
        v.push(String::from_str("id"));
        v.push(String::from_str("name"));
        v.push(String::from_str("web_id"));
        v.push(String::from_str("ctime"));
        assert(names_view(v@) =~= user_columns());
        v
    }

    /// Reads a user from a row.
    pub fn from_row(row: &Vec<Field>) -> (r: Result<User, Error>)
        ensures
            user_result(r) == user_from_row(fields_view(row@)),
            web_id_reads_back(fields_view(row@)),
    {
        let web_id = crud::read_web_id(row);
        let id = crud::read_int(row, "id")?;
        let name = crud::read_text(row, "name")?;
        let web_id = web_id?;
        let ctime = crud::read_ctime(row)?;
        Ok(User { id, name, web_id, ctime })
    }
}

// endregion: --- Field model

// region:    --- UserBmc

/// The user table's controller.
pub struct UserBmc;

pub open spec fn user_table_name() -> Seq<char> {
    "plan_user"@
}

/// The statement that creates `u` at instant `now` with external identifier `web_id`.
pub open spec fn user_create_spec(u: UserForCreate, now: Seq<char>, web_id: u128, returning: Returning) -> QueryV {
    insert_spec(
        user_table_name(),
        user_fields(u) + seq![("ctime"@, Val::Text(now)), ("web_id"@, Val::Text(uuid_text(web_id)))],
        returning,
    )
}

/// The first row of a result read as a user, or `not_found` where there is none.
pub open spec fn first_user(out: OutcomeV, not_found: ErrorV) -> Result<UserV, ErrorV> {
    match out {
        OutcomeV::Failed(k) => Err(ErrorV::Query(k)),
        OutcomeV::Changed(_) => Err(ErrorV::UnexpectedOutcome),
        OutcomeV::Rows(rows) => if rows.len() == 0 {
            Err(not_found)
        } else {
            user_from_row(rows[0])
        },
    }
}

/// The first returned row's identifier column reads back, where there is a row.
pub open spec fn first_row_reads_back(out: OutcomeV) -> bool {
    match out {
        OutcomeV::Rows(rows) => rows.len() > 0 ==> web_id_reads_back(rows[0]),
        _ => true,
    }
}

/// What a lookup by external identifier gives: the first user returned, if
/// it has that identifier.
pub open spec fn lookup_user(out: OutcomeV, web_id: u128) -> Result<UserV, ErrorV> {
    match first_user(out, ErrorV::UserWebIdNotFound { web_id }) {
        Ok(u) => if u.web_id == web_id {
            Ok(u)
        } else {
            Err(ErrorV::UserWebIdNotFound { web_id })
        },
        Err(e) => Err(e),
    }
}

fn first_user_of(res: Result<Outcome, DbError>, not_found: Error) -> (r: Result<User, Error>)
    ensures
        user_result(r) == first_user(outcome_view(res), not_found@),
        first_row_reads_back(outcome_view(res)),
{
    match res {
        Err(e) => Err(Error::Query(e)),
        Ok(Outcome::Changed(_)) => Err(Error::UnexpectedOutcome),
        Ok(Outcome::Rows(rows)) => {
            if rows.len() == 0 {
                Err(not_found)
            } else {
                proof {
                    assert(row_list_view(rows@)[0] == fields_view(rows@[0]@));
                }
                User::from_row(&rows[0])
            }
        },
    }
}

impl UserBmc {
    /// The user table: it has a creation timestamp and an external identifier.
    pub fn table() -> (r: TableDesc)
        ensures
            r.name@ == user_table_name(),
            r.has_creation_timestamp,
            r.has_web_id,
    {
        TableDesc {
            name: String::from_str("plan_user"),
            has_creation_timestamp: true,
            has_web_id: true,
        }
    }

    /// The statement that creates `user_c` with creation time `now` and
    /// external identifier `web_id`, after the length check.
    pub fn create_query(
        user_c: &UserForCreate,
        now: &Timestamp,
        web_id: WebId,
        returning: Returning,
    ) -> (r: Result<Query, Error>)
        ensures
            match r {
                Ok(q) => user_check(*user_c) is Ok && q@ == user_create_spec(
                    *user_c,
                    now@,
                    web_id.value,
                    returning,
                ) && query_wf(q@),
                Err(e) => user_check(*user_c) == Err::<(), ErrorV>(e@),
            },
    {
        user_c.validate()?;
        let table = Self::table();
        let fields = user_c.fields();
        let ghost fs = fields_view(fields@);
        let q = if returning == Returning::Id {
            crud::create_query(&table, fields, now, web_id)
        } else {
            crud::create_return_query(&table, fields, now, web_id)
        };
        assert(create_fields(&table, fs, now@, web_id.value) =~= user_fields(*user_c) + seq![
            ("ctime"@, Val::Text(now@)),
            ("web_id"@, Val::Text(uuid_text(web_id.value))),
        ]);
        Ok(q)
    }

    /// The statement that creates `user_c` now, with a fresh external identifier.
    pub fn create_statement(user_c: &UserForCreate, returning: Returning) -> (r: Result<
        Query,
        Error,
    >)
        ensures
            user_check(*user_c) matches Err(e) ==> (r matches Err(f) && f@ == e),
            user_check(*user_c) is Ok ==> match r {
                Ok(q) => query_wf(q@) && exists|now: Timestamp, w: WebId|
                    now.wf() && #[trigger] user_create_spec(*user_c, now@, w.value, returning) == q@,
                Err(e) => e@ == ErrorV::TimeFormat,
            },
    {
        user_c.validate()?;
        let now = match Timestamp::now() {
            Ok(t) => t,
            Err(_) => return Err(Error::TimeFormat),
        };
        let w = WebId::generate();
        let q = Self::create_query(user_c, &now, w, returning)?;
        assert(user_create_spec(*user_c, now@, w.value, returning) == q@);
        Ok(q)
    }

    /// Reads the result of a create: the new user's primary key.
    pub fn finish_create(res: Result<Outcome, DbError>) -> (r: Result<i64, Error>)
        ensures
            plain_result(r) == crud::create_result(outcome_view(res)),
    {
        crud::finish_create(res)
    }

    /// Reads the result of a create that returns the new row.
    pub fn finish_create_return(res: Result<Outcome, DbError>) -> (r: Result<User, Error>)
        ensures
            user_result(r) == first_user(outcome_view(res), ErrorV::NoRowReturned),
            first_row_reads_back(outcome_view(res)),
    {
        first_user_of(res, Error::NoRowReturned)
    }

    /// The select of the user with primary key `id`.
    pub fn get_query(id: i64) -> (r: Query)
        ensures
            r@ == (QueryV::Select {
                table: user_table_name(),
                columns: user_columns(),
                filter: crud::id_filter(id),
            }),
    {
        crud::get_query(&Self::table(), User::columns(), id)
    }

    /// Reads the result of a get by primary key.
    pub fn finish_get(id: i64, res: Result<Outcome, DbError>) -> (r: Result<User, Error>)
        ensures
            user_result(r) == first_user(
                outcome_view(res),
                ErrorV::EntityNotFound { entity: user_table_name(), id },
            ),
            first_row_reads_back(outcome_view(res)),
    {
        let not_found = Error::EntityNotFound { entity: Self::table().name, id };
        first_user_of(res, not_found)
    }

    /// The delete of the user with primary key `id`.
    pub fn delete_query(id: i64) -> (r: Query)
        ensures
            r@ == (QueryV::Delete { table: user_table_name(), filter: crud::id_filter(id) }),
    {
        crud::delete_query(&Self::table(), id)
    }

    /// Reads the result of a delete by primary key.
    pub fn finish_delete(id: i64, res: Result<Outcome, DbError>) -> (r: Result<(), Error>)
        ensures
            plain_result(r) == crud::delete_result(user_table_name(), id, outcome_view(res)),
    {
        crud::finish_delete(&Self::table(), id, res)
    }

    /// The select of the user whose external identifier is `web_id`.
    pub fn get_user_with_web_id_query(web_id: WebId) -> (r: Query)
        ensures
            r@ == (QueryV::Select {
                table: user_table_name(),
                columns: user_columns(),
                filter: seq![("web_id"@, Val::Text(uuid_text(web_id.value)))],
            }),
    {
        let mut filter: Vec<Field> = Vec::new();
        filter.push(Field {
            name: String::from_str(UserIden::WebId.name()),
            value: SqlValue::Text(web_id.to_text()),
        });
        assert(fields_view(filter@) =~= seq![("web_id"@, Val::Text(uuid_text(web_id.value)))]);
        Query::Select { table: Self::table().name, columns: User::columns(), filter }
    }

    /// Reads the result of a lookup by external identifier.
    pub fn finish_get_user_with_web_id(web_id: WebId, res: Result<Outcome, DbError>) -> (r: Result<
        User,
        Error,
    >)
        ensures
            user_result(r) == lookup_user(outcome_view(res), web_id.value),
            r matches Ok(u) ==> u.web_id == web_id,
            first_row_reads_back(outcome_view(res)),
    {
        match first_user_of(res, Error::UserWebIdNotFound { web_id }) {
            Ok(u) => {
                if u.web_id.value == web_id.value {
                    Ok(u)
                } else {
                    Err(Error::UserWebIdNotFound { web_id })
                }
            },
            Err(e) => Err(e),
        }
    }


    /// The select of the users of the plan `plan_id`.
    pub fn get_users_for_plan_query(plan_id: i64) -> (r: Query)
        ensures
            r@ == (QueryV::Select {
                table: user_table_name(),
                columns: user_columns(),
                filter: seq![("plan_id"@, Val::Int(plan_id))],
            }),
    {
        let mut filter: Vec<Field> = Vec::new();
        filter.push(Field {
            name: String::from_str(UserIden::PlanId.name()),
            value: SqlValue::Integer(plan_id),
        });
        assert(fields_view(filter@) =~= seq![("plan_id"@, Val::Int(plan_id))]);
        Query::Select { table: Self::table().name, columns: User::columns(), filter }
    }

    /// Reads the users of a plan: every returned row, in order.
    pub fn finish_get_users_for_plan(res: Result<Outcome, DbError>) -> (r: Result<Vec<User>, Error>)
        ensures
            match r {
                Ok(us) => match outcome_view(res) {
                    OutcomeV::Rows(rows) => users_from_rows(rows) == Ok::<Seq<UserV>, ErrorV>(
                        us@.map_values(|u: User| u@),
                    ),
                    _ => false,
                },
                Err(e) => match outcome_view(res) {
                    OutcomeV::Rows(rows) => users_from_rows(rows) == Err::<Seq<UserV>, ErrorV>(e@),
                    OutcomeV::Changed(_) => e@ == ErrorV::UnexpectedOutcome,
                    OutcomeV::Failed(k) => e@ == ErrorV::Query(k),
                },
            },
            match outcome_view(res) {
                OutcomeV::Rows(rows) => forall|i: int|
                    0 <= i < rows.len() && (forall|j: int|
                        0 <= j < i ==> (#[trigger] user_from_row(rows[j])) is Ok) ==> web_id_reads_back(
                        #[trigger] rows[i],
                    ),
                _ => true,
            },
    {
        match res {
            Err(e) => Err(Error::Query(e)),
            Ok(Outcome::Changed(_)) => Err(Error::UnexpectedOutcome),
            Ok(Outcome::Rows(rows)) => {
                let ghost all = row_list_view(rows@);
                let mut users: Vec<User> = Vec::new();
                let mut i: usize = 0;
                assert(all.subrange(0, 0) =~= Seq::<Seq<(Seq<char>, Val)>>::empty());
                assert(users@.map_values(|u: User| u@) =~= Seq::<UserV>::empty());
                while i < rows.len()
                    invariant
                        i <= rows.len(),
                        all == row_list_view(rows@),
                        outcome_view(res) == OutcomeV::Rows(all),
                        users_from_rows(all.subrange(0, i as int)) == Ok::<Seq<UserV>, ErrorV>(
                            users@.map_values(|u: User| u@),
                        ),
                        forall|k: int| 0 <= k < i ==> (#[trigger] user_from_row(all[k])) is Ok,
                        forall|k: int| 0 <= k < i ==> web_id_reads_back(#[trigger] all[k]),
                    decreases rows.len() - i,
                {
                    proof {
                        assert(all.subrange(0, i + 1).drop_last() =~= all.subrange(0, i as int));
                        assert(all[i as int] == fields_view(rows@[i as int]@));
                    }
                    match User::from_row(&rows[i]) {
                        Ok(u) => {
                            let ghost before = users@;
                            users.push(u);
                            assert(users@.map_values(|u: User| u@) =~= before.map_values(
                                |u: User| u@,
                            ).push(u@));
                        },
                        Err(e) => {
                            proof {
                                lemma_users_err(all, i as int);
                            }
                            return Err(e);
                        },
                    }
                    i = i + 1;
                }
                assert(all.subrange(0, rows.len() as int) =~= all);
                Ok(users)
            },
        }
    }
}

proof fn lemma_users_err(rows: Seq<Seq<(Seq<char>, Val)>>, i: int)
    requires
        0 <= i < rows.len(),
        users_from_rows(rows.subrange(0, i)) is Ok,
        user_from_row(rows[i]) is Err,
    ensures
        users_from_rows(rows) == Err::<Seq<UserV>, ErrorV>(user_from_row(rows[i])->Err_0),
    decreases rows.len() - i,
{
    assert(rows.subrange(0, i + 1).drop_last() =~= rows.subrange(0, i));
    lemma_users_err_tail(rows, i, i + 1);
}

proof fn lemma_users_err_tail(rows: Seq<Seq<(Seq<char>, Val)>>, i: int, j: int)
    requires
        0 <= i < j <= rows.len(),
        users_from_rows(rows.subrange(0, j)) == Err::<Seq<UserV>, ErrorV>(
            user_from_row(rows[i])->Err_0,
        ),
    ensures
        users_from_rows(rows) == Err::<Seq<UserV>, ErrorV>(user_from_row(rows[i])->Err_0),
    decreases rows.len() - j,
{
    if j == rows.len() {
        assert(rows.subrange(0, j) =~= rows);
    } else {
        assert(rows.subrange(0, j + 1).drop_last() =~= rows.subrange(0, j));
        lemma_users_err_tail(rows, i, j + 1);
    }
}

// endregion: --- UserBmc

} // verus!
