//! The generic engine: system field injection, the statements of the five
//! verbs, and the reading of what the database gives back.

use vstd::prelude::*;
use crate::error::{DecodeReason, Error, ErrorV, plain_result};
use crate::date::valid_ymd;
use crate::fields::{
    ModelDate, Timestamp, TimestampIden, WebId, WebIdIden, parse_date_text, uuid_parse, uuid_text,
};
use crate::utc::rfc3339_accepts;
use crate::sql::{
    DbError, Field, Outcome, OutcomeV, Query, QueryV, Returning, SqlValue, Val, fields_view,
    names_view, outcome_view, query_wf, row_get, row_list_view, row_lookup, values_view,
};

verus! {

/// The capabilities of an entity table: its name and the system fields that
/// the engine adds to every row created in it.
pub struct TableDesc {
    pub name: String,
    pub has_creation_timestamp: bool,
    pub has_web_id: bool,
}

/// The name of the primary key column.
pub enum CommonIden {
    Id,
}

impl CommonIden {
    pub fn name(&self) -> (r: &'static str)
        ensures
            r@ == "id"@,
    {
        "id"
    }
}

/// The fields that a create adds to the caller's: the creation timestamp
/// and then the external identifier, for the tables that have them.
pub open spec fn system_fields(
    has_ctime: bool,
    has_web_id: bool,
    now: Seq<char>,
    web_id: u128,
) -> Seq<(Seq<char>, Val)> {
    let ctime = if has_ctime {
        seq![("ctime"@, Val::Text(now))]
    } else {
        Seq::empty()
    };
    let wid = if has_web_id {
        seq![("web_id"@, Val::Text(uuid_text(web_id)))]
    } else {
        Seq::empty()
    };
    ctime + wid
}

/// Appends the system-managed fields of `table` to the fields of a create.
pub fn prep_fields_for_create(
    table: &TableDesc,
    fields: &mut Vec<Field>,
    now: &Timestamp,
    web_id: WebId,
)
    ensures
        fields_view(final(fields)@) == fields_view(old(fields)@) + system_fields(
            table.has_creation_timestamp,
            table.has_web_id,
            now@,
            web_id.value,
        ),
{
    let ghost start = fields_view(fields@);
    if table.has_creation_timestamp {
        add_timestamp_for_create(fields, now);
    }
    let ghost mid = fields_view(fields@);
    if table.has_web_id {
        add_uuid_for_create(fields, web_id);
    }
    assert(fields_view(fields@) =~= start + system_fields(
        table.has_creation_timestamp,
        table.has_web_id,
        now@,
        web_id.value,
    ));
}

fn add_timestamp_for_create(fields: &mut Vec<Field>, now: &Timestamp)
    ensures
        fields_view(final(fields)@) == fields_view(old(fields)@).push(
            ("ctime"@, Val::Text(now@)),
        ),
{
    let f = Field {
        name: String::from_str(TimestampIden::Ctime.name()),
        value: SqlValue::Text(String::from_str(now.as_str())),
    };
    fields.push(f);
    assert(fields_view(fields@) =~= fields_view(old(fields)@).push(("ctime"@, Val::Text(now@))));
}

fn add_uuid_for_create(fields: &mut Vec<Field>, web_id: WebId)
    ensures
        fields_view(final(fields)@) == fields_view(old(fields)@).push(
            ("web_id"@, Val::Text(uuid_text(web_id.value))),
        ),
{
    let f = Field {
        name: String::from_str(WebIdIden::WebId.name()),
        value: SqlValue::Text(web_id.to_text()),
    };
    fields.push(f);
    assert(fields_view(fields@) =~= fields_view(old(fields)@).push(
        ("web_id"@, Val::Text(uuid_text(web_id.value))),
    ));
}

// region:    --- Statements

pub open spec fn field_names(fs: Seq<(Seq<char>, Val)>) -> Seq<Seq<char>> {
    fs.map_values(|f: (Seq<char>, Val)| f.0)
}

pub open spec fn field_values(fs: Seq<(Seq<char>, Val)>) -> Seq<Val> {
    fs.map_values(|f: (Seq<char>, Val)| f.1)
}

/// The insert of one row with the given fields.
pub open spec fn insert_spec(table: Seq<char>, fs: Seq<(Seq<char>, Val)>, returning: Returning) -> QueryV {
    QueryV::Insert {
        table,
        columns: field_names(fs),
        rows: seq![field_values(fs)],
        returning,
    }
}

pub open spec fn id_filter(id: i64) -> Seq<(Seq<char>, Val)> {
    seq![("id"@, Val::Int(id))]
}

/// The fields a create sends: the caller's, then the system fields.
pub open spec fn create_fields(
    table: &TableDesc,
    fs: Seq<(Seq<char>, Val)>,
    now: Seq<char>,
    web_id: u128,
) -> Seq<(Seq<char>, Val)> {
    fs + system_fields(table.has_creation_timestamp, table.has_web_id, now, web_id)
}

fn split_fields(fields: &Vec<Field>) -> (r: (Vec<String>, Vec<SqlValue>))
    ensures
        names_view(r.0@) == field_names(fields_view(fields@)),
        values_view(r.1@) == field_values(fields_view(fields@)),
{
    let mut names: Vec<String> = Vec::new();
    let mut values: Vec<SqlValue> = Vec::new();
    let mut i: usize = 0;
    while i < fields.len()
        invariant
            i <= fields.len(),
            names@.len() == i,
            values@.len() == i,
            forall|k: int| 0 <= k < i ==> (#[trigger] names@[k])@ == fields@[k].name@,
            forall|k: int| 0 <= k < i ==> (#[trigger] values@[k])@ == fields@[k].value@,
        decreases fields.len() - i,
    {
        names.push(fields[i].name.clone());
        values.push(fields[i].value.duplicate());
        i = i + 1;
    }
    assert(names_view(names@) =~= field_names(fields_view(fields@)));
    assert(values_view(values@) =~= field_values(fields_view(fields@)));
    (names, values)
}

/// The insert of one row with `fields` into `table`.
pub fn insert_query(table: &TableDesc, fields: &Vec<Field>, returning: Returning) -> (r: Query)
    ensures
        r@ == insert_spec(table.name@, fields_view(fields@), returning),
        fields@.len() >= 1 ==> query_wf(r@),
{
    let (columns, values) = split_fields(fields);
    let mut rows: Vec<Vec<SqlValue>> = Vec::new();
    rows.push(values);
    let r = Query::Insert { table: table.name.clone(), columns, rows, returning };
    assert(crate::sql::rows_view(rows@) =~= seq![field_values(fields_view(fields@))]);
    r
}

/// The statement of a create: the caller's fields with the system fields
/// of `table` after them, returning the new primary key.
pub fn create_query(table: &TableDesc, fields: Vec<Field>, now: &Timestamp, web_id: WebId) -> (r:
    Query)
    ensures
        r@ == insert_spec(
            table.name@,
            create_fields(table, fields_view(fields@), now@, web_id.value),
            Returning::Id,
        ),
        fields@.len() >= 1 || table.has_creation_timestamp || table.has_web_id ==> query_wf(r@),
{
    let mut fields = fields;
    prep_fields_for_create(table, &mut fields, now, web_id);
    insert_query(table, &fields, Returning::Id)
}

/// The statement of a create that returns the whole new row.
pub fn create_return_query(
    table: &TableDesc,
    fields: Vec<Field>,
    now: &Timestamp,
    web_id: WebId,
) -> (r: Query)
    ensures
        r@ == insert_spec(
            table.name@,
            create_fields(table, fields_view(fields@), now@, web_id.value),
            Returning::All,
        ),
        fields@.len() >= 1 || table.has_creation_timestamp || table.has_web_id ==> query_wf(r@),
{
    let mut fields = fields;
    prep_fields_for_create(table, &mut fields, now, web_id);
    insert_query(table, &fields, Returning::All)
}

fn id_field(id: i64) -> (r: Vec<Field>)
    ensures
        fields_view(r@) == id_filter(id),
{
    let mut v: Vec<Field> = Vec::new();
    v.push(Field { name: String::from_str(CommonIden::Id.name()), value: SqlValue::Integer(id) });
    assert(fields_view(v@) =~= id_filter(id));
    v
}

/// The select of `columns` of the row with primary key `id`.
pub fn get_query(table: &TableDesc, columns: Vec<String>, id: i64) -> (r: Query)
    ensures
        r@ == (QueryV::Select { table: table.name@, columns: names_view(columns@), filter: id_filter(id) }),
{
    Query::Select { table: table.name.clone(), columns, filter: id_field(id) }
}

/// The delete of the row with primary key `id`.
pub fn delete_query(table: &TableDesc, id: i64) -> (r: Query)
    ensures
        r@ == (QueryV::Delete { table: table.name@, filter: id_filter(id) }),
{
    Query::Delete { table: table.name.clone(), filter: id_field(id) }
}

/// The insert of several rows, whose columns are those of the first.
pub open spec fn insert_many_spec(
    table: Seq<char>,
    rows: Seq<Seq<(Seq<char>, Val)>>,
    returning: Returning,
) -> QueryV {
    QueryV::Insert {
        table,
        columns: field_names(rows[0]),
        rows: rows.map_values(|fs: Seq<(Seq<char>, Val)>| field_values(fs)),
        returning,
    }
}

/// The rows a create of several entities sends: each payload's fields, then
/// its system fields.
pub open spec fn create_many_fields(
    table: &TableDesc,
    data: Seq<Vec<Field>>,
    now: Seq<char>,
    web_ids: Seq<WebId>,
) -> Seq<Seq<(Seq<char>, Val)>> {
    Seq::new(
        data.len(),
        |i: int| create_fields(table, fields_view(data[i]@), now, web_ids[i].value),
    )
}

/// The statement of a create of several entities: one insert with a row per
/// payload, returning the new primary keys. Nothing is sent for no payload.
pub fn create_multiple_query(
    table: &TableDesc,
    data: Vec<Vec<Field>>,
    now: &Timestamp,
    web_ids: &Vec<WebId>,
) -> (r: Option<Query>)
    requires
        web_ids@.len() == data@.len(),
        forall|i: int|
            0 <= i < data@.len() ==> field_names(fields_view((#[trigger] data@[i])@)) == field_names(
                fields_view(data@[0]@),
            ),
    ensures
        data@.len() == 0 ==> r is None,
        data@.len() > 0 ==> (r matches Some(q) && q@ == insert_many_spec(
            table.name@,
            create_many_fields(table, data@, now@, web_ids@),
            Returning::Id,
        ) && (data@[0]@.len() >= 1 || table.has_creation_timestamp || table.has_web_id
            ==> query_wf(q@))),
{
    if data.len() == 0 {
        return None;
    }
    let ghost want = create_many_fields(table, data@, now@, web_ids@);
    let total = data.len();
    let ghost n = data@.len();
    let mut columns: Vec<String> = Vec::new();
    let mut rows: Vec<Vec<SqlValue>> = Vec::new();
    let mut data = data;
    let ghost payloads = data@;
    // Moving the payloads out from the back reverses them, so that popping
    // `taken` afterwards yields them in input order.
    let mut taken: Vec<Vec<Field>> = Vec::new();
    while data.len() > 0
        invariant
            data@.len() + taken@.len() == n,
            forall|k: int| 0 <= k < data@.len() ==> #[trigger] data@[k] == payloads[k],
            forall|k: int|
                0 <= k < taken@.len() ==> #[trigger] taken@[k] == payloads[n - 1 - k],
        decreases data@.len(),
    {
        let d = data.pop().unwrap();
        taken.push(d);
    }
    let mut i: usize = 0;
    while i < total
        invariant
            total == n,
            taken@.len() + i == n,
            n == payloads.len(),
            n == web_ids@.len(),
            n > 0,
            want == create_many_fields(table, payloads, now@, web_ids@),
            forall|k: int|
                0 <= k < taken@.len() ==> #[trigger] taken@[k] == payloads[n - 1 - k],
            forall|k: int|
                0 <= k < n ==> field_names(fields_view((#[trigger] payloads[k])@)) == field_names(
                    fields_view(payloads[0]@),
                ),
            rows@.len() == i,
            forall|k: int|
                0 <= k < i ==> values_view((#[trigger] rows@[k])@) == field_values(want[k]),
            i > 0 ==> names_view(columns@) == field_names(want[0]),
        decreases n - i,
    {
        let mut fields = taken.pop().unwrap();
        assert(fields == payloads[i as int]);
        prep_fields_for_create(table, &mut fields, now, web_ids[i]);
        assert(fields_view(fields@) == want[i as int]);
        let (cols, values) = split_fields(&fields);
        if i == 0 {
            columns = cols;
        }
        rows.push(values);
        i = i + 1;
    }
    let q = Query::Insert { table: table.name.clone(), columns, rows, returning: Returning::Id };
    proof {
        let iv = insert_many_spec(table.name@, want, Returning::Id);
        assert(crate::sql::rows_view(rows@) =~= want.map_values(
            |fs: Seq<(Seq<char>, Val)>| field_values(fs),
        ));
        assert forall|k: int| 0 <= k < n implies #[trigger] want[k].len() == want[0].len() by {
            assert(field_names(want[k]).len() == want[k].len());
            assert(field_names(fields_view(payloads[k]@)) == field_names(fields_view(payloads[0]@)));
            assert(field_names(fields_view(payloads[k]@)).len() == payloads[k]@.len());
            assert(field_names(fields_view(payloads[0]@)).len() == payloads[0]@.len());
        }
    }
    Some(q)
}

// endregion: --- Statements

// region:    --- Reading results

pub open spec fn int_col(row: Seq<(Seq<char>, Val)>, c: Seq<char>) -> Result<i64, ErrorV> {
    match row_get(row, c) {
        Some(Val::Int(i)) => Ok(i),
        Some(_) => Err(ErrorV::Decode { column: c, reason: DecodeReason::InvalidType }),
        None => Err(ErrorV::Decode { column: c, reason: DecodeReason::Missing }),
    }
}

pub open spec fn text_col(row: Seq<(Seq<char>, Val)>, c: Seq<char>) -> Result<Seq<char>, ErrorV> {
    match row_get(row, c) {
        Some(Val::Text(t)) => Ok(t),
        Some(_) => Err(ErrorV::Decode { column: c, reason: DecodeReason::InvalidType }),
        None => Err(ErrorV::Decode { column: c, reason: DecodeReason::Missing }),
    }
}

pub open spec fn opt_text_col(row: Seq<(Seq<char>, Val)>, c: Seq<char>) -> Result<
    Option<Seq<char>>,
    ErrorV,
> {
    match row_get(row, c) {
        Some(Val::Text(t)) => Ok(Some(t)),
        Some(Val::Null) => Ok(None),
        Some(_) => Err(ErrorV::Decode { column: c, reason: DecodeReason::InvalidType }),
        None => Err(ErrorV::Decode { column: c, reason: DecodeReason::Missing }),
    }
}

fn decode_error(column: &str, reason: DecodeReason) -> (r: Error)
    ensures
        r@ == (ErrorV::Decode { column: column@, reason }),
{
    Error::Decode { column: String::from_str(column), reason }
}

/// Reads an integer column.
pub fn read_int(row: &Vec<Field>, c: &str) -> (r: Result<i64, Error>)
    ensures
        plain_result(r) == int_col(fields_view(row@), c@),
{
    match row_lookup(row, c) {
        Some(SqlValue::Integer(i)) => Ok(*i),
        Some(_) => Err(decode_error(c, DecodeReason::InvalidType)),
        None => Err(decode_error(c, DecodeReason::Missing)),
    }
}

/// Reads a text column.
pub fn read_text(row: &Vec<Field>, c: &str) -> (r: Result<String, Error>)
    ensures
        match r {
            Ok(t) => text_col(fields_view(row@), c@) == Ok::<Seq<char>, ErrorV>(t@),
            Err(e) => text_col(fields_view(row@), c@) == Err::<Seq<char>, ErrorV>(e@),
        },
{
    match row_lookup(row, c) {
        Some(SqlValue::Text(t)) => Ok(t.clone()),
        Some(_) => Err(decode_error(c, DecodeReason::InvalidType)),
        None => Err(decode_error(c, DecodeReason::Missing)),
    }
}

/// Reads a text column that may hold NULL.
pub fn read_opt_text(row: &Vec<Field>, c: &str) -> (r: Result<Option<String>, Error>)
    ensures
        match r {
            Ok(Some(t)) => opt_text_col(fields_view(row@), c@) == Ok::<Option<Seq<char>>, ErrorV>(
                Some(t@),
            ),
            Ok(None) => opt_text_col(fields_view(row@), c@) == Ok::<Option<Seq<char>>, ErrorV>(
                None,
            ),
            Err(e) => opt_text_col(fields_view(row@), c@) == Err::<Option<Seq<char>>, ErrorV>(e@),
        },
{
    match row_lookup(row, c) {
        Some(SqlValue::Text(t)) => Ok(Some(t.clone())),
        Some(SqlValue::Null) => Ok(None),
        Some(_) => Err(decode_error(c, DecodeReason::InvalidType)),
        None => Err(decode_error(c, DecodeReason::Missing)),
    }
}


pub open spec fn ctime_col(row: Seq<(Seq<char>, Val)>) -> Result<Seq<char>, ErrorV> {
    match text_col(row, "ctime"@) {
        Err(e) => Err(e),
        Ok(t) => if rfc3339_accepts(t) {
            Ok(t)
        } else {
            Err(ErrorV::Decode { column: "ctime"@, reason: DecodeReason::InvalidText })
        },
    }
}

pub open spec fn web_id_col(row: Seq<(Seq<char>, Val)>) -> Result<u128, ErrorV> {
    match text_col(row, "web_id"@) {
        Err(e) => Err(e),
        Ok(t) => match uuid_parse(t) {
            Some(v) => Ok(v),
            None => Err(ErrorV::Decode { column: "web_id"@, reason: DecodeReason::InvalidText }),
        },
    }
}

/// The year, month and day of a date column.
pub open spec fn date_col(row: Seq<(Seq<char>, Val)>, c: Seq<char>) -> Result<(int, int, int), ErrorV> {
    match text_col(row, c) {
        Err(e) => Err(e),
        Ok(t) => match parse_date_text(t) {
            Some((y, m, d)) => if valid_ymd(y, m, d) {
                Ok((y, m, d))
            } else {
                Err(ErrorV::Decode { column: c, reason: DecodeReason::InvalidText })
            },
            None => Err(ErrorV::Decode { column: c, reason: DecodeReason::InvalidText }),
        },
    }
}

/// Reads the creation timestamp column.
pub fn read_ctime(row: &Vec<Field>) -> (r: Result<Timestamp, Error>)
    ensures
        match r {
            Ok(t) => ctime_col(fields_view(row@)) == Ok::<Seq<char>, ErrorV>(t@) && t.wf(),
            Err(e) => ctime_col(fields_view(row@)) == Err::<Seq<char>, ErrorV>(e@),
        },
{
    let c = TimestampIden::Ctime.name();
    let t = read_text(row, c)?;
    match Timestamp::from_text(t.as_str()) {
        Some(ts) => Ok(ts),
        None => Err(decode_error(c, DecodeReason::InvalidText)),
    }
}

/// A `web_id` column holding the canonical text of an identifier reads back
/// as that identifier.
pub open spec fn web_id_reads_back(row: Seq<(Seq<char>, Val)>) -> bool {
    forall|v: u128|
        text_col(row, "web_id"@) == Ok::<Seq<char>, ErrorV>(#[trigger] uuid_text(v)) ==> web_id_col(
            row,
        ) == Ok::<u128, ErrorV>(v)
}

/// Reads the external identifier column.
pub fn read_web_id(row: &Vec<Field>) -> (r: Result<WebId, Error>)
    ensures
        match r {
            Ok(w) => web_id_col(fields_view(row@)) == Ok::<u128, ErrorV>(w.value),
            Err(e) => web_id_col(fields_view(row@)) == Err::<u128, ErrorV>(e@),
        },
        web_id_reads_back(fields_view(row@)),
{
    let c = WebIdIden::WebId.name();
    let t = read_text(row, c)?;
    match WebId::from_text(t.as_str()) {
        Some(w) => Ok(w),
        None => Err(decode_error(c, DecodeReason::InvalidText)),
    }
}

/// Reads a date column.
pub fn read_date(row: &Vec<Field>, c: &str) -> (r: Result<ModelDate, Error>)
    ensures
        match r {
            Ok(d) => d.0.wf() && date_col(fields_view(row@), c@) == Ok::<(int, int, int), ErrorV>(
                (d.0.spec_year(), d.0.spec_month(), d.0.spec_day()),
            ),
            Err(e) => date_col(fields_view(row@), c@) == Err::<(int, int, int), ErrorV>(e@),
        },
{
    let t = read_text(row, c)?;
    match ModelDate::from_text(t.as_str()) {
        Some(d) => Ok(d),
        None => Err(decode_error(c, DecodeReason::InvalidText)),
    }
}

/// What a create gives back: the primary key of the first returned row.
pub open spec fn create_result(out: OutcomeV) -> Result<i64, ErrorV> {
    match out {
        OutcomeV::Failed(k) => Err(ErrorV::Query(k)),
        OutcomeV::Changed(_) => Err(ErrorV::UnexpectedOutcome),
        OutcomeV::Rows(rows) => if rows.len() == 0 {
            Err(ErrorV::NoRowReturned)
        } else {
            int_col(rows[0], "id"@)
        },
    }
}

/// Reads the result of a create's statement.
pub fn finish_create(res: Result<Outcome, DbError>) -> (r: Result<i64, Error>)
    ensures
        plain_result(r) == create_result(outcome_view(res)),
{
    match res {
        Err(e) => Err(Error::Query(e)),
        Ok(Outcome::Changed(_)) => Err(Error::UnexpectedOutcome),
        Ok(Outcome::Rows(rows)) => {
            if rows.len() == 0 {
                Err(Error::NoRowReturned)
            } else {
                read_int(&rows[0], CommonIden::Id.name())
            }
        },
    }
}

/// What a create of several rows gives back: the primary key of each
/// returned row, in the order returned.
pub open spec fn ids_result(out: OutcomeV) -> Result<Seq<i64>, ErrorV> {
    match out {
        OutcomeV::Failed(k) => Err(ErrorV::Query(k)),
        OutcomeV::Changed(_) => Err(ErrorV::UnexpectedOutcome),
        OutcomeV::Rows(rows) => ids_of_rows(rows),
    }
}

pub open spec fn ids_of_rows(rows: Seq<Seq<(Seq<char>, Val)>>) -> Result<Seq<i64>, ErrorV>
    decreases rows.len(),
{
    if rows.len() == 0 {
        Ok(Seq::empty())
    } else {
        match ids_of_rows(rows.drop_last()) {
            Err(e) => Err(e),
            Ok(ids) => match int_col(rows.last(), "id"@) {
                Err(e) => Err(e),
                Ok(id) => Ok(ids.push(id)),
            },
        }
    }
}

/// Reads the result of a create of several rows.
pub fn finish_create_multiple(res: Result<Outcome, DbError>) -> (r: Result<Vec<i64>, Error>)
    ensures
        match r {
            Ok(ids) => ids_result(outcome_view(res)) == Ok::<Seq<i64>, ErrorV>(ids@),
            Err(e) => ids_result(outcome_view(res)) == Err::<Seq<i64>, ErrorV>(e@),
        },
{
    match res {
        Err(e) => Err(Error::Query(e)),
        Ok(Outcome::Changed(_)) => Err(Error::UnexpectedOutcome),
        Ok(Outcome::Rows(rows)) => {
            let mut ids: Vec<i64> = Vec::new();
            let mut i: usize = 0;
            while i < rows.len()
                invariant
                    i <= rows.len(),
                    outcome_view(res) == OutcomeV::Rows(row_list_view(rows@)),
                    ids_of_rows(row_list_view(rows@).subrange(0, i as int)) == Ok::<
                        Seq<i64>,
                        ErrorV,
                    >(ids@),
                decreases rows.len() - i,
            {
                proof {
                    let s = row_list_view(rows@).subrange(0, i + 1);
                    assert(s.drop_last() =~= row_list_view(rows@).subrange(0, i as int));
                    assert(row_list_view(rows@)[i as int] == fields_view(rows@[i as int]@));
                }
                match read_int(&rows[i], CommonIden::Id.name()) {
                    Ok(id) => ids.push(id),
                    Err(e) => {
                        proof {
                            lemma_ids_of_rows_err(row_list_view(rows@), i as int);
                        }
                        return Err(e);
                    },
                }
                i = i + 1;
            }
            assert(row_list_view(rows@).subrange(0, rows.len() as int) =~= row_list_view(rows@));
            Ok(ids)
        },
    }
}

proof fn lemma_ids_of_rows_err(rows: Seq<Seq<(Seq<char>, Val)>>, i: int)
    requires
        0 <= i < rows.len(),
        ids_of_rows(rows.subrange(0, i)) is Ok,
        int_col(rows[i], "id"@) is Err,
    ensures
        ids_of_rows(rows) == Err::<Seq<i64>, ErrorV>(int_col(rows[i], "id"@)->Err_0),
    decreases rows.len() - i,
{
    assert(rows.subrange(0, i + 1).drop_last() =~= rows.subrange(0, i));
    if i + 1 == rows.len() {
        assert(rows.subrange(0, i + 1) =~= rows);
    } else {
        lemma_ids_of_rows_err_tail(rows, i, i + 1);
    }
}

proof fn lemma_ids_of_rows_err_tail(rows: Seq<Seq<(Seq<char>, Val)>>, i: int, j: int)
    requires
        0 <= i < j <= rows.len(),
        ids_of_rows(rows.subrange(0, j)) == Err::<Seq<i64>, ErrorV>(int_col(rows[i], "id"@)->Err_0),
    ensures
        ids_of_rows(rows) == Err::<Seq<i64>, ErrorV>(int_col(rows[i], "id"@)->Err_0),
    decreases rows.len() - j,
{
    if j == rows.len() {
        assert(rows.subrange(0, j) =~= rows);
    } else {
        assert(rows.subrange(0, j + 1).drop_last() =~= rows.subrange(0, j));
        lemma_ids_of_rows_err_tail(rows, i, j + 1);
    }
}

/// What a get by primary key gives back: the first row, or not found.
pub open spec fn get_row_result(table: Seq<char>, id: i64, out: OutcomeV) -> Result<
    Seq<(Seq<char>, Val)>,
    ErrorV,
> {
    match out {
        OutcomeV::Failed(k) => Err(ErrorV::Query(k)),
        OutcomeV::Changed(_) => Err(ErrorV::UnexpectedOutcome),
        OutcomeV::Rows(rows) => if rows.len() == 0 {
            Err(ErrorV::EntityNotFound { entity: table, id })
        } else {
            Ok(rows[0])
        },
    }
}

/// Reads the result of a get by primary key, up to the row to decode.
pub fn finish_get(table: &TableDesc, id: i64, res: Result<Outcome, DbError>) -> (r: Result<
    Vec<Field>,
    Error,
>)
    ensures
        match r {
            Ok(row) => get_row_result(table.name@, id, outcome_view(res)) == Ok::<
                Seq<(Seq<char>, Val)>,
                ErrorV,
            >(fields_view(row@)),
            Err(e) => get_row_result(table.name@, id, outcome_view(res)) == Err::<
                Seq<(Seq<char>, Val)>,
                ErrorV,
            >(e@),
        },
{
    match res {
        Err(e) => Err(Error::Query(e)),
        Ok(Outcome::Changed(_)) => Err(Error::UnexpectedOutcome),
        Ok(Outcome::Rows(rows)) => {
            if rows.len() == 0 {
                Err(Error::EntityNotFound { entity: table.name.clone(), id })
            } else {
                let mut rows = rows;
                let row = rows.swap_remove(0);
                Ok(row)
            }
        },
    }
}

/// What a delete by primary key gives back: not found where no row went.
pub open spec fn delete_result(table: Seq<char>, id: i64, out: OutcomeV) -> Result<(), ErrorV> {
    match out {
        OutcomeV::Failed(k) => Err(ErrorV::Query(k)),
        OutcomeV::Rows(_) => Err(ErrorV::UnexpectedOutcome),
        OutcomeV::Changed(n) => if n == 0 {
            Err(ErrorV::EntityNotFound { entity: table, id })
        } else {
            Ok(())
        },
    }
}

/// Reads the result of a delete by primary key.
pub fn finish_delete(table: &TableDesc, id: i64, res: Result<Outcome, DbError>) -> (r: Result<
    (),
    Error,
>)
    ensures
        plain_result(r) == delete_result(table.name@, id, outcome_view(res)),
{
    match res {
        Err(e) => Err(Error::Query(e)),
        Ok(Outcome::Rows(_)) => Err(Error::UnexpectedOutcome),
        Ok(Outcome::Changed(n)) => {
            if n == 0 {
                Err(Error::EntityNotFound { entity: table.name.clone(), id })
            } else {
                Ok(())
            }
        },
    }
}

// endregion: --- Reading results

} // verus!
