//! A mathematical model of the embedded database as the engine uses it, and
//! the laws that the engine's statements and readers obey in it.
//!
//! A table maps primary keys to rows; a row maps column names to values, an
//! absent column reading as NULL. Executing a statement relates a database
//! before, a database after and an outcome. Inserts give fresh keys and hand
//! the new rows back in input order; a duplicate value in a unique column
//! fails the whole statement and changes nothing; selects return the matching
//! rows once each, in any order; deletes remove the matching rows and count them.

use vstd::prelude::*;
use crate::crud::{
    create_result, delete_result, field_names, field_values, get_row_result, id_filter, ids_of_rows,
    ids_result, insert_many_spec,
};
use crate::error::ErrorV;
use crate::fields::Timestamp;
use crate::plan::{
    PlanForCreate, PlanV, first_plan, opt_view, plan_check, plan_columns, plan_create_spec,
    plan_fields, plan_table_name,
};
use crate::sql::{DbErrorKind, OutcomeV, QueryV, Returning, Val};
use crate::user::{
    UserForCreate, UserV, first_row_reads_back, first_user, user_check, user_columns,
    user_create_spec, user_fields, user_table_name,
};
use crate::user_date::{
    UserDateForCreate, UserDateV, get_date_result, get_date_spec, pair_filter, toggle_spec,
    user_date_columns, user_date_create_spec, user_date_fields, user_date_from_row,
    user_date_table_name,
};

verus! {

pub type RowModel = Map<Seq<char>, Val>;

pub type TableModel = Map<i64, RowModel>;

pub type DbModel = Map<Seq<char>, TableModel>;

pub open spec fn table_of(db: DbModel, t: Seq<char>) -> TableModel {
    if db.contains_key(t) {
        db[t]
    } else {
        Map::empty()
    }
}

/// The columns that carry a unique index in the schema.
pub open spec fn unique_columns(t: Seq<char>) -> Set<Seq<char>> {
    if t == "plan"@ {
        set!["url_id"@]
    } else if t == "plan_user"@ {
        set!["web_id"@]
    } else {
        Set::empty()
    }
}

/// The columns of a table in schema order, as `RETURNING *` lists them.
pub open spec fn schema(t: Seq<char>) -> Seq<Seq<char>> {
    if t == "plan"@ {
        seq!["id"@, "name"@, "url_id"@, "description"@, "ctime"@]
    } else if t == "plan_user"@ {
        seq!["id"@, "plan_id"@, "name"@, "web_id"@, "ctime"@]
    } else if t == "user_date"@ {
        seq!["id"@, "user_id"@, "date"@, "ctime"@]
    } else {
        seq!["id"@, "plan_id"@, "user_id"@, "date"@, "ctime"@]
    }
}

pub open spec fn cell(row: RowModel, c: Seq<char>) -> Val {
    if row.contains_key(c) {
        row[c]
    } else {
        Val::Null
    }
}

/// The value given to column `c` by the first of `columns` of that name.
pub open spec fn assoc(columns: Seq<Seq<char>>, values: Seq<Val>, c: Seq<char>) -> Option<Val>
    decreases columns.len(),
{
    if columns.len() == 0 || values.len() == 0 {
        None
    } else if columns[0] == c {
        Some(values[0])
    } else {
        assoc(columns.drop_first(), values.drop_first(), c)
    }
}

/// The row that an insert of `values` into `columns` stores under key `id`.
pub open spec fn stored_row(columns: Seq<Seq<char>>, values: Seq<Val>, id: i64) -> RowModel {
    Map::new(
        |c: Seq<char>| c == "id"@ || assoc(columns, values, c) is Some,
        |c: Seq<char>|
            if c == "id"@ {
                Val::Int(id)
            } else {
                assoc(columns, values, c)->Some_0
            },
    )
}

pub open spec fn project(row: RowModel, columns: Seq<Seq<char>>) -> Seq<(Seq<char>, Val)> {
    columns.map_values(|c: Seq<char>| (c, cell(row, c)))
}

pub open spec fn row_matches(row: RowModel, filter: Seq<(Seq<char>, Val)>) -> bool {
    forall|i: int|
        0 <= i < filter.len() ==> (#[trigger] filter[i]).1 != Val::Null && cell(row, filter[i].0)
            == filter[i].1
}

pub open spec fn matching(tm: TableModel, filter: Seq<(Seq<char>, Val)>) -> Set<i64> {
    tm.dom().filter(|id: i64| row_matches(tm[id], filter))
}

pub open spec fn violates_unique(
    tm: TableModel,
    t: Seq<char>,
    columns: Seq<Seq<char>>,
    rows: Seq<Seq<Val>>,
) -> bool {
    exists|k: int, i: int|
        0 <= k < columns.len() && 0 <= i < rows.len() && unique_columns(t).contains(
            #[trigger] columns[k],
        ) && (#[trigger] rows[i])[k] != Val::Null && ((exists|id: i64|
            tm.contains_key(id) && cell(tm[id], columns[k]) == rows[i][k]) || (exists|j: int|
            0 <= j < rows.len() && j != i && rows[j][k] == rows[i][k]))
}

pub open spec fn fresh_ids(tm: TableModel, ids: Seq<i64>, n: nat) -> bool {
    ids.len() == n && ids.no_duplicates() && forall|i: int|
        0 <= i < ids.len() ==> !tm.contains_key(#[trigger] ids[i])
}

/// The table after rows `rows` are stored under keys `ids`.
pub open spec fn add_rows(
    tm: TableModel,
    ids: Seq<i64>,
    columns: Seq<Seq<char>>,
    rows: Seq<Seq<Val>>,
) -> TableModel
    decreases ids.len(),
{
    if ids.len() == 0 {
        tm
    } else {
        add_rows(tm, ids.drop_last(), columns, rows).insert(
            ids.last(),
            stored_row(columns, rows[ids.len() - 1], ids.last()),
        )
    }
}

pub open spec fn returned(
    t: Seq<char>,
    ids: Seq<i64>,
    columns: Seq<Seq<char>>,
    rows: Seq<Seq<Val>>,
    returning: Returning,
) -> Seq<Seq<(Seq<char>, Val)>> {
    Seq::new(
        ids.len(),
        |i: int|
            match returning {
                Returning::Id => seq![("id"@, Val::Int(ids[i]))],
                Returning::All => project(stored_row(columns, rows[i], ids[i]), schema(t)),
            },
    )
}

pub open spec fn select_rows(tm: TableModel, ids: Seq<i64>, columns: Seq<Seq<char>>) -> Seq<
    Seq<(Seq<char>, Val)>,
> {
    ids.map_values(|id: i64| project(tm[id], columns))
}

/// Executing `q` on `db` may give `db2` and `out`.
pub open spec fn exec_rel(db: DbModel, q: QueryV, db2: DbModel, out: OutcomeV) -> bool {
    match q {
        QueryV::Insert { table, columns, rows, returning } => {
            let tm = table_of(db, table);
            if violates_unique(tm, table, columns, rows) {
                db2 == db && out == OutcomeV::Failed(DbErrorKind::ConstraintViolation)
            } else {
                exists|ids: Seq<i64>|
                    fresh_ids(tm, ids, rows.len()) && db2 == db.insert(
                        table,
                        add_rows(tm, ids, columns, rows),
                    ) && #[trigger] returned(table, ids, columns, rows, returning) == out->Rows_0
                        && out is Rows
            }
        },
        QueryV::Select { table, columns, filter } => {
            let tm = table_of(db, table);
            db2 == db && out is Rows && exists|ids: Seq<i64>|
                ids.no_duplicates() && ids.to_set() == matching(tm, filter) && #[trigger] select_rows(
                    tm,
                    ids,
                    columns,
                ) == out->Rows_0
        },
        QueryV::Delete { table, filter } => {
            let tm = table_of(db, table);
            db2 == db.insert(table, tm.remove_keys(matching(tm, filter))) && out == OutcomeV::Changed(
                matching(tm, filter).len(),
            )
        },
    }
}

/// Every table is finite and every row holds its own key in column `id`.
pub open spec fn db_wf(db: DbModel) -> bool {
    forall|t: Seq<char>|
        #![trigger table_of(db, t)]
        table_of(db, t).dom().finite() && forall|id: i64| #[trigger]
            table_of(db, t).contains_key(id) ==> cell(table_of(db, t)[id], "id"@) == Val::Int(id)
}

/// Two databases hold the same tables.
pub open spec fn same_store(a: DbModel, b: DbModel) -> bool {
    forall|t: Seq<char>| #[trigger] table_of(a, t) == table_of(b, t)
}

/// A select that matches nothing returns no row.
proof fn lemma_select_none(ids: Seq<i64>)
    requires
        ids.to_set() =~= Set::<i64>::empty(),
    ensures
        ids.len() == 0,
{
    if ids.len() > 0 {
        assert(ids.to_set().contains(ids[0]));
    }
}

/// A delete leaves no row that matches its filter.
proof fn lemma_delete_clears(tm: TableModel, filter: Seq<(Seq<char>, Val)>)
    ensures
        matching(tm.remove_keys(matching(tm, filter)), filter) =~= Set::<i64>::empty(),
{
}

/// After a delete by primary key, a get by that key finds nothing.
pub proof fn law_delete_then_get(
    db: DbModel,
    t: Seq<char>,
    id: i64,
    columns: Seq<Seq<char>>,
    db1: DbModel,
    out1: OutcomeV,
    db2: DbModel,
    out2: OutcomeV,
)
    requires
        exec_rel(db, QueryV::Delete { table: t, filter: id_filter(id) }, db1, out1),
        exec_rel(db1, QueryV::Select { table: t, columns, filter: id_filter(id) }, db2, out2),
    ensures
        get_row_result(t, id, out2) == Err::<Seq<(Seq<char>, Val)>, ErrorV>(
            ErrorV::EntityNotFound { entity: t, id },
        ),
{
    let tm = table_of(db, t);
    let tm1 = table_of(db1, t);
    lemma_delete_clears(tm, id_filter(id));
    let ids = choose|ids: Seq<i64>|
        ids.no_duplicates() && ids.to_set() == matching(tm1, id_filter(id)) && #[trigger] select_rows(
            tm1,
            ids,
            columns,
        ) == out2->Rows_0;
    lemma_select_none(ids);
}

/// A delete by a primary key that no row has reports not found and leaves
/// every table as it was.
pub proof fn law_delete_missing(db: DbModel, t: Seq<char>, id: i64, db1: DbModel, out1: OutcomeV)
    requires
        db_wf(db),
        !table_of(db, t).contains_key(id),
        exec_rel(db, QueryV::Delete { table: t, filter: id_filter(id) }, db1, out1),
    ensures
        delete_result(t, id, out1) == Err::<(), ErrorV>(ErrorV::EntityNotFound { entity: t, id }),
        same_store(db, db1),
{
    let tm = table_of(db, t);
    assert(table_of(db, t).dom().finite());
    assert forall|x: i64| tm.contains_key(x) implies !row_matches(tm[x], id_filter(id)) by {
        assert(cell(table_of(db, t)[x], "id"@) == Val::Int(x));
        assert(id_filter(id)[0] == ("id"@, Val::Int(id)));
    }
    assert(matching(tm, id_filter(id)) =~= Set::<i64>::empty());
    assert(tm.remove_keys(Set::<i64>::empty()) =~= tm);
    assert forall|u: Seq<char>| #[trigger] table_of(db, u) == table_of(db1, u) by {
        if u != t {
            assert(table_of(db1, u) == table_of(db, u));
        } else {
            assert(table_of(db1, u) =~= table_of(db, u));
        }
    }
}

proof fn lemma_add_rows(tm: TableModel, ids: Seq<i64>, columns: Seq<Seq<char>>, rows: Seq<Seq<Val>>)
    requires
        ids.no_duplicates(),
        ids.len() <= rows.len(),
    ensures
        forall|x: i64| #[trigger]
            add_rows(tm, ids, columns, rows).contains_key(x) <==> tm.contains_key(x) || ids.contains(
                x,
            ),
        forall|k: int|
            0 <= k < ids.len() ==> #[trigger] add_rows(tm, ids, columns, rows)[ids[k]] == stored_row(
                columns,
                rows[k],
                ids[k],
            ),
        forall|x: i64|
            tm.contains_key(x) && !ids.contains(x) ==> #[trigger] add_rows(tm, ids, columns, rows)[x]
                == tm[x],
        tm.dom().finite() ==> add_rows(tm, ids, columns, rows).dom().finite(),
    decreases ids.len(),
{
    if ids.len() > 0 {
        let p = ids.drop_last();
        assert(p.no_duplicates()) by {
            assert forall|i: int, j: int| 0 <= i < p.len() && 0 <= j < p.len() && i != j implies p[i]
                != p[j] by {
                assert(p[i] == ids[i] && p[j] == ids[j]);
            }
        }
        lemma_add_rows(tm, p, columns, rows);
        let m = add_rows(tm, ids, columns, rows);
        let last = ids[ids.len() - 1];
        assert(ids.last() == last);
        assert(m == add_rows(tm, p, columns, rows).insert(last, stored_row(columns, rows[ids.len() - 1], last)));
        assert(ids.contains(last));
        assert forall|x: i64| #[trigger] m.contains_key(x) <==> tm.contains_key(x) || ids.contains(x) by {
            if ids.contains(x) && x != last {
                let i = choose|i: int| 0 <= i < ids.len() && ids[i] == x;
                assert(i != ids.len() - 1);
                assert(p[i] == x);
                assert(p.contains(x));
            }
            if p.contains(x) {
                let i = choose|i: int| 0 <= i < p.len() && p[i] == x;
                assert(ids[i] == x);
            }
        }
        assert forall|k: int| 0 <= k < ids.len() implies #[trigger] m[ids[k]] == stored_row(
            columns,
            rows[k],
            ids[k],
        ) by {
            if k < ids.len() - 1 {
                assert(p[k] == ids[k]);
                assert(ids[k] != last);
            } else {
                assert(ids[k] == last);
            }
        }
        assert forall|x: i64| tm.contains_key(x) && !ids.contains(x) implies #[trigger] m[x] == tm[x] by {
            if p.contains(x) {
                let i = choose|i: int| 0 <= i < p.len() && p[i] == x;
                assert(ids[i] == x);
            }
            assert(x != last);
        }
    }
}

/// An insert keeps every row holding its own key.
proof fn lemma_insert_wf(
    db: DbModel,
    t: Seq<char>,
    ids: Seq<i64>,
    columns: Seq<Seq<char>>,
    rows: Seq<Seq<Val>>,
)
    requires
        db_wf(db),
        fresh_ids(table_of(db, t), ids, rows.len()),
    ensures
        db_wf(db.insert(t, add_rows(table_of(db, t), ids, columns, rows))),
{
    let tm = table_of(db, t);
    let db1 = db.insert(t, add_rows(tm, ids, columns, rows));
    lemma_add_rows(tm, ids, columns, rows);
    assert forall|u: Seq<char>| #![trigger table_of(db1, u)]
        table_of(db1, u).dom().finite() && forall|id: i64| #[trigger]
            table_of(db1, u).contains_key(id) ==> cell(table_of(db1, u)[id], "id"@) == Val::Int(id) by {
        assert(table_of(db, u).dom().finite());
        if u == t {
            assert forall|id: i64| #[trigger] table_of(db1, u).contains_key(id) implies cell(
                table_of(db1, u)[id],
                "id"@,
            ) == Val::Int(id) by {
                if ids.contains(id) {
                    let k = choose|k: int| 0 <= k < ids.len() && ids[k] == id;
                    assert(add_rows(tm, ids, columns, rows)[ids[k]] == stored_row(columns, rows[k], ids[k]));
                } else {
                    assert(table_of(db, t).contains_key(id));
                }
            }
        } else {
            assert(table_of(db1, u) == table_of(db, u));
        }
    }
}

/// In a table whose rows hold their own keys, the rows with `id` equal to a
/// present key `x` are exactly that one.
proof fn lemma_select_by_id(tm: TableModel, x: i64, ids: Seq<i64>)
    requires
        tm.contains_key(x),
        forall|y: i64| #[trigger] tm.contains_key(y) ==> cell(tm[y], "id"@) == Val::Int(y),
        ids.no_duplicates(),
        ids.to_set() == matching(tm, id_filter(x)),
    ensures
        ids == seq![x],
{
    assert(matching(tm, id_filter(x)) =~= set![x]) by {
        assert forall|y: i64| matching(tm, id_filter(x)).contains(y) <==> y == x by {
            assert(id_filter(x)[0] == ("id"@, Val::Int(x)));
            if y == x {
                assert(row_matches(tm[x], id_filter(x)));
            }
        }
    }
    assert(set![x].contains(x));
    assert(ids.to_set().contains(x));
    assert(ids.contains(x));
    let i = choose|i: int| 0 <= i < ids.len() && ids[i] == x;
    assert forall|j: int| 0 <= j < ids.len() implies ids[j] == x by {
        assert(ids.to_set().contains(ids[j]));
    }
    if ids.len() > 1 {
        assert(ids[0] == ids[1]);
    }
    assert(ids =~= seq![x]);
}

proof fn lemma_ids_of_returned(t: Seq<char>, ids: Seq<i64>, columns: Seq<Seq<char>>, rows: Seq<Seq<Val>>)
    ensures
        ids_of_rows(returned(t, ids, columns, rows, Returning::Id)) == Ok::<Seq<i64>, ErrorV>(ids),
    decreases ids.len(),
{
    if ids.len() > 0 {
        lemma_ids_of_returned(t, ids.drop_last(), columns, rows);
        let r = returned(t, ids, columns, rows, Returning::Id);
        assert(r.drop_last() =~= returned(t, ids.drop_last(), columns, rows, Returning::Id));
        assert(r.last() == seq![("id"@, Val::Int(ids.last()))]);
        assert(crate::sql::row_get(r.last(), "id"@) == Some(Val::Int(ids.last())));
        assert(crate::crud::int_col(r.last(), "id"@) == Ok::<i64, ErrorV>(ids.last()));
        assert(ids_of_rows(r.drop_last()) == Ok::<Seq<i64>, ErrorV>(ids.drop_last()));
        assert(ids.drop_last().push(ids.last()) =~= ids);
        assert(ids_of_rows(r) == Ok::<Seq<i64>, ErrorV>(ids.drop_last().push(ids.last())));
    } else {
        assert(ids =~= Seq::<i64>::empty());
    }
}

/// A create of several rows gives one key per row, in input order; the get
/// by the key of the row at position `k` reads back that row.
pub proof fn law_create_multiple_then_get(
    db: DbModel,
    t: Seq<char>,
    rows: Seq<Seq<(Seq<char>, Val)>>,
    db1: DbModel,
    out1: OutcomeV,
    ids: Seq<i64>,
    k: int,
    columns: Seq<Seq<char>>,
    db2: DbModel,
    out2: OutcomeV,
)
    requires
        db_wf(db),
        rows.len() > 0,
        exec_rel(db, insert_many_spec(t, rows, Returning::Id), db1, out1),
        ids_result(out1) == Ok::<Seq<i64>, ErrorV>(ids),
        0 <= k < rows.len(),
        exec_rel(db1, QueryV::Select { table: t, columns, filter: id_filter(ids[k]) }, db2, out2),
    ensures
        ids.len() == rows.len(),
        ids.no_duplicates(),
        get_row_result(t, ids[k], out2) == Ok::<Seq<(Seq<char>, Val)>, ErrorV>(
            project(stored_row(field_names(rows[0]), field_values(rows[k]), ids[k]), columns),
        ),
{
    let tm = table_of(db, t);
    let columns_in = field_names(rows[0]);
    let vrows = rows.map_values(|fs: Seq<(Seq<char>, Val)>| field_values(fs));
    assert(!violates_unique(tm, t, columns_in, vrows));
    let ids1 = choose|ids1: Seq<i64>|
        fresh_ids(tm, ids1, vrows.len()) && db1 == db.insert(t, add_rows(tm, ids1, columns_in, vrows))
            && #[trigger] returned(t, ids1, columns_in, vrows, Returning::Id) == out1->Rows_0
            && out1 is Rows;
    lemma_ids_of_returned(t, ids1, columns_in, vrows);
    assert(ids1 == ids);
    lemma_add_rows(tm, ids, columns_in, vrows);
    lemma_insert_wf(db, t, ids, columns_in, vrows);
    let tm1 = table_of(db1, t);
    assert(tm1 == add_rows(tm, ids, columns_in, vrows));
    assert(ids.contains(ids[k]));
    assert(tm1.contains_key(ids[k]));
    assert(forall|y: i64| #[trigger] tm1.contains_key(y) ==> cell(tm1[y], "id"@) == Val::Int(y));
    let ids2 = choose|ids2: Seq<i64>|
        ids2.no_duplicates() && ids2.to_set() == matching(tm1, id_filter(ids[k])) && #[trigger] select_rows(
            tm1,
            ids2,
            columns,
        ) == out2->Rows_0;
    lemma_select_by_id(tm1, ids[k], ids2);
    assert(tm1[ids[k]] == stored_row(columns_in, vrows[k], ids[k]));
    assert(select_rows(tm1, ids2, columns)[0] == project(tm1[ids[k]], columns));
}

proof fn lemma_assoc_at(columns: Seq<Seq<char>>, values: Seq<Val>, i: int, c: Seq<char>)
    requires
        0 <= i < columns.len() <= values.len(),
        columns[i] == c,
        forall|j: int| 0 <= j < i ==> columns[j] != c,
    ensures
        assoc(columns, values, c) == Some(values[i]),
    decreases i,
{
    if i > 0 {
        lemma_assoc_at(columns.drop_first(), values.drop_first(), i - 1, c);
    }
}

proof fn lemma_assoc_absent(columns: Seq<Seq<char>>, values: Seq<Val>, c: Seq<char>)
    requires
        forall|j: int| 0 <= j < columns.len() ==> columns[j] != c,
    ensures
        assoc(columns, values, c) is None,
    decreases columns.len(),
{
    if columns.len() > 0 && values.len() > 0 {
        lemma_assoc_absent(columns.drop_first(), values.drop_first(), c);
    }
}

/// The single-row insert of `fs` is the several-row insert of one row.
proof fn lemma_insert_one(t: Seq<char>, fs: Seq<(Seq<char>, Val)>)
    ensures
        insert_many_spec(t, seq![fs], Returning::Id) == crate::crud::insert_spec(t, fs, Returning::Id),
{
    assert(seq![fs].map_values(|f: Seq<(Seq<char>, Val)>| field_values(f)) =~= seq![
        field_values(fs),
    ]);
}

/// The key that a successful single-row create reports is the one it stored.
proof fn lemma_create_one(
    db: DbModel,
    t: Seq<char>,
    fs: Seq<(Seq<char>, Val)>,
    db1: DbModel,
    out1: OutcomeV,
    id: i64,
)
    requires
        exec_rel(db, crate::crud::insert_spec(t, fs, Returning::Id), db1, out1),
        create_result(out1) == Ok::<i64, ErrorV>(id),
    ensures
        ids_result(out1) == Ok::<Seq<i64>, ErrorV>(seq![id]),
        !table_of(db, t).contains_key(id),
        db1 == db.insert(
            t,
            table_of(db, t).insert(id, stored_row(field_names(fs), field_values(fs), id)),
        ),
{
    let tm = table_of(db, t);
    let columns = field_names(fs);
    let vrows = seq![field_values(fs)];
    assert(!violates_unique(tm, t, columns, vrows));
    let ids1 = choose|ids1: Seq<i64>|
        fresh_ids(tm, ids1, vrows.len()) && db1 == db.insert(t, add_rows(tm, ids1, columns, vrows))
            && #[trigger] returned(t, ids1, columns, vrows, Returning::Id) == out1->Rows_0
            && out1 is Rows;
    lemma_ids_of_returned(t, ids1, columns, vrows);
    assert(returned(t, ids1, columns, vrows, Returning::Id)[0] == seq![("id"@, Val::Int(ids1[0]))]);
    assert(crate::sql::row_get(seq![("id"@, Val::Int(ids1[0]))], "id"@) == Some(Val::Int(ids1[0])));
    assert(ids1 =~= seq![id]);
    assert(ids1.drop_last() =~= Seq::<i64>::empty());
    reveal_with_fuel(add_rows, 2);
    assert(add_rows(tm, ids1, columns, vrows) == tm.insert(id, stored_row(columns, vrows[0], id)));
}

/// A created plan reads back with the caller's fields and the injected timestamp.
pub proof fn law_plan_create_then_get(
    db: DbModel,
    p: PlanForCreate,
    now: Timestamp,
    db1: DbModel,
    out1: OutcomeV,
    id: i64,
    db2: DbModel,
    out2: OutcomeV,
)
    requires
        db_wf(db),
        plan_check(p) is Ok,
        now.wf(),
        exec_rel(db, plan_create_spec(p, now@, Returning::Id), db1, out1),
        create_result(out1) == Ok::<i64, ErrorV>(id),
        exec_rel(
            db1,
            QueryV::Select {
                table: plan_table_name(),
                columns: plan_columns(),
                filter: id_filter(id),
            },
            db2,
            out2,
        ),
    ensures
        first_plan(out2, ErrorV::EntityNotFound { entity: plan_table_name(), id }) == Ok::<
            PlanV,
            ErrorV,
        >(
            PlanV {
                id,
                name: p.name@,
                url_id: p.url_id@,
                description: opt_view(p.description),
                ctime: now@,
            },
        ),
{
    let t = plan_table_name();
    let fs = plan_fields(p) + seq![("ctime"@, Val::Text(now@))];
    lemma_create_one(db, t, fs, db1, out1, id);
    lemma_insert_one(t, fs);
    law_create_multiple_then_get(db, t, seq![fs], db1, out1, seq![id], 0, plan_columns(), db2, out2);
    let sr = stored_row(field_names(fs), field_values(fs), id);
    let row = project(sr, plan_columns());
    assert(get_row_result(t, id, out2) == Ok::<Seq<(Seq<char>, Val)>, ErrorV>(row));
    reveal_strlit("id");
    reveal_strlit("name");
    reveal_strlit("url_id");
    reveal_strlit("description");
    reveal_strlit("ctime");
    reveal_with_fuel(assoc, 5);
    reveal_with_fuel(crate::sql::row_get_from, 6);
    let cols = field_names(fs);
    let vals = field_values(fs);
    assert(fs[0] == ("name"@, Val::Text(p.name@)));
    assert(fs[1] == ("url_id"@, Val::Text(p.url_id@)));
    assert(cols[0] == "name"@ && cols[1] == "url_id"@);
    assert(vals[0] == Val::Text(p.name@) && vals[1] == Val::Text(p.url_id@));
    assert("name"@ != "id"@ && "url_id"@ != "id"@ && "url_id"@ != "name"@);
    assert("description"@.len() == 11);
    assert("ctime"@.len() == 5);
    assert("id"@.len() == 2);
    assert("description"@ != "id"@);
    assert("description"@ != "name"@);
    assert("description"@ != "url_id"@);
    assert("ctime"@ != "id"@ && "ctime"@ != "name"@ && "ctime"@ != "url_id"@ && "ctime"@
        != "description"@);
    assert(cell(sr, "id"@) == Val::Int(id));
    lemma_assoc_at(cols, vals, 0, "name"@);
    assert(cell(sr, "name"@) == Val::Text(p.name@));
    lemma_assoc_at(cols, vals, 1, "url_id"@);
    assert(cell(sr, "url_id"@) == Val::Text(p.url_id@));
    match p.description {
        Some(d) => {
            lemma_assoc_at(cols, vals, 2, "description"@);
            assert(cell(sr, "description"@) == Val::Text(d@));
            lemma_assoc_at(cols, vals, 3, "ctime"@);
        },
        None => {
            lemma_assoc_absent(cols, vals, "description"@);
            assert(cell(sr, "description"@) == Val::Null);
            lemma_assoc_at(cols, vals, 2, "ctime"@);
        },
    }
    assert(cell(sr, "ctime"@) == Val::Text(now@));
    assert(row == seq![
        ("id"@, cell(sr, "id"@)),
        ("name"@, cell(sr, "name"@)),
        ("url_id"@, cell(sr, "url_id"@)),
        ("description"@, cell(sr, "description"@)),
        ("ctime"@, cell(sr, "ctime"@)),
    ]);
}

/// A second plan with the public slug of an existing one is refused by the
/// unique index, and nothing of it is stored.
pub proof fn law_plan_url_id_unique(
    db: DbModel,
    a: PlanForCreate,
    b: PlanForCreate,
    now_a: Seq<char>,
    now_b: Seq<char>,
    db1: DbModel,
    out1: OutcomeV,
    id: i64,
    db2: DbModel,
    out2: OutcomeV,
)
    requires
        a.url_id@ == b.url_id@,
        exec_rel(db, plan_create_spec(a, now_a, Returning::Id), db1, out1),
        create_result(out1) == Ok::<i64, ErrorV>(id),
        exec_rel(db1, plan_create_spec(b, now_b, Returning::Id), db2, out2),
    ensures
        create_result(out2) == Err::<i64, ErrorV>(ErrorV::Query(DbErrorKind::ConstraintViolation)),
        same_store(db1, db2),
{
    let t = plan_table_name();
    let fa = plan_fields(a) + seq![("ctime"@, Val::Text(now_a))];
    let fb = plan_fields(b) + seq![("ctime"@, Val::Text(now_b))];
    lemma_create_one(db, t, fa, db1, out1, id);
    let tm1 = table_of(db1, t);
    let sr = stored_row(field_names(fa), field_values(fa), id);
    assert(tm1.contains_key(id) && tm1[id] == sr);
    reveal_strlit("name");
    reveal_strlit("url_id");
    reveal_strlit("id");
    reveal_with_fuel(assoc, 3);
    assert(fa[0] == ("name"@, Val::Text(a.name@)));
    assert(fa[1] == ("url_id"@, Val::Text(a.url_id@)));
    assert(field_names(fa)[0] == "name"@ && field_names(fa)[1] == "url_id"@);
    assert("url_id"@ != "name"@ && "url_id"@ != "id"@);
    lemma_assoc_at(field_names(fa), field_values(fa), 1, "url_id"@);
    assert(cell(sr, "url_id"@) == Val::Text(a.url_id@));
    let cb = field_names(fb);
    let vb = seq![field_values(fb)];
    assert(cb[1] == "url_id"@);
    assert(vb[0][1] == Val::Text(b.url_id@));
    assert(unique_columns(t).contains(cb[1]));
    assert(violates_unique(tm1, t, cb, vb)) by {
        assert(tm1.contains_key(id) && cell(tm1[id], cb[1]) == vb[0][1]);
    }
}

/// A created mark reads back with the caller's user and date and the
/// injected timestamp.
pub proof fn law_user_date_create_then_get(
    db: DbModel,
    u: UserDateForCreate,
    now: Timestamp,
    db1: DbModel,
    out1: OutcomeV,
    id: i64,
    db2: DbModel,
    out2: OutcomeV,
)
    requires
        db_wf(db),
        u.date.0.wf(),
        now.wf(),
        exec_rel(db, user_date_create_spec(u, now@), db1, out1),
        create_result(out1) == Ok::<i64, ErrorV>(id),
        exec_rel(
            db1,
            QueryV::Select {
                table: user_date_table_name(),
                columns: user_date_columns(),
                filter: id_filter(id),
            },
            db2,
            out2,
        ),
    ensures
        match get_row_result(user_date_table_name(), id, out2) {
            Ok(row) => user_date_from_row(row) == Ok::<UserDateV, ErrorV>(
                UserDateV {
                    id,
                    user_id: u.user_id,
                    date: (u.date.0.spec_year(), u.date.0.spec_month(), u.date.0.spec_day()),
                    ctime: now@,
                },
            ),
            Err(_) => false,
        },
{
    let t = user_date_table_name();
    let fs = user_date_fields(u) + seq![("ctime"@, Val::Text(now@))];
    lemma_create_one(db, t, fs, db1, out1, id);
    lemma_insert_one(t, fs);
    law_create_multiple_then_get(db, t, seq![fs], db1, out1, seq![id], 0, user_date_columns(), db2, out2);
    let sr = stored_row(field_names(fs), field_values(fs), id);
    let row = project(sr, user_date_columns());
    assert(get_row_result(t, id, out2) == Ok::<Seq<(Seq<char>, Val)>, ErrorV>(row));
    reveal_strlit("id");
    reveal_strlit("user_id");
    reveal_strlit("date");
    reveal_strlit("ctime");
    reveal_with_fuel(crate::sql::row_get_from, 5);
    assert("id"@.len() == 2 && "user_id"@.len() == 7 && "date"@.len() == 4 && "ctime"@.len() == 5);
    assert("user_id"@ != "id"@ && "date"@ != "id"@ && "ctime"@ != "id"@);
    assert("date"@ != "user_id"@ && "ctime"@ != "user_id"@ && "ctime"@ != "date"@);
    let cols = field_names(fs);
    let vals = field_values(fs);
    let dt = crate::fields::date_text(u.date.0);
    assert(fs[0] == ("user_id"@, Val::Int(u.user_id)));
    assert(fs[1] == ("date"@, Val::Text(dt)));
    assert(fs[2] == ("ctime"@, Val::Text(now@)));
    assert(cols[0] == "user_id"@ && cols[1] == "date"@ && cols[2] == "ctime"@);
    lemma_assoc_at(cols, vals, 0, "user_id"@);
    lemma_assoc_at(cols, vals, 1, "date"@);
    lemma_assoc_at(cols, vals, 2, "ctime"@);
    assert(cell(sr, "id"@) == Val::Int(id));
    assert(cell(sr, "user_id"@) == Val::Int(u.user_id));
    assert(cell(sr, "date"@) == Val::Text(dt));
    assert(cell(sr, "ctime"@) == Val::Text(now@));
    assert(row == seq![
        ("id"@, cell(sr, "id"@)),
        ("user_id"@, cell(sr, "user_id"@)),
        ("date"@, cell(sr, "date"@)),
        ("ctime"@, cell(sr, "ctime"@)),
    ]);
    crate::fields::lemma_date_text_round_trip(u.date.0);
}

// region:    --- General create laws

proof fn lemma_add_rows_len(tm: TableModel, ids: Seq<i64>, columns: Seq<Seq<char>>, rows: Seq<Seq<Val>>)
    requires
        tm.dom().finite(),
        fresh_ids(tm, ids, ids.len()),
        ids.len() <= rows.len(),
    ensures
        add_rows(tm, ids, columns, rows).dom().len() == tm.dom().len() + ids.len(),
    decreases ids.len(),
{
    if ids.len() > 0 {
        let p = ids.drop_last();
        assert(p.no_duplicates()) by {
            assert forall|i: int, j: int| 0 <= i < p.len() && 0 <= j < p.len() && i != j implies p[i]
                != p[j] by {
                assert(p[i] == ids[i] && p[j] == ids[j]);
            }
        }
        assert forall|i: int| 0 <= i < p.len() implies !tm.contains_key(#[trigger] p[i]) by {
            assert(p[i] == ids[i]);
        }
        lemma_add_rows_len(tm, p, columns, rows);
        lemma_add_rows(tm, p, columns, rows);
        let last = ids[ids.len() - 1];
        assert(!tm.contains_key(last));
        assert(!p.contains(last)) by {
            if p.contains(last) {
                let i = choose|i: int| 0 <= i < p.len() && p[i] == last;
                assert(ids[i] == last);
            }
        }
        let m = add_rows(tm, p, columns, rows);
        assert(!m.dom().contains(last));
        assert(add_rows(tm, ids, columns, rows).dom() == m.dom().insert(last));
    }
}

/// A create of several rows stores each row under its own fresh key, the
/// key at position `i` holding the `i`-th row, keeps every earlier row, and
/// grows the table by the number of rows.
pub proof fn law_create_multiple(
    db: DbModel,
    t: Seq<char>,
    rows: Seq<Seq<(Seq<char>, Val)>>,
    db1: DbModel,
    out1: OutcomeV,
    ids: Seq<i64>,
)
    requires
        db_wf(db),
        rows.len() > 0,
        exec_rel(db, insert_many_spec(t, rows, Returning::Id), db1, out1),
        ids_result(out1) == Ok::<Seq<i64>, ErrorV>(ids),
    ensures
        ids.len() == rows.len(),
        ids.no_duplicates(),
        forall|i: int|
            0 <= i < ids.len() ==> !table_of(db, t).contains_key(#[trigger] ids[i])
                && table_of(db1, t).contains_key(ids[i]) && table_of(db1, t)[ids[i]] == stored_row(
                field_names(rows[0]),
                field_values(rows[i]),
                ids[i],
            ),
        forall|x: i64| #[trigger]
            table_of(db, t).contains_key(x) ==> table_of(db1, t).contains_key(x) && table_of(
                db1,
                t,
            )[x] == table_of(db, t)[x],
        table_of(db1, t).dom().len() == table_of(db, t).dom().len() + rows.len(),
        forall|u: Seq<char>| u != t ==> #[trigger] table_of(db1, u) == table_of(db, u),
{
    let tm = table_of(db, t);
    let columns_in = field_names(rows[0]);
    let vrows = rows.map_values(|fs: Seq<(Seq<char>, Val)>| field_values(fs));
    assert(!violates_unique(tm, t, columns_in, vrows));
    let ids1 = choose|ids1: Seq<i64>|
        fresh_ids(tm, ids1, vrows.len()) && db1 == db.insert(t, add_rows(tm, ids1, columns_in, vrows))
            && #[trigger] returned(t, ids1, columns_in, vrows, Returning::Id) == out1->Rows_0
            && out1 is Rows;
    lemma_ids_of_returned(t, ids1, columns_in, vrows);
    assert(ids1 == ids);
    lemma_add_rows(tm, ids, columns_in, vrows);
    assert(tm.dom().finite());
    lemma_add_rows_len(tm, ids, columns_in, vrows);
    assert forall|x: i64| #[trigger] tm.contains_key(x) implies table_of(db1, t).contains_key(x)
        && table_of(db1, t)[x] == tm[x] by {
        if ids.contains(x) {
            let i = choose|i: int| 0 <= i < ids.len() && ids[i] == x;
            assert(!tm.contains_key(ids[i]));
        }
    }
    assert forall|i: int| 0 <= i < ids.len() implies !tm.contains_key(#[trigger] ids[i])
        && table_of(db1, t).contains_key(ids[i]) && table_of(db1, t)[ids[i]] == stored_row(
        columns_in,
        field_values(rows[i]),
        ids[i],
    ) by {
        assert(ids.contains(ids[i]));
        assert(vrows[i] == field_values(rows[i]));
    }
}

/// A single-row create reads back by its key: each requested column holds
/// the key, the value the caller gave for it, or NULL where none was given.
pub proof fn law_create_then_get(
    db: DbModel,
    t: Seq<char>,
    fs: Seq<(Seq<char>, Val)>,
    db1: DbModel,
    out1: OutcomeV,
    id: i64,
    columns: Seq<Seq<char>>,
    db2: DbModel,
    out2: OutcomeV,
)
    requires
        db_wf(db),
        field_names(fs).no_duplicates(),
        !field_names(fs).contains("id"@),
        exec_rel(db, crate::crud::insert_spec(t, fs, Returning::Id), db1, out1),
        create_result(out1) == Ok::<i64, ErrorV>(id),
        exec_rel(db1, QueryV::Select { table: t, columns, filter: id_filter(id) }, db2, out2),
    ensures
        match get_row_result(t, id, out2) {
            Ok(row) => row.len() == columns.len() && forall|i: int|
                0 <= i < columns.len() ==> (#[trigger] row[i]).0 == columns[i] && (columns[i] == "id"@
                    ==> row[i].1 == Val::Int(id)) && (columns[i] != "id"@ && !field_names(fs).contains(
                    columns[i],
                ) ==> row[i].1 == Val::Null) && forall|k: int|
                    0 <= k < fs.len() && fs[k].0 == columns[i] ==> row[i].1 == fs[k].1,
            Err(_) => false,
        },
{
    lemma_create_one(db, t, fs, db1, out1, id);
    lemma_insert_one(t, fs);
    law_create_multiple_then_get(db, t, seq![fs], db1, out1, seq![id], 0, columns, db2, out2);
    let cols = field_names(fs);
    let vals = field_values(fs);
    let sr = stored_row(cols, vals, id);
    let row = project(sr, columns);
    assert(get_row_result(t, id, out2) == Ok::<Seq<(Seq<char>, Val)>, ErrorV>(row));
    assert forall|i: int| 0 <= i < columns.len() implies (#[trigger] row[i]).0 == columns[i] && (
    columns[i] == "id"@ ==> row[i].1 == Val::Int(id)) && (columns[i] != "id"@ && !cols.contains(
        columns[i],
    ) ==> row[i].1 == Val::Null) && forall|k: int|
        0 <= k < fs.len() && fs[k].0 == columns[i] ==> row[i].1 == fs[k].1 by {
        let c = columns[i];
        if c != "id"@ && !cols.contains(c) {
            assert forall|j: int| 0 <= j < cols.len() implies cols[j] != c by {
                if cols[j] == c {
                    assert(cols.contains(c));
                }
            }
            lemma_assoc_absent(cols, vals, c);
        }
        assert forall|k: int| 0 <= k < fs.len() && fs[k].0 == columns[i] implies row[i].1
            == fs[k].1 by {
            assert(cols[k] == c);
            if c == "id"@ {
                assert(cols.contains("id"@));
            }
            assert forall|j: int| 0 <= j < k implies cols[j] != c by {
                assert(cols[j] != cols[k]);
            }
            lemma_assoc_at(cols, vals, k, c);
        }
    }
}

/// A created user reads back with the caller's name, the injected external
/// identifier and the injected timestamp, wherever the returned identifier
/// text reads back (which the user readers state of every row they read).
pub proof fn law_user_create_then_get(
    db: DbModel,
    u: UserForCreate,
    now: Timestamp,
    web_id: u128,
    db1: DbModel,
    out1: OutcomeV,
    id: i64,
    db2: DbModel,
    out2: OutcomeV,
)
    requires
        db_wf(db),
        user_check(u) is Ok,
        now.wf(),
        exec_rel(db, user_create_spec(u, now@, web_id, Returning::Id), db1, out1),
        create_result(out1) == Ok::<i64, ErrorV>(id),
        exec_rel(
            db1,
            QueryV::Select { table: user_table_name(), columns: user_columns(), filter: id_filter(id) },
            db2,
            out2,
        ),
    ensures
        first_row_reads_back(out2) ==> first_user(
            out2,
            ErrorV::EntityNotFound { entity: user_table_name(), id },
        ) == Ok::<UserV, ErrorV>(UserV { id, name: u.name@, web_id, ctime: now@ }),
{
    let t = user_table_name();
    let wt = crate::fields::uuid_text(web_id);
    let fs = user_fields(u) + seq![("ctime"@, Val::Text(now@)), ("web_id"@, Val::Text(wt))];
    lemma_create_one(db, t, fs, db1, out1, id);
    lemma_insert_one(t, fs);
    law_create_multiple_then_get(db, t, seq![fs], db1, out1, seq![id], 0, user_columns(), db2, out2);
    let sr = stored_row(field_names(fs), field_values(fs), id);
    let row = project(sr, user_columns());
    assert(get_row_result(t, id, out2) == Ok::<Seq<(Seq<char>, Val)>, ErrorV>(row));
    reveal_strlit("id");
    reveal_strlit("plan_id");
    reveal_strlit("name");
    reveal_strlit("web_id");
    reveal_strlit("ctime");
    reveal_with_fuel(crate::sql::row_get_from, 5);
    assert("id"@.len() == 2 && "plan_id"@.len() == 7 && "name"@.len() == 4 && "web_id"@.len() == 6
        && "ctime"@.len() == 5);
    assert("name"@ != "id"@ && "web_id"@ != "id"@ && "ctime"@ != "id"@ && "plan_id"@ != "id"@);
    assert("name"@ != "plan_id"@ && "web_id"@ != "plan_id"@ && "ctime"@ != "plan_id"@);
    assert("web_id"@ != "name"@ && "ctime"@ != "name"@ && "ctime"@ != "web_id"@);
    let cols = field_names(fs);
    let vals = field_values(fs);
    assert(fs[0] == ("plan_id"@, Val::Int(u.plan_id)));
    assert(fs[1] == ("name"@, Val::Text(u.name@)));
    assert(fs[2] == ("ctime"@, Val::Text(now@)));
    assert(fs[3] == ("web_id"@, Val::Text(wt)));
    assert(cols[0] == "plan_id"@ && cols[1] == "name"@ && cols[2] == "ctime"@ && cols[3]
        == "web_id"@);
    lemma_assoc_at(cols, vals, 1, "name"@);
    lemma_assoc_at(cols, vals, 2, "ctime"@);
    lemma_assoc_at(cols, vals, 3, "web_id"@);
    assert(cell(sr, "id"@) == Val::Int(id));
    assert(cell(sr, "name"@) == Val::Text(u.name@));
    assert(cell(sr, "web_id"@) == Val::Text(wt));
    assert(cell(sr, "ctime"@) == Val::Text(now@));
    assert(row == seq![
        ("id"@, cell(sr, "id"@)),
        ("name"@, cell(sr, "name"@)),
        ("web_id"@, cell(sr, "web_id"@)),
        ("ctime"@, cell(sr, "ctime"@)),
    ]);
    if first_row_reads_back(out2) {
        assert(crate::crud::text_col(row, "web_id"@) == Ok::<Seq<char>, ErrorV>(wt));
        assert(crate::crud::web_id_col(row) == Ok::<u128, ErrorV>(web_id));
    }
}

/// A plan whose public slug some stored plan already has is refused by the
/// unique index, and nothing changes.
pub proof fn law_plan_url_id_taken(
    db: DbModel,
    p: PlanForCreate,
    now: Seq<char>,
    db2: DbModel,
    out2: OutcomeV,
)
    requires
        exists|x: i64|
            #[trigger] table_of(db, plan_table_name()).contains_key(x) && cell(
                table_of(db, plan_table_name())[x],
                "url_id"@,
            ) == Val::Text(p.url_id@),
        exec_rel(db, plan_create_spec(p, now, Returning::Id), db2, out2),
    ensures
        create_result(out2) == Err::<i64, ErrorV>(ErrorV::Query(DbErrorKind::ConstraintViolation)),
        db2 == db,
{
    let t = plan_table_name();
    let tm = table_of(db, t);
    let x = choose|x: i64|
        #[trigger] tm.contains_key(x) && cell(tm[x], "url_id"@) == Val::Text(p.url_id@);
    let fb = plan_fields(p) + seq![("ctime"@, Val::Text(now))];
    let cb = field_names(fb);
    let vb = seq![field_values(fb)];
    assert(fb[1] == ("url_id"@, Val::Text(p.url_id@)));
    assert(cb[1] == "url_id"@);
    assert(vb[0][1] == Val::Text(p.url_id@));
    assert(unique_columns(t).contains(cb[1]));
    assert(violates_unique(tm, t, cb, vb)) by {
        assert(tm.contains_key(x) && cell(tm[x], cb[1]) == vb[0][1]);
    }
}

// endregion: --- General create laws

// region:    --- Toggle protocol

/// How many marks the user of `u` has on its date.
pub open spec fn pair_count(db: DbModel, u: UserDateForCreate) -> nat {
    matching(table_of(db, user_date_table_name()), pair_filter(u)).len()
}

/// One run of the toggle: the lookup, and the statement decided from what it found.
pub open spec fn toggle_run(
    db: DbModel,
    u: UserDateForCreate,
    db1: DbModel,
    o1: OutcomeV,
    found: Option<i64>,
    now: Seq<char>,
    db2: DbModel,
    o2: OutcomeV,
) -> bool {
    &&& exec_rel(db, get_date_spec(u), db1, o1)
    &&& get_date_result(o1) == Ok::<Option<i64>, ErrorV>(found)
    &&& exec_rel(db1, toggle_spec(u, found, now), db2, o2)
}

/// Some run of the toggle takes `db` to `db2`.
pub open spec fn toggled(db: DbModel, u: UserDateForCreate, db2: DbModel) -> bool {
    exists|db1: DbModel, o1: OutcomeV, found: Option<i64>, now: Seq<char>, o2: OutcomeV|
        #[trigger] toggle_run(db, u, db1, o1, found, now, db2, o2)
}

proof fn lemma_singleton(s: Set<i64>)
    requires
        s.finite(),
        s.len() == 1,
    ensures
        s == set![s.choose()],
{
    Set::lemma_is_singleton(s);
    vstd::set::axiom_set_choose_len(s);
    assert(s =~= set![s.choose()]);
}

proof fn lemma_ids_of_singleton(ids: Seq<i64>, x: i64)
    requires
        ids.no_duplicates(),
        ids.to_set() == set![x],
    ensures
        ids == seq![x],
{
    assert(set![x].contains(x));
    assert(ids.to_set().contains(x));
    assert forall|j: int| 0 <= j < ids.len() implies ids[j] == x by {
        assert(ids.to_set().contains(ids[j]));
    }
    if ids.len() > 1 {
        assert(ids[0] == ids[1]);
    }
    assert(ids =~= seq![x]);
}

proof fn lemma_mark_row(u: UserDateForCreate, now: Seq<char>, x: i64)
    ensures
        row_matches(
            stored_row(
                field_names(user_date_fields(u) + seq![("ctime"@, Val::Text(now))]),
                field_values(user_date_fields(u) + seq![("ctime"@, Val::Text(now))]),
                x,
            ),
            pair_filter(u),
        ),
{
    let fs = user_date_fields(u) + seq![("ctime"@, Val::Text(now))];
    let cols = field_names(fs);
    let vals = field_values(fs);
    reveal_strlit("id");
    reveal_strlit("user_id");
    reveal_strlit("date");
    assert("id"@.len() == 2 && "user_id"@.len() == 7 && "date"@.len() == 4);
    assert(fs[0] == ("user_id"@, Val::Int(u.user_id)));
    assert(fs[1] == ("date"@, Val::Text(crate::fields::date_text(u.date.0))));
    assert(cols[0] == "user_id"@ && cols[1] == "date"@);
    assert("user_id"@ != "id"@ && "date"@ != "id"@ && "date"@ != "user_id"@);
    lemma_assoc_at(cols, vals, 0, "user_id"@);
    lemma_assoc_at(cols, vals, 1, "date"@);
    let sr = stored_row(cols, vals, x);
    assert(cell(sr, "user_id"@) == Val::Int(u.user_id));
    assert(cell(sr, "date"@) == Val::Text(crate::fields::date_text(u.date.0)));
}

proof fn lemma_mark_table_not_unique()
    ensures
        unique_columns(user_date_table_name()) == Set::<Seq<char>>::empty(),
{
    reveal_strlit("user_date");
    reveal_strlit("plan");
    reveal_strlit("plan_user");
    assert("user_date"@.len() == 9 && "plan"@.len() == 4 && "plan_user"@.len() == 9);
    assert("user_date"@[0] == 'u' && "plan_user"@[0] == 'p');
    assert("user_date"@ != "plan"@ && "user_date"@ != "plan_user"@);
}

/// A toggle from no mark creates one, under a fresh key `x`.
proof fn lemma_toggle_adds(
    db: DbModel,
    u: UserDateForCreate,
    db1: DbModel,
    o1: OutcomeV,
    found: Option<i64>,
    now: Seq<char>,
    db2: DbModel,
    o2: OutcomeV,
) -> (x: i64)
    requires
        db_wf(db),
        pair_count(db, u) == 0,
        toggle_run(db, u, db1, o1, found, now, db2, o2),
    ensures
        found is None,
        !table_of(db, user_date_table_name()).contains_key(x),
        table_of(db2, user_date_table_name()) == table_of(db, user_date_table_name()).insert(
            x,
            stored_row(
                field_names(user_date_fields(u) + seq![("ctime"@, Val::Text(now))]),
                field_values(user_date_fields(u) + seq![("ctime"@, Val::Text(now))]),
                x,
            ),
        ),
        forall|t: Seq<char>| t != user_date_table_name() ==> #[trigger] table_of(db2, t) == table_of(db, t),
        matching(table_of(db2, user_date_table_name()), pair_filter(u)) == set![x],
        pair_count(db2, u) == 1,
        db_wf(db2),
{
    let t = user_date_table_name();
    let tm = table_of(db, t);
    assert(tm.dom().finite());
    let m = matching(tm, pair_filter(u));
    m.lemma_len0_is_empty();
    let ids = choose|ids: Seq<i64>|
        ids.no_duplicates() && ids.to_set() == matching(tm, pair_filter(u)) && #[trigger] select_rows(
            tm,
            ids,
            seq!["id"@],
        ) == o1->Rows_0;
    lemma_select_none(ids);
    assert(found is None);
    let fs = user_date_fields(u) + seq![("ctime"@, Val::Text(now))];
    let columns = field_names(fs);
    let vrows = seq![field_values(fs)];
    lemma_mark_table_not_unique();
    assert(!violates_unique(tm, t, columns, vrows));
    let ids1 = choose|ids1: Seq<i64>|
        fresh_ids(tm, ids1, vrows.len()) && db2 == db.insert(t, add_rows(tm, ids1, columns, vrows))
            && #[trigger] returned(t, ids1, columns, vrows, Returning::Id) == o2->Rows_0 && o2 is Rows;
    let x = ids1[0];
    assert(ids1 =~= seq![x]);
    assert(ids1.drop_last() =~= Seq::<i64>::empty());
    reveal_with_fuel(add_rows, 2);
    let sr = stored_row(columns, vrows[0], x);
    assert(add_rows(tm, ids1, columns, vrows) == tm.insert(x, sr));
    let tm2 = tm.insert(x, sr);
    lemma_mark_row(u, now, x);
    assert(matching(tm2, pair_filter(u)) =~= set![x]);
    assert(set![x].len() == 1) by {
        assert(Set::<i64>::empty().insert(x).len() == 1);
    }
    lemma_insert_wf(db, t, ids1, columns, vrows);
    x
}

/// A toggle from exactly one mark deletes it.
proof fn lemma_toggle_removes(
    db: DbModel,
    u: UserDateForCreate,
    db1: DbModel,
    o1: OutcomeV,
    found: Option<i64>,
    now: Seq<char>,
    db2: DbModel,
    o2: OutcomeV,
) -> (x: i64)
    requires
        db_wf(db),
        pair_count(db, u) == 1,
        toggle_run(db, u, db1, o1, found, now, db2, o2),
    ensures
        found == Some(x),
        matching(table_of(db, user_date_table_name()), pair_filter(u)) == set![x],
        table_of(db2, user_date_table_name()) == table_of(db, user_date_table_name()).remove_keys(
            set![x],
        ),
        forall|t: Seq<char>| t != user_date_table_name() ==> #[trigger] table_of(db2, t) == table_of(db, t),
        pair_count(db2, u) == 0,
        db_wf(db2),
{
    let t = user_date_table_name();
    let tm = table_of(db, t);
    assert(tm.dom().finite());
    let m = matching(tm, pair_filter(u));
    lemma_singleton(m);
    let x = m.choose();
    let ids = choose|ids: Seq<i64>|
        ids.no_duplicates() && ids.to_set() == matching(tm, pair_filter(u)) && #[trigger] select_rows(
            tm,
            ids,
            seq!["id"@],
        ) == o1->Rows_0;
    lemma_ids_of_singleton(ids, x);
    assert(m.contains(x));
    assert(tm.contains_key(x));
    assert(cell(tm[x], "id"@) == Val::Int(x));
    let rows = select_rows(tm, ids, seq!["id"@]);
    assert(rows[0] == seq![("id"@, Val::Int(x))]);
    assert(crate::sql::row_get(rows[0], "id"@) == Some(Val::Int(x)));
    assert(found == Some(x));
    assert(forall|y: i64| #[trigger] tm.contains_key(y) ==> cell(tm[y], "id"@) == Val::Int(y));
    let del = matching(tm, id_filter(x));
    assert(del =~= set![x]) by {
        assert forall|y: i64| del.contains(y) <==> y == x by {
            assert(id_filter(x)[0] == ("id"@, Val::Int(x)));
            if y == x {
                assert(row_matches(tm[x], id_filter(x)));
            }
        }
    }
    let tm2 = tm.remove_keys(set![x]);
    assert(matching(tm2, pair_filter(u)) =~= Set::<i64>::empty());
    let db2_ = db.insert(t, tm2);
    assert(db2 == db2_);
    assert forall|w: Seq<char>| #![trigger table_of(db2, w)]
        table_of(db2, w).dom().finite() && forall|id: i64| #[trigger]
            table_of(db2, w).contains_key(id) ==> cell(table_of(db2, w)[id], "id"@) == Val::Int(id) by {
        assert(table_of(db, w).dom().finite());
        if w == t {
            assert(tm2.dom() =~= tm.dom().remove(x));
        }
    }
    x
}

/// Toggling a date that has no mark creates exactly one.
pub proof fn law_toggle_adds(
    db: DbModel,
    u: UserDateForCreate,
    db1: DbModel,
    o1: OutcomeV,
    found: Option<i64>,
    now: Seq<char>,
    db2: DbModel,
    o2: OutcomeV,
)
    requires
        db_wf(db),
        pair_count(db, u) == 0,
        toggle_run(db, u, db1, o1, found, now, db2, o2),
    ensures
        found is None,
        pair_count(db2, u) == 1,
        db_wf(db2),
{
    lemma_toggle_adds(db, u, db1, o1, found, now, db2, o2);
}

/// Toggling a date that has one mark removes it.
pub proof fn law_toggle_removes(
    db: DbModel,
    u: UserDateForCreate,
    db1: DbModel,
    o1: OutcomeV,
    found: Option<i64>,
    now: Seq<char>,
    db2: DbModel,
    o2: OutcomeV,
)
    requires
        db_wf(db),
        pair_count(db, u) == 1,
        toggle_run(db, u, db1, o1, found, now, db2, o2),
    ensures
        found is Some,
        pair_count(db2, u) == 0,
        db_wf(db2),
{
    lemma_toggle_removes(db, u, db1, o1, found, now, db2, o2);
}

/// Two toggles in a row on a date without a mark give back the database
/// as it was: the create and the delete cancel out.
pub proof fn law_toggle_twice_restores(
    db: DbModel,
    u: UserDateForCreate,
    db1: DbModel,
    o1: OutcomeV,
    found1: Option<i64>,
    now1: Seq<char>,
    db2: DbModel,
    o2: OutcomeV,
    db3: DbModel,
    o3: OutcomeV,
    found2: Option<i64>,
    now2: Seq<char>,
    db4: DbModel,
    o4: OutcomeV,
)
    requires
        db_wf(db),
        pair_count(db, u) == 0,
        toggle_run(db, u, db1, o1, found1, now1, db2, o2),
        toggle_run(db2, u, db3, o3, found2, now2, db4, o4),
    ensures
        same_store(db, db4),
{
    let t = user_date_table_name();
    let x = lemma_toggle_adds(db, u, db1, o1, found1, now1, db2, o2);
    let y = lemma_toggle_removes(db2, u, db3, o3, found2, now2, db4, o4);
    assert(set![x].contains(x));
    assert(set![y].contains(x));
    assert(x == y);
    assert(table_of(db4, t) =~= table_of(db, t));
    assert forall|w: Seq<char>| #[trigger] table_of(db, w) == table_of(db4, w) by {
        if w != t {
            assert(table_of(db2, w) == table_of(db, w));
        }
    }
}

/// Two toggles in a row leave a date marked exactly when it was marked
/// before, keep every other row and table, and add only a row of that user
/// and date.
pub proof fn law_toggle_twice_keeps_presence(
    db: DbModel,
    u: UserDateForCreate,
    db1: DbModel,
    o1: OutcomeV,
    found1: Option<i64>,
    now1: Seq<char>,
    db2: DbModel,
    o2: OutcomeV,
    db3: DbModel,
    o3: OutcomeV,
    found2: Option<i64>,
    now2: Seq<char>,
    db4: DbModel,
    o4: OutcomeV,
)
    requires
        db_wf(db),
        pair_count(db, u) <= 1,
        toggle_run(db, u, db1, o1, found1, now1, db2, o2),
        toggle_run(db2, u, db3, o3, found2, now2, db4, o4),
    ensures
        pair_count(db4, u) == pair_count(db, u),
        forall|x: i64|
            #[trigger] table_of(db, user_date_table_name()).contains_key(x) && !matching(
                table_of(db, user_date_table_name()),
                pair_filter(u),
            ).contains(x) ==> table_of(db4, user_date_table_name()).contains_key(x) && table_of(
                db4,
                user_date_table_name(),
            )[x] == table_of(db, user_date_table_name())[x],
        forall|x: i64|
            #[trigger] table_of(db4, user_date_table_name()).contains_key(x) && !table_of(
                db,
                user_date_table_name(),
            ).contains_key(x) ==> matching(table_of(db4, user_date_table_name()), pair_filter(u)).contains(
                x,
            ),
        forall|w: Seq<char>| w != user_date_table_name() ==> #[trigger] table_of(db4, w) == table_of(db, w),
{
    let t = user_date_table_name();
    if pair_count(db, u) == 0 {
        law_toggle_twice_restores(db, u, db1, o1, found1, now1, db2, o2, db3, o3, found2, now2, db4, o4);
        assert(table_of(db, t) == table_of(db4, t));
    } else {
        let x = lemma_toggle_removes(db, u, db1, o1, found1, now1, db2, o2);
        let y = lemma_toggle_adds(db2, u, db3, o3, found2, now2, db4, o4);
        assert(set![x].contains(x));
        assert(set![y].contains(y));
        assert forall|w: Seq<char>| w != t implies #[trigger] table_of(db4, w) == table_of(db, w) by {
            assert(table_of(db2, w) == table_of(db, w));
        }
    }
}

/// From a date without a mark, any number of toggles leaves one mark after
/// an odd number of them and none after an even number; never more than one.
#[verifier::spinoff_prover]
#[verifier::rlimit(60)]
pub proof fn law_toggle_parity(states: Seq<DbModel>, u: UserDateForCreate)
    requires
        states.len() >= 1,
        db_wf(states[0]),
        pair_count(states[0], u) == 0,
        forall|i: int| 0 <= i < states.len() - 1 ==> toggled(#[trigger] states[i], u, states[i + 1]),
    ensures
        forall|i: int|
            0 <= i < states.len() ==> pair_count(#[trigger] states[i], u) == i % 2 && db_wf(states[i]),
    decreases states.len(),
{
    if states.len() > 1 {
        let prefix = states.drop_last();
        assert forall|i: int| 0 <= i < prefix.len() - 1 implies toggled(
            #[trigger] prefix[i],
            u,
            prefix[i + 1],
        ) by {
            assert(prefix[i] == states[i] && prefix[i + 1] == states[i + 1]);
        }
        law_toggle_parity(prefix, u);
        let n = states.len() - 1;
        assert(prefix[n - 1] == states[n - 1]);
        assert(toggled(states[n - 1], u, states[n]));
        let (db1, o1, found, now, o2) = choose|
            db1: DbModel,
            o1: OutcomeV,
            found: Option<i64>,
            now: Seq<char>,
            o2: OutcomeV,
        | #[trigger] toggle_run(states[n - 1], u, db1, o1, found, now, states[n], o2);
        if (n - 1) % 2 == 0 {
            lemma_toggle_adds(states[n - 1], u, db1, o1, found, now, states[n], o2);
        } else {
            lemma_toggle_removes(states[n - 1], u, db1, o1, found, now, states[n], o2);
        }
        assert forall|i: int| 0 <= i < states.len() implies pair_count(#[trigger] states[i], u) == i
            % 2 && db_wf(states[i]) by {
            if i < n {
                assert(prefix[i] == states[i]);
            }
        }
    }
}

// endregion: --- Toggle protocol

} // verus!
