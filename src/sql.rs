//! Values, fields and rows exchanged with the embedded database.

use vstd::prelude::*;

verus! {

/// A value as the database stores it.
pub enum Val {
    Null,
    Int(i64),
    Text(Seq<char>),
}

/// A column value that can be bound to a statement or read from a row.
#[derive(Debug, Clone)]
pub enum SqlValue {
    Null,
    Integer(i64),
    Text(String),
}

impl View for SqlValue {
    type V = Val;

    open spec fn view(&self) -> Val {
        match self {
            SqlValue::Null => Val::Null,
            SqlValue::Integer(i) => Val::Int(*i),
            SqlValue::Text(s) => Val::Text(s@),
        }
    }
}

/// A column name paired with a value.
#[derive(Debug, Clone)]
pub struct Field {
    pub name: String,
    pub value: SqlValue,
}

impl View for Field {
    type V = (Seq<char>, Val);

    open spec fn view(&self) -> (Seq<char>, Val) {
        (self.name@, self.value@)
    }
}

pub open spec fn fields_view(fs: Seq<Field>) -> Seq<(Seq<char>, Val)> {
    fs.map_values(|f: Field| f@)
}

/// The value of the first pair named `name` at or after position `i`.
pub open spec fn row_get_from(row: Seq<(Seq<char>, Val)>, name: Seq<char>, i: int) -> Option<Val>
    decreases row.len() - i,
{
    if i < 0 || i >= row.len() {
        None
    } else if row[i].0 == name {
        Some(row[i].1)
    } else {
        row_get_from(row, name, i + 1)
    }
}

/// The value of the first pair named `name`, if any.
pub open spec fn row_get(row: Seq<(Seq<char>, Val)>, name: Seq<char>) -> Option<Val> {
    row_get_from(row, name, 0)
}

/// Character-wise equality of two strings.
pub fn str_eq(a: &str, b: &str) -> (r: bool)
    ensures
        r == (a@ == b@),
{
    let n = a.unicode_len();
    if n != b.unicode_len() {
        return false;
    }
    let mut i: usize = 0;
    while i < n
        invariant
            n == a@.len(),
            n == b@.len(),
            i <= n,
            forall|j: int| 0 <= j < i ==> a@[j] == b@[j],
        decreases n - i,
    {
        if a.get_char(i) != b.get_char(i) {
            return false;
        }
        i = i + 1;
    }
    assert(a@ =~= b@);
    true
}

/// Looks a column up by name in a row; the first column of that name wins.
pub fn row_lookup<'a>(row: &'a Vec<Field>, name: &str) -> (r: Option<&'a SqlValue>)
    ensures
        match r {
            Some(v) => row_get(fields_view(row@), name@) == Some(v@),
            None => row_get(fields_view(row@), name@) is None,
        },
{
    let mut i: usize = 0;
    while i < row.len()
        invariant
            i <= row.len(),
            row_get(fields_view(row@), name@) == row_get_from(fields_view(row@), name@, i as int),
        decreases row.len() - i,
    {
        if str_eq(row[i].name.as_str(), name) {
            return Some(&row[i].value);
        }
        i = i + 1;
    }
    None
}


impl SqlValue {
    /// A copy of the value.
    pub fn duplicate(&self) -> (r: SqlValue)
        ensures
            r@ == self@,
    {
        match self {
            SqlValue::Null => SqlValue::Null,
            SqlValue::Integer(i) => SqlValue::Integer(*i),
            SqlValue::Text(t) => SqlValue::Text(t.clone()),
        }
    }
}

impl Field {
    /// A copy of the field.
    pub fn duplicate(&self) -> (r: Field)
        ensures
            r@ == self@,
    {
        Field { name: self.name.clone(), value: self.value.duplicate() }
    }
}

/// What an insert statement hands back for each new row.
#[derive(Debug, Clone, Copy, PartialEq, Eq, Structural)]
pub enum Returning {
    /// `RETURNING "id"`: the new primary key alone.
    Id,
    /// `RETURNING *`: the whole new row.
    All,
}

/// A statement of the fixed verb set, before it is rendered to SQL.
#[derive(Debug, Clone)]
pub enum Query {
    /// Inserts one row per entry of `rows`, each giving a value for each of `columns`.
    Insert { table: String, columns: Vec<String>, rows: Vec<Vec<SqlValue>>, returning: Returning },
    /// Selects `columns` of the rows whose columns equal every pair of `filter`.
    Select { table: String, columns: Vec<String>, filter: Vec<Field> },
    /// Deletes the rows whose columns equal every pair of `filter`.
    Delete { table: String, filter: Vec<Field> },
}

/// The mathematical form of a statement.
pub enum QueryV {
    Insert {
        table: Seq<char>,
        columns: Seq<Seq<char>>,
        rows: Seq<Seq<Val>>,
        returning: Returning,
    },
    Select { table: Seq<char>, columns: Seq<Seq<char>>, filter: Seq<(Seq<char>, Val)> },
    Delete { table: Seq<char>, filter: Seq<(Seq<char>, Val)> },
}

pub open spec fn names_view(v: Seq<String>) -> Seq<Seq<char>> {
    v.map_values(|s: String| s@)
}

pub open spec fn values_view(v: Seq<SqlValue>) -> Seq<Val> {
    v.map_values(|x: SqlValue| x@)
}

pub open spec fn rows_view(v: Seq<Vec<SqlValue>>) -> Seq<Seq<Val>> {
    v.map_values(|r: Vec<SqlValue>| values_view(r@))
}

impl View for Query {
    type V = QueryV;

    open spec fn view(&self) -> QueryV {
        match self {
            Query::Insert { table, columns, rows, returning } => QueryV::Insert {
                table: table@,
                columns: names_view(columns@),
                rows: rows_view(rows@),
                returning: *returning,
            },
            Query::Select { table, columns, filter } => QueryV::Select {
                table: table@,
                columns: names_view(columns@),
                filter: fields_view(filter@),
            },
            Query::Delete { table, filter } => QueryV::Delete {
                table: table@,
                filter: fields_view(filter@),
            },
        }
    }
}

/// A statement that renders to valid SQL: an insert names at least one column
/// and has at least one row, each row as wide as the column list.
pub open spec fn query_wf(q: QueryV) -> bool {
    match q {
        QueryV::Insert { columns, rows, .. } => columns.len() >= 1 && rows.len() >= 1 && forall|
            i: int,
        |
            0 <= i < rows.len() ==> #[trigger] rows[i].len() == columns.len(),
        _ => true,
    }
}

pub open spec fn quote(s: Seq<char>) -> Seq<char> {
    "\""@ + s + "\""@
}

/// Quoted identifiers separated by commas.
pub open spec fn join_quoted(cols: Seq<Seq<char>>) -> Seq<char>
    decreases cols.len(),
{
    if cols.len() == 0 {
        Seq::empty()
    } else if cols.len() == 1 {
        quote(cols[0])
    } else {
        join_quoted(cols.drop_last()) + ", "@ + quote(cols.last())
    }
}

/// `n` placeholders separated by commas.
pub open spec fn placeholders(n: nat) -> Seq<char>
    decreases n,
{
    if n == 0 {
        Seq::empty()
    } else if n == 1 {
        "?"@
    } else {
        placeholders((n - 1) as nat) + ", ?"@
    }
}

/// `n_rows` parenthesised groups of `n_cols` placeholders.
pub open spec fn value_groups(n_rows: nat, n_cols: nat) -> Seq<char>
    decreases n_rows,
{
    if n_rows == 0 {
        Seq::empty()
    } else if n_rows == 1 {
        "("@ + placeholders(n_cols) + ")"@
    } else {
        value_groups((n_rows - 1) as nat, n_cols) + ", ("@ + placeholders(n_cols) + ")"@
    }
}

/// Equality conditions on the filter's columns, joined by `AND`.
pub open spec fn conditions(filter: Seq<(Seq<char>, Val)>) -> Seq<char>
    decreases filter.len(),
{
    if filter.len() == 0 {
        Seq::empty()
    } else if filter.len() == 1 {
        quote(filter[0].0) + " = ?"@
    } else {
        conditions(filter.drop_last()) + " AND "@ + quote(filter.last().0) + " = ?"@
    }
}

pub open spec fn where_clause(filter: Seq<(Seq<char>, Val)>) -> Seq<char> {
    if filter.len() == 0 {
        Seq::empty()
    } else {
        " WHERE "@ + conditions(filter)
    }
}

pub open spec fn returning_clause(r: Returning) -> Seq<char> {
    match r {
        Returning::Id => " RETURNING \"id\""@,
        Returning::All => " RETURNING *"@,
    }
}

/// The SQLite text of a statement, with `?` for each bound value.
pub open spec fn sql_text(q: QueryV) -> Seq<char> {
    match q {
        QueryV::Insert { table, columns, rows, returning } => "INSERT INTO "@ + quote(table)
            + " ("@ + join_quoted(columns) + ") VALUES "@ + value_groups(
            rows.len(),
            columns.len(),
        ) + returning_clause(returning),
        QueryV::Select { table, columns, filter } => "SELECT "@ + join_quoted(columns)
            + " FROM "@ + quote(table) + where_clause(filter),
        QueryV::Delete { table, filter } => "DELETE FROM "@ + quote(table) + where_clause(
            filter,
        ),
    }
}

/// All rows' values, row after row.
pub open spec fn flatten(rows: Seq<Seq<Val>>) -> Seq<Val>
    decreases rows.len(),
{
    if rows.len() == 0 {
        Seq::empty()
    } else {
        flatten(rows.drop_last()) + rows.last()
    }
}

/// The values bound to the placeholders, in placeholder order.
pub open spec fn sql_params(q: QueryV) -> Seq<Val> {
    match q {
        QueryV::Insert { rows, .. } => flatten(rows),
        QueryV::Select { filter, .. } => filter.map_values(|f: (Seq<char>, Val)| f.1),
        QueryV::Delete { filter, .. } => filter.map_values(|f: (Seq<char>, Val)| f.1),
    }
}

fn push_quoted(out: &mut String, name: &String)
    ensures
        final(out)@ == old(out)@ + quote(name@),
{
    out.append("\"");
    out.append(name.as_str());
    out.append("\"");
}

fn push_quoted_list(out: &mut String, cols: &Vec<String>)
    ensures
        final(out)@ == old(out)@ + join_quoted(names_view(cols@)),
{
    let ghost start = out@;
    let mut i: usize = 0;
    while i < cols.len()
        invariant
            i <= cols.len(),
            out@ == start + join_quoted(names_view(cols@).subrange(0, i as int)),
        decreases cols.len() - i,
    {
        let ghost prev = out@;
        if i > 0 {
            out.append(", ");
        }
        push_quoted(out, &cols[i]);
        proof {
            let s = names_view(cols@).subrange(0, i + 1);
            assert(s.drop_last() =~= names_view(cols@).subrange(0, i as int));
            if i == 0 {
                assert(out@ =~= start + join_quoted(s));
            } else {
                assert(out@ =~= start + join_quoted(s));
            }
        }
        i = i + 1;
    }
    assert(names_view(cols@).subrange(0, cols.len() as int) =~= names_view(cols@));
}

fn push_placeholders(out: &mut String, n: usize)
    ensures
        final(out)@ == old(out)@ + placeholders(n as nat),
{
    let ghost start = out@;
    let mut i: usize = 0;
    while i < n
        invariant
            i <= n,
            out@ == start + placeholders(i as nat),
        decreases n - i,
    {
        if i == 0 {
            out.append("?");
            assert(out@ =~= start + placeholders(1));
        } else {
            out.append(", ?");
            assert(out@ =~= start + placeholders((i + 1) as nat));
        }
        i = i + 1;
    }
}

fn push_value_groups(out: &mut String, n_rows: usize, n_cols: usize)
    ensures
        final(out)@ == old(out)@ + value_groups(n_rows as nat, n_cols as nat),
{
    let ghost start = out@;
    let mut i: usize = 0;
    while i < n_rows
        invariant
            i <= n_rows,
            out@ == start + value_groups(i as nat, n_cols as nat),
        decreases n_rows - i,
    {
        if i == 0 {
            out.append("(");
        } else {
            out.append(", (");
        }
        push_placeholders(out, n_cols);
        out.append(")");
        assert(out@ =~= start + value_groups((i + 1) as nat, n_cols as nat));
        i = i + 1;
    }
}

fn push_where(out: &mut String, filter: &Vec<Field>)
    ensures
        final(out)@ == old(out)@ + where_clause(fields_view(filter@)),
{
    let ghost start = out@;
    if filter.len() == 0 {
        assert(out@ =~= start + where_clause(fields_view(filter@)));
        return;
    }
    out.append(" WHERE ");
    let ghost mid = out@;
    let mut i: usize = 0;
    while i < filter.len()
        invariant
            i <= filter.len(),
            filter.len() > 0,
            mid == start + " WHERE "@,
            out@ == mid + conditions(fields_view(filter@).subrange(0, i as int)),
        decreases filter.len() - i,
    {
        if i > 0 {
            out.append(" AND ");
        }
        push_quoted(out, &filter[i].name);
        out.append(" = ?");
        proof {
            let s = fields_view(filter@).subrange(0, i + 1);
            assert(s.drop_last() =~= fields_view(filter@).subrange(0, i as int));
            assert(out@ =~= mid + conditions(s));
        }
        i = i + 1;
    }
    assert(fields_view(filter@).subrange(0, filter.len() as int) =~= fields_view(filter@));
    assert(out@ =~= start + where_clause(fields_view(filter@)));
}

fn push_returning(out: &mut String, r: Returning)
    ensures
        final(out)@ == old(out)@ + returning_clause(r),
{
    match r {
        Returning::Id => out.append(" RETURNING \"id\""),
        Returning::All => out.append(" RETURNING *"),
    }
}

/// Renders a statement to SQLite text.
pub fn render_sql(q: &Query) -> (r: String)
    requires
        query_wf(q@),
    ensures
        r@ == sql_text(q@),
{
    let mut out = String::new();
    match q {
        Query::Insert { table, columns, rows, returning } => {
            out.append("INSERT INTO ");
            push_quoted(&mut out, table);
            out.append(" (");
            push_quoted_list(&mut out, columns);
            out.append(") VALUES ");
            push_value_groups(&mut out, rows.len(), columns.len());
            push_returning(&mut out, *returning);
            assert(out@ =~= sql_text(q@));
        },
        Query::Select { table, columns, filter } => {
            out.append("SELECT ");
            push_quoted_list(&mut out, columns);
            out.append(" FROM ");
            push_quoted(&mut out, table);
            push_where(&mut out, filter);
            assert(out@ =~= sql_text(q@));
        },
        Query::Delete { table, filter } => {
            out.append("DELETE FROM ");
            push_quoted(&mut out, table);
            push_where(&mut out, filter);
            assert(out@ =~= sql_text(q@));
        },
    }
    out
}

/// The values to bind to the rendered statement's placeholders, in order.
pub fn bind_params(q: &Query) -> (r: Vec<SqlValue>)
    ensures
        values_view(r@) == sql_params(q@),
{
    let mut out: Vec<SqlValue> = Vec::new();
    match q {
        Query::Insert { rows, .. } => {
            let mut i: usize = 0;
            while i < rows.len()
                invariant
                    i <= rows.len(),
                    values_view(out@) == flatten(rows_view(rows@).subrange(0, i as int)),
                decreases rows.len() - i,
            {
                let ghost before = out@;
                let row = &rows[i];
                let mut j: usize = 0;
                while j < row.len()
                    invariant
                        j <= row.len(),
                        out@.len() == before.len() + j,
                        values_view(out@) == values_view(before) + values_view(row@).subrange(
                            0,
                            j as int,
                        ),
                    decreases row.len() - j,
                {
                    let ghost prev = out@;
                    out.push(row[j].duplicate());
                    proof {
                        let want = values_view(before) + values_view(row@).subrange(0, j + 1);
                        assert forall|k: int| 0 <= k < out@.len() implies #[trigger] values_view(
                            out@,
                        )[k] == want[k] by {
                            if k < prev.len() {
                                assert(values_view(prev)[k] == want[k]);
                            }
                        }
                        assert(values_view(out@) =~= want);
                    }
                    j = j + 1;
                }
                proof {
                    let s = rows_view(rows@).subrange(0, i + 1);
                    assert(s.drop_last() =~= rows_view(rows@).subrange(0, i as int));
                    assert(values_view(row@).subrange(0, row.len() as int) =~= values_view(row@));
                    assert(values_view(out@) =~= flatten(s));
                }
                i = i + 1;
            }
            assert(rows_view(rows@).subrange(0, rows.len() as int) =~= rows_view(rows@));
        },
        Query::Select { filter, .. } | Query::Delete { filter, .. } => {
            let mut i: usize = 0;
            while i < filter.len()
                invariant
                    i <= filter.len(),
                    out@.len() == i,
                    values_view(out@) =~= fields_view(filter@).subrange(0, i as int).map_values(
                        |f: (Seq<char>, Val)| f.1,
                    ),
                decreases filter.len() - i,
            {
                let ghost prev = out@;
                out.push(filter[i].value.duplicate());
                proof {
                    let want = fields_view(filter@).subrange(0, i + 1).map_values(
                        |f: (Seq<char>, Val)| f.1,
                    );
                    assert forall|k: int| 0 <= k < out@.len() implies #[trigger] values_view(
                        out@,
                    )[k] == want[k] by {
                        if k < prev.len() {
                            assert(values_view(prev)[k] == want[k]);
                        }
                    }
                    assert(values_view(out@) =~= want);
                }
                i = i + 1;
            }
        },
    }
    out
}

/// How a statement failed in the database.
#[derive(Debug, Clone, Copy, PartialEq, Eq, Structural)]
pub enum DbErrorKind {
    /// A unique or other constraint rejected the statement.
    ConstraintViolation,
    /// Any other failure of the driver.
    Other,
}

/// A failure reported by the database driver.
#[derive(Debug, Clone)]
pub struct DbError {
    pub kind: DbErrorKind,
    pub message: String,
}

/// What an executed statement gave back.
#[derive(Debug, Clone)]
pub enum Outcome {
    /// The rows a select or a `RETURNING` clause produced, in the order produced.
    Rows(Vec<Vec<Field>>),
    /// The number of rows a delete removed.
    Changed(u64),
}

/// The mathematical form of an execution's result.
pub enum OutcomeV {
    Rows(Seq<Seq<(Seq<char>, Val)>>),
    Changed(nat),
    Failed(DbErrorKind),
}

pub open spec fn row_list_view(rows: Seq<Vec<Field>>) -> Seq<Seq<(Seq<char>, Val)>> {
    rows.map_values(|r: Vec<Field>| fields_view(r@))
}

pub open spec fn outcome_view(r: Result<Outcome, DbError>) -> OutcomeV {
    match r {
        Ok(Outcome::Rows(rows)) => OutcomeV::Rows(row_list_view(rows@)),
        Ok(Outcome::Changed(n)) => OutcomeV::Changed(n as nat),
        Err(e) => OutcomeV::Failed(e.kind),
    }
}

} // verus!
