use vstd::prelude::*;
use crate::cache::CacheOp;
use crate::error::opt_view;
use crate::schema::pairs_view;
use crate::tables::TableNames;

verus! {

/// A value bound to a `?` placeholder.
#[derive(Clone, Debug)]
pub enum SqlValue {
    Text(String),
    Int(u64),
    Null,
}

pub enum SqlValueSpec {
    Text(Seq<char>),
    Int(int),
    Null,
}

impl View for SqlValue {
    type V = SqlValueSpec;

    open spec fn view(&self) -> SqlValueSpec {
        match self {
            SqlValue::Text(s) => SqlValueSpec::Text(s@),
            SqlValue::Int(n) => SqlValueSpec::Int(*n as int),
            SqlValue::Null => SqlValueSpec::Null,
        }
    }
}

pub open spec fn values_view(v: Seq<SqlValue>) -> Seq<SqlValueSpec> {
    Seq::new(v.len(), |i: int| v[i]@)
}

/// An SQL statement with its bound values, in placeholder order.
#[derive(Clone, Debug)]
pub struct Statement {
    pub sql: String,
    pub params: Vec<SqlValue>,
}

pub open spec fn opt_text(o: Option<Seq<char>>) -> SqlValueSpec {
    match o {
        Some(s) => SqlValueSpec::Text(s),
        None => SqlValueSpec::Null,
    }
}

fn opt_value(o: &Option<String>) -> (r: SqlValue)
    ensures
        r@ == opt_text(opt_view(*o)),
{
    match o {
        Some(s) => SqlValue::Text(s.clone()),
        None => SqlValue::Null,
    }
}

/// `", name"` for each column.
pub open spec fn column_list(cols: Seq<Seq<char>>) -> Seq<char>
    decreases cols.len(),
{
    if cols.len() == 0 {
        Seq::empty()
    } else {
        column_list(cols.drop_last()) + ", "@ + cols.last()
    }
}

/// `", name=excluded.name"` for each column.
pub open spec fn update_list(cols: Seq<Seq<char>>) -> Seq<char>
    decreases cols.len(),
{
    if cols.len() == 0 {
        Seq::empty()
    } else {
        update_list(cols.drop_last()) + ", "@ + cols.last() + "=excluded."@ + cols.last()
    }
}

/// `", ?"` repeated `n` times.
pub open spec fn more_placeholders(n: nat) -> Seq<char>
    decreases n,
{
    if n == 0 {
        Seq::empty()
    } else {
        more_placeholders((n - 1) as nat) + ", ?"@
    }
}

/// `n` row tuples of `row`, separated by commas.
pub open spec fn row_tuples(n: nat, row: Seq<char>) -> Seq<char>
    decreases n,
{
    if n == 0 {
        Seq::empty()
    } else if n == 1 {
        row
    } else {
        row_tuples((n - 1) as nat, row) + ", "@ + row
    }
}

pub open spec fn value_params(path: Seq<char>, values: Seq<Seq<char>>) -> Seq<SqlValueSpec>
    decreases values.len(),
{
    if values.len() == 0 {
        Seq::empty()
    } else {
        value_params(path, values.drop_last()) + seq![
            SqlValueSpec::Int(values.len() - 1),
            SqlValueSpec::Text(path),
            SqlValueSpec::Text(values.last()),
        ]
    }
}

pub open spec fn pair_params(path: Seq<char>, pairs: Seq<crate::schema::DatePair>) -> Seq<
    SqlValueSpec,
>
    decreases pairs.len(),
{
    if pairs.len() == 0 {
        Seq::empty()
    } else {
        pair_params(path, pairs.drop_last()) + seq![
            SqlValueSpec::Int(pairs.len() - 1),
            SqlValueSpec::Text(path),
            opt_text(pairs.last().started),
            opt_text(pairs.last().finished),
        ]
    }
}

pub open spec fn cell_params(cols: Seq<(Seq<char>, Seq<char>)>) -> Seq<SqlValueSpec> {
    Seq::new(cols.len(), |i: int| SqlValueSpec::Text(cols[i].1))
}

pub open spec fn cell_names(cols: Seq<(Seq<char>, Seq<char>)>) -> Seq<Seq<char>> {
    Seq::new(cols.len(), |i: int| cols[i].0)
}

/// SQL text of a change against the tables named `t`.
pub open spec fn op_sql(op: CacheOp, t: TableNames) -> Seq<char> {
    match op {
        CacheOp::UpsertFile { path, modified, columns } => {
            let names = cell_names(crate::cache::columns_pairs_view(columns@));
            "INSERT INTO "@ + t.files_table@ + " (path, modified"@ + column_list(names)
                + ") VALUES (?, ?"@ + more_placeholders(names.len())
                + ") ON CONFLICT(path) DO UPDATE SET modified=excluded.modified"@ + update_list(
                names,
            )
        },
        CacheOp::TrimSide { attr, path, keep } => "DELETE FROM "@ + t.table_prefix@ + attr@
            + " WHERE path = ? AND ind >= ?"@,
        CacheOp::UpsertValues { attr, path, values } => "INSERT INTO "@ + t.table_prefix@ + attr@
            + " (ind, path, value) VALUES "@ + row_tuples(values@.len(), "(?, ?, ?)"@)
            + " ON CONFLICT(ind, path) DO UPDATE SET value=excluded.value"@,
        CacheOp::UpsertPairs { attr, path, pairs } => "INSERT INTO "@ + t.table_prefix@ + attr@
            + " (ind, path, started, finished) VALUES "@ + row_tuples(
            pairs@.len(),
            "(?, ?, ?, ?)"@,
        )
            + " ON CONFLICT(ind, path) DO UPDATE SET started=excluded.started, finished=excluded.finished"@,
        CacheOp::DeleteFile { path } => "DELETE FROM "@ + t.files_table@ + " WHERE path = ?"@,
        CacheOp::UpsertFolder { path, name } => "INSERT INTO "@ + t.folders_table@
            + " (path, name) VALUES (?, ?) ON CONFLICT(path) DO UPDATE SET name=excluded.name"@,
        CacheOp::DeleteFoldersUnder { prefix } => "DELETE FROM "@ + t.folders_table@
            + " WHERE substr(path, 1, length(?)) = ?"@,
        CacheOp::DeleteFilesUnder { prefix } => "DELETE FROM "@ + t.files_table@
            + " WHERE substr(path, 1, length(?)) = ?"@,
    }
}

/// Values bound by a change, in placeholder order.
pub open spec fn op_params(op: CacheOp) -> Seq<SqlValueSpec> {
    match op {
        CacheOp::UpsertFile { path, modified, columns } => seq![
            SqlValueSpec::Text(path@),
            opt_text(opt_view(modified)),
        ] + cell_params(crate::cache::columns_pairs_view(columns@)),
        CacheOp::TrimSide { attr, path, keep } => seq![
            SqlValueSpec::Text(path@),
            SqlValueSpec::Int(keep as int),
        ],
        CacheOp::UpsertValues { attr, path, values } => value_params(path@, values.deep_view()),
        CacheOp::UpsertPairs { attr, path, pairs } => pair_params(path@, pairs_view(pairs@)),
        CacheOp::DeleteFile { path } => seq![SqlValueSpec::Text(path@)],
        CacheOp::UpsertFolder { path, name } => seq![
            SqlValueSpec::Text(path@),
            SqlValueSpec::Text(name@),
        ],
        CacheOp::DeleteFoldersUnder { prefix } => seq![
            SqlValueSpec::Text(prefix@),
            SqlValueSpec::Text(prefix@),
        ],
        CacheOp::DeleteFilesUnder { prefix } => seq![
            SqlValueSpec::Text(prefix@),
            SqlValueSpec::Text(prefix@),
        ],
    }
}

fn upsert_file_statement(t: &TableNames, path: &String, modified: &Option<String>, columns: &Vec<(String, String)>) -> (r: Statement)
    ensures
        r.sql@ == op_sql(CacheOp::UpsertFile { path: *path, modified: *modified, columns: *columns }, *t),
        values_view(r.params@) == op_params(CacheOp::UpsertFile { path: *path, modified: *modified, columns: *columns }),
{
    let ghost cv = crate::cache::columns_pairs_view(columns@);
    let ghost names = cell_names(cv);
    let mut params: Vec<SqlValue> = Vec::new();
    params.push(SqlValue::Text(path.clone()));
    params.push(opt_value(modified));
    let mut cols = String::new();
    let mut marks = String::new();
    let mut updates = String::new();
    let n = columns.len();
    let mut i: usize = 0;
    proof {
        assert(names.take(0) =~= Seq::<Seq<char>>::empty());
        assert(values_view(params@) =~= seq![SqlValueSpec::Text(path@), opt_text(opt_view(*modified))] + cell_params(cv.take(0)));
    }
    while i < n
        invariant
            n == columns@.len(),
            i <= n,
            cv == crate::cache::columns_pairs_view(columns@),
            names == cell_names(cv),
            cols@ == column_list(names.take(i as int)),
            marks@ == more_placeholders(i as nat),
            updates@ == update_list(names.take(i as int)),
            values_view(params@) == seq![SqlValueSpec::Text(path@), opt_text(opt_view(*modified))] + cell_params(cv.take(i as int)),
        decreases n - i,
    {
        let ghost pv = values_view(params@);
        cols.append(", ");
        cols.append(columns[i].0.as_str());
        marks.append(", ?");
        updates.append(", ");
        updates.append(columns[i].0.as_str());
        updates.append("=excluded.");
        updates.append(columns[i].0.as_str());
        params.push(SqlValue::Text(columns[i].1.clone()));
        proof {
            assert(names.take(i as int + 1).drop_last() =~= names.take(i as int));
            assert(names.take(i as int + 1).last() == columns@[i as int].0@);
            assert(cols@ =~= column_list(names.take(i as int + 1)));
            assert(updates@ =~= update_list(names.take(i as int + 1)));
            assert(marks@ =~= more_placeholders(i as nat + 1));
            assert(values_view(params@) =~= pv.push(SqlValueSpec::Text(columns@[i as int].1@)));
            assert(cell_params(cv.take(i as int + 1)) =~= cell_params(cv.take(i as int)).push(SqlValueSpec::Text(columns@[i as int].1@)));
            assert(values_view(params@) =~= seq![SqlValueSpec::Text(path@), opt_text(opt_view(*modified))] + cell_params(cv.take(i as int + 1)));
        }
        i += 1;
    }
    proof {
        assert(names.take(n as int) =~= names);
        assert(cv.take(n as int) =~= cv);
    }
    let mut sql = String::new();
    sql.append("INSERT INTO ");
    sql.append(t.files_table.as_str());
    sql.append(" (path, modified");
    sql.append(cols.as_str());
    sql.append(") VALUES (?, ?");
    sql.append(marks.as_str());
    sql.append(") ON CONFLICT(path) DO UPDATE SET modified=excluded.modified");
    sql.append(updates.as_str());
    proof {
        assert(sql@ =~= op_sql(CacheOp::UpsertFile { path: *path, modified: *modified, columns: *columns }, *t));
    }
    Statement { sql, params }
}

fn prefix_delete(table: &String, prefix: &String) -> (r: Statement)
    ensures
        r.sql@ == "DELETE FROM "@ + table@ + " WHERE substr(path, 1, length(?)) = ?"@,
        values_view(r.params@) == seq![SqlValueSpec::Text(prefix@), SqlValueSpec::Text(prefix@)],
{
    let mut sql = String::new();
    sql.append("DELETE FROM ");
    sql.append(table.as_str());
    sql.append(" WHERE substr(path, 1, length(?)) = ?");
    let mut params: Vec<SqlValue> = Vec::new();
    params.push(SqlValue::Text(prefix.clone()));
    params.push(SqlValue::Text(prefix.clone()));
    proof {
        assert(values_view(params@) =~= seq![SqlValueSpec::Text(prefix@), SqlValueSpec::Text(prefix@)]);
    }
    Statement { sql, params }
}

/// Appends `n` row tuples of `row` to `sql`.
fn push_row_tuples(sql: &mut String, n: usize, row: &str)
    ensures
        final(sql)@ == old(sql)@ + row_tuples(n as nat, row@),
{
    let ghost head = sql@;
    let mut i: usize = 0;
    while i < n
        invariant
            i <= n,
            sql@ == head + row_tuples(i as nat, row@),
        decreases n - i,
    {
        if i > 0 {
            sql.append(", ");
        }
        sql.append(row);
        proof {
            if i == 0 {
                assert(row_tuples(0, row@) =~= Seq::<char>::empty());
            }
            assert(sql@ =~= head + row_tuples(i as nat + 1, row@));
        }
        i += 1;
    }
}

impl CacheOp {
    /// The change as one SQL statement against the tables named `t`.
    pub fn to_statement(&self, t: &TableNames) -> (r: Statement)
        ensures
            r.sql@ == op_sql(*self, *t),
            values_view(r.params@) == op_params(*self),
    {
        match self {
            CacheOp::UpsertFile { path, modified, columns } => upsert_file_statement(t, path, modified, columns),
            CacheOp::TrimSide { attr, path, keep } => {
                let mut sql = String::new();
                sql.append("DELETE FROM ");
                sql.append(t.table_prefix.as_str());
                sql.append(attr.as_str());
                sql.append(" WHERE path = ? AND ind >= ?");
                let mut params: Vec<SqlValue> = Vec::new();
                params.push(SqlValue::Text(path.clone()));
                params.push(SqlValue::Int(*keep as u64));
                proof {
                    assert(values_view(params@) =~= op_params(*self));
                    assert(sql@ =~= op_sql(*self, *t));
                }
                Statement { sql, params }
            },
            CacheOp::UpsertValues { attr, path, values } => {
                let mut sql = String::new();
                sql.append("INSERT INTO ");
                sql.append(t.table_prefix.as_str());
                sql.append(attr.as_str());
                sql.append(" (ind, path, value) VALUES ");
                push_row_tuples(&mut sql, values.len(), "(?, ?, ?)");
                sql.append(" ON CONFLICT(ind, path) DO UPDATE SET value=excluded.value");
                let mut params: Vec<SqlValue> = Vec::new();
                let n = values.len();
                let mut i: usize = 0;
                proof {
                    assert(values_view(params@) =~= value_params(path@, values.deep_view().take(0)));
                }
                while i < n
                    invariant
                        n == values@.len(),
                        i <= n,
                        values_view(params@) == value_params(path@, values.deep_view().take(i as int)),
                    decreases n - i,
                {
                    let ghost pv = values_view(params@);
                    params.push(SqlValue::Int(i as u64));
                    params.push(SqlValue::Text(path.clone()));
                    params.push(SqlValue::Text(values[i].clone()));
                    proof {
                        let t1 = values.deep_view().take(i as int + 1);
                        assert(t1.drop_last() =~= values.deep_view().take(i as int));
                        assert(t1.last() == values@[i as int]@);
                        assert(values_view(params@) =~= value_params(path@, t1));
                    }
                    i += 1;
                }
                proof {
                    assert(values.deep_view().take(n as int) =~= values.deep_view());
                    assert(sql@ =~= op_sql(*self, *t));
                }
                Statement { sql, params }
            },
            CacheOp::UpsertPairs { attr, path, pairs } => {
                let mut sql = String::new();
                sql.append("INSERT INTO ");
                sql.append(t.table_prefix.as_str());
                sql.append(attr.as_str());
                sql.append(" (ind, path, started, finished) VALUES ");
                push_row_tuples(&mut sql, pairs.len(), "(?, ?, ?, ?)");
                sql.append(" ON CONFLICT(ind, path) DO UPDATE SET started=excluded.started, finished=excluded.finished");
                let mut params: Vec<SqlValue> = Vec::new();
                let n = pairs.len();
                let mut i: usize = 0;
                proof {
                    assert(values_view(params@) =~= pair_params(path@, pairs_view(pairs@).take(0)));
                }
                while i < n
                    invariant
                        n == pairs@.len(),
                        i <= n,
                        values_view(params@) == pair_params(path@, pairs_view(pairs@).take(i as int)),
                    decreases n - i,
                {
                    let ghost pv = values_view(params@);
                    params.push(SqlValue::Int(i as u64));
                    params.push(SqlValue::Text(path.clone()));
                    params.push(opt_value(&pairs[i].started));
                    params.push(opt_value(&pairs[i].finished));
                    proof {
                        let t1 = pairs_view(pairs@).take(i as int + 1);
                        assert(t1.drop_last() =~= pairs_view(pairs@).take(i as int));
                        assert(t1.last() == pairs@[i as int]@);
                        assert(values_view(params@) =~= pair_params(path@, t1));
                    }
                    i += 1;
                }
                proof {
                    assert(pairs_view(pairs@).take(n as int) =~= pairs_view(pairs@));
                    assert(sql@ =~= op_sql(*self, *t));
                }
                Statement { sql, params }
            },
            CacheOp::DeleteFile { path } => {
                let mut sql = String::new();
                sql.append("DELETE FROM ");
                sql.append(t.files_table.as_str());
                sql.append(" WHERE path = ?");
                let mut params: Vec<SqlValue> = Vec::new();
                params.push(SqlValue::Text(path.clone()));
                proof {
                    assert(values_view(params@) =~= op_params(*self));
                }
                Statement { sql, params }
            },
            CacheOp::UpsertFolder { path, name } => {
                let mut sql = String::new();
                sql.append("INSERT INTO ");
                sql.append(t.folders_table.as_str());
                sql.append(" (path, name) VALUES (?, ?) ON CONFLICT(path) DO UPDATE SET name=excluded.name");
                let mut params: Vec<SqlValue> = Vec::new();
                params.push(SqlValue::Text(path.clone()));
                params.push(SqlValue::Text(name.clone()));
                proof {
                    assert(values_view(params@) =~= op_params(*self));
                }
                Statement { sql, params }
            },
            CacheOp::DeleteFoldersUnder { prefix } => prefix_delete(&t.folders_table, prefix),
            CacheOp::DeleteFilesUnder { prefix } => prefix_delete(&t.files_table, prefix),
        }
    }
}

} // verus!
