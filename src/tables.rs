use vstd::prelude::*;
use crate::schema::{ItemSpec, Schema, SchemaView};

verus! {

/// Physical table names owned by one schema.
#[derive(Clone, Debug)]
pub struct TableNames {
    pub table_prefix: String,
    pub files_table: String,
    pub folders_table: String,
}

/// Prefix of every table of the schema named `n`.
pub open spec fn prefix_of(n: Seq<char>) -> Seq<char> {
    n + seq!['_']
}

pub open spec fn files_table_of(n: Seq<char>) -> Seq<char> {
    prefix_of(n) + "files"@
}

pub open spec fn folders_table_of(n: Seq<char>) -> Seq<char> {
    prefix_of(n) + "folders"@
}

/// Side table of the collection attribute `attr`.
pub open spec fn side_table_of(n: Seq<char>, attr: Seq<char>) -> Seq<char> {
    prefix_of(n) + attr
}

impl TableNames {
    pub open spec fn of(self, n: Seq<char>) -> bool {
        &&& self.table_prefix@ == prefix_of(n)
        &&& self.files_table@ == files_table_of(n)
        &&& self.folders_table@ == folders_table_of(n)
    }
}

/// Table names of the schema whose internal name is given.
pub fn get_table_names(schema_internal_name: String) -> (r: TableNames)
    ensures
        r.of(schema_internal_name@),
{
    let mut table_prefix = schema_internal_name;
    table_prefix.append("_");
    proof {
        reveal_strlit("_");
        assert(table_prefix@ =~= prefix_of(schema_internal_name@));
    }
    let mut files_table = table_prefix.clone();
    files_table.append("files");
    let mut folders_table = table_prefix.clone();
    folders_table.append("folders");
    TableNames { table_prefix, files_table, folders_table }
}

/// One column of a files table besides `path` and `modified`.
#[derive(Clone, Debug)]
pub struct FileColumn {
    pub name: String,
    pub numeric: bool,
}

pub struct ColumnSpec {
    pub name: Seq<char>,
    pub numeric: bool,
}

impl View for FileColumn {
    type V = ColumnSpec;

    open spec fn view(&self) -> ColumnSpec {
        ColumnSpec { name: self.name@, numeric: self.numeric }
    }
}

/// One statement of the schema's table layout.
#[derive(Clone, Debug)]
pub enum DdlStatement {
    DropTable(String),
    CreateFolders(String),
    CreateFiles { table: String, columns: Vec<FileColumn> },
    CreateSide { table: String, files_table: String, pair: bool },
}

pub enum DdlSpec {
    DropTable(Seq<char>),
    CreateFolders(Seq<char>),
    CreateFiles { table: Seq<char>, columns: Seq<ColumnSpec> },
    CreateSide { table: Seq<char>, files_table: Seq<char>, pair: bool },
}

pub open spec fn columns_view(v: Seq<FileColumn>) -> Seq<ColumnSpec> {
    Seq::new(v.len(), |i: int| v[i]@)
}

impl View for DdlStatement {
    type V = DdlSpec;

    open spec fn view(&self) -> DdlSpec {
        match self {
            DdlStatement::DropTable(t) => DdlSpec::DropTable(t@),
            DdlStatement::CreateFolders(t) => DdlSpec::CreateFolders(t@),
            DdlStatement::CreateFiles { table, columns } => DdlSpec::CreateFiles {
                table: table@,
                columns: columns_view(columns@),
            },
            DdlStatement::CreateSide { table, files_table, pair } => DdlSpec::CreateSide {
                table: table@,
                files_table: files_table@,
                pair: *pair,
            },
        }
    }
}

pub open spec fn ddl_view(v: Seq<DdlStatement>) -> Seq<DdlSpec> {
    Seq::new(v.len(), |i: int| v[i]@)
}

/// Columns of the files table for the scalar items, in item order.
pub open spec fn scalar_columns(items: Seq<ItemSpec>) -> Seq<ColumnSpec>
    decreases items.len(),
{
    if items.len() == 0 {
        Seq::empty()
    } else {
        let r = scalar_columns(items.drop_last());
        let it = items.last();
        if it.kind.is_scalar() {
            r.push(ColumnSpec { name: it.name, numeric: it.kind is Number })
        } else {
            r
        }
    }
}

/// Side tables of the collection items, in item order: name and whether the
/// table holds pairs.
pub open spec fn side_specs(n: Seq<char>, items: Seq<ItemSpec>) -> Seq<(Seq<char>, bool)>
    decreases items.len(),
{
    if items.len() == 0 {
        Seq::empty()
    } else {
        let r = side_specs(n, items.drop_last());
        let it = items.last();
        if !it.kind.is_scalar() {
            r.push((side_table_of(n, it.name), it.kind.is_pair_collection()))
        } else {
            r
        }
    }
}

/// The statements that lay out a schema's tables, in execution order: the
/// folders table and the side tables are dropped before the files table,
/// and the files table is created before the side tables that refer to it.
pub open spec fn ddl_plan(s: SchemaView) -> Seq<DdlSpec> {
    if s.items.len() == 0 {
        Seq::empty()
    } else {
        let n = s.internal_name;
        let sides = side_specs(n, s.items);
        seq![DdlSpec::DropTable(folders_table_of(n)), DdlSpec::CreateFolders(folders_table_of(n))]
            + sides.map_values(|t: (Seq<char>, bool)| DdlSpec::DropTable(t.0))
            + seq![
            DdlSpec::DropTable(files_table_of(n)),
            DdlSpec::CreateFiles { table: files_table_of(n), columns: scalar_columns(s.items) },
        ] + sides.map_values(
            |t: (Seq<char>, bool)|
                DdlSpec::CreateSide { table: t.0, files_table: files_table_of(n), pair: t.1 },
        )
    }
}

/// Builds the layout statements of a schema; none for a schema without items.
pub fn schema_ddl(schema: &Schema) -> (r: Vec<DdlStatement>)
    ensures
        ddl_view(r@) == ddl_plan(schema@),
{
    let mut out: Vec<DdlStatement> = Vec::new();
    if schema.items.len() == 0 {
        proof {
            assert(ddl_view(out@) =~= ddl_plan(schema@));
        }
        return out;
    }
    let names = get_table_names(schema.internal_name.clone());
    let ghost n = schema@.internal_name;
    let ghost items = schema@.items;
    let mut columns: Vec<FileColumn> = Vec::new();
    let mut sides: Vec<(String, bool)> = Vec::new();
    let len = schema.items.len();
    let mut i: usize = 0;
    while i < len
        invariant
            len == schema.items@.len(),
            items == schema@.items,
            n == schema@.internal_name,
            names.of(n),
            i <= len,
            columns_view(columns@) == scalar_columns(items.take(i as int)),
            Seq::new(sides@.len(), |k: int| (sides@[k].0@, sides@[k].1)) == side_specs(
                n,
                items.take(i as int),
            ),
        decreases len - i,
    {
        let item = &schema.items[i];
        let ghost old_cols = columns_view(columns@);
        let ghost old_sides = Seq::new(sides@.len(), |k: int| (sides@[k].0@, sides@[k].1));
        proof {
            assert(items.take(i as int + 1).drop_last() =~= items.take(i as int));
            assert(items.take(i as int + 1).last() == item@);
        }
        match &item.value {
            crate::schema::SchemaAttrKey::Text(_)
            | crate::schema::SchemaAttrKey::Date(_)
            | crate::schema::SchemaAttrKey::Image(_) => {
                columns.push(FileColumn { name: item.name.clone(), numeric: false });
                proof {
                    assert(columns_view(columns@) =~= old_cols.push(
                        ColumnSpec { name: item@.name, numeric: false },
                    ));
                }
            },
            crate::schema::SchemaAttrKey::Number(_) => {
                columns.push(FileColumn { name: item.name.clone(), numeric: true });
                proof {
                    assert(columns_view(columns@) =~= old_cols.push(
                        ColumnSpec { name: item@.name, numeric: true },
                    ));
                }
            },
            crate::schema::SchemaAttrKey::TextCollection(_)
            | crate::schema::SchemaAttrKey::DateCollection(_)
            | crate::schema::SchemaAttrKey::DatesPairCollection(_) => {
                let mut t = names.table_prefix.clone();
                t.append(item.name.as_str());
                let pair = match &item.value {
                    crate::schema::SchemaAttrKey::DatesPairCollection(_) => true,
                    _ => false,
                };
                sides.push((t, pair));
                proof {
                    assert(Seq::new(sides@.len(), |k: int| (sides@[k].0@, sides@[k].1))
                        =~= old_sides.push((side_table_of(n, item@.name), pair)));
                }
            },
        }
        i += 1;
    }
    proof {
        assert(items.take(len as int) =~= items);
    }
    let ghost sv = Seq::new(sides@.len(), |k: int| (sides@[k].0@, sides@[k].1));
    out.push(DdlStatement::DropTable(names.folders_table.clone()));
    out.push(DdlStatement::CreateFolders(names.folders_table.clone()));
    let ns = sides.len();
    let mut k: usize = 0;
    while k < ns
        invariant
            ns == sides@.len(),
            k <= ns,
            sv == Seq::new(sides@.len(), |k: int| (sides@[k].0@, sides@[k].1)),
            ddl_view(out@) == seq![
                DdlSpec::DropTable(folders_table_of(n)),
                DdlSpec::CreateFolders(folders_table_of(n)),
            ] + sv.take(k as int).map_values(|t: (Seq<char>, bool)| DdlSpec::DropTable(t.0)),
            names.of(n),
        decreases ns - k,
    {
        let ghost before = ddl_view(out@);
        out.push(DdlStatement::DropTable(sides[k].0.clone()));
        proof {
            assert(sv.take(k as int + 1) =~= sv.take(k as int).push(sv[k as int]));
            assert(ddl_view(out@) =~= before.push(DdlSpec::DropTable(sv[k as int].0)));
            assert(ddl_view(out@) =~= seq![
                DdlSpec::DropTable(folders_table_of(n)),
                DdlSpec::CreateFolders(folders_table_of(n)),
            ] + sv.take(k as int + 1).map_values(|t: (Seq<char>, bool)| DdlSpec::DropTable(t.0)));
        }
        k += 1;
    }
    let ghost before_files = ddl_view(out@);
    let ghost cols = columns_view(columns@);
    out.push(DdlStatement::DropTable(names.files_table.clone()));
    out.push(DdlStatement::CreateFiles { table: names.files_table.clone(), columns });
    let ghost mid = ddl_view(out@);
    proof {
        assert(sv.take(ns as int) =~= sv);
        assert(sv == side_specs(n, items));
        assert(cols == scalar_columns(items));
        assert(mid =~= before_files + seq![
            DdlSpec::DropTable(files_table_of(n)),
            DdlSpec::CreateFiles { table: files_table_of(n), columns: scalar_columns(items) },
        ]);
    }
    let mut k: usize = 0;
    while k < ns
        invariant
            ns == sides@.len(),
            k <= ns,
            sv == Seq::new(sides@.len(), |k: int| (sides@[k].0@, sides@[k].1)),
            ddl_view(out@) == mid + sv.take(k as int).map_values(
                |t: (Seq<char>, bool)|
                    DdlSpec::CreateSide { table: t.0, files_table: files_table_of(n), pair: t.1 },
            ),
            names.of(n),
        decreases ns - k,
    {
        let ghost before = ddl_view(out@);
        out.push(
            DdlStatement::CreateSide {
                table: sides[k].0.clone(),
                files_table: names.files_table.clone(),
                pair: sides[k].1,
            },
        );
        proof {
            assert(sv.take(k as int + 1) =~= sv.take(k as int).push(sv[k as int]));
            assert(ddl_view(out@) =~= before.push(
                DdlSpec::CreateSide {
                    table: sv[k as int].0,
                    files_table: files_table_of(n),
                    pair: sv[k as int].1,
                },
            ));
            assert(ddl_view(out@) =~= mid + sv.take(k as int + 1).map_values(
                |t: (Seq<char>, bool)|
                    DdlSpec::CreateSide { table: t.0, files_table: files_table_of(n), pair: t.1 },
            ));
        }
        k += 1;
    }
    proof {
        assert(sv.take(ns as int) =~= sv);
        assert(ddl_view(out@) =~= ddl_plan(schema@));
    }
    out
}


/// `CREATE TABLE` column list of the scalar columns, each preceded by a comma.
pub open spec fn columns_sql(cols: Seq<ColumnSpec>) -> Seq<char>
    decreases cols.len(),
{
    if cols.len() == 0 {
        Seq::empty()
    } else {
        columns_sql(cols.drop_last()) + ", "@ + cols.last().name + if cols.last().numeric {
            " REAL"@
        } else {
            " TEXT"@
        }
    }
}

/// Value columns of a side table.
pub open spec fn side_values_sql(pair: bool) -> Seq<char> {
    if pair {
        "started TEXT, finished TEXT"@
    } else {
        "value TEXT"@
    }
}

/// SQL text of a layout statement.
pub open spec fn ddl_sql(d: DdlSpec) -> Seq<char> {
    match d {
        DdlSpec::DropTable(t) => "DROP TABLE IF EXISTS "@ + t + ";"@,
        DdlSpec::CreateFolders(t) => "CREATE TABLE "@ + t + " (path TEXT PRIMARY KEY, name TEXT);"@,
        DdlSpec::CreateFiles { table, columns } => "CREATE TABLE "@ + table
            + " (path TEXT PRIMARY KEY, modified TEXT"@ + columns_sql(columns) + ");"@,
        DdlSpec::CreateSide { table, files_table, pair } => "CREATE TABLE "@ + table
            + " (id INTEGER PRIMARY KEY, ind INTEGER, path TEXT, "@ + side_values_sql(pair)
            + ", UNIQUE(ind, path), FOREIGN KEY (path) REFERENCES "@ + files_table
            + " (path) ON DELETE CASCADE);"@,
    }
}

impl DdlStatement {
    /// The statement's SQL text.
    pub fn to_sql(&self) -> (r: String)
        ensures
            r@ == ddl_sql(self@),
    {
        let mut q = String::new();
        match self {
            DdlStatement::DropTable(t) => {
                q.append("DROP TABLE IF EXISTS ");
                q.append(t.as_str());
                q.append(";");
            },
            DdlStatement::CreateFolders(t) => {
                q.append("CREATE TABLE ");
                q.append(t.as_str());
                q.append(" (path TEXT PRIMARY KEY, name TEXT);");
            },
            DdlStatement::CreateFiles { table, columns } => {
                q.append("CREATE TABLE ");
                q.append(table.as_str());
                q.append(" (path TEXT PRIMARY KEY, modified TEXT");
                let ghost head = q@;
                let n = columns.len();
                let mut i: usize = 0;
                while i < n
                    invariant
                        n == columns@.len(),
                        i <= n,
                        q@ == head + columns_sql(columns_view(columns@).take(i as int)),
                    decreases n - i,
                {
                    let ghost before = q@;
                    q.append(", ");
                    q.append(columns[i].name.as_str());
                    if columns[i].numeric {
                        q.append(" REAL");
                    } else {
                        q.append(" TEXT");
                    }
                    proof {
                        let cv = columns_view(columns@);
                        let t = cv.take(i as int + 1);
                        assert(t.drop_last() =~= cv.take(i as int));
                        assert(t.last() == columns@[i as int]@);
                        assert(q@ =~= head + columns_sql(t));
                    }
                    i += 1;
                }
                proof {
                    assert(columns_view(columns@).take(n as int) =~= columns_view(columns@));
                }
                q.append(");");
            },
            DdlStatement::CreateSide { table, files_table, pair } => {
                q.append("CREATE TABLE ");
                q.append(table.as_str());
                q.append(" (id INTEGER PRIMARY KEY, ind INTEGER, path TEXT, ");
                if *pair {
                    q.append("started TEXT, finished TEXT");
                } else {
                    q.append("value TEXT");
                }
                q.append(", UNIQUE(ind, path), FOREIGN KEY (path) REFERENCES ");
                q.append(files_table.as_str());
                q.append(" (path) ON DELETE CASCADE);");
            },
        }
        proof {
            assert(q@ =~= ddl_sql(self@));
        }
        q
    }
}

/// The files tables created by a list of statements, with their columns.
pub open spec fn files_creates(plan: Seq<DdlSpec>) -> Seq<(Seq<char>, Seq<ColumnSpec>)>
    decreases plan.len(),
{
    if plan.len() == 0 {
        Seq::empty()
    } else {
        let r = files_creates(plan.drop_last());
        match plan.last() {
            DdlSpec::CreateFiles { table, columns } => r.push((table, columns)),
            _ => r,
        }
    }
}

/// The side tables created by a list of statements, and whether each holds pairs.
pub open spec fn side_creates(plan: Seq<DdlSpec>) -> Seq<(Seq<char>, bool)>
    decreases plan.len(),
{
    if plan.len() == 0 {
        Seq::empty()
    } else {
        let r = side_creates(plan.drop_last());
        match plan.last() {
            DdlSpec::CreateSide { table, files_table, pair } => r.push((table, pair)),
            _ => r,
        }
    }
}

/// Names of all columns of a files table.
pub open spec fn files_column_names(cols: Seq<ColumnSpec>) -> Seq<Seq<char>> {
    seq!["path"@, "modified"@] + cols.map_values(|c: ColumnSpec| c.name)
}

/// Number of items stored in the files table.
pub open spec fn scalar_count(items: Seq<ItemSpec>) -> nat
    decreases items.len(),
{
    if items.len() == 0 {
        0
    } else {
        scalar_count(items.drop_last()) + if items.last().kind.is_scalar() {
            1nat
        } else {
            0nat
        }
    }
}

/// The collection items, in order.
pub open spec fn collection_items(items: Seq<ItemSpec>) -> Seq<ItemSpec>
    decreases items.len(),
{
    if items.len() == 0 {
        Seq::empty()
    } else {
        let r = collection_items(items.drop_last());
        if items.last().kind.is_scalar() {
            r
        } else {
            r.push(items.last())
        }
    }
}

proof fn lemma_creates_concat(a: Seq<DdlSpec>, b: Seq<DdlSpec>)
    ensures
        files_creates(a + b) == files_creates(a) + files_creates(b),
        side_creates(a + b) == side_creates(a) + side_creates(b),
    decreases b.len(),
{
    if b.len() == 0 {
        assert(a + b =~= a);
        assert(files_creates(a) + files_creates(b) =~= files_creates(a));
        assert(side_creates(a) + side_creates(b) =~= side_creates(a));
    } else {
        lemma_creates_concat(a, b.drop_last());
        assert((a + b).drop_last() =~= a + b.drop_last());
        assert((a + b).last() == b.last());
        assert(files_creates(a + b) =~= files_creates(a) + files_creates(b));
        assert(side_creates(a + b) =~= side_creates(a) + side_creates(b));
    }
}

proof fn lemma_drops_create_nothing(sides: Seq<(Seq<char>, bool)>)
    ensures
        files_creates(sides.map_values(|t: (Seq<char>, bool)| DdlSpec::DropTable(t.0)))
            == Seq::<(Seq<char>, Seq<ColumnSpec>)>::empty(),
        side_creates(sides.map_values(|t: (Seq<char>, bool)| DdlSpec::DropTable(t.0)))
            == Seq::<(Seq<char>, bool)>::empty(),
    decreases sides.len(),
{
    let m = sides.map_values(|t: (Seq<char>, bool)| DdlSpec::DropTable(t.0));
    if sides.len() > 0 {
        lemma_drops_create_nothing(sides.drop_last());
        assert(m.drop_last() =~= sides.drop_last().map_values(
            |t: (Seq<char>, bool)| DdlSpec::DropTable(t.0),
        ));
    }
}

proof fn lemma_side_creates_listed(sides: Seq<(Seq<char>, bool)>, f: Seq<char>)
    ensures
        files_creates(
            sides.map_values(
                |t: (Seq<char>, bool)| DdlSpec::CreateSide { table: t.0, files_table: f, pair: t.1 },
            ),
        ) == Seq::<(Seq<char>, Seq<ColumnSpec>)>::empty(),
        side_creates(
            sides.map_values(
                |t: (Seq<char>, bool)| DdlSpec::CreateSide { table: t.0, files_table: f, pair: t.1 },
            ),
        ) == sides,
    decreases sides.len(),
{
    let m = sides.map_values(
        |t: (Seq<char>, bool)| DdlSpec::CreateSide { table: t.0, files_table: f, pair: t.1 },
    );
    if sides.len() == 0 {
        assert(side_creates(m) =~= sides);
    } else {
        lemma_side_creates_listed(sides.drop_last(), f);
        assert(m.drop_last() =~= sides.drop_last().map_values(
            |t: (Seq<char>, bool)| DdlSpec::CreateSide { table: t.0, files_table: f, pair: t.1 },
        ));
        assert(side_creates(m) =~= sides);
    }
}

proof fn lemma_counts(n: Seq<char>, items: Seq<ItemSpec>)
    ensures
        scalar_columns(items).len() == scalar_count(items),
        side_specs(n, items) == collection_items(items).map_values(
            |it: ItemSpec| (side_table_of(n, it.name), it.kind.is_pair_collection()),
        ),
    decreases items.len(),
{
    if items.len() > 0 {
        lemma_counts(n, items.drop_last());
        let c = collection_items(items);
        let f = |it: ItemSpec| (side_table_of(n, it.name), it.kind.is_pair_collection());
        assert(side_specs(n, items) =~= c.map_values(f));
    } else {
        assert(side_specs(n, items) =~= collection_items(items).map_values(
            |it: ItemSpec| (side_table_of(n, it.name), it.kind.is_pair_collection()),
        ));
    }
}

/// The layout of a schema with items creates exactly one files table, whose
/// columns are `path`, `modified` and one per scalar item (text, date and
/// image as TEXT, number as REAL), and exactly one side table per collection
/// item, in item order, named after the item and holding `started` and
/// `finished` for date pairs and `value` otherwise.
pub proof fn lemma_ddl_layout(s: SchemaView)
    requires
        s.items.len() > 0,
    ensures
        files_creates(ddl_plan(s)) == seq![(files_table_of(s.internal_name), scalar_columns(s.items))],
        files_column_names(scalar_columns(s.items)).len() == scalar_count(s.items) + 2,
        side_creates(ddl_plan(s)) == collection_items(s.items).map_values(
            |it: ItemSpec| (side_table_of(s.internal_name, it.name), it.kind.is_pair_collection()),
        ),
        side_creates(ddl_plan(s)).len() == collection_items(s.items).len(),
{
    let n = s.internal_name;
    let sides = side_specs(n, s.items);
    let a = seq![DdlSpec::DropTable(folders_table_of(n)), DdlSpec::CreateFolders(folders_table_of(n))];
    let b = sides.map_values(|t: (Seq<char>, bool)| DdlSpec::DropTable(t.0));
    let c = seq![
        DdlSpec::DropTable(files_table_of(n)),
        DdlSpec::CreateFiles { table: files_table_of(n), columns: scalar_columns(s.items) },
    ];
    let d = sides.map_values(
        |t: (Seq<char>, bool)|
            DdlSpec::CreateSide { table: t.0, files_table: files_table_of(n), pair: t.1 },
    );
    assert(ddl_plan(s) == a + b + c + d);
    lemma_creates_concat(a, b);
    lemma_creates_concat(a + b, c);
    lemma_creates_concat(a + b + c, d);
    lemma_drops_create_nothing(sides);
    lemma_side_creates_listed(sides, files_table_of(n));
    assert(a.drop_last() =~= seq![DdlSpec::DropTable(folders_table_of(n))]);
    assert(seq![DdlSpec::DropTable(folders_table_of(n))].drop_last() =~= Seq::<DdlSpec>::empty());
    let a1 = seq![DdlSpec::DropTable(folders_table_of(n))];
    assert(files_creates(a1.drop_last()) =~= Seq::<(Seq<char>, Seq<ColumnSpec>)>::empty());
    assert(side_creates(a1.drop_last()) =~= Seq::<(Seq<char>, bool)>::empty());
    assert(files_creates(a1) =~= Seq::<(Seq<char>, Seq<ColumnSpec>)>::empty());
    assert(side_creates(a1) =~= Seq::<(Seq<char>, bool)>::empty());
    assert(files_creates(a) =~= Seq::<(Seq<char>, Seq<ColumnSpec>)>::empty());
    assert(side_creates(a) =~= Seq::<(Seq<char>, bool)>::empty());
    assert(c.drop_last() =~= seq![DdlSpec::DropTable(files_table_of(n))]);
    let c1 = seq![DdlSpec::DropTable(files_table_of(n))];
    assert(files_creates(c1.drop_last()) =~= Seq::<(Seq<char>, Seq<ColumnSpec>)>::empty());
    assert(side_creates(c1.drop_last()) =~= Seq::<(Seq<char>, bool)>::empty());
    assert(files_creates(c1) =~= Seq::<(Seq<char>, Seq<ColumnSpec>)>::empty());
    assert(side_creates(c1) =~= Seq::<(Seq<char>, bool)>::empty());
    assert(files_creates(c) =~= seq![(files_table_of(n), scalar_columns(s.items))]);
    assert(side_creates(c) =~= Seq::<(Seq<char>, bool)>::empty());
    lemma_counts(n, s.items);
    assert(files_creates(ddl_plan(s)) =~= seq![(files_table_of(n), scalar_columns(s.items))]);
    assert(side_creates(ddl_plan(s)) =~= sides);
}

} // verus!
