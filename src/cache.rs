use vstd::prelude::*;
use crate::document::{
    attr_lookup, copy_date_reads, copy_opt, copy_text, copy_texts, BookFromDb, DocView,
};
use crate::error::opt_view;
use crate::text::{split_on, split_str};
use crate::schema::{pairs_view, Attr, AttrValue, DatePair, DateRead, ItemSpec, Schema, zero_text};

verus! {

/// One row of a side table, without its key.
pub enum SideRow {
    Value(Seq<char>),
    Pair(Option<Seq<char>>, Option<Seq<char>>),
}

/// A row of a files table, without its key.
pub struct FileRow {
    pub modified: Option<Seq<char>>,
    pub cells: Map<Seq<char>, Seq<char>>,
}

/// Model of the tables of one schema: the files table by path, the rows of
/// all side tables by (attribute, path, index), the folders table by path.
pub struct CacheModel {
    pub files: Map<Seq<char>, FileRow>,
    pub side: Map<(Seq<char>, Seq<char>, int), SideRow>,
    pub folders: Map<Seq<char>, Seq<char>>,
}

/// A change to the tables of one schema.
#[derive(Clone, Debug)]
pub enum CacheOp {
    /// Insert or overwrite the files row of `path` with these columns.
    UpsertFile { path: String, modified: Option<String>, columns: Vec<(String, String)> },
    /// Delete the side rows of `attr` for `path` at index `keep` and above.
    TrimSide { attr: String, path: String, keep: usize },
    /// Insert or overwrite the value rows `0..values.len()` of `attr` for `path`.
    UpsertValues { attr: String, path: String, values: Vec<String> },
    /// Insert or overwrite the pair rows `0..pairs.len()` of `attr` for `path`.
    UpsertPairs { attr: String, path: String, pairs: Vec<DateRead> },
    /// Delete the files row of `path`; its side rows go with it.
    DeleteFile { path: String },
    /// Insert or overwrite the folder row of `path`.
    UpsertFolder { path: String, name: String },
    /// Delete every folder row whose path starts with `prefix`.
    DeleteFoldersUnder { prefix: String },
    /// Delete every files row whose path starts with `prefix`, and their side rows.
    DeleteFilesUnder { prefix: String },
}

pub enum OpSpec {
    UpsertFile { path: Seq<char>, modified: Option<Seq<char>>, columns: Seq<(Seq<char>, Seq<char>)> },
    TrimSide { attr: Seq<char>, path: Seq<char>, keep: int },
    UpsertSide { attr: Seq<char>, path: Seq<char>, rows: Seq<SideRow> },
    DeleteFile { path: Seq<char> },
    UpsertFolder { path: Seq<char>, name: Seq<char> },
    DeleteFoldersUnder { prefix: Seq<char> },
    DeleteFilesUnder { prefix: Seq<char> },
}

pub open spec fn value_rows(v: Seq<Seq<char>>) -> Seq<SideRow> {
    Seq::new(v.len(), |i: int| SideRow::Value(v[i]))
}

pub open spec fn pair_rows(v: Seq<DatePair>) -> Seq<SideRow> {
    Seq::new(v.len(), |i: int| SideRow::Pair(v[i].started, v[i].finished))
}

pub open spec fn columns_pairs_view(v: Seq<(String, String)>) -> Seq<(Seq<char>, Seq<char>)> {
    Seq::new(v.len(), |i: int| (v[i].0@, v[i].1@))
}

impl View for CacheOp {
    type V = OpSpec;

    open spec fn view(&self) -> OpSpec {
        match self {
            CacheOp::UpsertFile { path, modified, columns } => OpSpec::UpsertFile {
                path: path@,
                modified: opt_view(*modified),
                columns: columns_pairs_view(columns@),
            },
            CacheOp::TrimSide { attr, path, keep } => OpSpec::TrimSide {
                attr: attr@,
                path: path@,
                keep: *keep as int,
            },
            CacheOp::UpsertValues { attr, path, values } => OpSpec::UpsertSide {
                attr: attr@,
                path: path@,
                rows: value_rows(values.deep_view()),
            },
            CacheOp::UpsertPairs { attr, path, pairs } => OpSpec::UpsertSide {
                attr: attr@,
                path: path@,
                rows: pair_rows(pairs_view(pairs@)),
            },
            CacheOp::DeleteFile { path } => OpSpec::DeleteFile { path: path@ },
            CacheOp::UpsertFolder { path, name } => OpSpec::UpsertFolder {
                path: path@,
                name: name@,
            },
            CacheOp::DeleteFoldersUnder { prefix } => OpSpec::DeleteFoldersUnder {
                prefix: prefix@,
            },
            CacheOp::DeleteFilesUnder { prefix } => OpSpec::DeleteFilesUnder { prefix: prefix@ },
        }
    }
}

pub open spec fn ops_view(v: Seq<CacheOp>) -> Seq<OpSpec> {
    Seq::new(v.len(), |i: int| v[i]@)
}

/// The columns as a map; a later column of the same name counts.
pub open spec fn cells_map(cols: Seq<(Seq<char>, Seq<char>)>) -> Map<Seq<char>, Seq<char>>
    decreases cols.len(),
{
    if cols.len() == 0 {
        Map::empty()
    } else {
        cells_map(cols.drop_last()).insert(cols.last().0, cols.last().1)
    }
}

/// `p` is a prefix of `s`.
pub open spec fn starts_with(s: Seq<char>, p: Seq<char>) -> bool {
    p.len() <= s.len() && s.subrange(0, p.len() as int) == p
}

/// The side rows of `attr` for `path` replaced by `rows` at indices `0..rows.len()`.
pub open spec fn replace_rows(
    m: Map<(Seq<char>, Seq<char>, int), SideRow>,
    attr: Seq<char>,
    path: Seq<char>,
    rows: Seq<SideRow>,
) -> Map<(Seq<char>, Seq<char>, int), SideRow> {
    Map::new(
        |k: (Seq<char>, Seq<char>, int)|
            if k.0 == attr && k.1 == path && k.2 >= 0 {
                k.2 < rows.len()
            } else {
                m.contains_key(k)
            },
        |k: (Seq<char>, Seq<char>, int)|
            if k.0 == attr && k.1 == path && k.2 >= 0 {
                rows[k.2]
            } else {
                m[k]
            },
    )
}

/// Effect of one change on the tables. Side rows refer to their files row:
/// they are written only where it exists, and leave with it.
pub open spec fn apply_op(s: CacheModel, op: OpSpec) -> CacheModel {
    match op {
        OpSpec::UpsertFile { path, modified, columns } => CacheModel {
            files: s.files.insert(
                path,
                FileRow {
                    modified,
                    cells: if s.files.contains_key(path) {
                        s.files[path].cells.union_prefer_right(cells_map(columns))
                    } else {
                        cells_map(columns)
                    },
                },
            ),
            ..s
        },
        OpSpec::TrimSide { attr, path, keep } => CacheModel {
            side: s.side.restrict(
                Set::new(
                    |k: (Seq<char>, Seq<char>, int)|
                        !(k.0 == attr && k.1 == path && k.2 >= keep),
                ),
            ),
            ..s
        },
        OpSpec::UpsertSide { attr, path, rows } => if s.files.contains_key(path) {
            CacheModel {
                side: Map::new(
                    |k: (Seq<char>, Seq<char>, int)|
                        s.side.contains_key(k) || (k.0 == attr && k.1 == path && 0 <= k.2
                            < rows.len()),
                    |k: (Seq<char>, Seq<char>, int)|
                        if k.0 == attr && k.1 == path && 0 <= k.2 < rows.len() {
                            rows[k.2]
                        } else {
                            s.side[k]
                        },
                ),
                ..s
            }
        } else {
            s
        },
        OpSpec::DeleteFile { path } => CacheModel {
            files: s.files.remove(path),
            side: s.side.restrict(Set::new(|k: (Seq<char>, Seq<char>, int)| k.1 != path)),
            ..s
        },
        OpSpec::UpsertFolder { path, name } => CacheModel {
            folders: s.folders.insert(path, name),
            ..s
        },
        OpSpec::DeleteFoldersUnder { prefix } => CacheModel {
            folders: s.folders.restrict(Set::new(|p: Seq<char>| !starts_with(p, prefix))),
            ..s
        },
        OpSpec::DeleteFilesUnder { prefix } => CacheModel {
            files: s.files.restrict(Set::new(|p: Seq<char>| !starts_with(p, prefix))),
            side: s.side.restrict(
                Set::new(|k: (Seq<char>, Seq<char>, int)| !starts_with(k.1, prefix)),
            ),
            ..s
        },
    }
}

/// Effect of a list of changes applied in order.
pub open spec fn apply_all(s: CacheModel, ops: Seq<OpSpec>) -> CacheModel
    decreases ops.len(),
{
    if ops.len() == 0 {
        s
    } else {
        apply_op(apply_all(s, ops.drop_last()), ops.last())
    }
}

pub proof fn lemma_apply_all_concat(s: CacheModel, a: Seq<OpSpec>, b: Seq<OpSpec>)
    ensures
        apply_all(s, a + b) == apply_all(apply_all(s, a), b),
    decreases b.len(),
{
    if b.len() == 0 {
        assert(a + b =~= a);
    } else {
        lemma_apply_all_concat(s, a, b.drop_last());
        assert((a + b).drop_last() =~= a + b.drop_last());
        assert((a + b).last() == b.last());
    }
}

/// Text stored for a scalar item: the attribute's text when it has a
/// string-like value, its number for a numeric item, else the typed default.
pub open spec fn scalar_cell(attrs: Seq<(Seq<char>, Attr)>, it: ItemSpec) -> Seq<char> {
    if it.kind is Number {
        match attr_lookup(attrs, it.name) {
            Some(Attr::Number(v)) => v,
            _ => zero_text(),
        }
    } else {
        match attr_lookup(attrs, it.name) {
            Some(Attr::Text(v)) => v,
            Some(Attr::Date(v)) => v,
            Some(Attr::Image(v)) => v,
            _ => Seq::empty(),
        }
    }
}

/// Columns written to the files table, in item order.
pub open spec fn scalar_cells(items: Seq<ItemSpec>, attrs: Seq<(Seq<char>, Attr)>) -> Seq<
    (Seq<char>, Seq<char>),
>
    decreases items.len(),
{
    if items.len() == 0 {
        Seq::empty()
    } else {
        let r = scalar_cells(items.drop_last(), attrs);
        if items.last().kind.is_scalar() {
            r.push((items.last().name, scalar_cell(attrs, items.last())))
        } else {
            r
        }
    }
}

/// Rows stored for a collection item; none where the attribute is missing
/// or of another type.
pub open spec fn collection_rows(attrs: Seq<(Seq<char>, Attr)>, it: ItemSpec) -> Seq<SideRow> {
    if it.kind.is_pair_collection() {
        match attr_lookup(attrs, it.name) {
            Some(Attr::DatesPairCollection(v)) => pair_rows(v),
            _ => Seq::empty(),
        }
    } else {
        match attr_lookup(attrs, it.name) {
            Some(Attr::TextCollection(v)) => value_rows(v),
            Some(Attr::DateCollection(v)) => value_rows(v),
            _ => Seq::empty(),
        }
    }
}

/// Changes for the collection items: for each, trim the rows past the new
/// length, then write the new rows if there are any.
pub open spec fn side_plan(items: Seq<ItemSpec>, path: Seq<char>, attrs: Seq<(Seq<char>, Attr)>) -> Seq<
    OpSpec,
>
    decreases items.len(),
{
    if items.len() == 0 {
        Seq::empty()
    } else {
        let r = side_plan(items.drop_last(), path, attrs);
        let it = items.last();
        if it.kind.is_scalar() {
            r
        } else {
            let rows = collection_rows(attrs, it);
            let trim = OpSpec::TrimSide { attr: it.name, path, keep: rows.len() as int };
            if rows.len() == 0 {
                r.push(trim)
            } else {
                r.push(trim).push(OpSpec::UpsertSide { attr: it.name, path, rows })
            }
        }
    }
}

/// The changes that cache a document: its files row first, then the side
/// rows of each collection item in item order. Nothing for a document
/// without a path.
pub open spec fn upsert_plan(items: Seq<ItemSpec>, d: DocView) -> Seq<OpSpec> {
    match d.path {
        None => Seq::empty(),
        Some(path) => seq![
            OpSpec::UpsertFile { path, modified: d.modified, columns: scalar_cells(items, d.attrs) },
        ] + side_plan(items, path, d.attrs),
    }
}


/// Text that the files row holds for a scalar item of the document.
fn scalar_text(file: &BookFromDb, item: &crate::schema::SchemaItem) -> (r: String)
    requires
        item@.kind.is_scalar(),
    ensures
        r@ == scalar_cell(file@.attrs, item@),
{
    match &item.value {
        crate::schema::SchemaAttrKey::Number(_) => match file.get(item.name.as_str()) {
            Some(AttrValue::Number(v)) => copy_text(v),
            _ => {
                let mut z = String::new();
                z.append("0");
                proof {
                    reveal_strlit("0");
                    assert(z@ =~= zero_text());
                }
                z
            },
        },
        _ => match file.get(item.name.as_str()) {
            Some(AttrValue::Text(v)) => copy_text(v),
            Some(AttrValue::Date(v)) => copy_text(v),
            Some(AttrValue::Image(v)) => copy_text(v),
            _ => String::new(),
        },
    }
}

/// Appends the changes of one collection item.
fn push_collection_ops(
    out: &mut Vec<CacheOp>,
    file: &BookFromDb,
    item: &crate::schema::SchemaItem,
    path: &String,
)
    requires
        !item@.kind.is_scalar(),
    ensures
        ops_view(final(out)@) == ops_view(old(out)@) + {
            let rows = collection_rows(file@.attrs, item@);
            let trim = OpSpec::TrimSide { attr: item@.name, path: path@, keep: rows.len() as int };
            if rows.len() == 0 {
                seq![trim]
            } else {
                seq![trim, OpSpec::UpsertSide { attr: item@.name, path: path@, rows }]
            }
        },
{
    let ghost before = ops_view(out@);
    let ghost rows = collection_rows(file@.attrs, item@);
    match &item.value {
        crate::schema::SchemaAttrKey::DatesPairCollection(_) => {
            let empty: Vec<DateRead> = Vec::new();
            let pairs = match file.get(item.name.as_str()) {
                Some(AttrValue::DatesPairCollection(v)) => copy_date_reads(v),
                _ => empty,
            };
            proof {
                assert(pair_rows(pairs_view(pairs@)) =~= rows);
            }
            let n = pairs.len();
            out.push(CacheOp::TrimSide { attr: item.name.clone(), path: path.clone(), keep: n });
            if n > 0 {
                out.push(
                    CacheOp::UpsertPairs { attr: item.name.clone(), path: path.clone(), pairs },
                );
            }
        },
        _ => {
            let empty: Vec<String> = Vec::new();
            let values = match file.get(item.name.as_str()) {
                Some(AttrValue::TextCollection(v)) => copy_texts(v),
                Some(AttrValue::DateCollection(v)) => copy_texts(v),
                _ => empty,
            };
            proof {
                assert(value_rows(values.deep_view()) =~= rows);
            }
            let n = values.len();
            out.push(CacheOp::TrimSide { attr: item.name.clone(), path: path.clone(), keep: n });
            if n > 0 {
                out.push(
                    CacheOp::UpsertValues { attr: item.name.clone(), path: path.clone(), values },
                );
            }
        },
    }
    proof {
        let trim = OpSpec::TrimSide { attr: item@.name, path: path@, keep: rows.len() as int };
        if rows.len() == 0 {
            assert(ops_view(out@) =~= before + seq![trim]);
        } else {
            assert(ops_view(out@) =~= before + seq![
                trim,
                OpSpec::UpsertSide { attr: item@.name, path: path@, rows },
            ]);
        }
    }
}

/// The changes that cache `file` under `schema`: one upsert of its files row
/// with every scalar item (a missing or mistyped attribute stored as its
/// typed default), then for each collection item a trim of the rows past
/// its new length and, if it is not empty, an upsert of its rows. Nothing
/// for a document without a path.
pub fn insert_file(schema: &Schema, file: &BookFromDb) -> (r: Vec<CacheOp>)
    ensures
        ops_view(r@) == upsert_plan(schema@.items, file@),
{
    let path = match &file.path {
        Some(p) => p,
        None => {
            let r: Vec<CacheOp> = Vec::new();
            proof {
                assert(ops_view(r@) =~= upsert_plan(schema@.items, file@));
            }
            return r;
        },
    };
    let ghost items = schema@.items;
    let ghost attrs = file@.attrs;
    let mut columns: Vec<(String, String)> = Vec::new();
    let mut sides: Vec<CacheOp> = Vec::new();
    let n = schema.items.len();
    let mut i: usize = 0;
    while i < n
        invariant
            n == schema.items@.len(),
            items == schema@.items,
            attrs == file@.attrs,
            i <= n,
            columns_pairs_view(columns@) == scalar_cells(items.take(i as int), attrs),
            ops_view(sides@) == side_plan(items.take(i as int), path@, attrs),
        decreases n - i,
    {
        let item = &schema.items[i];
        proof {
            assert(items.take(i as int + 1).drop_last() =~= items.take(i as int));
            assert(items.take(i as int + 1).last() == item@);
        }
        match &item.value {
            crate::schema::SchemaAttrKey::TextCollection(_)
            | crate::schema::SchemaAttrKey::DateCollection(_)
            | crate::schema::SchemaAttrKey::DatesPairCollection(_) => {
                let ghost before = ops_view(sides@);
                push_collection_ops(&mut sides, file, item, path);
                proof {
                    let rows = collection_rows(attrs, item@);
                    let trim = OpSpec::TrimSide {
                        attr: item@.name,
                        path: path@,
                        keep: rows.len() as int,
                    };
                    if rows.len() == 0 {
                        assert(before + seq![trim] =~= before.push(trim));
                    } else {
                        assert(before + seq![
                            trim,
                            OpSpec::UpsertSide { attr: item@.name, path: path@, rows },
                        ] =~= before.push(trim).push(
                            OpSpec::UpsertSide { attr: item@.name, path: path@, rows },
                        ));
                    }
                }
            },
            _ => {
                let ghost before = columns_pairs_view(columns@);
                let t = scalar_text(file, item);
                columns.push((item.name.clone(), t));
                proof {
                    assert(columns_pairs_view(columns@) =~= before.push(
                        (item@.name, scalar_cell(attrs, item@)),
                    ));
                }
            },
        }
        i += 1;
    }
    proof {
        assert(items.take(n as int) =~= items);
    }
    let mut out: Vec<CacheOp> = Vec::new();
    out.push(
        CacheOp::UpsertFile {
            path: path.clone(),
            modified: copy_opt(&file.modified),
            columns,
        },
    );
    let ghost head = ops_view(out@);
    let ghost tail = ops_view(sides@);
    out.append(&mut sides);
    proof {
        assert(ops_view(out@) =~= head + tail);
        assert(ops_view(out@) =~= upsert_plan(schema@.items, file@));
    }
    out
}


/// Side rows after the collection items of a document were written.
pub open spec fn side_after(
    m: Map<(Seq<char>, Seq<char>, int), SideRow>,
    path: Seq<char>,
    attrs: Seq<(Seq<char>, Attr)>,
    items: Seq<ItemSpec>,
) -> Map<(Seq<char>, Seq<char>, int), SideRow>
    decreases items.len(),
{
    if items.len() == 0 {
        m
    } else {
        let prev = side_after(m, path, attrs, items.drop_last());
        let it = items.last();
        if it.kind.is_scalar() {
            prev
        } else {
            replace_rows(prev, it.name, path, collection_rows(attrs, it))
        }
    }
}

/// The last collection item named `a`.
pub open spec fn last_collection(items: Seq<ItemSpec>, a: Seq<char>) -> Option<ItemSpec>
    decreases items.len(),
{
    if items.len() == 0 {
        None
    } else if !items.last().kind.is_scalar() && items.last().name == a {
        Some(items.last())
    } else {
        last_collection(items.drop_last(), a)
    }
}

/// The tables after a document with a path was cached, in closed form.
pub open spec fn upserted(s: CacheModel, items: Seq<ItemSpec>, d: DocView) -> CacheModel {
    let path = d.path.unwrap();
    let cm = cells_map(scalar_cells(items, d.attrs));
    CacheModel {
        files: s.files.insert(
            path,
            FileRow {
                modified: d.modified,
                cells: if s.files.contains_key(path) {
                    s.files[path].cells.union_prefer_right(cm)
                } else {
                    cm
                },
            },
        ),
        side: side_after(s.side, path, d.attrs, items),
        folders: s.folders,
    }
}

proof fn lemma_side_after_pointwise(
    m: Map<(Seq<char>, Seq<char>, int), SideRow>,
    path: Seq<char>,
    attrs: Seq<(Seq<char>, Attr)>,
    items: Seq<ItemSpec>,
    k: (Seq<char>, Seq<char>, int),
)
    ensures
        ({
            let r = side_after(m, path, attrs, items);
            match last_collection(items, k.0) {
                Some(it) => if k.1 == path && k.2 >= 0 {
                    (r.contains_key(k) <==> k.2 < collection_rows(attrs, it).len()) && (
                    r.contains_key(k) ==> r[k] == collection_rows(attrs, it)[k.2])
                } else {
                    (r.contains_key(k) <==> m.contains_key(k)) && (r.contains_key(k) ==> r[k]
                        == m[k])
                },
                None => (r.contains_key(k) <==> m.contains_key(k)) && (r.contains_key(k) ==> r[k]
                    == m[k]),
            }
        }),
    decreases items.len(),
{
    if items.len() > 0 {
        lemma_side_after_pointwise(m, path, attrs, items.drop_last(), k);
    }
}

proof fn lemma_side_after_idempotent(
    m: Map<(Seq<char>, Seq<char>, int), SideRow>,
    path: Seq<char>,
    attrs: Seq<(Seq<char>, Attr)>,
    items: Seq<ItemSpec>,
)
    ensures
        side_after(side_after(m, path, attrs, items), path, attrs, items) == side_after(
            m,
            path,
            attrs,
            items,
        ),
{
    let once = side_after(m, path, attrs, items);
    let twice = side_after(once, path, attrs, items);
    assert forall|k: (Seq<char>, Seq<char>, int)| #[trigger] twice.contains_key(k)
        == once.contains_key(k) by {
        lemma_side_after_pointwise(m, path, attrs, items, k);
        lemma_side_after_pointwise(once, path, attrs, items, k);
    }
    assert forall|k: (Seq<char>, Seq<char>, int)| #[trigger] twice.contains_key(k) implies twice[k]
        == once[k] by {
        lemma_side_after_pointwise(m, path, attrs, items, k);
        lemma_side_after_pointwise(once, path, attrs, items, k);
    }
    assert(twice =~= once);
}

proof fn lemma_side_plan_effect(
    s: CacheModel,
    path: Seq<char>,
    attrs: Seq<(Seq<char>, Attr)>,
    items: Seq<ItemSpec>,
)
    requires
        s.files.contains_key(path),
    ensures
        apply_all(s, side_plan(items, path, attrs)) == (CacheModel {
            side: side_after(s.side, path, attrs, items),
            ..s
        }),
    decreases items.len(),
{
    if items.len() > 0 {
        let init = items.drop_last();
        let it = items.last();
        lemma_side_plan_effect(s, path, attrs, init);
        let t = apply_all(s, side_plan(init, path, attrs));
        if !it.kind.is_scalar() {
            let rows = collection_rows(attrs, it);
            let trim = OpSpec::TrimSide { attr: it.name, path, keep: rows.len() as int };
            let prev = side_plan(init, path, attrs);
            if rows.len() == 0 {
                assert(side_plan(items, path, attrs) == prev.push(trim));
                assert(prev.push(trim).drop_last() =~= prev);
                let t1 = apply_op(t, trim);
                assert(t1.side =~= replace_rows(t.side, it.name, path, rows));
                assert(apply_all(s, prev.push(trim)) == t1);
                assert(t1 == (CacheModel { side: side_after(s.side, path, attrs, items), ..s }));
            } else {
                let up = OpSpec::UpsertSide { attr: it.name, path, rows };
                assert(side_plan(items, path, attrs) == prev.push(trim).push(up));
                assert(prev.push(trim).push(up).drop_last() =~= prev.push(trim));
                assert(prev.push(trim).drop_last() =~= prev);
                let t1 = apply_op(t, trim);
                let t2 = apply_op(t1, up);
                assert(t2.side =~= replace_rows(t.side, it.name, path, rows));
                assert(apply_all(s, prev.push(trim)) == t1);
                assert(apply_all(s, prev.push(trim).push(up)) == t2);
                assert(t2 == (CacheModel { side: side_after(s.side, path, attrs, items), ..s }));
            }
        }
    }
}

pub proof fn lemma_upsert_closed_form(s: CacheModel, items: Seq<ItemSpec>, d: DocView)
    requires
        d.path is Some,
    ensures
        apply_all(s, upsert_plan(items, d)) == upserted(s, items, d),
{
    let path = d.path.unwrap();
    let head = seq![
        OpSpec::UpsertFile { path, modified: d.modified, columns: scalar_cells(items, d.attrs) },
    ];
    lemma_apply_all_concat(s, head, side_plan(items, path, d.attrs));
    assert(head.drop_last() =~= Seq::<OpSpec>::empty());
    let s1 = apply_all(s, head);
    assert(apply_all(s, head.drop_last()) == s);
    assert(s1 == apply_op(s, head[0]));
    lemma_side_plan_effect(s1, path, d.attrs, items);
}

/// Caching the same document twice in a row leaves the tables as caching it
/// once does.
pub proof fn lemma_upsert_idempotent(s: CacheModel, items: Seq<ItemSpec>, d: DocView)
    ensures
        apply_all(apply_all(s, upsert_plan(items, d)), upsert_plan(items, d)) == apply_all(
            s,
            upsert_plan(items, d),
        ),
{
    if d.path is Some {
        let path = d.path.unwrap();
        let once = upserted(s, items, d);
        lemma_upsert_closed_form(s, items, d);
        lemma_upsert_closed_form(once, items, d);
        let twice = upserted(once, items, d);
        lemma_side_after_idempotent(s.side, path, d.attrs, items);
        let cm = cells_map(scalar_cells(items, d.attrs));
        if s.files.contains_key(path) {
            assert(s.files[path].cells.union_prefer_right(cm).union_prefer_right(cm)
                =~= s.files[path].cells.union_prefer_right(cm));
        } else {
            assert(cm.union_prefer_right(cm) =~= cm);
        }
        assert(twice.files =~= once.files);
    } else {
        assert(upsert_plan(items, d) =~= Seq::<OpSpec>::empty());
    }
}

proof fn lemma_last_collection_unique(items: Seq<ItemSpec>, j: int)
    requires
        0 <= j < items.len(),
        !items[j].kind.is_scalar(),
        crate::schema::unique_names(items),
    ensures
        last_collection(items, items[j].name) == Some(items[j]),
    decreases items.len(),
{
    if j < items.len() - 1 {
        let init = items.drop_last();
        assert(items.last() == items[items.len() - 1]);
        assert(items.last().name != items[j].name);
        assert(init[j] == items[j]);
        assert(crate::schema::unique_names(init)) by {
            assert forall|a: int, b: int|
                0 <= a < init.len() && 0 <= b < init.len() && a != b implies init[a].name
                != init[b].name by {
                assert(init[a] == items[a]);
                assert(init[b] == items[b]);
            }
        }
        lemma_last_collection_unique(init, j);
    }
}

/// After a document is cached, the side table of each of its collection
/// items holds for its path exactly the rows `0..L` of the new collection,
/// in order, whatever it held before; in particular a collection that shrank
/// leaves no row past its new length.
pub proof fn lemma_collection_rows_replaced(
    s: CacheModel,
    items: Seq<ItemSpec>,
    d: DocView,
    j: int,
)
    requires
        d.path is Some,
        0 <= j < items.len(),
        !items[j].kind.is_scalar(),
        crate::schema::unique_names(items),
    ensures
        ({
            let after = apply_all(s, upsert_plan(items, d));
            let rows = collection_rows(d.attrs, items[j]);
            &&& forall|i: int|
                0 <= i ==> (after.side.contains_key((items[j].name, d.path.unwrap(), i)) <==> i
                    < rows.len())
            &&& forall|i: int|
                0 <= i < rows.len() ==> after.side[(items[j].name, d.path.unwrap(), i)]
                    == rows[i]
        }),
{
    let path = d.path.unwrap();
    lemma_upsert_closed_form(s, items, d);
    lemma_last_collection_unique(items, j);
    let after = apply_all(s, upsert_plan(items, d));
    let rows = collection_rows(d.attrs, items[j]);
    assert forall|i: int|
        0 <= i implies (after.side.contains_key((items[j].name, path, i)) <==> i
            < rows.len()) by {
        lemma_side_after_pointwise(s.side, path, d.attrs, items, (items[j].name, path, i));
    }
    assert forall|i: int| 0 <= i < rows.len() implies after.side[(items[j].name, path, i)]
        == rows[i] by {
        lemma_side_after_pointwise(s.side, path, d.attrs, items, (items[j].name, path, i));
    }
}


/// The last non-empty piece of the list.
pub open spec fn last_non_empty(parts: Seq<Seq<char>>) -> Option<Seq<char>>
    decreases parts.len(),
{
    if parts.len() == 0 {
        None
    } else if parts.last().len() > 0 {
        Some(parts.last())
    } else {
        last_non_empty(parts.drop_last())
    }
}

/// Final component of a `/`-separated path; trailing separators are
/// ignored, and a root has none.
pub open spec fn file_name_of(p: Seq<char>) -> Option<Seq<char>> {
    last_non_empty(split_on(p, '/'))
}

/// The final component of a `/`-separated path.
pub fn file_name(path: &str) -> (r: Option<String>)
    ensures
        opt_view(r) == file_name_of(path@),
{
    let parts = split_str(path, '/');
    let mut k = parts.len();
    proof {
        assert(parts.deep_view().take(k as int) =~= parts.deep_view());
    }
    while k > 0
        invariant
            k <= parts@.len(),
            parts.deep_view() == split_on(path@, '/'),
            last_non_empty(parts.deep_view()) == last_non_empty(parts.deep_view().take(k as int)),
        decreases k,
    {
        let ghost t = parts.deep_view().take(k as int);
        proof {
            assert(t.drop_last() =~= parts.deep_view().take(k as int - 1));
            assert(t.last() == parts@[k - 1]@);
        }
        if parts[k - 1].unicode_len() > 0 {
            let r = parts[k - 1].clone();
            proof {
                assert(r@ == t.last());
                assert(t.len() > 0);
                assert(t.last().len() > 0);
                assert(last_non_empty(t) == Some(t.last()));
            }
            return Some(r);
        }
        k -= 1;
    }
    proof {
        assert(parts.deep_view().take(0) =~= Seq::<Seq<char>>::empty());
    }
    None
}

/// Name stored for a folder: its final path component, `/` for a root.
pub open spec fn folder_name(p: Seq<char>) -> Seq<char> {
    match file_name_of(p) {
        Some(n) => n,
        None => seq!['/'],
    }
}

/// The change that caches the folder at `path` with its name.
pub fn cache_folder(path: &str) -> (r: CacheOp)
    ensures
        r@ == (OpSpec::UpsertFolder { path: path@, name: folder_name(path@) }),
{
    let name = match file_name(path) {
        Some(n) => n,
        None => {
            let mut root = String::new();
            root.append("/");
            proof {
                reveal_strlit("/");
                assert(root@ =~= seq!['/']);
            }
            root
        },
    };
    CacheOp::UpsertFolder { path: String::from_str(path), name }
}

/// The change that removes the document at `path`; its side rows follow it.
pub fn remove_file_from_cache(path: &str) -> (r: CacheOp)
    ensures
        r@ == (OpSpec::DeleteFile { path: path@ }),
{
    CacheOp::DeleteFile { path: String::from_str(path) }
}

/// The change that removes the folder at `path` and every folder beneath it.
pub fn remove_folder_from_cache(path: &str) -> (r: CacheOp)
    ensures
        r@ == (OpSpec::DeleteFoldersUnder { prefix: path@ }),
{
    CacheOp::DeleteFoldersUnder { prefix: String::from_str(path) }
}

/// The change that removes every document under the folder at `path`.
pub fn remove_files_in_folder_rom_cache(path: &str) -> (r: CacheOp)
    ensures
        r@ == (OpSpec::DeleteFilesUnder { prefix: path@ }),
{
    CacheOp::DeleteFilesUnder { prefix: String::from_str(path) }
}

/// The changes that remove a folder from the cache: its folder rows, then
/// the documents beneath it.
pub fn remove_folder_ops(path: &str) -> (r: Vec<CacheOp>)
    ensures
        ops_view(r@) == seq![
            OpSpec::DeleteFoldersUnder { prefix: path@ },
            OpSpec::DeleteFilesUnder { prefix: path@ },
        ],
{
    let mut v: Vec<CacheOp> = Vec::new();
    v.push(remove_folder_from_cache(path));
    v.push(remove_files_in_folder_rom_cache(path));
    proof {
        assert(ops_view(v@) =~= seq![
            OpSpec::DeleteFoldersUnder { prefix: path@ },
            OpSpec::DeleteFilesUnder { prefix: path@ },
        ]);
    }
    v
}

/// Removing a folder removes every folder record and every document whose
/// path starts with the folder's path, and every side row of those
/// documents; all other rows stay as they were.
pub proof fn lemma_folder_cascade(s: CacheModel, p: Seq<char>)
    ensures
        ({
            let after = apply_all(
                s,
                seq![OpSpec::DeleteFoldersUnder { prefix: p }, OpSpec::DeleteFilesUnder { prefix: p }],
            );
            &&& forall|q: Seq<char>| #[trigger]
                after.folders.contains_key(q) <==> (s.folders.contains_key(q) && !starts_with(
                    q,
                    p,
                ))
            &&& forall|q: Seq<char>| #[trigger]
                after.files.contains_key(q) <==> (s.files.contains_key(q) && !starts_with(q, p))
            &&& forall|k: (Seq<char>, Seq<char>, int)| #[trigger]
                after.side.contains_key(k) <==> (s.side.contains_key(k) && !starts_with(k.1, p))
            &&& forall|q: Seq<char>| #[trigger]
                after.folders.contains_key(q) ==> after.folders[q] == s.folders[q]
            &&& forall|q: Seq<char>| #[trigger]
                after.files.contains_key(q) ==> after.files[q] == s.files[q]
            &&& forall|k: (Seq<char>, Seq<char>, int)| #[trigger]
                after.side.contains_key(k) ==> after.side[k] == s.side[k]
        }),
{
    let ops = seq![OpSpec::DeleteFoldersUnder { prefix: p }, OpSpec::DeleteFilesUnder { prefix: p }];
    assert(ops.drop_last().drop_last() =~= Seq::<OpSpec>::empty());
    assert(ops.drop_last() =~= seq![OpSpec::DeleteFoldersUnder { prefix: p }]);
    assert(apply_all(s, ops.drop_last().drop_last()) == s);
    assert(apply_all(s, ops.drop_last()) == apply_op(s, OpSpec::DeleteFoldersUnder { prefix: p }));
}

} // verus!
