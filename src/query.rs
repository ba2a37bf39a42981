use vstd::prelude::*;
use crate::cache::{
    apply_all, cells_map, collection_rows, lemma_collection_rows_replaced, pair_rows, scalar_cell,
    scalar_cells, upsert_plan, lemma_upsert_closed_form, value_rows, CacheModel, SideRow,
};
use crate::document::{attr_lookup, BookFromDb, DocView};
use crate::error::{opt_view, ErrorFromRust};
use crate::schema::{unique_names, Attr, AttrKind, AttrValue, DatePair, DateRead, ItemSpec, Schema};
use crate::tables::{get_table_names, TableNames};
use crate::sql::{values_view, SqlValue, SqlValueSpec, Statement};
use crate::text::{has_char, join_with, lemma_split_join, split_on, split_str};

verus! {

/// The documents of a folder's schema that a query found, with that schema.
#[derive(Debug)]
pub struct BookListGetResult {
    pub schema: Schema,
    pub books: Vec<BookFromDb>,
}

/// `None` for the empty text.
pub open spec fn non_empty(s: Seq<char>) -> Option<Seq<char>> {
    if s.len() == 0 {
        None
    } else {
        Some(s)
    }
}

/// The text of an optional value, empty when absent.
pub open spec fn or_empty(o: Option<Seq<char>>) -> Seq<char> {
    match o {
        Some(s) => s,
        None => Seq::empty(),
    }
}

/// A reading decoded from its `started|finished` text; an empty part is absent.
pub open spec fn decode_pair(e: Seq<char>) -> DatePair {
    let parts = split_on(e, '|');
    DatePair {
        started: non_empty(parts[0]),
        finished: if parts.len() > 1 {
            non_empty(parts[1])
        } else {
            None
        },
    }
}

/// The attribute decoded from one result cell of an item of the given kind.
/// A missing cell gives the kind's default.
pub open spec fn decode_cell(kind: AttrKind, cell: Option<Seq<char>>) -> Attr {
    match kind {
        AttrKind::Text => Attr::Text(or_empty(cell)),
        AttrKind::Date => Attr::Date(or_empty(cell)),
        AttrKind::Image => Attr::Image(or_empty(cell)),
        AttrKind::Number { .. } => match cell {
            Some(t) => Attr::Number(t),
            None => Attr::Number(crate::schema::zero_text()),
        },
        AttrKind::TextCollection => match cell {
            Some(t) => Attr::TextCollection(split_on(t, ',')),
            None => Attr::TextCollection(Seq::empty()),
        },
        AttrKind::DateCollection => match cell {
            Some(t) => Attr::DateCollection(split_on(t, ',')),
            None => Attr::DateCollection(Seq::empty()),
        },
        AttrKind::DatesPairCollection => match cell {
            Some(t) => Attr::DatesPairCollection(
                split_on(t, ',').map_values(|e: Seq<char>| decode_pair(e)),
            ),
            None => Attr::DatesPairCollection(Seq::empty()),
        },
    }
}

/// The attributes decoded from the item cells of a result row.
pub open spec fn decode_attrs(items: Seq<ItemSpec>, cells: Seq<Option<Seq<char>>>) -> Seq<
    (Seq<char>, Attr),
> {
    Seq::new(items.len(), |i: int| (items[i].name, decode_cell(items[i].kind, cells[i])))
}

pub open spec fn row_view(row: Seq<Option<String>>) -> Seq<Option<Seq<char>>> {
    Seq::new(row.len(), |i: int| opt_view(row[i]))
}

fn text_or_empty(cell: &Option<String>) -> (r: String)
    ensures
        r@ == or_empty(opt_view(*cell)),
{
    match cell {
        Some(t) => t.clone(),
        None => String::new(),
    }
}

fn non_empty_text(s: String) -> (r: Option<String>)
    ensures
        opt_view(r) == non_empty(s@),
{
    if s.unicode_len() == 0 {
        None
    } else {
        Some(s)
    }
}

/// Decodes one `started|finished` element.
pub fn decode_date_read(e: &str) -> (r: DateRead)
    ensures
        r@ == decode_pair(e@),
{
    let mut parts = split_str(e, '|');
    proof {
        crate::text::lemma_split_nonempty(e@, '|');
    }
    let n = parts.len();
    let finished = if n > 1 {
        non_empty_text(parts[1].clone())
    } else {
        None
    };
    let started = non_empty_text(parts[0].clone());
    DateRead { started, finished }
}

/// Decodes the cell of an item of kind `key`.
fn decode_value(key: &crate::schema::SchemaAttrKey, cell: &Option<String>) -> (r: AttrValue)
    ensures
        r@ == decode_cell(key@, opt_view(*cell)),
{
    match key {
        crate::schema::SchemaAttrKey::Text(_) => AttrValue::Text(text_or_empty(cell)),
        crate::schema::SchemaAttrKey::Date(_) => AttrValue::Date(text_or_empty(cell)),
        crate::schema::SchemaAttrKey::Image(_) => AttrValue::Image(text_or_empty(cell)),
        crate::schema::SchemaAttrKey::Number(_) => match cell {
            Some(t) => AttrValue::Number(t.clone()),
            None => AttrValue::default_number(),
        },
        crate::schema::SchemaAttrKey::TextCollection(_) => match cell {
            Some(t) => AttrValue::TextCollection(split_str(t.as_str(), ',')),
            None => AttrValue::default_text_collection(),
        },
        crate::schema::SchemaAttrKey::DateCollection(_) => match cell {
            Some(t) => AttrValue::DateCollection(split_str(t.as_str(), ',')),
            None => AttrValue::default_date_collection(),
        },
        crate::schema::SchemaAttrKey::DatesPairCollection(_) => match cell {
            Some(t) => {
                let elems = split_str(t.as_str(), ',');
                let mut out: Vec<DateRead> = Vec::new();
                let n = elems.len();
                let mut i: usize = 0;
                while i < n
                    invariant
                        n == elems@.len(),
                        i <= n,
                        crate::schema::pairs_view(out@) == elems.deep_view().take(
                            i as int,
                        ).map_values(|e: Seq<char>| decode_pair(e)),
                    decreases n - i,
                {
                    let ghost before = crate::schema::pairs_view(out@);
                    out.push(decode_date_read(elems[i].as_str()));
                    proof {
                        assert(crate::schema::pairs_view(out@) =~= before.push(
                            decode_pair(elems@[i as int]@),
                        ));
                        assert(elems.deep_view().take(i as int + 1).map_values(
                            |e: Seq<char>| decode_pair(e),
                        ) =~= elems.deep_view().take(i as int).map_values(
                            |e: Seq<char>| decode_pair(e),
                        ).push(decode_pair(elems@[i as int]@)));
                    }
                    i += 1;
                }
                proof {
                    assert(elems.deep_view().take(n as int) =~= elems.deep_view());
                }
                AttrValue::DatesPairCollection(out)
            },
            None => AttrValue::default_dates_pair_collection(),
        },
    }
}

/// Decodes a result row of the schema's query: `path`, `modified`, then one
/// cell per item in item order. A row of another width is refused.
pub fn decode_row(schema: &Schema, row: &Vec<Option<String>>) -> (r: Result<BookFromDb, ErrorFromRust>)
    ensures
        match r {
            Ok(d) => {
                &&& row@.len() == schema@.items.len() + 2
                &&& d@ == (DocView {
                    path: opt_view(row@[0]),
                    modified: opt_view(row@[1]),
                    markdown: None,
                    attrs: decode_attrs(schema@.items, row_view(row@).subrange(2, row@.len() as int)),
                })
            },
            Err(_) => row@.len() != schema@.items.len() + 2,
        },
{
    let n = schema.items.len();
    if row.len() < 2 || row.len() - 2 != n {
        return Err(ErrorFromRust::new("Error when getting files").raw("result row does not match the schema"));
    }
    let ghost cells = row_view(row@).subrange(2, row@.len() as int);
    let mut attrs: Vec<(String, AttrValue)> = Vec::new();
    let rl = row.len();
    let mut i: usize = 0;
    while i < n
        invariant
            n == schema.items@.len(),
            rl == row@.len(),
            row@.len() == n + 2,
            cells == row_view(row@).subrange(2, row@.len() as int),
            i <= n,
            crate::document::attrs_view(attrs@) == decode_attrs(schema@.items, cells).take(i as int),
        decreases n - i,
    {
        let ghost before = crate::document::attrs_view(attrs@);
        let item = &schema.items[i];
        let v = decode_value(&item.value, &row[i + 2]);
        attrs.push((item.name.clone(), v));
        proof {
            assert(cells[i as int] == opt_view(row@[i + 2]));
            assert(schema@.items[i as int] == item@);
            assert(crate::document::attrs_view(attrs@) =~= before.push((item@.name, v@)));
            assert(decode_attrs(schema@.items, cells)[i as int] == (item@.name, decode_cell(item@.kind, cells[i as int])));
            assert(crate::document::attrs_view(attrs@) =~= decode_attrs(schema@.items, cells).take(
                i as int + 1,
            ));
        }
        i += 1;
    }
    proof {
        assert(decode_attrs(schema@.items, cells).take(n as int) =~= decode_attrs(
            schema@.items,
            cells,
        ));
    }
    let path = match &row[0] {
        Some(p) => Some(p.clone()),
        None => None,
    };
    let modified = match &row[1] {
        Some(p) => Some(p.clone()),
        None => None,
    };
    Ok(BookFromDb { path, modified, markdown: None, attrs })
}


/// The rows of `attr` for `path` occupy exactly the indices `0..n`.
pub open spec fn contiguous(s: CacheModel, attr: Seq<char>, path: Seq<char>, n: nat) -> bool {
    forall|i: int| 0 <= i ==> (s.side.contains_key((attr, path, i)) <==> i < n)
}

/// The side rows of `attr` for `path` in index order, where they occupy
/// `0..n` for some `n`.
pub open spec fn side_rows_of(s: CacheModel, attr: Seq<char>, path: Seq<char>) -> Seq<SideRow> {
    let n = choose|n: nat| contiguous(s, attr, path, n);
    Seq::new(n, |i: int| s.side[(attr, path, i)])
}

/// Text that the query's aggregation makes of one side row.
pub open spec fn encode_row(r: SideRow) -> Seq<char> {
    match r {
        SideRow::Value(v) => v,
        SideRow::Pair(a, b) => or_empty(a) + seq!['|'] + or_empty(b),
    }
}

/// Aggregated cell of a collection: the encoded rows joined by commas, in
/// index order; absent when there is no row.
pub open spec fn aggregate(rows: Seq<SideRow>) -> Option<Seq<char>> {
    if rows.len() == 0 {
        None
    } else {
        Some(join_with(rows.map_values(|r: SideRow| encode_row(r)), seq![',']))
    }
}

/// The cell that the schema's query returns for an item of the document at `path`.
pub open spec fn model_cell(s: CacheModel, it: ItemSpec, path: Seq<char>) -> Option<Seq<char>> {
    if it.kind.is_scalar() {
        if s.files[path].cells.contains_key(it.name) {
            Some(s.files[path].cells[it.name])
        } else {
            None
        }
    } else {
        aggregate(side_rows_of(s, it.name, path))
    }
}

/// The item cells of the query's row for the document at `path`.
pub open spec fn model_cells(s: CacheModel, items: Seq<ItemSpec>, path: Seq<char>) -> Seq<
    Option<Seq<char>>,
> {
    Seq::new(items.len(), |i: int| model_cell(s, items[i], path))
}

/// The list a value-collection item takes from the attributes.
pub open spec fn collection_values(attrs: Seq<(Seq<char>, Attr)>, it: ItemSpec) -> Seq<Seq<char>> {
    match attr_lookup(attrs, it.name) {
        Some(Attr::TextCollection(v)) => v,
        Some(Attr::DateCollection(v)) => v,
        _ => Seq::empty(),
    }
}

/// The readings a date-pair item takes from the attributes.
pub open spec fn collection_pairs(attrs: Seq<(Seq<char>, Attr)>, it: ItemSpec) -> Seq<DatePair> {
    match attr_lookup(attrs, it.name) {
        Some(Attr::DatesPairCollection(v)) => v,
        _ => Seq::empty(),
    }
}

/// The attribute an item holds once cached: the document's value in the
/// item's own type, or the type's default where it is missing or mistyped.
pub open spec fn stored_attr(it: ItemSpec, attrs: Seq<(Seq<char>, Attr)>) -> Attr {
    match it.kind {
        AttrKind::Text => Attr::Text(scalar_cell(attrs, it)),
        AttrKind::Number { .. } => Attr::Number(scalar_cell(attrs, it)),
        AttrKind::Date => Attr::Date(scalar_cell(attrs, it)),
        AttrKind::Image => Attr::Image(scalar_cell(attrs, it)),
        AttrKind::TextCollection => Attr::TextCollection(collection_values(attrs, it)),
        AttrKind::DateCollection => Attr::DateCollection(collection_values(attrs, it)),
        AttrKind::DatesPairCollection => Attr::DatesPairCollection(collection_pairs(attrs, it)),
    }
}

/// The value has the variant that the kind declares.
pub open spec fn kind_matches(kind: AttrKind, a: Attr) -> bool {
    match kind {
        AttrKind::Text => a is Text,
        AttrKind::Number { .. } => a is Number,
        AttrKind::Date => a is Date,
        AttrKind::Image => a is Image,
        AttrKind::TextCollection => a is TextCollection,
        AttrKind::DateCollection => a is DateCollection,
        AttrKind::DatesPairCollection => a is DatesPairCollection,
    }
}

/// A present reading part that the aggregation can carry: not empty, and
/// holding neither delimiter.
pub open spec fn pair_part_ok(o: Option<Seq<char>>) -> bool {
    match o {
        Some(t) => t.len() > 0 && !has_char(t, ',') && !has_char(t, '|'),
        None => true,
    }
}

/// The item's collection holds no delimiter of the aggregation (`,` between
/// elements, `|` inside a reading) and no present but empty reading part.
pub open spec fn encodable(attrs: Seq<(Seq<char>, Attr)>, it: ItemSpec) -> bool {
    &&& it.kind.is_value_collection() ==> forall|i: int|
        0 <= i < collection_values(attrs, it).len() ==> !has_char(
            #[trigger] collection_values(attrs, it)[i],
            ',',
        )
    &&& it.kind.is_pair_collection() ==> forall|i: int|
        0 <= i < collection_pairs(attrs, it).len() ==> pair_part_ok(
            #[trigger] collection_pairs(attrs, it)[i].started,
        ) && pair_part_ok(collection_pairs(attrs, it)[i].finished)
}

proof fn lemma_cells_map_scalar(items: Seq<ItemSpec>, attrs: Seq<(Seq<char>, Attr)>, j: int)
    requires
        0 <= j < items.len(),
        items[j].kind.is_scalar(),
        unique_names(items),
    ensures
        cells_map(scalar_cells(items, attrs)).contains_key(items[j].name),
        cells_map(scalar_cells(items, attrs))[items[j].name] == scalar_cell(attrs, items[j]),
    decreases items.len(),
{
    let init = items.drop_last();
    if j < items.len() - 1 {
        assert(items.last() == items[items.len() - 1]);
        assert(init[j] == items[j]);
        assert(unique_names(init)) by {
            assert forall|a: int, b: int|
                0 <= a < init.len() && 0 <= b < init.len() && a != b implies init[a].name
                != init[b].name by {
                assert(init[a] == items[a]);
                assert(init[b] == items[b]);
            }
        }
        lemma_cells_map_scalar(init, attrs, j);
        let prev = scalar_cells(init, attrs);
        if items.last().kind.is_scalar() {
            let e = (items.last().name, scalar_cell(attrs, items.last()));
            assert(scalar_cells(items, attrs) == prev.push(e));
            assert(prev.push(e).drop_last() =~= prev);
            assert(prev.push(e).last() == e);
        } else {
            assert(scalar_cells(items, attrs) == prev);
        }
    } else {
        assert(items.last() == items[j]);
        let prev = scalar_cells(init, attrs);
        let e = (items.last().name, scalar_cell(attrs, items.last()));
        assert(scalar_cells(items, attrs) == prev.push(e));
        assert(prev.push(e).drop_last() =~= prev);
        assert(prev.push(e).last() == e);
    }
}

proof fn lemma_contiguous_unique(s: CacheModel, attr: Seq<char>, path: Seq<char>, n: nat, m: nat)
    requires
        contiguous(s, attr, path, n),
        contiguous(s, attr, path, m),
    ensures
        n == m,
{
    if n < m {
        assert(s.side.contains_key((attr, path, n as int)));
    }
    if m < n {
        assert(s.side.contains_key((attr, path, m as int)));
    }
}

proof fn lemma_has_char_concat(a: Seq<char>, b: Seq<char>, c: char)
    requires
        !has_char(a, c),
        !has_char(b, c),
    ensures
        !has_char(a + b, c),
{
    if has_char(a + b, c) {
        let i = choose|i: int| 0 <= i < (a + b).len() && (a + b)[i] == c;
        if i < a.len() {
            assert(a[i] == c);
        } else {
            assert(b[i - a.len()] == c);
        }
    }
}

proof fn lemma_pair_round_trip(p: DatePair)
    requires
        pair_part_ok(p.started),
        pair_part_ok(p.finished),
    ensures
        !has_char(encode_row(SideRow::Pair(p.started, p.finished)), ','),
        decode_pair(encode_row(SideRow::Pair(p.started, p.finished))) == p,
{
    let a = or_empty(p.started);
    let b = or_empty(p.finished);
    assert(!has_char(seq!['|'], ','));
    lemma_has_char_concat(a, seq!['|'], ',');
    lemma_has_char_concat(a + seq!['|'], b, ',');
    let parts = seq![a, b];
    assert(parts.drop_last() =~= seq![a]);
    assert(join_with(seq![a], seq!['|']) == a);
    assert(parts.last() == b);
    assert(join_with(parts, seq!['|']) == a + seq!['|'] + b);
    lemma_split_join(parts, '|');
}

proof fn lemma_cell_decodes(s: CacheModel, items: Seq<ItemSpec>, d: DocView, j: int)
    requires
        d.path is Some,
        unique_names(items),
        0 <= j < items.len(),
        encodable(d.attrs, items[j]),
    ensures
        decode_cell(items[j].kind, model_cell(apply_all(s, upsert_plan(items, d)), items[j], d.path.unwrap()))
            == stored_attr(items[j], d.attrs),
{
    let p = d.path.unwrap();
    let it = items[j];
    let after = apply_all(s, upsert_plan(items, d));
    lemma_upsert_closed_form(s, items, d);
    if it.kind.is_scalar() {
        lemma_cells_map_scalar(items, d.attrs, j);
        let cm = cells_map(scalar_cells(items, d.attrs));
        assert(after.files[p].cells.contains_key(it.name));
        assert(after.files[p].cells[it.name] == scalar_cell(d.attrs, it));
    } else {
        lemma_collection_rows_replaced(s, items, d, j);
        let rows = collection_rows(d.attrs, it);
        assert(contiguous(after, it.name, p, rows.len()));
        let n = choose|n: nat| contiguous(after, it.name, p, n);
        lemma_contiguous_unique(after, it.name, p, n, rows.len());
        assert(side_rows_of(after, it.name, p) =~= rows);
        let encs = rows.map_values(|r: SideRow| encode_row(r));
        if it.kind.is_pair_collection() {
            let v = collection_pairs(d.attrs, it);
            assert(rows == pair_rows(v));
            if v.len() == 0 {
                assert(v =~= Seq::<DatePair>::empty());
            } else {
                assert forall|i: int| 0 <= i < encs.len() implies !has_char(#[trigger] encs[i], ',') by {
                    lemma_pair_round_trip(v[i]);
                }
                lemma_split_join(encs, ',');
                assert forall|i: int| 0 <= i < v.len() implies decode_pair(#[trigger] encs[i]) == v[i] by {
                    lemma_pair_round_trip(v[i]);
                }
                assert(split_on(join_with(encs, seq![',']), ',').map_values(
                    |e: Seq<char>| decode_pair(e),
                ) =~= v);
            }
        } else {
            let v = collection_values(d.attrs, it);
            assert(rows == value_rows(v));
            assert(encs =~= v);
            if v.len() == 0 {
                assert(v =~= Seq::<Seq<char>>::empty());
            } else {
                lemma_split_join(v, ',');
            }
        }
    }
}

/// A document read back by its exact path after it was cached decodes to
/// its path, its modification time and, for every item in schema order,
/// the attribute it held in the item's type, with the type's default where
/// it was missing or mistyped. Collections must not hold the aggregation's
/// delimiters, nor a reading a present but empty part.
pub proof fn lemma_query_reconstructs(s: CacheModel, items: Seq<ItemSpec>, d: DocView)
    requires
        d.path is Some,
        unique_names(items),
        forall|j: int| 0 <= j < items.len() ==> encodable(d.attrs, #[trigger] items[j]),
    ensures
        ({
            let after = apply_all(s, upsert_plan(items, d));
            let p = d.path.unwrap();
            &&& after.files.contains_key(p)
            &&& after.files[p].modified == d.modified
            &&& decode_attrs(items, model_cells(after, items, p)) == Seq::new(
                items.len(),
                |j: int| (items[j].name, stored_attr(items[j], d.attrs)),
            )
        }),
{
    let after = apply_all(s, upsert_plan(items, d));
    let p = d.path.unwrap();
    lemma_upsert_closed_form(s, items, d);
    assert forall|j: int| 0 <= j < items.len() implies decode_cell(
        items[j].kind,
        model_cells(after, items, p)[j],
    ) == stored_attr(items[j], d.attrs) by {
        lemma_cell_decodes(s, items, d, j);
    }
    assert(decode_attrs(items, model_cells(after, items, p)) =~= Seq::new(
        items.len(),
        |j: int| (items[j].name, stored_attr(items[j], d.attrs)),
    ));
}

/// An attribute that already has its item's type is cached as it is.
pub proof fn lemma_stored_attr_matches(it: ItemSpec, attrs: Seq<(Seq<char>, Attr)>)
    requires
        attr_lookup(attrs, it.name) is Some,
        kind_matches(it.kind, attr_lookup(attrs, it.name).unwrap()),
    ensures
        stored_attr(it, attrs) == attr_lookup(attrs, it.name).unwrap(),
{
}


/// `", name"` for each item: the selected column or aggregate of each item.
pub open spec fn select_list(items: Seq<ItemSpec>) -> Seq<char>
    decreases items.len(),
{
    if items.len() == 0 {
        Seq::empty()
    } else {
        select_list(items.drop_last()) + ", "@ + items.last().name
    }
}

/// Expression aggregated for one side row of a collection of this kind.
pub open spec fn aggregated_expr(pair: bool) -> Seq<char> {
    if pair {
        "IFNULL(started, '') || '|' || IFNULL(finished, '')"@
    } else {
        "value"@
    }
}

/// The join that brings one collection item's rows, concatenated in index
/// order, into the row of its document.
pub open spec fn join_clause(n: Seq<char>, it: ItemSpec) -> Seq<char> {
    " LEFT JOIN (SELECT path AS "@ + it.name + "_path, GROUP_CONCAT("@ + aggregated_expr(
        it.kind.is_pair_collection(),
    ) + ", ',' ORDER BY ind) AS "@ + it.name + " FROM "@ + crate::tables::prefix_of(n) + it.name
        + " GROUP BY path) ON "@ + crate::tables::files_table_of(n) + ".path = "@ + it.name + "_path"@
}

/// The joins of all collection items, in item order.
pub open spec fn join_list(n: Seq<char>, items: Seq<ItemSpec>) -> Seq<char>
    decreases items.len(),
{
    if items.len() == 0 {
        Seq::empty()
    } else if items.last().kind.is_scalar() {
        join_list(n, items.drop_last())
    } else {
        join_list(n, items.drop_last()) + join_clause(n, items.last())
    }
}

/// The schema's query: `path`, `modified`, then one column per item, with
/// the given filter.
pub open spec fn files_query(n: Seq<char>, items: Seq<ItemSpec>, where_clause: Seq<char>) -> Seq<char> {
    "SELECT "@ + crate::tables::files_table_of(n) + ".path, "@ + crate::tables::files_table_of(n) + ".modified"@ + select_list(items)
        + " FROM "@ + crate::tables::files_table_of(n) + join_list(n, items) + " "@ + where_clause
}

fn push_join(q: &mut String, t: &TableNames, item: &crate::schema::SchemaItem, Ghost(n): Ghost<Seq<char>>)
    requires
        !item@.kind.is_scalar(),
    ensures
        t.of(n) ==> final(q)@ == old(q)@ + join_clause(n, item@),
{
    q.append(" LEFT JOIN (SELECT path AS ");
    q.append(item.name.as_str());
    q.append("_path, GROUP_CONCAT(");
    match &item.value {
        crate::schema::SchemaAttrKey::DatesPairCollection(_) => {
            q.append("IFNULL(started, '') || '|' || IFNULL(finished, '')");
        },
        _ => {
            q.append("value");
        },
    }
    q.append(", ',' ORDER BY ind) AS ");
    q.append(item.name.as_str());
    q.append(" FROM ");
    q.append(t.table_prefix.as_str());
    q.append(item.name.as_str());
    q.append(" GROUP BY path) ON ");
    q.append(t.files_table.as_str());
    q.append(".path = ");
    q.append(item.name.as_str());
    q.append("_path");
    proof {
        if t.of(n) {
            assert(final(q)@ =~= old(q)@ + join_clause(n, item@));
        }
    }
}

/// The query that reads the schema's documents that pass `where_clause`,
/// with one LEFT JOIN and aggregation per collection item.
pub fn get_files_abstact(where_clause: &str, schema: &Schema) -> (r: String)
    ensures
        r@ == files_query(schema@.internal_name, schema@.items, where_clause@),
{
    let t = get_table_names(schema.internal_name.clone());
    let mut selects = String::new();
    let mut joins = String::new();
    let n = schema.items.len();
    let ghost items = schema@.items;
    let mut i: usize = 0;
    while i < n
        invariant
            n == schema.items@.len(),
            items == schema@.items,
            i <= n,
            selects@ == select_list(items.take(i as int)),
            joins@ == join_list(schema@.internal_name, items.take(i as int)),
            t.of(schema@.internal_name),
        decreases n - i,
    {
        let item = &schema.items[i];
        proof {
            assert(items.take(i as int + 1).drop_last() =~= items.take(i as int));
            assert(items.take(i as int + 1).last() == item@);
        }
        selects.append(", ");
        selects.append(item.name.as_str());
        match &item.value {
            crate::schema::SchemaAttrKey::TextCollection(_)
            | crate::schema::SchemaAttrKey::DateCollection(_)
            | crate::schema::SchemaAttrKey::DatesPairCollection(_) => {
                push_join(&mut joins, &t, item, Ghost(schema@.internal_name));
            },
            _ => {},
        }
        proof {
            assert(selects@ =~= select_list(items.take(i as int + 1)));
            assert(joins@ =~= join_list(schema@.internal_name, items.take(i as int + 1)));
        }
        i += 1;
    }
    proof {
        assert(items.take(n as int) =~= items);
    }
    let mut q = String::new();
    q.append("SELECT ");
    q.append(t.files_table.as_str());
    q.append(".path, ");
    q.append(t.files_table.as_str());
    q.append(".modified");
    q.append(selects.as_str());
    q.append(" FROM ");
    q.append(t.files_table.as_str());
    q.append(joins.as_str());
    q.append(" ");
    q.append(where_clause);
    proof {
        assert(q@ =~= files_query(schema@.internal_name, items, where_clause@));
    }
    q
}

/// Filter of the documents whose path contains the bound text.
pub open spec fn path_filter(n: Seq<char>) -> Seq<char> {
    "WHERE instr("@ + crate::tables::files_table_of(n) + ".path, ?) > 0"@
}

/// The query for the schema's documents whose path contains `path`; the text
/// is bound, never spliced into the statement.
pub fn get_files_by_path(schema: &Schema, path: &str) -> (r: Statement)
    ensures
        r.sql@ == files_query(schema@.internal_name, schema@.items, path_filter(schema@.internal_name)),
        values_view(r.params@) == seq![SqlValueSpec::Text(path@)],
{
    let t = get_table_names(schema.internal_name.clone());
    let mut w = String::new();
    w.append("WHERE instr(");
    w.append(t.files_table.as_str());
    w.append(".path, ?) > 0");
    let sql = get_files_abstact(w.as_str(), schema);
    proof {
        assert(w@ =~= path_filter(schema@.internal_name));
    }
    let mut params: Vec<SqlValue> = Vec::new();
    params.push(SqlValue::Text(String::from_str(path)));
    proof {
        assert(values_view(params@) =~= seq![SqlValueSpec::Text(path@)]);
    }
    Statement { sql, params }
}

/// The query for the distinct values of the schema's `tags` collection.
pub fn get_all_tags(schema: &Schema) -> (r: String)
    ensures
        r@ == "SELECT DISTINCT value FROM "@ + crate::tables::prefix_of(schema@.internal_name) + "tags"@,
{
    let t = get_table_names(schema.internal_name.clone());
    let mut q = String::new();
    q.append("SELECT DISTINCT value FROM ");
    q.append(t.table_prefix.as_str());
    q.append("tags");
    proof {
        assert(q@ =~= "SELECT DISTINCT value FROM "@ + crate::tables::prefix_of(schema@.internal_name) + "tags"@);
    }
    q
}

/// The query for the paths of the schema's cached folders.
pub fn get_all_folders(schema: &Schema) -> (r: String)
    ensures
        r@ == "SELECT DISTINCT path FROM "@ + crate::tables::folders_table_of(schema@.internal_name),
{
    let t = get_table_names(schema.internal_name.clone());
    let mut q = String::new();
    q.append("SELECT DISTINCT path FROM ");
    q.append(t.folders_table.as_str());
    proof {
        assert(q@ =~= "SELECT DISTINCT path FROM "@ + crate::tables::folders_table_of(schema@.internal_name));
    }
    q
}


/// Filter of the documents whose `tags` collection holds the bound value.
pub open spec fn tag_filter(n: Seq<char>) -> Seq<char> {
    "WHERE "@ + crate::tables::files_table_of(n) + ".path IN (SELECT path FROM "@
        + crate::tables::prefix_of(n) + "tags WHERE value = ?)"@
}

/// The query for the schema's documents tagged `tag`; the tag is bound.
pub fn get_files_by_tag(schema: &Schema, tag: &str) -> (r: Statement)
    ensures
        r.sql@ == files_query(schema@.internal_name, schema@.items, tag_filter(schema@.internal_name)),
        values_view(r.params@) == seq![SqlValueSpec::Text(tag@)],
{
    let t = get_table_names(schema.internal_name.clone());
    let mut w = String::new();
    w.append("WHERE ");
    w.append(t.files_table.as_str());
    w.append(".path IN (SELECT path FROM ");
    w.append(t.table_prefix.as_str());
    w.append("tags WHERE value = ?)");
    let sql = get_files_abstact(w.as_str(), schema);
    proof {
        assert(w@ =~= tag_filter(schema@.internal_name));
    }
    let mut params: Vec<SqlValue> = Vec::new();
    params.push(SqlValue::Text(String::from_str(tag)));
    proof {
        assert(values_view(params@) =~= seq![SqlValueSpec::Text(tag@)]);
    }
    Statement { sql, params }
}

} // verus!
