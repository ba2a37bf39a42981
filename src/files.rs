use vstd::prelude::*;
use crate::document::{attrs_view, copy_text, str_eq, BookFromDb};
use crate::error::{opt_view, ErrorActionCode, ErrorFromRust};
use crate::schema::{Attr, AttrKind, AttrValue, DatePair, DateRead, ItemSpec, Schema, zero_text};

verus! {

/// How much of a document file to read.
#[derive(Clone, Copy, Debug, PartialEq, Eq, Structural)]
pub enum FileReadMode {
    /// Stop after the front matter.
    OnlyMeta,
    /// Read the body too.
    FullFile,
}

/// A document file split into its front matter and its body.
#[derive(Clone, Debug)]
pub struct FileContent {
    pub front_matter: String,
    pub content: String,
}

/// `s` with leading and trailing whitespace removed, as `str::trim` does it.
pub uninterp spec fn trim_of(s: Seq<char>) -> Seq<char>;

/// Relies on `str::trim`: the text without its leading and trailing whitespace.
#[verifier::external_body]
fn trimmed(s: &str) -> (r: String)
    ensures
        r@ == trim_of(s@),
{
    s.trim().to_string()
}

/// The line that opens and closes the front matter.
pub open spec fn is_marker(line: Seq<char>) -> bool {
    trim_of(line) == seq!['-', '-', '-']
}

/// State of the front-matter scanner.
pub struct ScanState {
    pub front: Seq<char>,
    pub content: Seq<char>,
    pub inside: bool,
    pub found: bool,
    pub done: bool,
}

/// The scanner after one more line: lines before the opening marker are
/// ignored, lines between the markers are front matter, lines after the
/// closing marker are the body; with `OnlyMeta` nothing after the closing
/// marker is read.
pub open spec fn scan_step(st: ScanState, line: Seq<char>, mode: FileReadMode) -> ScanState {
    let nl = seq!['\n'];
    if st.done {
        st
    } else if is_marker(line) && !st.inside && !st.found {
        ScanState { inside: true, content: Seq::empty(), ..st }
    } else if !is_marker(line) && st.inside {
        ScanState { front: st.front + line + nl, ..st }
    } else if is_marker(line) && st.inside {
        ScanState { inside: false, found: true, done: mode == FileReadMode::OnlyMeta, ..st }
    } else if st.found {
        ScanState { content: st.content + line + nl, ..st }
    } else {
        st
    }
}

pub open spec fn scan(lines: Seq<Seq<char>>, mode: FileReadMode) -> ScanState
    decreases lines.len(),
{
    if lines.len() == 0 {
        ScanState {
            front: Seq::empty(),
            content: Seq::empty(),
            inside: false,
            found: false,
            done: false,
        }
    } else {
        scan_step(scan(lines.drop_last(), mode), lines.last(), mode)
    }
}

/// Splits the lines of a document file into front matter and body.
pub fn split_front_matter(lines: &Vec<String>, read_mode: FileReadMode) -> (r: FileContent)
    ensures
        r.front_matter@ == scan(lines.deep_view(), read_mode).front,
        r.content@ == scan(lines.deep_view(), read_mode).content,
{
    let mut front_matter = String::new();
    let mut content = String::new();
    let mut inside = false;
    let mut found = false;
    let mut done = false;
    let n = lines.len();
    let mut i: usize = 0;
    while i < n
        invariant
            n == lines@.len(),
            i <= n,
            ({
                let st = scan(lines.deep_view().take(i as int), read_mode);
                &&& st.front == front_matter@
                &&& st.content == content@
                &&& st.inside == inside
                &&& st.found == found
                &&& st.done == done
            }),
        decreases n - i,
    {
        proof {
            let dv = lines.deep_view();
            assert(dv.take(i as int + 1).drop_last() =~= dv.take(i as int));
            assert(dv.take(i as int + 1).last() == lines@[i as int]@);
            reveal_strlit("---");
            reveal_strlit("\n");
            assert("---"@ =~= seq!['-', '-', '-']);
            assert("\n"@ =~= seq!['\n']);
        }
        if !done {
            let t = trimmed(lines[i].as_str());
            let marker = str_eq(t.as_str(), "---");
            if marker && !inside && !found {
                inside = true;
                content = String::new();
            } else if !marker && inside {
                front_matter.append(lines[i].as_str());
                front_matter.append("\n");
            } else if marker && inside {
                inside = false;
                found = true;
                done = read_mode == FileReadMode::OnlyMeta;
            } else if found {
                content.append(lines[i].as_str());
                content.append("\n");
            }
        }
        i += 1;
    }
    proof {
        assert(lines.deep_view().take(n as int) =~= lines.deep_view());
    }
    FileContent { front_matter, content }
}


/// A field of a mapping inside a front-matter list.
#[derive(Clone, Debug)]
pub enum MapField {
    Missing,
    Text(String),
    Other,
}

/// An element of a front-matter list.
#[derive(Clone, Debug)]
pub enum ListEntry {
    Text(String),
    /// A mapping, with what it holds under `started` and `finished`.
    Mapping { started: MapField, finished: MapField },
    Other,
}

/// A parsed front-matter value, as far as the schema's types read it.
#[derive(Clone, Debug)]
pub enum FrontValue {
    Text(String),
    /// A number, as decimal text; `integral` where it is a whole number that
    /// fits in 64 bits.
    Number { text: String, integral: bool },
    List(Vec<ListEntry>),
    /// Anything else: null, a boolean, a mapping.
    Other,
}

pub enum FieldSpec {
    Missing,
    Text(Seq<char>),
    Other,
}

pub enum EntrySpec {
    Text(Seq<char>),
    Mapping { started: FieldSpec, finished: FieldSpec },
    Other,
}

pub enum FrontSpec {
    Text(Seq<char>),
    Number { text: Seq<char>, integral: bool },
    List(Seq<EntrySpec>),
    Other,
}

impl View for MapField {
    type V = FieldSpec;

    open spec fn view(&self) -> FieldSpec {
        match self {
            MapField::Missing => FieldSpec::Missing,
            MapField::Text(s) => FieldSpec::Text(s@),
            MapField::Other => FieldSpec::Other,
        }
    }
}

impl View for ListEntry {
    type V = EntrySpec;

    open spec fn view(&self) -> EntrySpec {
        match self {
            ListEntry::Text(s) => EntrySpec::Text(s@),
            ListEntry::Mapping { started, finished } => EntrySpec::Mapping {
                started: started@,
                finished: finished@,
            },
            ListEntry::Other => EntrySpec::Other,
        }
    }
}

pub open spec fn entries_view(v: Seq<ListEntry>) -> Seq<EntrySpec> {
    Seq::new(v.len(), |i: int| v[i]@)
}

impl View for FrontValue {
    type V = FrontSpec;

    open spec fn view(&self) -> FrontSpec {
        match self {
            FrontValue::Text(s) => FrontSpec::Text(s@),
            FrontValue::Number { text, integral } => FrontSpec::Number {
                text: text@,
                integral: *integral,
            },
            FrontValue::List(v) => FrontSpec::List(entries_view(v@)),
            FrontValue::Other => FrontSpec::Other,
        }
    }
}

pub open spec fn fields_view(v: Seq<(String, FrontValue)>) -> Seq<(Seq<char>, FrontSpec)> {
    Seq::new(v.len(), |i: int| (v[i].0@, v[i].1@))
}

/// The value of the field named `k`; the last one where several share it.
pub open spec fn front_lookup(fields: Seq<(Seq<char>, FrontSpec)>, k: Seq<char>) -> Option<FrontSpec>
    decreases fields.len(),
{
    if fields.len() == 0 {
        None
    } else if fields.last().0 == k {
        Some(fields.last().1)
    } else {
        front_lookup(fields.drop_last(), k)
    }
}

/// The text elements of a list, in order; the others are dropped.
pub open spec fn list_texts(entries: Seq<EntrySpec>) -> Seq<Seq<char>>
    decreases entries.len(),
{
    if entries.len() == 0 {
        Seq::empty()
    } else {
        let r = list_texts(entries.drop_last());
        match entries.last() {
            EntrySpec::Text(s) => r.push(s),
            _ => r,
        }
    }
}

pub open spec fn field_text(f: FieldSpec) -> Option<Seq<char>> {
    match f {
        FieldSpec::Text(s) => Some(s),
        _ => None,
    }
}

/// The readings of a list, in order: each mapping that has `started` or
/// `finished`, with the parts that are text; the other elements are dropped.
pub open spec fn list_pairs(entries: Seq<EntrySpec>) -> Seq<DatePair>
    decreases entries.len(),
{
    if entries.len() == 0 {
        Seq::empty()
    } else {
        let r = list_pairs(entries.drop_last());
        match entries.last() {
            EntrySpec::Mapping { started, finished } => if started is Missing && finished is Missing {
                r
            } else {
                r.push(DatePair { started: field_text(started), finished: field_text(finished) })
            },
            _ => r,
        }
    }
}

/// Whether numbers of this item keep a fractional part.
pub open spec fn fractional(kind: AttrKind) -> bool {
    match kind {
        AttrKind::Number { decimal_places } => decimal_places matches Some(d) && d > 0,
        _ => false,
    }
}

/// The attribute an item takes from its front-matter value: the value where
/// its type fits the item's, else the item type's default. A number item
/// without decimal places takes whole numbers only.
pub open spec fn coerce(kind: AttrKind, v: Option<FrontSpec>) -> Attr {
    match kind {
        AttrKind::Text => match v {
            Some(FrontSpec::Text(s)) => Attr::Text(s),
            _ => Attr::Text(Seq::empty()),
        },
        AttrKind::Date => match v {
            Some(FrontSpec::Text(s)) => Attr::Date(s),
            _ => Attr::Date(Seq::empty()),
        },
        AttrKind::Image => match v {
            Some(FrontSpec::Text(s)) => Attr::Image(s),
            _ => Attr::Image(Seq::empty()),
        },
        AttrKind::Number { .. } => match v {
            Some(FrontSpec::Number { text, integral }) => if fractional(kind) || integral {
                Attr::Number(text)
            } else {
                Attr::Number(zero_text())
            },
            _ => Attr::Number(zero_text()),
        },
        AttrKind::TextCollection => match v {
            Some(FrontSpec::List(e)) => Attr::TextCollection(list_texts(e)),
            _ => Attr::TextCollection(Seq::empty()),
        },
        AttrKind::DateCollection => match v {
            Some(FrontSpec::List(e)) => Attr::DateCollection(list_texts(e)),
            _ => Attr::DateCollection(Seq::empty()),
        },
        AttrKind::DatesPairCollection => match v {
            Some(FrontSpec::List(e)) => Attr::DatesPairCollection(list_pairs(e)),
            _ => Attr::DatesPairCollection(Seq::empty()),
        },
    }
}

/// One attribute per item, in item order, taken from the front matter.
pub open spec fn coerce_all(items: Seq<ItemSpec>, fields: Seq<(Seq<char>, FrontSpec)>) -> Seq<
    (Seq<char>, Attr),
> {
    Seq::new(items.len(), |i: int| (items[i].name, coerce(items[i].kind, front_lookup(fields, items[i].name))))
}

fn lookup_field<'a>(fields: &'a Vec<(String, FrontValue)>, name: &str) -> (r: Option<&'a FrontValue>)
    ensures
        match r {
            Some(v) => front_lookup(fields_view(fields@), name@) == Some(v@),
            None => front_lookup(fields_view(fields@), name@) is None,
        },
{
    let mut found: Option<&FrontValue> = None;
    let n = fields.len();
    let mut i: usize = 0;
    while i < n
        invariant
            n == fields@.len(),
            i <= n,
            match found {
                Some(v) => front_lookup(fields_view(fields@).take(i as int), name@) == Some(v@),
                None => front_lookup(fields_view(fields@).take(i as int), name@) is None,
            },
        decreases n - i,
    {
        proof {
            let a = fields_view(fields@);
            assert(a.take(i as int + 1).drop_last() =~= a.take(i as int));
            assert(a.take(i as int + 1).last() == a[i as int]);
        }
        if str_eq(fields[i].0.as_str(), name) {
            found = Some(&fields[i].1);
        }
        i += 1;
    }
    proof {
        assert(fields_view(fields@).take(n as int) =~= fields_view(fields@));
    }
    found
}

fn texts_of(entries: &Vec<ListEntry>) -> (r: Vec<String>)
    ensures
        r.deep_view() == list_texts(entries_view(entries@)),
{
    let mut out: Vec<String> = Vec::new();
    let n = entries.len();
    let mut i: usize = 0;
    while i < n
        invariant
            n == entries@.len(),
            i <= n,
            out.deep_view() == list_texts(entries_view(entries@).take(i as int)),
        decreases n - i,
    {
        let ghost before = out.deep_view();
        proof {
            let a = entries_view(entries@);
            assert(a.take(i as int + 1).drop_last() =~= a.take(i as int));
            assert(a.take(i as int + 1).last() == a[i as int]);
        }
        match &entries[i] {
            ListEntry::Text(s) => {
                out.push(copy_text(s));
                proof {
                    assert(out.deep_view() =~= before.push(s@));
                }
            },
            _ => {},
        }
        i += 1;
    }
    proof {
        assert(entries_view(entries@).take(n as int) =~= entries_view(entries@));
    }
    out
}

fn field_value(f: &MapField) -> (r: Option<String>)
    ensures
        opt_view(r) == field_text(f@),
{
    match f {
        MapField::Text(s) => Some(copy_text(s)),
        _ => None,
    }
}

fn pairs_of(entries: &Vec<ListEntry>) -> (r: Vec<DateRead>)
    ensures
        crate::schema::pairs_view(r@) == list_pairs(entries_view(entries@)),
{
    let mut out: Vec<DateRead> = Vec::new();
    let n = entries.len();
    let mut i: usize = 0;
    while i < n
        invariant
            n == entries@.len(),
            i <= n,
            crate::schema::pairs_view(out@) == list_pairs(entries_view(entries@).take(i as int)),
        decreases n - i,
    {
        let ghost before = crate::schema::pairs_view(out@);
        proof {
            let a = entries_view(entries@);
            assert(a.take(i as int + 1).drop_last() =~= a.take(i as int));
            assert(a.take(i as int + 1).last() == a[i as int]);
        }
        match &entries[i] {
            ListEntry::Mapping { started, finished } => {
                let both_missing = match (started, finished) {
                    (MapField::Missing, MapField::Missing) => true,
                    _ => false,
                };
                if !both_missing {
                    let d = DateRead { started: field_value(started), finished: field_value(finished) };
                    out.push(d);
                    proof {
                        assert(crate::schema::pairs_view(out@) =~= before.push(d@));
                    }
                }
            },
            _ => {},
        }
        i += 1;
    }
    proof {
        assert(entries_view(entries@).take(n as int) =~= entries_view(entries@));
    }
    out
}

/// The attribute that an item of kind `key` takes from its front-matter value.
fn coerce_value(key: &crate::schema::SchemaAttrKey, v: Option<&FrontValue>) -> (r: AttrValue)
    ensures
        r@ == coerce(key@, match v {
            Some(x) => Some(x@),
            None => None,
        }),
{
    match key {
        crate::schema::SchemaAttrKey::Text(_) => match v {
            Some(FrontValue::Text(s)) => AttrValue::Text(copy_text(s)),
            _ => AttrValue::default_text(),
        },
        crate::schema::SchemaAttrKey::Date(_) => match v {
            Some(FrontValue::Text(s)) => AttrValue::Date(copy_text(s)),
            _ => AttrValue::default_date(),
        },
        crate::schema::SchemaAttrKey::Image(_) => match v {
            Some(FrontValue::Text(s)) => AttrValue::Image(copy_text(s)),
            _ => AttrValue::default_image(),
        },
        crate::schema::SchemaAttrKey::Number(settings) => {
            let frac = match settings.decimal_places {
                Some(d) => d > 0,
                None => false,
            };
            match v {
                Some(FrontValue::Number { text, integral }) => if frac || *integral {
                    AttrValue::Number(copy_text(text))
                } else {
                    AttrValue::default_number()
                },
                _ => AttrValue::default_number(),
            }
        },
        crate::schema::SchemaAttrKey::TextCollection(_) => match v {
            Some(FrontValue::List(e)) => AttrValue::TextCollection(texts_of(e)),
            _ => AttrValue::default_text_collection(),
        },
        crate::schema::SchemaAttrKey::DateCollection(_) => match v {
            Some(FrontValue::List(e)) => AttrValue::DateCollection(texts_of(e)),
            _ => AttrValue::default_date_collection(),
        },
        crate::schema::SchemaAttrKey::DatesPairCollection(_) => match v {
            Some(FrontValue::List(e)) => AttrValue::DatesPairCollection(pairs_of(e)),
            _ => AttrValue::default_dates_pair_collection(),
        },
    }
}

/// One attribute per schema item, taken from the parsed front matter:
/// the value where its type fits the item's, the type's default otherwise.
pub fn coerce_metadata(fields: &Vec<(String, FrontValue)>, schema: &Schema) -> (r: Vec<(String, AttrValue)>)
    ensures
        attrs_view(r@) == coerce_all(schema@.items, fields_view(fields@)),
{
    let mut out: Vec<(String, AttrValue)> = Vec::new();
    let n = schema.items.len();
    let mut i: usize = 0;
    while i < n
        invariant
            n == schema.items@.len(),
            i <= n,
            attrs_view(out@) == coerce_all(schema@.items, fields_view(fields@)).take(i as int),
        decreases n - i,
    {
        let ghost before = attrs_view(out@);
        let item = &schema.items[i];
        let v = coerce_value(&item.value, lookup_field(fields, item.name.as_str()));
        out.push((item.name.clone(), v));
        proof {
            assert(schema@.items[i as int] == item@);
            assert(attrs_view(out@) =~= before.push((item@.name, v@)));
            assert(attrs_view(out@) =~= coerce_all(schema@.items, fields_view(fields@)).take(
                i as int + 1,
            ));
        }
        i += 1;
    }
    proof {
        assert(coerce_all(schema@.items, fields_view(fields@)).take(n as int) =~= coerce_all(
            schema@.items,
            fields_view(fields@),
        ));
    }
    out
}

/// The attributes of front matter that could not be parsed: every item at
/// its type's default.
pub open spec fn default_attrs(items: Seq<ItemSpec>) -> Seq<(Seq<char>, Attr)> {
    Seq::new(items.len(), |i: int| (items[i].name, coerce(items[i].kind, None)))
}

/// The error attached to a document whose front matter could not be parsed.
pub fn parsing_error(raw: &str) -> (r: ErrorFromRust)
    ensures
        r.title@ == "Parsing error"@,
        opt_view(r.info) == Some("Metadata might be lost on save"@),
        opt_view(r.raw_error) == Some(raw@),
{
    ErrorFromRust::new("Parsing error").info("Metadata might be lost on save").raw(raw)
}

/// Coerces parsed front matter to the schema, or reports why it could not be
/// parsed.
pub fn parse_metadata(parsed: &Result<Vec<(String, FrontValue)>, String>, schema: &Schema) -> (r: Result<Vec<(String, AttrValue)>, ErrorFromRust>)
    ensures
        match parsed {
            Ok(fields) => r matches Ok(a) && attrs_view(a@) == coerce_all(schema@.items, fields_view(fields@)),
            Err(msg) => r matches Err(e) && e.title@ == "Parsing error"@ && opt_view(e.raw_error) == Some(msg@),
        },
{
    match parsed {
        Ok(fields) => Ok(coerce_metadata(fields, schema)),
        Err(msg) => Err(parsing_error(msg.as_str())),
    }
}


/// A document read from disk, with the schema that governs it and the
/// parsing error of its front matter, if any.
#[derive(Debug)]
pub struct BookReadResult {
    pub book: BookFromDb,
    pub parsing_error: Option<ErrorFromRust>,
    pub schema: Schema,
}

/// The result of reading the document at `path`, from its modification time,
/// its split content and its parsed front matter. Front matter that could
/// not be parsed leaves every item at its type's default and is reported
/// beside the document, which is still returned.
pub fn book_read_result(
    path: &str,
    modified: String,
    content: FileContent,
    read_mode: FileReadMode,
    parsed: &Result<Vec<(String, FrontValue)>, String>,
    schema: Schema,
) -> (r: BookReadResult)
    ensures
        r.book@.path == Some(path@),
        r.book@.modified == Some(modified@),
        r.book@.markdown == if read_mode == FileReadMode::FullFile {
            Some(content.content@)
        } else {
            None::<Seq<char>>
        },
        r.schema == schema,
        match parsed {
            Ok(fields) => r.parsing_error is None && r.book@.attrs == coerce_all(
                schema@.items,
                fields_view(fields@),
            ),
            Err(msg) => r.parsing_error matches Some(e) && e.title@ == "Parsing error"@
                && opt_view(e.raw_error) == Some(msg@) && r.book@.attrs == default_attrs(
                schema@.items,
            ),
        },
{
    let markdown = match read_mode {
        FileReadMode::OnlyMeta => None,
        FileReadMode::FullFile => Some(content.content),
    };
    let (attrs, parsing_error) = match parse_metadata(parsed, &schema) {
        Ok(a) => (a, None),
        Err(e) => {
            let none: Vec<(String, FrontValue)> = Vec::new();
            let a = coerce_metadata(&none, &schema);
            proof {
                assert(coerce_all(schema@.items, fields_view(none@)) =~= default_attrs(schema@.items));
            }
            (a, Some(e))
        },
    };
    let book = BookFromDb { path: Some(String::from_str(path)), modified: Some(modified), markdown, attrs };
    BookReadResult { book, parsing_error, schema }
}

/// Path and modification time of a document just written.
#[derive(Clone, Debug)]
pub struct BookSaveResult {
    pub path: String,
    pub modified: String,
}

/// Decides whether a document may be written over the file on disk, whose
/// modification time is `on_disk` (or why it could not be read). Unless the
/// write is forced, a document that carries the modification time it was
/// read with is refused when the file changed since. Returns the path to
/// write to.
pub fn check_save(book: &BookFromDb, forced: bool, on_disk: &Result<String, String>) -> (r: Result<String, ErrorFromRust>)
    ensures
        book.path is None ==> (r matches Err(e) && e.title@ == "No path in book"@),
        book.path matches Some(p) ==> {
            if !forced && book.modified is Some {
                match on_disk {
                    Err(msg) => r matches Err(e) && e.title@ == "Unable to get modified date from file on disk"@
                        && e.action_code == Some(ErrorActionCode::FileSaveRetryForced)
                        && opt_view(e.raw_error) == Some(msg@),
                    Ok(t) => if t@ == book.modified.unwrap()@ {
                        r matches Ok(q) && q@ == p@
                    } else {
                        r matches Err(e) && e.title@ == "File was modified by something else"@
                            && e.action_code == Some(ErrorActionCode::FileSaveRetryForced)
                    },
                }
            } else {
                r matches Ok(q) && q@ == p@
            }
        },
{
    let path = match &book.path {
        Some(p) => p,
        None => {
            return Err(
                ErrorFromRust::new("No path in book").info(
                    "This is likely a frontend bug. Copy unsaved content and restart the app",
                ),
            );
        },
    };
    if !forced {
        match &book.modified {
            Some(v) => match on_disk {
                Err(msg) => {
                    return Err(
                        ErrorFromRust::new("Unable to get modified date from file on disk").info(
                            "Retry only if you are sure there is no important data in file on disk",
                        ).action_c(ErrorActionCode::FileSaveRetryForced, "Save anyway").raw(
                            msg.as_str(),
                        ),
                    );
                },
                Ok(t) => {
                    if !str_eq(t.as_str(), v.as_str()) {
                        return Err(
                            ErrorFromRust::new("File was modified by something else").action_c(
                                ErrorActionCode::FileSaveRetryForced,
                                "Overwrite",
                            ),
                        );
                    }
                },
            },
            None => {},
        }
    }
    Ok(path.clone())
}

/// The text of a document file: the front matter between two marker lines,
/// then the body.
pub open spec fn framed(yaml: Seq<char>, markdown: Option<Seq<char>>) -> Seq<char> {
    "---\n"@ + yaml + "---\n"@ + match markdown {
        Some(m) => m,
        None => Seq::empty(),
    }
}

/// Frames serialized front matter and the body into a document file.
pub fn frame_document(yaml: &str, markdown: &Option<String>) -> (r: String)
    ensures
        r@ == framed(yaml@, opt_view(*markdown)),
{
    let mut s = String::new();
    s.append("---\n");
    s.append(yaml);
    s.append("---\n");
    match markdown {
        Some(m) => s.append(m.as_str()),
        None => {},
    }
    proof {
        assert(s@ =~= framed(yaml@, opt_view(*markdown)));
    }
    s
}

/// The result of a write, from the file's modification time read after it.
pub fn save_result(path: String, modified_after: Result<String, String>) -> (r: Result<BookSaveResult, ErrorFromRust>)
    ensures
        match modified_after {
            Ok(t) => r matches Ok(s) && s.path == path && s.modified == t,
            Err(msg) => r matches Err(e) && e.title@ == "Error getting update file modification date"@
                && opt_view(e.raw_error) == Some(msg@),
        },
{
    match modified_after {
        Ok(t) => Ok(BookSaveResult { path, modified: t }),
        Err(msg) => Err(
            ErrorFromRust::new("Error getting update file modification date").info(
                "File should be saved. Expect to get a warning next time you save this file",
            ).raw(msg.as_str()),
        ),
    }
}

} // verus!
