use metacache::files::{
    book_read_result, check_save, coerce_metadata, frame_document, parse_metadata, save_result,
    split_front_matter, FileContent, FileReadMode, FrontValue, ListEntry, MapField,
};
use metacache::document::BookFromDb;
use metacache::error::ErrorActionCode;
use metacache::schema::{
    AttrValue, DateRead, EmptySettings, NumberSettings, Schema, SchemaAttrKey, SchemaItem,
    TextCollectionSettings, TextSettings,
};

fn schema_with_all_types() -> Schema {
    Schema {
        name: "test".to_owned(),
        version: "1".to_owned(),
        icon: None,
        internal_name: "aa".to_owned(),
        internal_path: "user".to_owned(),
        items: vec![
            SchemaItem { name: "title".to_owned(), value: SchemaAttrKey::Text(TextSettings::default()) },
            SchemaItem { name: "year".to_owned(), value: SchemaAttrKey::Number(NumberSettings::default()) },
            SchemaItem {
                name: "myRating".to_owned(),
                value: SchemaAttrKey::Number(NumberSettings { decimal_places: Some(2), ..NumberSettings::default() }),
            },
            SchemaItem { name: "read".to_owned(), value: SchemaAttrKey::DatesPairCollection(EmptySettings {}) },
            SchemaItem {
                name: "tags".to_owned(),
                value: SchemaAttrKey::TextCollection(TextCollectionSettings {
                    prefix: Some("#".to_owned()),
                    ..TextCollectionSettings::default()
                }),
            },
        ],
    }
}

fn text(s: &str) -> FrontValue {
    FrontValue::Text(s.to_string())
}

fn number(s: &str, integral: bool) -> FrontValue {
    FrontValue::Number { text: s.to_string(), integral }
}

fn pair(started: MapField, finished: MapField) -> ListEntry {
    ListEntry::Mapping { started, finished }
}

fn field(s: &str) -> MapField {
    MapField::Text(s.to_string())
}

fn all_defaults() -> Vec<(String, AttrValue)> {
    vec![
        ("title".into(), AttrValue::Text(String::new())),
        ("year".into(), AttrValue::Number("0".into())),
        ("myRating".into(), AttrValue::Number("0".into())),
        ("read".into(), AttrValue::DatesPairCollection(vec![])),
        ("tags".into(), AttrValue::TextCollection(vec![])),
    ]
}

const METADATA_CORRECT: &str = "title: some guy
year: 2024
myRating: 2.5
read:
  - started: s1
    finished: f1
  - started: s2
  - finished: f3
tags:
  - tag1
  - tag2
";

const METADATA_WRONG_TYPES_1: &str = "title: 2024
year: hello
myRating: 
    - tag1
read: 444.444
tags:
  - started: s1
    finished: f1
  - started: s2
  - finished: f3
";

const METADATA_WRONG_TYPES_2: &str = "title: 2024
year: hello
myRating: 'pososi'
read: 444.444
tags: 555
";

fn map_field(v: Option<&serde_yml::Value>) -> MapField {
    match v {
        None => MapField::Missing,
        Some(serde_yml::Value::String(s)) => MapField::Text(s.clone()),
        Some(_) => MapField::Other,
    }
}

fn list_entry(v: &serde_yml::Value) -> ListEntry {
    match v {
        serde_yml::Value::String(s) => ListEntry::Text(s.clone()),
        serde_yml::Value::Mapping(m) => pair(map_field(m.get("started")), map_field(m.get("finished"))),
        _ => ListEntry::Other,
    }
}

fn front_value(v: &serde_yml::Value) -> FrontValue {
    match v {
        serde_yml::Value::String(s) => FrontValue::Text(s.clone()),
        serde_yml::Value::Number(n) => FrontValue::Number { text: n.to_string(), integral: n.as_i64().is_some() },
        serde_yml::Value::Sequence(items) => FrontValue::List(items.iter().map(list_entry).collect()),
        _ => FrontValue::Other,
    }
}

fn parse_yaml(text: &str) -> Result<Vec<(String, FrontValue)>, String> {
    if text.trim().is_empty() {
        return Ok(vec![]);
    }
    serde_yml::from_str::<serde_yml::Mapping>(text)
        .map(|m| m.iter().map(|(k, v)| (k.clone(), front_value(v))).collect())
        .map_err(|e| e.to_string())
}

fn by_name(mut v: Vec<(String, AttrValue)>) -> Vec<(String, AttrValue)> {
    v.sort_by(|a, b| a.0.cmp(&b.0));
    v
}

#[test]
fn all_correct() {
    let schema_with_all_types = schema_with_all_types();
    let all_correct = parse_metadata(&parse_yaml(METADATA_CORRECT), &schema_with_all_types);
    let all_correct_expected: Vec<(String, AttrValue)> = vec![
        ("title".into(), AttrValue::Text("some guy".into())),
        ("year".into(), AttrValue::Number("2024".into())),
        ("myRating".into(), AttrValue::Number("2.5".into())),
        (
            "read".into(),
            AttrValue::DatesPairCollection(vec![
                DateRead { started: Some("s1".into()), finished: Some("f1".into()) },
                DateRead { started: Some("s2".into()), finished: None },
                DateRead { started: None, finished: Some("f3".into()) },
            ]),
        ),
        ("tags".into(), AttrValue::TextCollection(vec!["tag1".into(), "tag2".into()])),
    ];
    assert!(all_correct.is_ok(), "All correct parse is ok");
    assert_eq!(by_name(all_correct.unwrap()), by_name(all_correct_expected), "All correct parse is as expected");
}

#[test]
fn all_none() {
    let schema_with_all_types = schema_with_all_types();
    let all_none = parse_metadata(&parse_yaml(""), &schema_with_all_types);
    assert!(all_none.is_ok(), "All none parse is ok");
    assert_eq!(by_name(all_none.unwrap()), by_name(all_defaults()), "All none parse is as expected");
}

#[test]
fn wrong_types_() {
    let schema_with_all_types = schema_with_all_types();
    let first_wrong = parse_metadata(&parse_yaml(METADATA_WRONG_TYPES_1), &schema_with_all_types);
    let second_wrong = parse_metadata(&parse_yaml(METADATA_WRONG_TYPES_2), &schema_with_all_types);
    assert!(first_wrong.is_ok(), "First wrong parse is ok");
    assert_eq!(by_name(first_wrong.unwrap()), by_name(all_defaults()), "First wrong parse is as expected");
    assert!(second_wrong.is_ok(), "Second wrong parse is ok");
    assert_eq!(by_name(second_wrong.unwrap()), by_name(all_defaults()), "Second wrong parse is as expected");
}

#[test]
fn hand_built_fields_coerce_like_parsed_ones() {
    let fields = vec![
        ("title".to_string(), text("some guy")),
        ("year".to_string(), number("2024", true)),
        ("tags".to_string(), FrontValue::List(vec![ListEntry::Text("tag1".into()), ListEntry::Other])),
    ];
    let got = coerce_metadata(&fields, &schema_with_all_types());
    assert_eq!(got[0], ("title".to_string(), AttrValue::Text("some guy".into())));
    assert_eq!(got[1], ("year".to_string(), AttrValue::Number("2024".into())));
    assert_eq!(got[4], ("tags".to_string(), AttrValue::TextCollection(vec!["tag1".into()])));
}

#[test]
fn unparsable_yaml_is_reported() {
    let r = parse_metadata(&parse_yaml("title: [unclosed"), &schema_with_all_types());
    let e = r.unwrap_err();
    assert_eq!(e.title, "Parsing error");
    assert_eq!(e.info, Some("Metadata might be lost on save".to_string()));
}

#[test]
fn fraction_without_decimal_places_is_not_a_whole_number() {
    let got = coerce_metadata(&vec![("year".to_string(), number("19.5", false))], &schema_with_all_types());
    assert_eq!(got[1], ("year".to_string(), AttrValue::Number("0".into())));
}

#[test]
fn unparsable_front_matter_keeps_the_document() {
    let content = FileContent { front_matter: "title: [".to_string(), content: "body\n".to_string() };
    let r = book_read_result(
        "/lib/broken.md",
        "2024-01-01T00:00:00+00:00".to_string(),
        content,
        FileReadMode::OnlyMeta,
        &Err("did not find expected node content".to_string()),
        schema_with_all_types(),
    );
    assert_eq!(r.book.path, Some("/lib/broken.md".to_string()));
    assert_eq!(r.book.attrs, all_defaults());
    assert_eq!(r.book.markdown, None);
    let e = r.parsing_error.expect("a parsing error is attached");
    assert_eq!(e.title, "Parsing error");
    assert_eq!(e.raw_error, Some("did not find expected node content".to_string()));
}

#[test]
fn read_result_full_file_keeps_body() {
    let content = FileContent { front_matter: String::new(), content: "body\n".to_string() };
    let r = book_read_result("/p.md", "t".to_string(), content, FileReadMode::FullFile, &Ok(vec![]), schema_with_all_types());
    assert!(r.parsing_error.is_none());
    assert_eq!(r.book.markdown, Some("body\n".to_string()));
}

fn lines(v: &[&str]) -> Vec<String> {
    v.iter().map(|s| s.to_string()).collect()
}

#[test]
fn front_matter_is_split_from_body() {
    let l = lines(&["ignored", "---", "title: a", "year: 1", " --- ", "body 1", "---", "body 2"]);
    let full = split_front_matter(&l, FileReadMode::FullFile);
    assert_eq!(full.front_matter, "title: a\nyear: 1\n");
    assert_eq!(full.content, "body 1\n---\nbody 2\n");
    let meta = split_front_matter(&l, FileReadMode::OnlyMeta);
    assert_eq!(meta.front_matter, "title: a\nyear: 1\n");
    assert_eq!(meta.content, "");
}

#[test]
fn file_without_front_matter_has_empty_parts() {
    let full = split_front_matter(&lines(&["just text", "more"]), FileReadMode::FullFile);
    assert_eq!(full.front_matter, "");
    assert_eq!(full.content, "");
}

fn book(modified: Option<&str>) -> BookFromDb {
    BookFromDb { path: Some("/p.md".into()), modified: modified.map(|s| s.to_string()), markdown: None, attrs: vec![] }
}

#[test]
fn save_refuses_a_file_changed_on_disk() {
    let e = check_save(&book(Some("t1")), false, &Ok("t2".to_string())).unwrap_err();
    assert_eq!(e.title, "File was modified by something else");
    assert_eq!(e.action_code, Some(ErrorActionCode::FileSaveRetryForced));
    assert_eq!(check_save(&book(Some("t1")), true, &Ok("t2".to_string())).unwrap(), "/p.md");
    assert_eq!(check_save(&book(Some("t1")), false, &Ok("t1".to_string())).unwrap(), "/p.md");
    assert_eq!(check_save(&book(None), false, &Err("gone".to_string())).unwrap(), "/p.md");
}

#[test]
fn save_reports_unreadable_time_and_missing_path() {
    let e = check_save(&book(Some("t1")), false, &Err("denied".to_string())).unwrap_err();
    assert_eq!(e.title, "Unable to get modified date from file on disk");
    assert_eq!(e.raw_error, Some("denied".to_string()));
    let mut b = book(None);
    b.path = None;
    assert_eq!(check_save(&b, true, &Ok("t".into())).unwrap_err().title, "No path in book");
}

#[test]
fn document_is_framed_with_markers() {
    assert_eq!(frame_document("title: a\n", &Some("body".to_string())), "---\ntitle: a\n---\nbody");
    assert_eq!(frame_document("", &None), "---\n---\n");
}

#[test]
fn save_result_carries_new_time_or_error() {
    let ok = save_result("/p.md".into(), Ok("t9".into())).unwrap();
    assert_eq!((ok.path.as_str(), ok.modified.as_str()), ("/p.md", "t9"));
    let e = save_result("/p.md".into(), Err("x".into())).unwrap_err();
    assert_eq!(e.title, "Error getting update file modification date");
}
