use metacache::cache::file_name;
use metacache::defaults::{default_book_schema, default_movie_schema, get_default_schemas};
use metacache::error::{batch_error, ErrorActionCode, ErrorFromRust};
use metacache::registry::{prepare_schema_for_save, str_starts_with, SchemaRegistry};
use metacache::schema::{
    has_unique_names, EmptySettings, NumberSettings, Schema, SchemaAttrKey, SchemaItem,
    TextCollectionSettings, TextSettings,
};
use metacache::tables::{get_table_names, schema_ddl, DdlStatement};
use metacache::text::{join_strings, split_str};

fn schema(internal: &str, items: Vec<SchemaItem>) -> Schema {
    Schema {
        name: internal.to_string(),
        version: "0".to_string(),
        icon: None,
        items,
        internal_path: format!("/root/{}", internal),
        internal_name: internal.to_string(),
    }
}

fn item(name: &str, value: SchemaAttrKey) -> SchemaItem {
    SchemaItem { name: name.to_string(), value }
}

#[test]
fn table_names_use_the_internal_name_as_prefix() {
    let t = get_table_names("books".to_string());
    assert_eq!(t.table_prefix, "books_");
    assert_eq!(t.files_table, "books_files");
    assert_eq!(t.folders_table, "books_folders");
}

#[test]
fn ddl_has_one_files_table_and_one_side_table_per_collection() {
    let s = schema(
        "lib",
        vec![
            item("title", SchemaAttrKey::Text(TextSettings::default())),
            item("year", SchemaAttrKey::Number(NumberSettings::default())),
            item("tags", SchemaAttrKey::TextCollection(TextCollectionSettings::default())),
            item("read", SchemaAttrKey::DatesPairCollection(EmptySettings {})),
            item("cover", SchemaAttrKey::Image(EmptySettings {})),
        ],
    );
    let sql: Vec<String> = schema_ddl(&s).iter().map(|d| d.to_sql()).collect();
    assert_eq!(
        sql,
        vec![
            "DROP TABLE IF EXISTS lib_folders;".to_string(),
            "CREATE TABLE lib_folders (path TEXT PRIMARY KEY, name TEXT);".to_string(),
            "DROP TABLE IF EXISTS lib_tags;".to_string(),
            "DROP TABLE IF EXISTS lib_read;".to_string(),
            "DROP TABLE IF EXISTS lib_files;".to_string(),
            "CREATE TABLE lib_files (path TEXT PRIMARY KEY, modified TEXT, title TEXT, year REAL, cover TEXT);".to_string(),
            "CREATE TABLE lib_tags (id INTEGER PRIMARY KEY, ind INTEGER, path TEXT, value TEXT, UNIQUE(ind, path), FOREIGN KEY (path) REFERENCES lib_files (path) ON DELETE CASCADE);".to_string(),
            "CREATE TABLE lib_read (id INTEGER PRIMARY KEY, ind INTEGER, path TEXT, started TEXT, finished TEXT, UNIQUE(ind, path), FOREIGN KEY (path) REFERENCES lib_files (path) ON DELETE CASCADE);".to_string(),
        ]
    );
    let creates_files = schema_ddl(&s).iter().filter(|d| matches!(d, DdlStatement::CreateFiles { .. })).count();
    assert_eq!(creates_files, 1);
}

#[test]
fn schema_without_items_has_no_tables() {
    assert!(schema_ddl(&schema("empty", vec![])).is_empty());
}

#[test]
fn split_and_join_are_inverse_without_delimiters() {
    let parts = vec!["a".to_string(), "".to_string(), "ccc".to_string()];
    let joined = join_strings(&parts, ",");
    assert_eq!(joined, "a,,ccc");
    assert_eq!(split_str(&joined, ','), parts);
    assert_eq!(split_str("", ','), vec!["".to_string()]);
    assert_eq!(split_str("a,b,c", '|'), vec!["a,b,c".to_string()]);
}

#[test]
fn delimiter_inside_a_value_splits_it() {
    let parts = vec!["a,b".to_string()];
    assert_eq!(split_str(&join_strings(&parts, ","), ','), vec!["a".to_string(), "b".to_string()]);
}

#[test]
fn registry_resolves_the_longest_prefix() {
    let mut r = SchemaRegistry::new();
    r.insert("/root".to_string(), schema("root", vec![]));
    r.insert("/root/books".to_string(), schema("books", vec![item("t", SchemaAttrKey::Text(TextSettings::default()))]));
    assert_eq!(r.get_schema_cached("/root/books/a.md").unwrap().internal_name, "books");
    assert_eq!(r.get_schema_cached("/root/other/a.md").unwrap().internal_name, "root");
    assert!(r.get_schema_cached("/elsewhere/a.md").is_none());
    let e = r.get_schema_cached_safe("/elsewhere/a.md").unwrap_err();
    assert_eq!(e.title, "Unable to retrieve schema");
    assert_eq!(r.get_schema_path("/root/books/x"), Some("/root/books".to_string()));
    let all = r.get_all_schemas_cached();
    assert_eq!(all.len(), 1);
    assert_eq!(all[0].internal_name, "books");
}

#[test]
fn registry_reload_replaces_the_entry() {
    let mut r = SchemaRegistry::new();
    r.load_schema("/root/books", schema("x", vec![])).unwrap();
    r.load_schema("/root/books", schema("y", vec![])).unwrap();
    assert_eq!(r.loaded().len(), 1);
    let s = r.get_schema_cached("/root/books/a.md").unwrap();
    assert_eq!(s.internal_name, "books");
    assert_eq!(s.internal_path, "/root/books");
    assert_eq!(s.name, "y");
}

#[test]
fn saving_stamps_version_and_refuses_duplicate_names() {
    let ok = prepare_schema_for_save(schema("a", vec![item("t", SchemaAttrKey::Text(TextSettings::default()))])).unwrap();
    assert_eq!(ok.version, "1.0");
    let dup = schema(
        "a",
        vec![item("t", SchemaAttrKey::Text(TextSettings::default())), item("t", SchemaAttrKey::Date(EmptySettings {}))],
    );
    assert!(!has_unique_names(&dup.items));
    assert!(prepare_schema_for_save(dup).is_err());
}

#[test]
fn prefix_test_on_text() {
    assert!(str_starts_with("/a/b", "/a"));
    assert!(str_starts_with("/a", ""));
    assert!(!str_starts_with("/a", "/a/b"));
    assert!(!str_starts_with("/ab", "/b"));
}

#[test]
fn default_schemas_are_offered() {
    let d = get_default_schemas();
    assert_eq!(d.iter().map(|s| s.name.as_str()).collect::<Vec<_>>(), vec!["Empty", "Books", "Movies"]);
    assert_eq!(default_book_schema().len(), 8);
    assert_eq!(default_movie_schema()[2].name, "premiere");
    assert!(matches!(default_book_schema()[3].value, SchemaAttrKey::Number(ref n) if n.decimal_places == Some(1)));
}

#[test]
fn error_builder_sets_each_field() {
    let e = ErrorFromRust::new("t")
        .info("i")
        .raw("r")
        .action_c(ErrorActionCode::FileReadRetry, "Retry")
        .sub(ErrorFromRust::new("s1"));
    assert!(e.is_error);
    assert_eq!(e.title, "t");
    assert_eq!(e.info, Some("i".to_string()));
    assert_eq!(e.raw_error, Some("r".to_string()));
    assert_eq!(e.action_code, Some(ErrorActionCode::FileReadRetry));
    assert_eq!(e.action_label, Some("Retry".to_string()));
    assert_eq!(e.sub_errors.len(), 1);
    let e = e.subs(vec![]);
    assert!(e.sub_errors.is_empty());
}

#[test]
fn batch_errors_are_aggregated() {
    assert!(batch_error("b", vec![]).is_none());
    let e = batch_error("b", vec![ErrorFromRust::new("x"), ErrorFromRust::new("y")]).unwrap();
    assert_eq!(e.title, "b");
    assert_eq!(e.sub_errors.iter().map(|s| s.title.as_str()).collect::<Vec<_>>(), vec!["x", "y"]);
}

#[test]
fn folder_name_is_the_last_path_component() {
    assert_eq!(file_name("/lib/sub"), Some("sub".to_string()));
    assert_eq!(file_name("/lib/sub/"), Some("sub".to_string()));
    assert_eq!(file_name("books"), Some("books".to_string()));
    assert_eq!(file_name("/"), None);
}
