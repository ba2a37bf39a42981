use metacache::cache::{cache_folder, insert_file, remove_file_from_cache, remove_folder_ops, CacheOp};
use metacache::document::BookFromDb;
use metacache::query::{decode_row, get_all_folders, get_all_tags, get_files_by_path, get_files_by_tag};
use metacache::schema::{
    AttrValue, DateRead, EmptySettings, NumberSettings, Schema, SchemaAttrKey, SchemaItem,
    TextCollectionSettings, TextSettings,
};
use metacache::sql::{SqlValue, Statement};
use metacache::tables::{get_table_names, schema_ddl};
use sqlx::sqlite::SqliteRow;
use sqlx::{Connection, Row, SqliteConnection, TypeInfo, ValueRef};

fn runtime() -> tokio::runtime::Runtime {
    tokio::runtime::Builder::new_current_thread().build().unwrap()
}

fn library_schema() -> Schema {
    Schema {
        name: "Library".to_string(),
        version: "1.0".to_string(),
        icon: None,
        items: vec![
            SchemaItem { name: "title".to_string(), value: SchemaAttrKey::Text(TextSettings::default()) },
            SchemaItem {
                name: "year".to_string(),
                value: SchemaAttrKey::Number(NumberSettings { decimal_places: Some(0), ..NumberSettings::default() }),
            },
            SchemaItem {
                name: "tags".to_string(),
                value: SchemaAttrKey::TextCollection(TextCollectionSettings::default()),
            },
            SchemaItem { name: "read".to_string(), value: SchemaAttrKey::DatesPairCollection(EmptySettings {}) },
        ],
        internal_path: "/lib".to_string(),
        internal_name: "lib".to_string(),
    }
}

fn dune(tags: Vec<&str>) -> BookFromDb {
    BookFromDb {
        path: Some("/lib/a.md".to_string()),
        modified: Some("2024-01-01T00:00:00+00:00".to_string()),
        markdown: None,
        attrs: vec![
            ("title".to_string(), AttrValue::Text("Dune".to_string())),
            ("year".to_string(), AttrValue::Number("1965".to_string())),
            ("tags".to_string(), AttrValue::TextCollection(tags.into_iter().map(|t| t.to_string()).collect())),
            (
                "read".to_string(),
                AttrValue::DatesPairCollection(vec![DateRead {
                    started: Some("2020-01-01".to_string()),
                    finished: Some("2020-01-10".to_string()),
                }]),
            ),
        ],
    }
}

async fn run(conn: &mut SqliteConnection, st: &Statement) {
    let mut q = sqlx::query(&st.sql);
    for p in &st.params {
        q = match p {
            SqlValue::Text(s) => q.bind(s.clone()),
            SqlValue::Int(n) => q.bind(*n as i64),
            SqlValue::Null => q.bind(None::<String>),
        };
    }
    q.execute(&mut *conn).await.unwrap();
}

async fn run_ops(conn: &mut SqliteConnection, schema: &Schema, ops: &[CacheOp]) {
    let names = get_table_names(schema.internal_name.clone());
    for op in ops {
        run(conn, &op.to_statement(&names)).await;
    }
}

fn cell(row: &SqliteRow, i: usize) -> Option<String> {
    let raw = row.try_get_raw(i).unwrap();
    if raw.is_null() {
        return None;
    }
    let kind = raw.type_info().name().to_string();
    match kind.as_str() {
        "REAL" => Some(row.get::<f64, _>(i).to_string()),
        "INTEGER" => Some(row.get::<i64, _>(i).to_string()),
        _ => Some(row.get::<String, _>(i)),
    }
}

async fn setup(schema: &Schema) -> SqliteConnection {
    let mut conn = SqliteConnection::connect("sqlite::memory:").await.unwrap();
    sqlx::query("PRAGMA foreign_keys = ON").execute(&mut conn).await.unwrap();
    for d in schema_ddl(schema) {
        sqlx::query(&d.to_sql()).execute(&mut conn).await.unwrap();
    }
    conn
}

async fn query_docs(conn: &mut SqliteConnection, schema: &Schema, text: &str) -> Vec<BookFromDb> {
    fetch_docs(conn, schema, get_files_by_path(schema, text)).await
}

async fn fetch_docs(conn: &mut SqliteConnection, schema: &Schema, st: Statement) -> Vec<BookFromDb> {
    let mut q = sqlx::query(&st.sql);
    for p in &st.params {
        if let SqlValue::Text(s) = p {
            q = q.bind(s.clone());
        }
    }
    let rows = q.fetch_all(&mut *conn).await.unwrap();
    rows.iter()
        .map(|r| {
            let cells: Vec<Option<String>> = (0..r.len()).map(|i| cell(r, i)).collect();
            decode_row(schema, &cells).unwrap()
        })
        .collect()
}

async fn count(conn: &mut SqliteConnection, sql: &str) -> i64 {
    sqlx::query(sql).fetch_one(&mut *conn).await.unwrap().get::<i64, _>(0)
}

#[test]
fn query_returns_ordered_collections() {
    runtime().block_on(async {
        let schema = library_schema();
        let mut conn = setup(&schema).await;
        run_ops(&mut conn, &schema, &insert_file(&schema, &dune(vec!["scifi", "classic"]))).await;
        let docs = query_docs(&mut conn, &schema, "a.md").await;
        assert_eq!(docs.len(), 1);
        let d = &docs[0];
        assert_eq!(d.path, Some("/lib/a.md".to_string()));
        assert_eq!(d.get("tags"), Some(&AttrValue::TextCollection(vec!["scifi".to_string(), "classic".to_string()])));
        assert_eq!(
            d.get("read"),
            Some(&AttrValue::DatesPairCollection(vec![DateRead {
                started: Some("2020-01-01".to_string()),
                finished: Some("2020-01-10".to_string()),
            }]))
        );
        assert_eq!(d.get("title"), Some(&AttrValue::Text("Dune".to_string())));
        assert_eq!(d.get("year"), Some(&AttrValue::Number("1965".to_string())));
    });
}

#[test]
fn reupsert_with_fewer_tags_shrinks_side_table() {
    runtime().block_on(async {
        let schema = library_schema();
        let mut conn = setup(&schema).await;
        run_ops(&mut conn, &schema, &insert_file(&schema, &dune(vec!["scifi", "classic"]))).await;
        run_ops(&mut conn, &schema, &insert_file(&schema, &dune(vec!["scifi"]))).await;
        let docs = query_docs(&mut conn, &schema, "a.md").await;
        assert_eq!(docs[0].get("tags"), Some(&AttrValue::TextCollection(vec!["scifi".to_string()])));
        assert_eq!(count(&mut conn, "SELECT COUNT(*) FROM lib_tags WHERE path = '/lib/a.md'").await, 1);
    });
}

#[test]
fn upsert_twice_matches_upsert_once() {
    runtime().block_on(async {
        let schema = library_schema();
        let mut conn = setup(&schema).await;
        let doc = dune(vec!["a", "b", "c"]);
        run_ops(&mut conn, &schema, &insert_file(&schema, &doc)).await;
        let once = query_docs(&mut conn, &schema, "/lib").await;
        let rows_once = count(&mut conn, "SELECT COUNT(*) FROM lib_tags").await;
        run_ops(&mut conn, &schema, &insert_file(&schema, &doc)).await;
        let twice = query_docs(&mut conn, &schema, "/lib").await;
        assert_eq!(once, twice);
        assert_eq!(rows_once, count(&mut conn, "SELECT COUNT(*) FROM lib_tags").await);
        assert_eq!(rows_once, 3);
    });
}

#[test]
fn shrinking_collection_keeps_prefix_rows() {
    runtime().block_on(async {
        let schema = library_schema();
        let mut conn = setup(&schema).await;
        run_ops(&mut conn, &schema, &insert_file(&schema, &dune(vec!["a", "b", "c", "d"]))).await;
        run_ops(&mut conn, &schema, &insert_file(&schema, &dune(vec!["x", "y"]))).await;
        let rows = sqlx::query("SELECT ind, value FROM lib_tags WHERE path = '/lib/a.md' ORDER BY ind")
            .fetch_all(&mut conn)
            .await
            .unwrap();
        let got: Vec<(i64, String)> = rows.iter().map(|r| (r.get::<i64, _>(0), r.get::<String, _>(1))).collect();
        assert_eq!(got, vec![(0, "x".to_string()), (1, "y".to_string())]);
    });
}

#[test]
fn missing_and_mistyped_attributes_read_back_as_defaults() {
    runtime().block_on(async {
        let schema = library_schema();
        let mut conn = setup(&schema).await;
        let doc = BookFromDb {
            path: Some("/lib/empty.md".to_string()),
            modified: None,
            markdown: None,
            attrs: vec![("title".to_string(), AttrValue::TextCollection(vec!["x".to_string()]))],
        };
        run_ops(&mut conn, &schema, &insert_file(&schema, &doc)).await;
        let docs = query_docs(&mut conn, &schema, "empty").await;
        assert_eq!(docs.len(), 1);
        assert_eq!(docs[0].get("title"), Some(&AttrValue::Text(String::new())));
        assert_eq!(docs[0].get("year"), Some(&AttrValue::Number("0".to_string())));
        assert_eq!(docs[0].get("tags"), Some(&AttrValue::TextCollection(vec![])));
        assert_eq!(docs[0].get("read"), Some(&AttrValue::DatesPairCollection(vec![])));
    });
}

#[test]
fn removing_a_document_cascades_to_side_rows() {
    runtime().block_on(async {
        let schema = library_schema();
        let mut conn = setup(&schema).await;
        run_ops(&mut conn, &schema, &insert_file(&schema, &dune(vec!["a", "b"]))).await;
        run_ops(&mut conn, &schema, &[remove_file_from_cache("/lib/a.md")]).await;
        assert_eq!(count(&mut conn, "SELECT COUNT(*) FROM lib_files").await, 0);
        assert_eq!(count(&mut conn, "SELECT COUNT(*) FROM lib_tags").await, 0);
        assert_eq!(count(&mut conn, "SELECT COUNT(*) FROM lib_read").await, 0);
    });
}

#[test]
fn folder_removal_cascades_to_nested_documents_and_folders() {
    runtime().block_on(async {
        let schema = library_schema();
        let mut conn = setup(&schema).await;
        let mut inner = dune(vec!["a"]);
        inner.path = Some("/lib/sub/b.md".to_string());
        let mut deeper = dune(vec!["b"]);
        deeper.path = Some("/lib/sub/deep/c.md".to_string());
        let outside = dune(vec!["c"]);
        for d in [&inner, &deeper, &outside] {
            run_ops(&mut conn, &schema, &insert_file(&schema, d)).await;
        }
        run_ops(&mut conn, &schema, &[cache_folder("/lib/sub"), cache_folder("/lib/sub/deep"), cache_folder("/lib/other")]).await;
        run_ops(&mut conn, &schema, &remove_folder_ops("/lib/sub")).await;
        let docs = query_docs(&mut conn, &schema, "/lib").await;
        assert_eq!(docs.len(), 1);
        assert_eq!(docs[0].path, Some("/lib/a.md".to_string()));
        assert_eq!(count(&mut conn, "SELECT COUNT(*) FROM lib_tags").await, 1);
        let folders = sqlx::query(&get_all_folders(&schema)).fetch_all(&mut conn).await.unwrap();
        let paths: Vec<String> = folders.iter().map(|r| r.get::<String, _>(0)).collect();
        assert_eq!(paths, vec!["/lib/other".to_string()]);
    });
}

#[test]
fn folder_rows_hold_the_folder_name() {
    runtime().block_on(async {
        let schema = library_schema();
        let mut conn = setup(&schema).await;
        run_ops(&mut conn, &schema, &[cache_folder("/lib/sub")]).await;
        let name: String = sqlx::query("SELECT name FROM lib_folders WHERE path = '/lib/sub'")
            .fetch_one(&mut conn)
            .await
            .unwrap()
            .get(0);
        assert_eq!(name, "sub");
    });
}

#[test]
fn documents_are_found_by_tag_and_tags_are_listed() {
    runtime().block_on(async {
        let schema = library_schema();
        let mut conn = setup(&schema).await;
        run_ops(&mut conn, &schema, &insert_file(&schema, &dune(vec!["scifi", "classic"]))).await;
        let mut other = dune(vec!["poetry"]);
        other.path = Some("/lib/b.md".to_string());
        run_ops(&mut conn, &schema, &insert_file(&schema, &other)).await;
        let docs = fetch_docs(&mut conn, &schema, get_files_by_tag(&schema, "poetry")).await;
        assert_eq!(docs.len(), 1);
        assert_eq!(docs[0].path, Some("/lib/b.md".to_string()));
        let rows = sqlx::query(&get_all_tags(&schema)).fetch_all(&mut conn).await.unwrap();
        let mut tags: Vec<String> = rows.iter().map(|r| r.get::<String, _>(0)).collect();
        tags.sort();
        assert_eq!(tags, vec!["classic".to_string(), "poetry".to_string(), "scifi".to_string()]);
    });
}
