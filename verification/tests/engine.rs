use rusqlite::Connection;
use zotepad_sync::applier::apply_table_change;
use zotepad_sync::change::{FieldValue, Payload, SyncChange, SyncOp};
use zotepad_sync::error::SyncError;
use zotepad_sync::loader::{
    load_table_changes, load_table_metadata, max_version_all_tables, max_version_for_table,
    upgrade_zero_versions,
};
use zotepad_sync::registry::get_table_config;
use zotepad_sync::store::Store;

const SCHEMA: &str = "
CREATE TABLE notes (
  id INTEGER PRIMARY KEY AUTOINCREMENT,
  uuid TEXT UNIQUE,
  title TEXT,
  content TEXT,
  tags TEXT DEFAULT '[]',
  version INTEGER DEFAULT 0,
  deleted_at DATETIME,
  created_at DATETIME DEFAULT CURRENT_TIMESTAMP,
  updated_at DATETIME DEFAULT CURRENT_TIMESTAMP
);
CREATE TABLE moments (
  id INTEGER PRIMARY KEY AUTOINCREMENT,
  uuid TEXT UNIQUE,
  content TEXT,
  images TEXT DEFAULT '[]',
  tags TEXT DEFAULT '[]',
  version INTEGER DEFAULT 0,
  deleted_at DATETIME,
  created_at DATETIME DEFAULT CURRENT_TIMESTAMP,
  updated_at DATETIME DEFAULT CURRENT_TIMESTAMP
);
CREATE TABLE assets (
  id INTEGER PRIMARY KEY AUTOINCREMENT,
  uuid TEXT UNIQUE,
  url TEXT NOT NULL,
  path TEXT NOT NULL,
  filename TEXT NOT NULL,
  size INTEGER,
  mime_type TEXT,
  storage_type TEXT DEFAULT 'cos',
  version INTEGER DEFAULT 0,
  deleted_at DATETIME,
  updated_at DATETIME DEFAULT CURRENT_TIMESTAMP,
  created_at DATETIME DEFAULT CURRENT_TIMESTAMP
);
CREATE TABLE workflows (
  id INTEGER PRIMARY KEY AUTOINCREMENT,
  uuid TEXT UNIQUE,
  name TEXT NOT NULL,
  description TEXT,
  steps TEXT NOT NULL DEFAULT '[]',
  schema_id INTEGER,
  type TEXT DEFAULT 'user',
  version INTEGER DEFAULT 0,
  deleted_at DATETIME,
  created_at DATETIME DEFAULT CURRENT_TIMESTAMP,
  updated_at DATETIME DEFAULT CURRENT_TIMESTAMP
);
CREATE TABLE workflow_schemas (
  id INTEGER PRIMARY KEY AUTOINCREMENT,
  uuid TEXT UNIQUE,
  name TEXT NOT NULL,
  description TEXT,
  fields TEXT DEFAULT '[]',
  version INTEGER DEFAULT 0,
  deleted_at DATETIME,
  created_at DATETIME DEFAULT CURRENT_TIMESTAMP,
  updated_at DATETIME DEFAULT CURRENT_TIMESTAMP
);
";

fn empty_store() -> Store {
    let conn = Connection::open_in_memory().unwrap();
    conn.execute_batch(SCHEMA).unwrap();
    Store::new(conn)
}

fn text(s: &str) -> FieldValue {
    FieldValue::Text(s.to_string())
}

fn note(uuid: &str, title: &str, updated_at: &str) -> SyncChange {
    let mut data = Payload::new();
    data.insert("uuid".to_string(), text(uuid));
    data.insert("title".to_string(), text(title));
    data.insert("content".to_string(), text("x"));
    data.insert("tags".to_string(), text("[]"));
    SyncChange {
        table: "notes".to_string(),
        op: SyncOp::Upsert,
        data,
        version: 0,
        updated_at: updated_at.to_string(),
        deleted_at: None,
    }
}

fn tombstone(uuid: &str, updated_at: &str, deleted_at: Option<&str>) -> SyncChange {
    let mut data = Payload::new();
    data.insert("uuid".to_string(), text(uuid));
    SyncChange {
        table: "notes".to_string(),
        op: SyncOp::Delete,
        data,
        version: 0,
        updated_at: updated_at.to_string(),
        deleted_at: deleted_at.map(|s| s.to_string()),
    }
}

fn title_of(store: &Store, uuid: &str) -> Option<String> {
    store
        .connection()
        .query_row("SELECT title FROM notes WHERE uuid = ?1", [uuid], |row| row.get(0))
        .unwrap()
}

fn version_of(store: &Store, uuid: &str) -> i64 {
    store
        .connection()
        .query_row("SELECT version FROM notes WHERE uuid = ?1", [uuid], |row| row.get(0))
        .unwrap()
}

fn updated_at_of(store: &Store, uuid: &str) -> String {
    store
        .connection()
        .query_row("SELECT updated_at FROM notes WHERE uuid = ?1", [uuid], |row| row.get(0))
        .unwrap()
}

fn count_notes(store: &Store) -> i64 {
    store.connection().query_row("SELECT COUNT(*) FROM notes", [], |row| row.get(0)).unwrap()
}

#[test]
fn apply_writes_a_new_record_under_the_new_version() {
    let mut store = empty_store();
    let change = note("n1", "A", "2024-01-01T00:00:00Z");
    assert_eq!(apply_table_change(&mut store, "notes", &change, 7), Ok(true));
    assert_eq!(title_of(&store, "n1"), Some("A".to_string()));
    assert_eq!(version_of(&store, "n1"), 7);
    assert_eq!(updated_at_of(&store, "n1"), "2024-01-01T00:00:00Z");
    assert_eq!(max_version_for_table(&mut store, "notes"), 7);
    assert_eq!(max_version_all_tables(&mut store), 7);
}

#[test]
fn apply_is_idempotent() {
    let mut store = empty_store();
    let change = note("n1", "A", "2024-01-01T00:00:00Z");
    assert_eq!(apply_table_change(&mut store, "notes", &change, 1), Ok(true));
    assert_eq!(apply_table_change(&mut store, "notes", &change, 2), Ok(false));
    assert_eq!(version_of(&store, "n1"), 1);
    assert_eq!(updated_at_of(&store, "n1"), "2024-01-01T00:00:00Z");
    assert_eq!(count_notes(&store), 1);
}

#[test]
fn apply_skips_a_table_that_is_not_replicated() {
    let mut store = empty_store();
    let mut change = note("n1", "A", "2024-01-01T00:00:00Z");
    change.table = "users".to_string();
    assert_eq!(apply_table_change(&mut store, "users", &change, 1), Ok(false));
    assert_eq!(count_notes(&store), 0);
}

#[test]
fn apply_skips_a_change_without_a_key() {
    let mut store = empty_store();
    let mut data = Payload::new();
    data.insert("title".to_string(), text("A"));
    let missing = SyncChange {
        table: "notes".to_string(),
        op: SyncOp::Upsert,
        data,
        version: 0,
        updated_at: "2024-01-01T00:00:00Z".to_string(),
        deleted_at: None,
    };
    assert_eq!(apply_table_change(&mut store, "notes", &missing, 1), Ok(false));
    let empty = note("", "A", "2024-01-01T00:00:00Z");
    assert_eq!(apply_table_change(&mut store, "notes", &empty, 2), Ok(false));
    let mut data = Payload::new();
    data.insert("uuid".to_string(), FieldValue::Integer(5));
    let numeric = SyncChange {
        table: "notes".to_string(),
        op: SyncOp::Upsert,
        data,
        version: 0,
        updated_at: "2024-01-01T00:00:00Z".to_string(),
        deleted_at: None,
    };
    assert_eq!(apply_table_change(&mut store, "notes", &numeric, 3), Ok(false));
    assert_eq!(count_notes(&store), 0);
}

#[test]
fn local_record_wins_a_tie_and_a_later_local_write() {
    let mut store = empty_store();
    assert_eq!(
        apply_table_change(&mut store, "notes", &note("n1", "local", "2024-06-01T00:00:00Z"), 1),
        Ok(true)
    );
    assert_eq!(
        apply_table_change(&mut store, "notes", &note("n1", "tie", "2024-06-01T00:00:00Z"), 2),
        Ok(false)
    );
    assert_eq!(
        apply_table_change(&mut store, "notes", &note("n1", "older", "2024-01-01T00:00:00Z"), 3),
        Ok(false)
    );
    assert_eq!(title_of(&store, "n1"), Some("local".to_string()));
    assert_eq!(version_of(&store, "n1"), 1);
}

#[test]
fn last_writer_wins_in_either_order() {
    let early = note("n1", "first", "2024-01-01T00:00:00Z");
    let late = note("n1", "second", "2024-02-01T00:00:00Z");

    let mut forward = empty_store();
    assert_eq!(apply_table_change(&mut forward, "notes", &early, 1), Ok(true));
    assert_eq!(apply_table_change(&mut forward, "notes", &late, 2), Ok(true));
    assert_eq!(title_of(&forward, "n1"), Some("second".to_string()));
    assert_eq!(updated_at_of(&forward, "n1"), "2024-02-01T00:00:00Z");

    let mut backward = empty_store();
    assert_eq!(apply_table_change(&mut backward, "notes", &late, 1), Ok(true));
    assert_eq!(apply_table_change(&mut backward, "notes", &early, 2), Ok(false));
    assert_eq!(title_of(&backward, "n1"), Some("second".to_string()));
    assert_eq!(updated_at_of(&backward, "n1"), "2024-02-01T00:00:00Z");
}

#[test]
fn upsert_stores_numbers_nulls_and_json_text() {
    let mut store = empty_store();
    let mut data = Payload::new();
    data.insert("uuid".to_string(), text("a1"));
    data.insert("url".to_string(), text("http://x/1.png"));
    data.insert("path".to_string(), text("/1.png"));
    data.insert("filename".to_string(), text("1.png"));
    data.insert("size".to_string(), FieldValue::Integer(42));
    data.insert("mime_type".to_string(), FieldValue::Null);
    data.insert("storage_type".to_string(), FieldValue::Json("{\"kind\":\"cos\"}".to_string()));
    let change = SyncChange {
        table: "assets".to_string(),
        op: SyncOp::Upsert,
        data,
        version: 0,
        updated_at: "2024-01-01T00:00:00Z".to_string(),
        deleted_at: None,
    };
    assert_eq!(apply_table_change(&mut store, "assets", &change, 3), Ok(true));
    let (size, mime, storage): (i64, Option<String>, String) = store
        .connection()
        .query_row("SELECT size, mime_type, storage_type FROM assets WHERE uuid = 'a1'", [], |r| {
            Ok((r.get(0)?, r.get(1)?, r.get(2)?))
        })
        .unwrap();
    assert_eq!(size, 42);
    assert_eq!(mime, None);
    assert_eq!(storage, "{\"kind\":\"cos\"}");
}

#[test]
fn upsert_fills_missing_columns_with_defaults() {
    let mut store = empty_store();
    let mut data = Payload::new();
    data.insert("uuid".to_string(), text("n1"));
    let change = SyncChange {
        table: "notes".to_string(),
        op: SyncOp::Upsert,
        data,
        version: 0,
        updated_at: "2024-01-01T00:00:00Z".to_string(),
        deleted_at: None,
    };
    assert_eq!(apply_table_change(&mut store, "notes", &change, 1), Ok(true));
    let (title, content, tags): (String, String, String) = store
        .connection()
        .query_row("SELECT title, content, tags FROM notes WHERE uuid = 'n1'", [], |r| {
            Ok((r.get(0)?, r.get(1)?, r.get(2)?))
        })
        .unwrap();
    assert_eq!(title, "");
    assert_eq!(content, "");
    assert_eq!(tags, "[]");
}

#[test]
fn upsert_resurrects_a_tombstone() {
    let mut store = empty_store();
    let gone = tombstone("n1", "2024-01-01T00:00:00Z", Some("2024-01-01T00:00:00Z"));
    assert_eq!(apply_table_change(&mut store, "notes", &gone, 1), Ok(true));
    let back = note("n1", "again", "2024-02-01T00:00:00Z");
    assert_eq!(apply_table_change(&mut store, "notes", &back, 2), Ok(true));
    let deleted_at: Option<String> = store
        .connection()
        .query_row("SELECT deleted_at FROM notes WHERE uuid = 'n1'", [], |r| r.get(0))
        .unwrap();
    assert_eq!(deleted_at, None);
    assert_eq!(title_of(&store, "n1"), Some("again".to_string()));
}

#[test]
fn tombstone_stays_in_the_store_and_is_pulled_as_delete() {
    let mut store = empty_store();
    assert_eq!(
        apply_table_change(&mut store, "notes", &note("k", "A", "2024-01-01T00:00:00Z"), 1),
        Ok(true)
    );
    let gone = tombstone("k", "2024-03-01T00:00:00Z", Some("2024-03-01T00:00:00Z"));
    assert_eq!(apply_table_change(&mut store, "notes", &gone, 2), Ok(true));
    assert_eq!(count_notes(&store), 1);
    assert_eq!(title_of(&store, "k"), Some("".to_string()));
    let changes = load_table_changes(&mut store, "notes", 1, 100).unwrap();
    assert_eq!(changes.len(), 1);
    assert_eq!(changes[0].op, SyncOp::Delete);
    assert_eq!(changes[0].version, 2);
    assert_eq!(changes[0].deleted_at, Some("2024-03-01T00:00:00Z".to_string()));
    assert_eq!(changes[0].data.get("uuid"), Some(&text("k")));
    assert_eq!(changes[0].data.get("tags"), Some(&text("[]")));
}

#[test]
fn tombstone_without_a_time_is_stamped_with_the_clock() {
    let mut store = empty_store();
    let gone = tombstone("k", "2024-03-01T00:00:00Z", None);
    assert_eq!(apply_table_change(&mut store, "notes", &gone, 1), Ok(true));
    let deleted_at: Option<String> = store
        .connection()
        .query_row("SELECT deleted_at FROM notes WHERE uuid = 'k'", [], |r| r.get(0))
        .unwrap();
    let stamp = deleted_at.unwrap();
    assert!(stamp.len() >= 20);
    assert!(stamp.contains('T'));
}

#[test]
fn apply_reports_a_store_that_lacks_the_table() {
    let mut store = Store::new(Connection::open_in_memory().unwrap());
    let change = note("n1", "A", "2024-01-01T00:00:00Z");
    let outcome = apply_table_change(&mut store, "notes", &change, 1);
    assert!(matches!(outcome, Err(SyncError::Store(_))));
}

#[test]
fn apply_reports_a_local_record_without_a_time() {
    let mut store = empty_store();
    store
        .connection()
        .execute("INSERT INTO notes (uuid, title, updated_at) VALUES ('n1', 'A', NULL)", [])
        .unwrap();
    let change = note("n1", "B", "2024-01-01T00:00:00Z");
    assert_eq!(
        apply_table_change(&mut store, "notes", &change, 1),
        Err(SyncError::InvalidColumnType(0))
    );
    assert_eq!(title_of(&store, "n1"), Some("A".to_string()));
}

#[test]
fn load_returns_changes_in_ascending_order_of_version() {
    let mut store = empty_store();
    apply_table_change(&mut store, "notes", &note("c", "C", "2024-01-03T00:00:00Z"), 30).unwrap();
    apply_table_change(&mut store, "notes", &note("a", "A", "2024-01-01T00:00:00Z"), 10).unwrap();
    apply_table_change(&mut store, "notes", &note("b", "B", "2024-01-02T00:00:00Z"), 20).unwrap();
    let all = load_table_changes(&mut store, "notes", 0, 100).unwrap();
    let versions: Vec<i64> = all.iter().map(|c| c.version).collect();
    assert_eq!(versions, vec![10, 20, 30]);
    let later = load_table_changes(&mut store, "notes", 10, 100).unwrap();
    let versions: Vec<i64> = later.iter().map(|c| c.version).collect();
    assert_eq!(versions, vec![20, 30]);
    let first = load_table_changes(&mut store, "notes", 0, 2).unwrap();
    let versions: Vec<i64> = first.iter().map(|c| c.version).collect();
    assert_eq!(versions, vec![10, 20]);
    assert!(load_table_changes(&mut store, "notes", 30, 100).unwrap().is_empty());
    assert!(load_table_changes(&mut store, "notes", 0, 0).unwrap().is_empty());
}

#[test]
fn load_builds_the_payload_from_the_row() {
    let mut store = empty_store();
    let mut change = note("n1", "A", "2024-01-01T00:00:00Z");
    change.data.insert("tags".to_string(), text("[\"x\",\"y\"]"));
    apply_table_change(&mut store, "notes", &change, 1).unwrap();
    let changes = load_table_changes(&mut store, "notes", 0, 10).unwrap();
    assert_eq!(changes.len(), 1);
    let c = &changes[0];
    assert_eq!(c.table, "notes");
    assert_eq!(c.op, SyncOp::Upsert);
    assert_eq!(c.version, 1);
    assert_eq!(c.updated_at, "2024-01-01T00:00:00Z");
    assert_eq!(c.deleted_at, None);
    assert_eq!(c.data.get("uuid"), Some(&text("n1")));
    assert_eq!(c.data.get("title"), Some(&text("A")));
    assert_eq!(c.data.get("content"), Some(&text("x")));
    assert_eq!(c.data.get("tags"), Some(&text("[\"x\",\"y\"]")));
    assert_eq!(c.data.get("version"), Some(&FieldValue::Integer(1)));
    assert_eq!(c.data.get("updated_at"), Some(&text("2024-01-01T00:00:00Z")));
    assert_eq!(c.data.get("deleted_at"), Some(&FieldValue::Null));
    assert_eq!(c.data.get("created_at"), None);
}

#[test]
fn load_caps_a_page_at_a_thousand() {
    let mut store = empty_store();
    store
        .connection()
        .execute_batch(
            "WITH RECURSIVE n(i) AS (SELECT 1 UNION ALL SELECT i + 1 FROM n WHERE i < 1005)
             INSERT INTO notes (uuid, title, version, updated_at)
             SELECT 'u' || i, 't', i, '2024-01-01T00:00:00Z' FROM n;",
        )
        .unwrap();
    let page = load_table_changes(&mut store, "notes", 0, 5000).unwrap();
    assert_eq!(page.len(), 1000);
    assert_eq!(page[999].version, 1000);
}

#[test]
fn load_drops_rows_without_a_key() {
    let mut store = empty_store();
    store
        .connection()
        .execute_batch(
            "INSERT INTO notes (uuid, title, version, updated_at) VALUES (NULL, 'a', 1, 't1');
             INSERT INTO notes (uuid, title, version, updated_at) VALUES ('', 'b', 2, 't2');
             INSERT INTO notes (uuid, title, version, updated_at) VALUES ('n3', 'c', 3, 't3');",
        )
        .unwrap();
    let changes = load_table_changes(&mut store, "notes", 0, 10).unwrap();
    assert_eq!(changes.len(), 1);
    assert_eq!(changes[0].data.get("uuid"), Some(&text("n3")));
}

#[test]
fn load_of_a_table_that_is_not_replicated_is_empty() {
    let mut store = empty_store();
    assert_eq!(load_table_changes(&mut store, "users", 0, 10), Ok(Vec::new()));
    assert_eq!(load_table_metadata(&mut store, "users"), Ok(Vec::new()));
}

#[test]
fn load_reports_a_store_that_lacks_the_table() {
    let mut store = Store::new(Connection::open_in_memory().unwrap());
    assert!(matches!(load_table_changes(&mut store, "notes", 0, 10), Err(SyncError::Store(_))));
    assert!(matches!(load_table_metadata(&mut store, "notes"), Err(SyncError::Store(_))));
    assert_eq!(max_version_for_table(&mut store, "notes"), 0);
    assert_eq!(max_version_all_tables(&mut store), 0);
}

#[test]
fn backfill_gives_legacy_records_the_next_versions_oldest_first() {
    let mut store = empty_store();
    store
        .connection()
        .execute_batch(
            "INSERT INTO moments (uuid, content, version, updated_at) VALUES ('m1', 'x', 41, 't');
             INSERT INTO notes (uuid, title, version, created_at, updated_at)
               VALUES ('late', 'b', 0, '2024-01-02 00:00:00', 'old');
             INSERT INTO notes (uuid, title, version, created_at, updated_at)
               VALUES ('early', 'a', 0, '2024-01-01 00:00:00', 'old');
             INSERT INTO notes (uuid, title, version, created_at, updated_at)
               VALUES ('minus', 'c', -3, '2024-01-03 00:00:00', 'old');
             INSERT INTO notes (uuid, title, version, deleted_at, updated_at)
               VALUES ('dead', 'd', 0, '2024-01-01', 'old');",
        )
        .unwrap();
    let config = get_table_config("notes").unwrap();
    assert_eq!(upgrade_zero_versions(&mut store, "notes", &config), Ok(()));
    assert_eq!(version_of(&store, "early"), 42);
    assert_eq!(version_of(&store, "late"), 43);
    assert_eq!(version_of(&store, "minus"), 44);
    assert_eq!(version_of(&store, "dead"), 0);
    assert_ne!(updated_at_of(&store, "early"), "old");
    assert_eq!(updated_at_of(&store, "dead"), "old");
}

#[test]
fn backfill_is_idempotent() {
    let mut store = empty_store();
    store
        .connection()
        .execute_batch(
            "INSERT INTO notes (uuid, title, version, updated_at) VALUES ('a', 'a', 0, 'old');",
        )
        .unwrap();
    let config = get_table_config("notes").unwrap();
    assert_eq!(upgrade_zero_versions(&mut store, "notes", &config), Ok(()));
    let stamped = updated_at_of(&store, "a");
    assert_eq!(version_of(&store, "a"), 1);
    assert_eq!(upgrade_zero_versions(&mut store, "notes", &config), Ok(()));
    assert_eq!(version_of(&store, "a"), 1);
    assert_eq!(updated_at_of(&store, "a"), stamped);
}

#[test]
fn backfill_leaves_the_workflows_of_the_application_alone() {
    let mut store = empty_store();
    store
        .connection()
        .execute_batch(
            "INSERT INTO workflows (uuid, name, type, version) VALUES ('w1', 'mine', 'user', 0);
             INSERT INTO workflows (uuid, name, type, version) VALUES ('w2', 'sys', 'system:x', 0);
             INSERT INTO workflows (uuid, name, type, version) VALUES ('w3', 'none', NULL, 0);",
        )
        .unwrap();
    let changes = load_table_changes(&mut store, "workflows", 0, 10).unwrap();
    let keys: Vec<Option<&FieldValue>> = changes.iter().map(|c| c.data.get("uuid")).collect();
    assert_eq!(keys, vec![Some(&text("w1")), Some(&text("w3"))]);
}

#[test]
fn backfill_stops_when_no_version_is_left() {
    let mut store = empty_store();
    store
        .connection()
        .execute_batch(
            "INSERT INTO notes (uuid, title, version, updated_at)
               VALUES ('top', 'a', 9223372036854775807, 't');
             INSERT INTO notes (uuid, title, version, updated_at) VALUES ('old', 'b', 0, 't');",
        )
        .unwrap();
    let config = get_table_config("notes").unwrap();
    assert_eq!(
        upgrade_zero_versions(&mut store, "notes", &config),
        Err(SyncError::VersionOverflow)
    );
    assert_eq!(version_of(&store, "old"), 0);
}

#[test]
fn backfill_passes_over_a_waiting_record_without_a_key() {
    let mut store = empty_store();
    store
        .connection()
        .execute_batch(
            "INSERT INTO notes (uuid, title, version, created_at) VALUES (NULL, 'a', 0, '2024-01-01');
             INSERT INTO notes (uuid, title, version, created_at) VALUES ('', 'b', 0, '2024-01-02');
             INSERT INTO notes (uuid, title, version, created_at) VALUES ('k', 'c', 0, '2024-01-03');",
        )
        .unwrap();
    let config = get_table_config("notes").unwrap();
    assert_eq!(upgrade_zero_versions(&mut store, "notes", &config), Ok(()));
    assert_eq!(version_of(&store, "k"), 1);
    let waiting: i64 = store
        .connection()
        .query_row("SELECT COUNT(*) FROM notes WHERE version <= 0", [], |row| row.get(0))
        .unwrap();
    assert_eq!(waiting, 2);
}

#[test]
fn load_returns_the_page_beside_a_waiting_record_without_a_key() {
    let mut store = empty_store();
    store
        .connection()
        .execute_batch(
            "INSERT INTO notes (uuid, title, version, updated_at) VALUES (NULL, 'a', 0, 't');
             INSERT INTO notes (uuid, title, version, updated_at) VALUES ('n1', 'b', 4, 't');
             INSERT INTO notes (uuid, title, version, updated_at) VALUES ('n2', 'c', 0, 't');",
        )
        .unwrap();
    let changes = load_table_changes(&mut store, "notes", 0, 10).unwrap();
    let versions: Vec<i64> = changes.iter().map(|c| c.version).collect();
    assert_eq!(versions, vec![4, 5]);
    assert_eq!(changes[0].data.get("uuid"), Some(&text("n1")));
    assert_eq!(changes[1].data.get("uuid"), Some(&text("n2")));
    let all = load_table_changes(&mut store, "notes", -1, 10).unwrap();
    assert_eq!(all.len(), 2);
}

#[test]
fn load_makes_legacy_records_visible() {
    let mut store = empty_store();
    store
        .connection()
        .execute_batch(
            "INSERT INTO notes (uuid, title, version, updated_at) VALUES ('a', 'a', 0, 'old');",
        )
        .unwrap();
    let changes = load_table_changes(&mut store, "notes", 0, 10).unwrap();
    assert_eq!(changes.len(), 1);
    assert_eq!(changes[0].version, 1);
    assert_eq!(changes[0].data.get("uuid"), Some(&text("a")));
}

#[test]
fn metadata_lists_live_records_latest_first() {
    let mut store = empty_store();
    apply_table_change(&mut store, "notes", &note("a", "A", "2024-01-01T00:00:00Z"), 1).unwrap();
    apply_table_change(&mut store, "notes", &note("b", "B", "2024-01-02T00:00:00Z"), 2).unwrap();
    let gone = tombstone("c", "2024-01-03T00:00:00Z", Some("2024-01-03T00:00:00Z"));
    apply_table_change(&mut store, "notes", &gone, 3).unwrap();
    store
        .connection()
        .execute("INSERT INTO notes (uuid, title, version, updated_at) VALUES (NULL, 'x', 4, 'z')", [])
        .unwrap();
    let list = load_table_metadata(&mut store, "notes").unwrap();
    assert_eq!(list.len(), 2);
    assert_eq!(list[0].uuid, "b");
    assert_eq!(list[0].version, 2);
    assert_eq!(list[0].updated_at, "2024-01-02T00:00:00Z");
    assert_eq!(list[0].deleted_at, None);
    assert_eq!(list[1].uuid, "a");
}

#[test]
fn metadata_reports_a_record_without_a_version() {
    let mut store = empty_store();
    store
        .connection()
        .execute(
            "INSERT INTO notes (uuid, title, version, updated_at) VALUES ('a', 'x', NULL, 'z')",
            [],
        )
        .unwrap();
    assert_eq!(load_table_metadata(&mut store, "notes"), Err(SyncError::InvalidColumnType(1)));
    store = empty_store();
    store
        .connection()
        .execute(
            "INSERT INTO notes (uuid, title, version, updated_at) VALUES ('a', 'x', 'seven', 'z')",
            [],
        )
        .unwrap();
    assert_eq!(
        load_table_changes(&mut store, "notes", -1, 10),
        Err(SyncError::InvalidColumnType(7))
    );
}

#[test]
fn max_version_is_the_highest_of_all_tables() {
    let mut store = empty_store();
    assert_eq!(max_version_all_tables(&mut store), 0);
    store
        .connection()
        .execute_batch(
            "INSERT INTO notes (uuid, title, version) VALUES ('a', 'x', 5);
             INSERT INTO workflow_schemas (uuid, name, version) VALUES ('s', 'x', 9);
             INSERT INTO assets (uuid, url, path, filename, version) VALUES ('f', 'u', 'p', 'n', 7);",
        )
        .unwrap();
    assert_eq!(max_version_for_table(&mut store, "notes"), 5);
    assert_eq!(max_version_for_table(&mut store, "assets"), 7);
    assert_eq!(max_version_for_table(&mut store, "moments"), 0);
    assert_eq!(max_version_all_tables(&mut store), 9);
}

#[test]
fn store_hands_out_the_connection_it_was_made_from() {
    let conn = Connection::open_in_memory().unwrap();
    conn.execute_batch(SCHEMA).unwrap();
    conn.execute("INSERT INTO notes (uuid, title, version) VALUES ('mark', 'here', 3)", []).unwrap();
    let mut store = Store::new(conn);
    assert_eq!(title_of(&store, "mark"), Some("here".to_string()));
    assert_eq!(max_version_for_table(&mut store, "notes"), 3);
    let change = note("n1", "A", "2024-01-01T00:00:00Z");
    assert_eq!(apply_table_change(&mut store, "notes", &change, 4), Ok(true));
    assert_eq!(title_of(&store, "mark"), Some("here".to_string()));
    assert_eq!(title_of(&store, "n1"), Some("A".to_string()));
}

#[test]
fn cells_are_read_as_text_or_number_or_nothing() {
    let mut store = empty_store();
    store
        .connection()
        .execute_batch(
            "INSERT INTO assets (uuid, url, path, filename, size, mime_type, version, updated_at)
               VALUES ('a1', 'u', 'p', 'f', 42, NULL, 1, 't');
             INSERT INTO assets (uuid, url, path, filename, size, mime_type, version, updated_at)
               VALUES ('a2', 'u', 'p', 'f', 1.5, x'00ff', 2, 't');",
        )
        .unwrap();
    let changes = load_table_changes(&mut store, "assets", 0, 10).unwrap();
    assert_eq!(changes.len(), 2);
    assert_eq!(changes[0].data.get("url"), Some(&text("u")));
    assert_eq!(changes[0].data.get("size"), Some(&FieldValue::Integer(42)));
    assert_eq!(changes[0].data.get("mime_type"), Some(&FieldValue::Null));
    assert_eq!(changes[1].data.get("size"), Some(&FieldValue::Null));
    assert_eq!(changes[1].data.get("mime_type"), Some(&FieldValue::Null));
}

#[test]
fn backfill_numbers_above_the_highest_version_of_all_tables() {
    let mut store = empty_store();
    store
        .connection()
        .execute_batch(
            "INSERT INTO moments (uuid, content, version, updated_at) VALUES ('m', 'x', 7, 't');
             INSERT INTO notes (uuid, title, version, created_at, updated_at)
               VALUES ('a', 'a', 0, '2024-01-01 00:00:00', 'old');
             INSERT INTO notes (uuid, title, version, created_at, updated_at)
               VALUES ('b', 'b', 0, '2024-01-02 00:00:00', 'old');",
        )
        .unwrap();
    let config = get_table_config("notes").unwrap();
    assert_eq!(upgrade_zero_versions(&mut store, "notes", &config), Ok(()));
    assert_eq!(version_of(&store, "a"), 8);
    assert_eq!(version_of(&store, "b"), 9);
    assert_eq!(updated_at_of(&store, "a"), updated_at_of(&store, "b"));
    let m: i64 = store
        .connection()
        .query_row("SELECT version FROM moments WHERE uuid = 'm'", [], |row| row.get(0))
        .unwrap();
    assert_eq!(m, 7);
    assert_eq!(max_version_all_tables(&mut store), 9);
}

#[test]
fn max_version_is_zero_for_a_table_that_does_not_exist() {
    let mut store = empty_store();
    store
        .connection()
        .execute_batch(
            "INSERT INTO notes (uuid, title, version) VALUES ('x', 'x', -3);
             INSERT INTO notes (uuid, title, version) VALUES ('y', 'y', 0);
             INSERT INTO assets (uuid, url, path, filename, version) VALUES ('f', 'u', 'p', 'n', 2);
             INSERT INTO assets (uuid, url, path, filename, version) VALUES ('g', 'u', 'p', 'n', 5);
             INSERT INTO assets (uuid, url, path, filename, version) VALUES ('h', 'u', 'p', 'n', -1);",
        )
        .unwrap();
    assert_eq!(max_version_for_table(&mut store, "notes"), 0);
    assert_eq!(max_version_for_table(&mut store, "assets"), 5);
    assert_eq!(max_version_for_table(&mut store, "no_such_table"), 0);
}

#[test]
fn backfill_stops_at_the_statement_that_the_store_refuses() {
    let mut store = empty_store();
    store
        .connection()
        .execute_batch(
            "INSERT INTO notes (uuid, title, version, created_at, updated_at)
               VALUES ('a', 'a', 0, '2024-01-01 00:00:00', 'old');
             INSERT INTO notes (uuid, title, version, created_at, updated_at)
               VALUES ('b', 'b', 0, '2024-01-02 00:00:00', 'old');
             CREATE TRIGGER refuse_b BEFORE UPDATE ON notes WHEN old.uuid = 'b'
               BEGIN SELECT RAISE(ABORT, 'refused'); END;",
        )
        .unwrap();
    let config = get_table_config("notes").unwrap();
    let outcome = upgrade_zero_versions(&mut store, "notes", &config);
    assert!(matches!(outcome, Err(SyncError::Store(_))));
    assert_eq!(version_of(&store, "a"), 1);
    assert_eq!(version_of(&store, "b"), 0);
}
