use rusqlite::Connection;
use zotepad_sync::change::{FieldValue, Payload, SyncChange, SyncOp};
use zotepad_sync::error::SyncError;
use zotepad_sync::protocol::{
    check_auth, next_version, sync_pull, sync_push, sync_state, PullQuery, PushRequest,
    PushResponse, StepOutcome,
};
use zotepad_sync::store::Store;
use zotepad_sync::version::VersionCounter;

const NOTES: &str = "
CREATE TABLE notes (
  id INTEGER PRIMARY KEY AUTOINCREMENT,
  uuid TEXT UNIQUE,
  title TEXT,
  content TEXT,
  tags TEXT DEFAULT '[]',
  version INTEGER DEFAULT 0,
  deleted_at DATETIME,
  created_at DATETIME DEFAULT CURRENT_TIMESTAMP,
  updated_at DATETIME DEFAULT CURRENT_TIMESTAMP
);
CREATE TABLE moments (
  id INTEGER PRIMARY KEY AUTOINCREMENT,
  uuid TEXT UNIQUE,
  content TEXT,
  images TEXT DEFAULT '[]',
  tags TEXT DEFAULT '[]',
  version INTEGER DEFAULT 0,
  deleted_at DATETIME,
  created_at DATETIME DEFAULT CURRENT_TIMESTAMP,
  updated_at DATETIME DEFAULT CURRENT_TIMESTAMP
);
";

fn notes_store() -> Store {
    let conn = Connection::open_in_memory().unwrap();
    conn.execute_batch(NOTES).unwrap();
    Store::new(conn)
}

fn change(table: &str, uuid: &str, title: &str, updated_at: &str) -> SyncChange {
    let mut data = Payload::new();
    data.insert("uuid".to_string(), FieldValue::Text(uuid.to_string()));
    data.insert("title".to_string(), FieldValue::Text(title.to_string()));
    data.insert("content".to_string(), FieldValue::Text("x".to_string()));
    data.insert("tags".to_string(), FieldValue::Text("[]".to_string()));
    SyncChange {
        table: table.to_string(),
        op: SyncOp::Upsert,
        data,
        version: 0,
        updated_at: updated_at.to_string(),
        deleted_at: None,
    }
}

fn push(changes: Vec<SyncChange>, client_version: Option<i64>) -> PushRequest {
    PushRequest { table: None, changes, client_version }
}

fn pull(since_version: i64, limit: usize) -> PullQuery {
    PullQuery {
        table: Some("notes".to_string()),
        since_version: Some(since_version),
        limit: Some(limit),
    }
}

fn count_notes(store: &Store) -> i64 {
    store.connection().query_row("SELECT COUNT(*) FROM notes", [], |row| row.get(0)).unwrap()
}

#[test]
fn auth_accepts_the_bare_token_and_the_bearer_form() {
    assert!(check_auth(Some("secret"), "secret"));
    assert!(check_auth(Some("Bearer secret"), "secret"));
}

#[test]
fn auth_rejects_anything_else() {
    assert!(!check_auth(None, "secret"));
    assert!(!check_auth(Some(""), "secret"));
    assert!(!check_auth(Some("secre"), "secret"));
    assert!(!check_auth(Some("secret2"), "secret"));
    assert!(!check_auth(Some("bearer secret"), "secret"));
    assert!(!check_auth(Some("Bearer  secret"), "secret"));
    assert!(!check_auth(Some("Bearer"), "secret"));
    assert!(!check_auth(Some("Bearer secret"), "Bearer secret2"));
}

#[test]
fn push_then_pull_then_stale_push() {
    let mut store = notes_store();
    let mut counter = VersionCounter::new(0);

    let first = push(vec![change("notes", "n1", "A", "2024-01-01T00:00:00Z")], Some(0));
    let answer = sync_push(&mut store, &mut counter, &first).response;
    assert_eq!(answer, PushResponse { applied: 1, server_version: 1, conflict: false });
    assert_eq!(answer.notification(), Some(1));
    assert_eq!(answer.message(), None);

    let page = sync_pull(&mut store, &mut counter, &pull(0, 500)).unwrap();
    assert_eq!(page.changes.len(), 1);
    assert_eq!(page.changes[0].version, 1);
    assert_eq!(page.changes[0].data.get("uuid"), Some(&FieldValue::Text("n1".to_string())));
    assert_eq!(page.next_version, None);
    assert_eq!(page.server_version, 1);

    let earlier = push(vec![change("notes", "n1", "B", "2023-12-31T00:00:00Z")], Some(1));
    let answer = sync_push(&mut store, &mut counter, &earlier).response;
    assert_eq!(answer.applied, 0);
    assert!(!answer.conflict);
    assert_eq!(answer.notification(), None);
    let title: String = store
        .connection()
        .query_row("SELECT title FROM notes WHERE uuid = 'n1'", [], |row| row.get(0))
        .unwrap();
    assert_eq!(title, "A");
    let version: i64 = store
        .connection()
        .query_row("SELECT version FROM notes WHERE uuid = 'n1'", [], |row| row.get(0))
        .unwrap();
    assert_eq!(version, 1);
}

#[test]
fn push_from_a_sender_that_is_behind_is_a_conflict() {
    let mut store = notes_store();
    let mut counter = VersionCounter::new(5);
    let request = push(vec![change("notes", "n1", "A", "2024-01-01T00:00:00Z")], Some(4));
    let answer = sync_push(&mut store, &mut counter, &request).response;
    assert_eq!(answer, PushResponse { applied: 0, server_version: 5, conflict: true });
    assert_eq!(answer.message(), Some("conflict: please pull first".to_string()));
    assert_eq!(answer.notification(), None);
    assert_eq!(counter.current_version(), 5);
    assert_eq!(count_notes(&store), 0);
}

#[test]
fn push_without_a_client_version_counts_as_version_zero() {
    let mut store = notes_store();
    let mut counter = VersionCounter::new(1);
    let request = push(vec![change("notes", "n1", "A", "2024-01-01T00:00:00Z")], None);
    assert!(sync_push(&mut store, &mut counter, &request).response.conflict);
    let mut fresh = VersionCounter::new(0);
    assert!(!sync_push(&mut store, &mut fresh, &request).response.conflict);
}

#[test]
fn push_gives_each_change_its_own_version() {
    let mut store = notes_store();
    let mut counter = VersionCounter::new(10);
    let request = push(
        vec![
            change("notes", "a", "A", "2024-01-01T00:00:00Z"),
            change("users", "u", "U", "2024-01-01T00:00:00Z"),
            change("notes", "a", "stale", "2023-01-01T00:00:00Z"),
            change("moments", "m", "M", "2024-01-01T00:00:00Z"),
        ],
        Some(10),
    );
    let answer = sync_push(&mut store, &mut counter, &request).response;
    assert_eq!(answer, PushResponse { applied: 2, server_version: 13, conflict: false });
    assert_eq!(counter.current_version(), 13);
    let a: i64 = store
        .connection()
        .query_row("SELECT version FROM notes WHERE uuid = 'a'", [], |row| row.get(0))
        .unwrap();
    let m: i64 = store
        .connection()
        .query_row("SELECT version FROM moments WHERE uuid = 'm'", [], |row| row.get(0))
        .unwrap();
    assert_eq!(a, 11);
    assert_eq!(m, 13);
}

#[test]
fn push_to_one_table_passes_over_the_changes_of_others() {
    let mut store = notes_store();
    let mut counter = VersionCounter::new(0);
    let request = PushRequest {
        table: Some("moments".to_string()),
        changes: vec![
            change("notes", "a", "A", "2024-01-01T00:00:00Z"),
            change("moments", "m", "M", "2024-01-01T00:00:00Z"),
        ],
        client_version: Some(0),
    };
    let answer = sync_push(&mut store, &mut counter, &request).response;
    assert_eq!(answer, PushResponse { applied: 1, server_version: 1, conflict: false });
    assert_eq!(count_notes(&store), 0);
}

#[test]
fn push_goes_on_after_a_change_that_fails() {
    let mut store = notes_store();
    let mut counter = VersionCounter::new(0);
    let request = push(
        vec![
            change("assets", "f", "F", "2024-01-01T00:00:00Z"),
            change("notes", "a", "A", "2024-01-01T00:00:00Z"),
        ],
        Some(0),
    );
    let answer = sync_push(&mut store, &mut counter, &request).response;
    assert_eq!(answer, PushResponse { applied: 1, server_version: 2, conflict: false });
    assert_eq!(count_notes(&store), 1);
}

#[test]
fn push_stops_allocating_at_the_last_version() {
    let mut store = notes_store();
    let mut counter = VersionCounter::new(i64::MAX);
    let request = push(vec![change("notes", "a", "A", "2024-01-01T00:00:00Z")], Some(i64::MAX));
    let answer = sync_push(&mut store, &mut counter, &request).response;
    assert_eq!(answer, PushResponse { applied: 0, server_version: i64::MAX, conflict: false });
    assert_eq!(count_notes(&store), 0);
}

#[test]
fn pull_pages_ascend_and_pass_over_the_version_that_is_the_token() {
    let mut store = notes_store();
    let mut counter = VersionCounter::new(0);
    let request = push(
        vec![
            change("notes", "a", "A", "2024-01-01T00:00:00Z"),
            change("notes", "b", "B", "2024-01-01T00:00:00Z"),
            change("notes", "c", "C", "2024-01-01T00:00:00Z"),
            change("notes", "d", "D", "2024-01-01T00:00:00Z"),
            change("notes", "e", "E", "2024-01-01T00:00:00Z"),
        ],
        Some(0),
    );
    assert_eq!(sync_push(&mut store, &mut counter, &request).response.applied, 5);

    let mut seen: Vec<i64> = Vec::new();
    let mut since = 0;
    loop {
        let page = sync_pull(&mut store, &mut counter, &pull(since, 2)).unwrap();
        assert!(page.changes.len() <= 2);
        assert_eq!(page.server_version, 5);
        for c in page.changes.iter() {
            assert!(c.version > since);
            if let Some(last) = seen.last() {
                assert!(c.version > *last);
            }
            seen.push(c.version);
        }
        match page.next_version {
            Some(next) => {
                assert_eq!(page.changes.len(), 2);
                assert_eq!(next, seen[seen.len() - 1] + 1);
                since = next;
            }
            None => break,
        }
    }
    assert_eq!(seen, vec![1, 2, 4, 5]);
}

#[test]
fn pull_defaults_to_notes_from_the_start() {
    let mut store = notes_store();
    let mut counter = VersionCounter::new(0);
    let request = push(vec![change("notes", "a", "A", "2024-01-01T00:00:00Z")], Some(0));
    sync_push(&mut store, &mut counter, &request).response;
    let query = PullQuery { table: None, since_version: None, limit: None };
    let page = sync_pull(&mut store, &mut counter, &query).unwrap();
    assert_eq!(page.changes.len(), 1);
    assert_eq!(page.changes[0].table, "notes");
    assert_eq!(page.next_version, None);
}

#[test]
fn pull_of_a_table_that_is_not_replicated_is_empty() {
    let mut store = notes_store();
    let mut counter = VersionCounter::new(3);
    let query = PullQuery { table: Some("users".to_string()), since_version: None, limit: None };
    let page = sync_pull(&mut store, &mut counter, &query).unwrap();
    assert!(page.changes.is_empty());
    assert_eq!(page.next_version, None);
    assert_eq!(page.server_version, 3);
}

#[test]
fn pull_reports_a_failing_store_and_leaves_the_counter() {
    let mut store = notes_store();
    let mut counter = VersionCounter::new(3);
    let query = PullQuery { table: Some("assets".to_string()), since_version: None, limit: None };
    let outcome = sync_pull(&mut store, &mut counter, &query);
    assert!(matches!(outcome, Err(SyncError::Store(_))));
    assert_eq!(counter.current_version(), 3);
}

#[test]
fn pull_raises_the_counter_to_the_store() {
    let mut store = notes_store();
    store
        .connection()
        .execute("INSERT INTO notes (uuid, title, version) VALUES ('a', 'x', 9)", [])
        .unwrap();
    let mut counter = VersionCounter::new(3);
    let page = sync_pull(&mut store, &mut counter, &pull(0, 10)).unwrap();
    assert_eq!(page.server_version, 9);
    assert_eq!(counter.current_version(), 9);
}

#[test]
fn state_reports_the_counter_raised_to_the_store() {
    let mut store = notes_store();
    store
        .connection()
        .execute("INSERT INTO notes (uuid, title, version) VALUES ('a', 'x', 9)", [])
        .unwrap();
    let mut counter = VersionCounter::new(3);
    let state = sync_state(&mut store, &mut counter, "1.2.3");
    assert_eq!(state.version, 9);
    assert_eq!(state.server_version, "1.2.3");
    assert!(state.paired);
    let mut ahead = VersionCounter::new(20);
    assert_eq!(sync_state(&mut store, &mut ahead, "1.2.3").version, 20);
    assert_eq!(ahead.current_version(), 20);
}

#[test]
fn next_version_is_set_for_a_full_page_only() {
    let a = change("notes", "a", "A", "t");
    let mut b = change("notes", "b", "B", "t");
    b.version = 41;
    let page = vec![a, b];
    assert_eq!(next_version(&page, 2), Some(42));
    assert_eq!(next_version(&page, 1), Some(42));
    assert_eq!(next_version(&page, 3), None);
    assert_eq!(next_version(&Vec::new(), 0), None);
    let mut top = change("notes", "c", "C", "t");
    top.version = i64::MAX;
    assert_eq!(next_version(&vec![top], 1), None);
}

#[test]
fn counter_allocates_one_by_one_and_never_goes_back() {
    let mut counter = VersionCounter::new(7);
    assert_eq!(counter.current_version(), 7);
    assert!(counter.has_next());
    assert_eq!(counter.allocate(), 8);
    assert_eq!(counter.allocate(), 9);
    counter.advance_to(4);
    assert_eq!(counter.current_version(), 9);
    counter.advance_to(12);
    assert_eq!(counter.current_version(), 12);
    counter.advance_to(i64::MAX);
    assert!(!counter.has_next());
}

#[test]
fn push_counts_the_one_change_that_is_written() {
    let mut store = notes_store();
    let mut counter = VersionCounter::new(0);
    let mut keyless = change("notes", "gone", "no key", "2024-01-01T00:00:00Z");
    keyless.data = Payload::new();
    keyless.data.insert("title".to_string(), FieldValue::Text("no key".to_string()));
    let request = push(
        vec![
            change("users", "u1", "U", "2024-01-01T00:00:00Z"),
            keyless,
            change("notes", "n1", "A", "2024-01-01T00:00:00Z"),
        ],
        Some(0),
    );
    let answer = sync_push(&mut store, &mut counter, &request).response;
    assert_eq!(answer.applied, 1);
    assert!(!answer.conflict);
    assert_eq!(answer.notification(), Some(1));
    assert_eq!(count_notes(&store), 1);
    let (title, version): (String, i64) = store
        .connection()
        .query_row("SELECT title, version FROM notes WHERE uuid = 'n1'", [], |row| {
            Ok((row.get(0)?, row.get(1)?))
        })
        .unwrap();
    assert_eq!(title, "A");
    assert_eq!(version, 2);
    assert_eq!(answer.server_version, 2);
}

#[test]
fn push_does_not_count_a_change_that_the_store_refuses() {
    let mut store = notes_store();
    store
        .connection()
        .execute_batch(
            "CREATE TRIGGER refuse_bad BEFORE INSERT ON notes WHEN new.uuid = 'bad'
               BEGIN SELECT RAISE(ABORT, 'refused'); END;",
        )
        .unwrap();
    let mut counter = VersionCounter::new(0);
    let request = push(
        vec![
            change("notes", "bad", "B", "2024-01-01T00:00:00Z"),
            change("notes", "good", "G", "2024-01-01T00:00:00Z"),
        ],
        Some(0),
    );
    let answer = sync_push(&mut store, &mut counter, &request).response;
    assert_eq!(answer.applied, 1);
    assert_eq!(answer.notification(), Some(1));
    assert_eq!(count_notes(&store), 1);
}

#[test]
fn push_reports_what_became_of_each_change() {
    let mut store = notes_store();
    store
        .connection()
        .execute_batch(
            "CREATE TRIGGER refuse_bad BEFORE INSERT ON notes WHEN new.uuid = 'bad'
               BEGIN SELECT RAISE(ABORT, 'refused'); END;",
        )
        .unwrap();
    let mut counter = VersionCounter::new(0);
    let mut keyless = change("notes", "gone", "no key", "2024-01-01T00:00:00Z");
    keyless.data = Payload::new();
    let request = push(
        vec![
            change("users", "u1", "U", "2024-01-01T00:00:00Z"),
            keyless,
            change("notes", "n1", "A", "2024-01-01T00:00:00Z"),
            change("notes", "n1", "stale", "2023-01-01T00:00:00Z"),
            change("notes", "bad", "B", "2024-01-01T00:00:00Z"),
        ],
        Some(0),
    );
    let report = sync_push(&mut store, &mut counter, &request);
    assert_eq!(report.response.applied, 1);
    assert_eq!(report.outcomes.len(), 5);
    assert_eq!(report.outcomes[0], StepOutcome::NotReplicated);
    assert_eq!(report.outcomes[1], StepOutcome::NotWritten);
    assert_eq!(report.outcomes[2], StepOutcome::Written);
    assert_eq!(report.outcomes[3], StepOutcome::NotWritten);
    assert!(matches!(report.outcomes[4], StepOutcome::Failed(SyncError::Store(_))));
}

#[test]
fn push_reports_changes_of_other_tables_and_changes_without_a_version() {
    let mut store = notes_store();
    let mut counter = VersionCounter::new(i64::MAX);
    let request = PushRequest {
        table: Some("moments".to_string()),
        changes: vec![
            change("notes", "a", "A", "2024-01-01T00:00:00Z"),
            change("moments", "m", "M", "2024-01-01T00:00:00Z"),
        ],
        client_version: Some(i64::MAX),
    };
    let report = sync_push(&mut store, &mut counter, &request);
    assert_eq!(report.outcomes, vec![StepOutcome::OtherTable, StepOutcome::NoVersion]);
    assert_eq!(report.response.applied, 0);
    let behind = push(vec![change("notes", "a", "A", "2024-01-01T00:00:00Z")], Some(3));
    let report = sync_push(&mut store, &mut counter, &behind);
    assert!(report.response.conflict);
    assert!(report.outcomes.is_empty());
}
